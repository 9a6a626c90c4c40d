use beni::width::{read_float_width, read_integer_width, width_refusal, 
    argnum_count, checked_len, configured_mrb_float32, configured_mrb_int64, saturate,
    saturate_len, width_metadata, IntWidth, FLOAT_WIDTH_METADATA, INTEGER_WIDTH_METADATA,
};

#[test]
fn a_64_bit_width_is_read_from_the_metadata() {
    assert!(configured_mrb_int64(Some("true")));
}

#[test]
fn a_32_bit_width_is_read_from_the_metadata() {
    assert!(!configured_mrb_int64(Some("false")));
}

#[test]
fn a_32_bit_float_width_is_read_from_the_metadata() {
    assert!(configured_mrb_float32(Some("true")));
}

#[test]
fn a_64_bit_float_width_is_read_from_the_metadata() {
    assert!(!configured_mrb_float32(Some("false")));
}

#[test]
fn metadata_other_than_true_or_false_names_no_width() {
    assert_eq!(width_metadata(None), None);
    assert_eq!(width_metadata(Some("64")), None);
    assert_eq!(width_metadata(Some("")), None);
    assert_eq!(width_metadata(Some("TRUE")), None);
    assert_eq!(width_metadata(Some("true ")), None);
    assert_eq!(width_metadata(Some("true")), Some(true));
    assert_eq!(width_metadata(Some("false")), Some(false));
}

#[test]
fn the_metadata_variables_are_named() {
    assert_eq!(INTEGER_WIDTH_METADATA, "DEP_MRUBY_DEFINES_MRB_INT64");
    assert_eq!(FLOAT_WIDTH_METADATA, "DEP_MRUBY_DEFINES_MRB_FLOAT32");
}

#[test]
fn a_width_is_named_by_its_flag() {
    assert_eq!(IntWidth::from_int64(true), IntWidth::Bits64);
    assert_eq!(IntWidth::from_int64(false), IntWidth::Bits32);
    assert_eq!(IntWidth::Bits32.max(), i32::MAX as i64);
    assert_eq!(IntWidth::Bits32.min(), i32::MIN as i64);
    assert_eq!(IntWidth::Bits64.max(), i64::MAX);
    assert_eq!(IntWidth::Bits64.min(), i64::MIN);
}

#[test]
fn saturation_keeps_what_the_width_holds_and_clamps_the_rest() {
    assert_eq!(saturate(5, IntWidth::Bits32), 5);
    assert_eq!(saturate(-5, IntWidth::Bits32), -5);
    assert_eq!(saturate(1 << 40, IntWidth::Bits32), i32::MAX as i64);
    assert_eq!(saturate(-(1 << 40), IntWidth::Bits32), i32::MIN as i64);
    assert_eq!(saturate(1 << 40, IntWidth::Bits64), 1 << 40);
    assert_eq!(saturate(i64::MIN, IntWidth::Bits64), i64::MIN);
}

#[test]
fn lengths_saturate_upward_or_are_refused() {
    assert_eq!(saturate_len(7, IntWidth::Bits32), 7);
    assert_eq!(saturate_len(usize::MAX, IntWidth::Bits32), i32::MAX as i64);
    assert_eq!(saturate_len(usize::MAX, IntWidth::Bits64), i64::MAX);
    assert_eq!(checked_len(7, IntWidth::Bits64), Some(7));
    assert_eq!(checked_len(i32::MAX as usize, IntWidth::Bits32), Some(i32::MAX as i64));
    assert_eq!(checked_len(i32::MAX as usize + 1, IntWidth::Bits32), None);
    assert_eq!(checked_len(usize::MAX, IntWidth::Bits64), None);
}

#[test]
fn an_argument_count_is_capped_then_carried_into_the_width() {
    assert_eq!(argnum_count(3, IntWidth::Bits32), 3);
    assert_eq!(argnum_count(i64::MAX, IntWidth::Bits32), i32::MAX as i64);
    assert_eq!(argnum_count(i64::MAX, IntWidth::Bits64), i64::MAX);
    assert_eq!(argnum_count(-1, IntWidth::Bits32), -1);
    assert_eq!(argnum_count(-(1 << 32) - 1, IntWidth::Bits32), -1);
}

#[test]
#[should_panic(expected = "DEP_MRUBY_DEFINES_MRB_INT64 is unset")]
fn a_build_without_the_metadata_stops() {
    if let Err(msg) = read_integer_width(None) {
        panic!("{msg}");
    }
}

#[test]
#[should_panic(expected = "DEP_MRUBY_DEFINES_MRB_INT64 is `64`")]
fn a_value_other_than_true_or_false_stops_the_build() {
    if let Err(msg) = read_integer_width(Some("64")) {
        panic!("{msg}");
    }
}

#[test]
#[should_panic(expected = "DEP_MRUBY_DEFINES_MRB_FLOAT32 is unset")]
fn a_build_without_the_float_metadata_stops() {
    if let Err(msg) = read_float_width(None) {
        panic!("{msg}");
    }
}

#[test]
fn a_width_read_answers_the_flag_or_the_refusal() {
    assert_eq!(read_integer_width(Some("true")), Ok(true));
    assert_eq!(read_integer_width(Some("false")), Ok(false));
    assert_eq!(read_float_width(Some("true")), Ok(true));
    assert_eq!(
        read_integer_width(Some("yes")).unwrap_err(),
        "beni: DEP_MRUBY_DEFINES_MRB_INT64 is `yes`, where `beni-sys` publishes `true` or \
         `false` for the configured integer width. Build `beni` against the `beni-sys` \
         released beside it."
    );
    assert_eq!(
        width_refusal("V", "float", None),
        "beni: V is unset, where `beni-sys` publishes `true` or `false` for the configured \
         float width. Build `beni` against the `beni-sys` released beside it."
    );
}
