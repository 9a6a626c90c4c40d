use beni::hash::{after_walk, walk_code, AfterWalk};
use beni::range::{beg_len_extent, MRB_RANGE_OK, MRB_RANGE_OUT, MRB_RANGE_TYPE_MISMATCH};
use beni::state::load::structural_failure;
use beni::state::open_outcome;
use beni::state::user_data::UserData;
use beni::string::{index_args, index_result, ordering_of, resize_len, substr_args, substr_result};
use beni::try_convert::{
    cannot_carry_message, convert_int, text_outcome, IntRefusal,
    arg_type_message, described, fits, not_convertible_message, not_kind_message,
    out_of_range_message, proc_expected_message, IntTarget,
};
use beni::value::{integer_guard, rank_of};
use beni::width::IntWidth;
use beni::{DumpOptions, ForEach, MrbOpenError, RangeBegLen};
use core::cmp::Ordering;

#[test]
fn dump_flags_spell_the_locals_as_an_opt_out() {
    assert_eq!(DumpOptions::default().flags(), 4);
    assert_eq!(DumpOptions { debug_info: true, locals: false }.flags(), 5);
    assert_eq!(DumpOptions { debug_info: false, locals: true }.flags(), 0);
    assert_eq!(DumpOptions { debug_info: true, locals: true }.flags(), 1);
}

#[test]
fn a_blob_names_the_structural_check_it_failed() {
    assert_eq!(structural_failure(b"RITE"), "bytecode shorter than RITE binary header");
    assert_eq!(structural_failure(&[0u8; 19]), "bytecode shorter than RITE binary header");
    assert_eq!(structural_failure(&[0u8; 20]), "bytecode header is not RITE format");
    let mut header = *b"RITE0200\0\0\0\x14MATZ0000";
    assert_eq!(structural_failure(&header), "bytecode RITE version mismatch");
    header[4..8].copy_from_slice(b"0300");
    assert_eq!(structural_failure(&header), "bytecode body failed structural validation");
}

#[test]
fn a_walk_visits_on_only_while_the_body_continues() {
    assert_eq!(walk_code(Some(ForEach::Continue)), 0);
    assert_eq!(walk_code(Some(ForEach::Stop)), 1);
    assert_eq!(walk_code(None), 1, "a panicking body stops the walk");
}

#[test]
fn a_range_outcome_is_kept_three_way() {
    assert_eq!(
        RangeBegLen::from_outcome(MRB_RANGE_OK, 2, 3),
        RangeBegLen::Within { beg: 2, len: 3 }
    );
    assert_eq!(RangeBegLen::from_outcome(MRB_RANGE_OUT, 2, 3), RangeBegLen::Out);
    assert_eq!(
        RangeBegLen::from_outcome(MRB_RANGE_TYPE_MISMATCH, 2, 3),
        RangeBegLen::TypeMismatch
    );
    assert_eq!(beg_len_extent(10, IntWidth::Bits32), 10);
    assert_eq!(beg_len_extent(1 << 40, IntWidth::Bits32), i32::MAX as i64);
    assert_eq!(beg_len_extent(1 << 40, IntWidth::Bits64), 1 << 40);
}

#[test]
fn string_reads_carry_their_arguments_into_the_width() {
    assert_eq!(substr_args(-2, 1 << 40, IntWidth::Bits32), (-2, i32::MAX as i64));
    assert_eq!(substr_args(-(1 << 40), 3, IntWidth::Bits32), (i32::MIN as i64, 3));
    assert_eq!(index_args(1 << 40, 3, IntWidth::Bits32), (i32::MAX as i64, 3));
    assert_eq!(index_args(4, usize::MAX, IntWidth::Bits64), (4, i64::MAX));
    assert_eq!(index_result(-1), None);
    assert_eq!(index_result(0), Some(0));
    assert_eq!(index_result(12), Some(12));
    assert_eq!(resize_len(5, IntWidth::Bits32), Some(5));
    assert_eq!(resize_len(1 << 31, IntWidth::Bits32), None);
}

#[test]
fn a_comparison_ranks_by_its_sign() {
    assert_eq!(ordering_of(-1), Ordering::Less);
    assert_eq!(ordering_of(0), Ordering::Equal);
    assert_eq!(ordering_of(9), Ordering::Greater);
    assert_eq!(rank_of(-2), None);
    assert_eq!(rank_of(-1), Some(Ordering::Less));
    assert_eq!(rank_of(-5), Some(Ordering::Less));
    assert_eq!(rank_of(0), Some(Ordering::Equal));
    assert_eq!(rank_of(42), Some(Ordering::Greater));
}

#[test]
fn an_interpreter_opens_only_without_failure() {
    assert_eq!(open_outcome(false, false), Ok(()));
    assert_eq!(open_outcome(true, false), Err(MrbOpenError));
    assert_eq!(open_outcome(false, true), Err(MrbOpenError));
    assert_eq!(MrbOpenError.render(), "mruby could not produce a usable interpreter");
}

#[test]
fn an_integer_converts_only_into_a_target_that_holds_it() {
    assert!(fits(127, IntTarget::I8));
    assert!(!fits(128, IntTarget::I8));
    assert!(fits(-128, IntTarget::I8));
    assert!(!fits(-1, IntTarget::U8));
    assert!(fits(255, IntTarget::U8));
    assert!(!fits(256, IntTarget::U8));
    assert!(fits(i64::MAX, IntTarget::U64));
    assert!(!fits(-1, IntTarget::Usize));
    assert!(fits(i64::MIN, IntTarget::I64));
    assert!(fits(65535, IntTarget::U16));
    assert!(!fits(1 << 31, IntTarget::I32));
}

#[test]
fn mismatches_render_mrubys_messages() {
    assert_eq!(out_of_range_message(300), "300 out of range");
    assert_eq!(out_of_range_message(-9223372036854775808), "-9223372036854775808 out of range");
    assert_eq!(described(true, "nil", "NilClass"), "nil");
    assert_eq!(described(false, "1", "Integer"), "Integer");
    assert_eq!(not_convertible_message("Integer", "String"), "Integer cannot be converted to String");
    assert_eq!(not_kind_message("1", "a class"), "1 is not a class");
    assert_eq!(proc_expected_message("Integer"), "wrong argument type Integer (expected Proc)");
    assert_eq!(arg_type_message("i32"), "wrong argument type (expected i32)");
}

#[test]
fn a_substring_read_past_the_string_is_nothing() {
    assert_eq!(substr_result("abc", false), Some("abc"));
    assert_eq!(substr_result("abc", true), None);
}

const AS_U8: u64 = 1;
const AS_STRING: u64 = 2;

#[test]
fn an_occupied_user_data_slot_refuses_a_second_value() {
    let mut slot = UserData::new();
    assert_eq!(slot.get(AS_U8), None);
    assert_eq!(slot.set(AS_U8, 7u32), Ok(()));
    assert_eq!(slot.set(AS_U8, 8u32), Err(8));
    assert_eq!(slot.get(AS_U8), Some(&7));
}

#[test]
fn a_take_by_another_type_leaves_the_user_data_in_place() {
    let mut slot = UserData::new();
    assert_eq!(slot.set(AS_U8, 7u32), Ok(()));
    assert_eq!(slot.get(AS_STRING), None);
    assert_eq!(slot.take(AS_STRING), None);
    assert_eq!(slot.get(AS_U8), Some(&7));
    assert_eq!(slot.take(AS_U8), Some(7));
    assert_eq!(slot.take(AS_U8), None);
    assert_eq!(slot.set(AS_STRING, 9), Ok(()));
    slot.clear();
    assert_eq!(slot.get(AS_STRING), None);
}

#[test]
fn a_parked_panic_resumes_before_the_walk_answers() {
    assert!(matches!(after_walk(Some("boom"), Err::<(), u8>(3)), AfterWalk::Resume("boom")));
    assert!(matches!(after_walk(None::<&str>, Err::<(), u8>(3)), AfterWalk::Done(Err(3))));
    assert!(matches!(after_walk(None::<&str>, Ok::<(), u8>(())), AfterWalk::Done(Ok(()))));
}

#[test]
fn a_radix_rendering_refuses_a_non_integer() {
    assert_eq!(integer_guard(true), None);
    assert_eq!(integer_guard(false), Some("no implicit conversion to Integer"));
}

#[test]
fn a_non_zero_target_refuses_zero_after_the_range_check() {
    assert_eq!(convert_int(5, IntTarget::U8, true), Ok(5));
    assert_eq!(convert_int(0, IntTarget::U8, false), Ok(0));
    assert_eq!(convert_int(0, IntTarget::U8, true), Err(IntRefusal::Zero));
    assert_eq!(convert_int(-1, IntTarget::U8, true), Err(IntRefusal::OutOfRange));
    assert_eq!(convert_int(i64::MIN, IntTarget::I128, false), Ok(i64::MIN));
    assert_eq!(convert_int(-1, IntTarget::U128, false), Err(IntRefusal::OutOfRange));
    assert_eq!(convert_int(i64::MAX, IntTarget::U128, true), Ok(i64::MAX));
    assert_eq!(IntRefusal::Zero.message(0), "value must be non-zero");
    assert_eq!(IntRefusal::OutOfRange.message(-1), "-1 out of range");
}

#[test]
fn bytes_that_are_not_utf8_are_refused_as_text() {
    assert_eq!(text_outcome(Some("ok")), Ok("ok"));
    assert_eq!(text_outcome::<&str>(None), Err("invalid UTF-8 byte sequence"));
    assert_eq!(
        cannot_carry_message("undefined method 'x'"),
        "a TypedData class cannot carry data: undefined method 'x'"
    );
}
