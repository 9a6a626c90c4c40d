use beni::array::Entries;
use beni::error::{protect_outcome, protected, BodyOutcome, PanicPayload};
use beni::scan_args::{argv_len, call_format};
use beni::try_convert::uninitialized_message;
use beni::Error;

#[test]
fn a_walk_hands_out_each_index_of_its_fixed_length_once() {
    let mut walk = Entries::new(3);
    assert_eq!(walk.size_hint(), (3, Some(3)));
    assert_eq!(walk.next_index(), Some(0));
    assert_eq!(walk.next_index(), Some(1));
    assert_eq!(walk.size_hint(), (1, Some(1)));
    assert_eq!(walk.next_index(), Some(2));
    assert_eq!(walk.next_index(), None);
    assert_eq!(walk.next_index(), None);
    assert_eq!(walk.size_hint(), (0, Some(0)));
    assert_eq!(Entries::new(0).next_index(), None);
}

#[test]
fn a_call_read_captures_keywords_only_when_asked() {
    assert_eq!(call_format(true), "*!:&");
    assert_eq!(call_format(false), "*!&");
}

#[test]
fn an_empty_or_null_rest_reads_as_no_positionals() {
    assert_eq!(argv_len(0, false), 0);
    assert_eq!(argv_len(3, true), 0);
    assert_eq!(argv_len(-1, false), 0);
    assert_eq!(argv_len(3, false), 3);
}

#[test]
fn a_protected_body_answers_its_value_or_the_raise() {
    assert!(matches!(protected(4u8, false), Ok(4)));
    assert!(matches!(protected(4u8, true), Err(Error::Exception(4))));
}

#[test]
fn a_bare_carrier_is_reported_uninitialized() {
    assert_eq!(uninitialized_message("Point", "Point"), "uninitialized Point (expected Point)");
}

#[test]
fn a_non_namespace_receiver_is_named_in_its_type_error() {
    assert_eq!(
        beni::try_convert::not_class_or_module_message("Integer"),
        "Integer is not a class/module"
    );
}

#[test]
fn protect_surfaces_closure_panic_as_err() {
    let err = protect_outcome::<u8>(BodyOutcome::Panicked(PanicPayload::Borrowed(
        "pop goes the closure",
    )))
    .expect_err("the panic must surface as Err");
    match err {
        Error::Panic(msg) => assert!(msg.contains("pop goes the closure")),
        _ => panic!("a closure panic must surface as Error::Panic"),
    }
}

#[test]
fn a_protected_body_outcome_reads_back_as_its_result() {
    assert!(matches!(protect_outcome(BodyOutcome::Returned(4u8)), Ok(4)));
    assert!(matches!(protect_outcome(BodyOutcome::Raised(4u8)), Err(Error::Exception(4))));
    assert!(matches!(
        protect_outcome::<u8>(BodyOutcome::Panicked(PanicPayload::Owned("owned".to_string()))),
        Err(Error::Panic(m)) if m == "owned"
    ));
    assert!(matches!(
        protect_outcome::<u8>(BodyOutcome::Panicked(PanicPayload::Other)),
        Err(Error::Panic(m)) if m == "panic with a non-string payload"
    ));
}
