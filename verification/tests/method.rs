use beni::error::PanicPayload;
use beni::method::{after_body, before_body, bridge_outcome, raise_of, Bridged, CoreClass, MethodBody, Raise};
use beni::{Error, ParseMessage};
use beni::class::{bound_class, method_aspec, mrb_args_any, mrb_args_arg, mrb_args_block, mrb_args_opt, mrb_args_req, BoundClass};
use beni::MethodDef;

fn bridge() -> u8 {
    7
}

#[test]
fn a_def_carries_its_bridge_and_arity() {
    let d = MethodDef::new(bridge as fn() -> u8, 2);
    assert_eq!((d.func())(), 7);
    assert_eq!((d.arity(), d.opt(), d.block()), (2, 0, false));
    let o = MethodDef::new_with_opt(bridge as fn() -> u8, 1, 1);
    assert_eq!((o.arity(), o.opt(), o.block()), (1, 1, false));
    let b = MethodDef::new_with_block(bridge as fn() -> u8, 1);
    assert_eq!((b.arity(), b.opt(), b.block()), (1, 0, true));
    let any = MethodDef::new(bridge as fn() -> u8, -1);
    assert_eq!(any.arity(), -1);
}

#[test]
fn the_aspec_encodes_mrubys_argument_fields() {
    assert_eq!(mrb_args_req(2), 2 << 18);
    assert_eq!(mrb_args_opt(1), 1 << 13);
    assert_eq!(mrb_args_arg(1, 1), (1 << 18) | (1 << 13));
    assert_eq!(mrb_args_any(), 1 << 12);
    assert_eq!(mrb_args_block(), 1);
    assert_eq!(mrb_args_req(33), 1 << 18, "a count keeps mruby's five bits");
}

#[test]
fn the_aspec_follows_the_arity() {
    assert_eq!(method_aspec(0, 0, false), 0);
    assert_eq!(method_aspec(2, 0, false), 524288);
    assert_eq!(method_aspec(1, 1, false), 270336);
    assert_eq!(method_aspec(0, 1, false), 8192);
    assert_eq!(method_aspec(-1, 0, false), 4096);
    assert_eq!(method_aspec(-1, 3, true), 4097);
    assert_eq!(method_aspec(1, 0, true), 262145);
    assert_eq!(method_aspec(2, -1, false), 524288, "a negative optional count adds nothing");
    assert_eq!(MethodDef::new_with_opt(bridge as fn() -> u8, 1, 1).aspec(), 270336);
    assert_eq!(MethodDef::new_with_block(bridge as fn() -> u8, 2).aspec(), 524289);
}

#[test]
fn a_bound_name_resolves_as_a_reopened_class() {
    assert_eq!(bound_class::<u8>(false, Ok((false, false))), BoundClass::Unbound);
    assert_eq!(bound_class::<u8>(false, Err(9)), BoundClass::Unbound);
    assert_eq!(bound_class::<u8>(true, Err(9)), BoundClass::FetchRaised(9));
    assert_eq!(bound_class::<u8>(true, Ok((false, true))), BoundClass::NotAClass);
    assert_eq!(bound_class::<u8>(true, Ok((true, false))), BoundClass::SuperclassMismatch);
    assert_eq!(bound_class::<u8>(true, Ok((true, true))), BoundClass::Reopened);
    assert_eq!(BoundClass::<u8>::NotAClass.message("Foo").unwrap(), "Foo is not a class");
    assert_eq!(
        BoundClass::<u8>::SuperclassMismatch.message("Foo").unwrap(),
        "superclass mismatch for class Foo"
    );
    assert!(BoundClass::<u8>::Reopened.message("Foo").is_none());
    assert!(BoundClass::<u8>::Unbound.message("Foo").is_none());
    assert!(BoundClass::FetchRaised(9u8).message("Foo").is_none());
}

#[test]
fn a_bridge_raises_before_the_body_for_a_wrong_count_or_a_failed_conversion() {
    let body = || MethodBody::Returned(7u8);
    assert!(matches!(
        bridge_outcome(Some(3u8), &[true], &["i32"], body()),
        Bridged::Raises(Raise::Exception(3))
    ));
    match bridge_outcome::<u8>(None, &[true, false, false], &["i32", "String", "bool"], body()) {
        Bridged::Raises(Raise::New(CoreClass::TypeError, msg)) => {
            assert_eq!(msg, "wrong argument type (expected String)")
        }
        _ => panic!("a failed conversion must raise TypeError"),
    }
    assert!(matches!(
        bridge_outcome::<u8>(None, &[true, true], &["i32", "i32"], body()),
        Bridged::Returns(7)
    ));
    assert!(before_body::<u8>(None, &[], &[]).is_none());
}

#[test]
fn panicking_method_surfaces_as_ruby_exception() {
    match bridge_outcome::<u8>(
        None,
        &[],
        &[],
        MethodBody::Panicked(PanicPayload::Borrowed("boom in registered method")),
    ) {
        Bridged::Raises(Raise::New(CoreClass::RuntimeError, msg)) => {
            assert!(msg.contains("boom in registered method"))
        }
        _ => panic!("a panic must raise RuntimeError"),
    }
}

#[test]
fn result_returning_method_raises_its_err() {
    assert!(matches!(
        after_body(MethodBody::Failed(Error::Exception(5u8))),
        Bridged::Raises(Raise::Exception(5))
    ));
    match after_body::<u8>(MethodBody::Failed(Error::Panic("fallible body says no".to_string()))) {
        Bridged::Raises(Raise::New(CoreClass::RuntimeError, msg)) => {
            assert_eq!(msg, "fallible body says no")
        }
        _ => panic!("a panic error must raise RuntimeError"),
    }
    match raise_of::<u8>(Error::Syntax(ParseMessage::unrecorded())) {
        Raise::New(CoreClass::SyntaxError, msg) => assert_eq!(msg, ParseMessage::unrecorded().message()),
        _ => panic!("a syntax error must raise SyntaxError"),
    }
}
