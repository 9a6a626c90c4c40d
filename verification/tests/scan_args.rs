use beni::scan_args::{
    get_kwargs, scan_args, ArgShape, ArgnumError, BlockRead, KwargError, ScanArgsError, Sym,
};

fn shape(required: usize, optional: usize, splat: bool, trailing: usize) -> ArgShape {
    ArgShape { required, optional, splat, trailing, block: BlockRead::Ignored }
}

const NO_BLOCK: Option<u8> = None;

#[test]
fn an_optional_before_a_trailing_required_reads_from_the_front() {
    // def new(hostname = nil, port)
    let s = shape(0, 1, false, 1);
    let one = scan_args(&["8080"], (), NO_BLOCK, s).ok().unwrap();
    assert_eq!(one.optional, vec![None]);
    assert_eq!(one.trailing, vec!["8080"]);
    let two = scan_args(&["example.com", "8080"], (), NO_BLOCK, s).ok().unwrap();
    assert_eq!(two.optional, vec![Some("example.com")]);
    assert_eq!(two.trailing, vec!["8080"]);
}

#[test]
fn every_group_takes_its_share_in_order() {
    // def example(a, b, c=nil, d=nil, *rest, e, f)
    let s = shape(2, 2, true, 2);
    let s = ArgShape { block: BlockRead::Optional, ..s };
    let a = scan_args(&[1, 2, 3, 4, 5, 6, 7, 8], "kw", Some("blk"), s).ok().unwrap();
    assert_eq!(a.required, vec![1, 2]);
    assert_eq!(a.optional, vec![Some(3), Some(4)]);
    assert_eq!(a.splat, vec![5, 6]);
    assert_eq!(a.trailing, vec![7, 8]);
    assert_eq!(a.keywords, "kw");
    assert_eq!(a.block, Some("blk"));

    let b = scan_args(&[1, 2, 3, 7, 8], (), NO_BLOCK, s).ok().unwrap();
    assert_eq!(b.required, vec![1, 2]);
    assert_eq!(b.optional, vec![Some(3), None]);
    assert!(b.splat.is_empty());
    assert_eq!(b.trailing, vec![7, 8]);
}

#[test]
fn a_count_outside_the_shape_answers_the_arity_error() {
    let s = shape(2, 1, false, 0);
    let too_few = scan_args(&[1], (), NO_BLOCK, s).err().unwrap();
    assert_eq!(too_few, ScanArgsError::Argnum(ArgnumError { given: 1, min: 2, max: Some(3) }));
    let too_many = scan_args(&[1, 2, 3, 4], (), NO_BLOCK, s).err().unwrap();
    assert_eq!(too_many, ScanArgsError::Argnum(ArgnumError { given: 4, min: 2, max: Some(3) }));
    assert!(scan_args(&[1, 2], (), NO_BLOCK, s).is_ok());
    assert!(scan_args(&[1, 2, 3], (), NO_BLOCK, s).is_ok());

    let splat = shape(1, 0, true, 1);
    let err = scan_args::<i32, (), u8>(&[1], (), NO_BLOCK, splat).err().unwrap();
    assert_eq!(err, ScanArgsError::Argnum(ArgnumError { given: 1, min: 2, max: None }));
    assert_eq!(scan_args(&[0; 40], (), NO_BLOCK, splat).ok().unwrap().splat.len(), 38);
}

#[test]
fn an_empty_shape_takes_no_arguments() {
    let s = shape(0, 0, false, 0);
    assert!(scan_args::<u8, (), u8>(&[], (), NO_BLOCK, s).is_ok());
    assert_eq!(
        scan_args(&[1u8], (), NO_BLOCK, s).err().unwrap(),
        ScanArgsError::Argnum(ArgnumError { given: 1, min: 0, max: Some(0) })
    );
}

#[test]
fn the_groups_put_back_together_are_the_call() {
    let s = shape(1, 3, true, 2);
    for n in 3..12usize {
        let args: Vec<usize> = (0..n).collect();
        let a = scan_args(&args, (), NO_BLOCK, s).ok().unwrap();
        let mut back = a.required.clone();
        back.extend(a.optional.iter().flatten());
        back.extend(a.splat.iter());
        back.extend(a.trailing.iter());
        assert_eq!(back, args);
    }
}

const A: Sym = 1;
const B: Sym = 2;
const C: Sym = 3;
const D: Sym = 4;

#[test]
fn keywords_are_taken_out_by_name() {
    // def test(a:, b:, c: nil, **rest)
    let kw = vec![(B, "two"), (D, "four"), (A, "one")];
    let got = get_kwargs(&kw, &[A, B], &[C], true).ok().unwrap();
    assert_eq!(got.required, vec!["one", "two"]);
    assert_eq!(got.optional, vec![None]);
    assert_eq!(got.splat, Some(vec![(D, "four")]));
    assert_eq!(kw.len(), 3, "the bucket itself is left unchanged");

    let with_c = vec![(C, "three"), (A, "one"), (B, "two")];
    let got = get_kwargs(&with_c, &[A, B], &[C], false).ok().unwrap();
    assert_eq!(got.optional, vec![Some("three")]);
    assert_eq!(got.splat, None);
}

#[test]
fn a_missing_required_keyword_is_named() {
    let kw = vec![(A, 1)];
    assert_eq!(
        get_kwargs(&kw, &[A, B, C], &[], true).err().unwrap(),
        KwargError::Missing(B)
    );
    assert_eq!(get_kwargs::<u8>(&vec![], &[C], &[], true).err().unwrap(), KwargError::Missing(C));
}

#[test]
fn a_keyword_no_list_names_is_refused_without_a_splat() {
    let kw = vec![(D, 4), (A, 1), (C, 3)];
    assert_eq!(
        get_kwargs(&kw, &[A], &[], false).err().unwrap(),
        KwargError::Unknown(D)
    );
    assert_eq!(
        get_kwargs(&kw, &[A], &[D], false).err().unwrap(),
        KwargError::Unknown(C)
    );
    assert!(get_kwargs(&kw, &[A], &[D, C], false).is_ok());
}

#[test]
fn a_name_listed_twice_finds_its_keyword_once() {
    let kw = vec![(A, 1)];
    assert_eq!(get_kwargs(&kw, &[A, A], &[], true).err().unwrap(), KwargError::Missing(A));
    let got = get_kwargs(&kw, &[A], &[A], true).ok().unwrap();
    assert_eq!(got.optional, vec![None]);
}

#[test]
fn a_refusal_renders_the_argument_error_message() {
    assert_eq!(KwargError::Missing(A).message("b"), "missing keyword: b");
    assert_eq!(KwargError::Unknown(A).message(":zz"), "unknown keyword: :zz");
}

#[test]
fn a_required_block_the_call_did_not_pass_is_refused() {
    let s = ArgShape { required: 1, optional: 0, splat: false, trailing: 0, block: BlockRead::Required };
    assert_eq!(
        scan_args(&[1], (), NO_BLOCK, s).err().unwrap(),
        ScanArgsError::NoBlockGiven
    );
    assert_eq!(ScanArgsError::NoBlockGiven.message(), Some("no block given"));
    assert_eq!(scan_args(&[1], (), Some(9u8), s).ok().unwrap().block, Some(9));
    // the count is checked first
    assert!(matches!(
        scan_args(&[1, 2], (), NO_BLOCK, s).err().unwrap(),
        ScanArgsError::Argnum(_)
    ));
    let optional = ArgShape { block: BlockRead::Optional, ..s };
    assert_eq!(scan_args(&[1], (), NO_BLOCK, optional).ok().unwrap().block, None);
    let ignored = ArgShape { block: BlockRead::Ignored, ..s };
    assert_eq!(scan_args(&[1], (), Some(9u8), ignored).ok().unwrap().block, None);
}
