use beni::state::carrier::segments;

#[test]
fn a_path_splits_at_each_separator() {
    let split = |path| segments(path);

    assert_eq!(split(b"Point"), [b"Point".as_slice()]);
    assert_eq!(
        split(b"Outer::Inner"),
        [b"Outer".as_slice(), b"Inner".as_slice()]
    );
    assert_eq!(
        split(b"Outer::"),
        [b"Outer".as_slice(), b"".as_slice()],
        "a trailing separator leaves a segment no constant is bound under"
    );
}

#[test]
fn empty_and_doubled_separators_yield_empty_segments() {
    assert_eq!(segments(b""), [b"".as_slice()]);
    assert_eq!(segments(b"::"), [b"".as_slice(), b"".as_slice()]);
    assert_eq!(segments(b"::A"), [b"".as_slice(), b"A".as_slice()]);
    assert_eq!(
        segments(b"A::::B"),
        [b"A".as_slice(), b"".as_slice(), b"B".as_slice()]
    );
    assert_eq!(
        segments(b"Geometry::Shapes::Point"),
        [b"Geometry".as_slice(), b"Shapes".as_slice(), b"Point".as_slice()]
    );
}

#[test]
fn a_separator_splits_from_the_left() {
    assert_eq!(segments(b"A:::B"), [b"A".as_slice(), b":B".as_slice()]);
    assert_eq!(segments(b":"), [b":".as_slice()]);
    assert_eq!(segments(b"A:B"), [b"A:B".as_slice()]);
}

#[test]
fn joining_the_segments_gives_back_the_path() {
    for path in [
        b"Point".as_slice(),
        b"Outer::Inner",
        b"Outer::",
        b"",
        b"A:::B",
        b"::X::",
    ] {
        let joined = segments(path).join(b"::".as_slice());
        assert_eq!(joined, path);
    }
}

#[test]
fn a_path_splits_into_one_more_segment_than_its_separators() {
    assert_eq!(segments(b"").len(), 1);
    assert_eq!(segments(b":::").len(), 2, "separators are found without overlapping");
    assert_eq!(segments(b"::::").len(), 3);
    assert_eq!(segments(b"A::B::C").len(), 3);
    assert_eq!(segments(b"A:B").len(), 1);
}
