use jvm::pt::{Func, Identifier, Loc};

#[test]
fn loc_default_is_the_empty_span_at_zero() {
    assert_eq!(Loc::default(), Loc(0, 0));
}

#[test]
fn loc_is_copied_and_compared_by_its_offsets() {
    let a = Loc(3, 9);
    let b = a;
    assert_eq!(a, b);
    assert_ne!(a, Loc(3, 10));
    assert_eq!(a.0, 3);
    assert_eq!(a.1, 9);
}

#[test]
fn identifier_default_has_no_name() {
    let identifier = Identifier::default();
    assert_eq!(identifier.loc, Loc(0, 0));
    assert_eq!(identifier.name, "");
}

#[test]
fn identifier_clone_is_equal() {
    let identifier = Identifier { loc: Loc(4, 7), name: String::from("foo") };
    let copy = identifier.clone();
    assert_eq!(copy, identifier);
    assert_eq!(copy.name, "foo");
    assert_eq!(copy.loc, Loc(4, 7));
}

#[test]
fn func_can_be_made() {
    let _func = Func {};
}
