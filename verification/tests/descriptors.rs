use opendp_ffi::error::{Error, ErrorKind};
use opendp_ffi::types::{Primitive, Type};

fn canonical(text: &str) -> String {
    Type::parse(text).unwrap().to_text()
}

#[test]
fn parse_round_trip_on_canonical_names() {
    for name in [
        "i32",
        "f64",
        "bool",
        "String",
        "Vec<f64>",
        "(i32,i32)",
        "HashMap<String,f64>",
        "Vec<Vec<i32>>",
    ] {
        assert_eq!(canonical(name), name);
    }
}

#[test]
fn get_atom_of_nested_vector() {
    let t = Type::parse("Vec<Vec<i32>>").unwrap();
    assert_eq!(t.get_atom().unwrap().to_text(), "Vec<i32>");
}

#[test]
fn whitespace_is_incidental() {
    let a = Type::parse(" HashMap < String , f64 > ").unwrap();
    let b = Type::parse("HashMap<String,f64>").unwrap();
    assert!(a.equals(&b));
    assert_eq!(a.to_text(), "HashMap<String,f64>");
    assert_eq!(canonical("( i32, i32 )"), "(i32,i32)");
    assert_eq!(canonical("()"), "()");
    assert_eq!(canonical("( )"), "()");
}

#[test]
fn parse_rejects_unbalanced_delimiters() {
    for text in ["Vec<i32", "Vec<i32>>", "(i32,i32", "i32)", "Vec<(i32,i32>", "<i32>", "Vec<>", ""] {
        let e = Type::parse(text).unwrap_err();
        assert_eq!(e.kind(), ErrorKind::TypeParseError);
        assert_eq!(e, Error::TypeParseError { text: text.to_string() });
        assert!(e.message().contains(text));
    }
}

#[test]
fn parse_rejects_unknown_leaf_names() {
    for text in ["int", "i 32", "Vec<int>", "(i32,,i32)", "(i32,)", "I32"] {
        assert_eq!(Type::parse(text).unwrap_err().kind(), ErrorKind::TypeParseError);
    }
}

#[test]
fn get_atom_needs_one_argument() {
    for text in ["i32", "(i32,i32)", "HashMap<String,f64>", "()"] {
        let t = Type::parse(text).unwrap();
        let e = t.get_atom().unwrap_err();
        assert_eq!(e.kind(), ErrorKind::NotAContainer);
        assert!(e.message().contains(text));
    }
}

#[test]
fn equality_is_structural() {
    let a = Type::generic1("Vec", Type::primitive(Primitive::F64));
    assert!(a.equals(&Type::parse("Vec<f64>").unwrap()));
    assert!(!a.equals(&Type::parse("Vec<f32>").unwrap()));
    assert!(!a.equals(&Type::parse("Vec<f64,f64>").unwrap()));
    assert!(!a.equals(&Type::parse("(f64)").unwrap()));
    let p = Type::pair(Type::primitive(Primitive::I32), Type::primitive(Primitive::I32));
    assert!(p.equals(&Type::parse("(i32, i32)").unwrap()));
    assert!(p.clone().equals(&p));
}

#[test]
fn leaf_is_at_the_bottom_of_one_argument_generics() {
    for (text, leaf) in [
        ("i32", "i32"),
        ("SymmetricDistance", "SymmetricDistance"),
        ("Vec<f64>", "f64"),
        ("Vec<Vec<i32>>", "i32"),
        ("VectorDomain<AtomDomain<u8>>", "u8"),
    ] {
        assert_eq!(Type::parse(text).unwrap().get_leaf().unwrap().to_text(), leaf);
    }
    for (text, at) in [
        ("(i32,i32)", "(i32,i32)"),
        ("HashMap<String,f64>", "HashMap<String,f64>"),
        ("Vec<(i32,i32)>", "(i32,i32)"),
        ("Vec<HashMap<String,f64>>", "HashMap<String,f64>"),
    ] {
        let e = Type::parse(text).unwrap().get_leaf().unwrap_err();
        assert_eq!(e, Error::NotAContainer { descriptor: Type::parse(at).unwrap() });
    }
}
