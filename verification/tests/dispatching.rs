use opendp_ffi::dispatch::{dispatch2, CandidateSet};
use opendp_ffi::error::{Error, ErrorKind};
use opendp_ffi::types::{Primitive, Type};

fn names(set: &CandidateSet) -> Vec<String> {
    set.types().iter().map(|t| t.to_text()).collect()
}

const INTEGERS: [&str; 11] =
    ["u8", "u16", "u32", "u64", "u128", "i8", "i16", "i32", "i64", "i128", "usize"];

#[test]
fn declared_sets() {
    assert_eq!(names(&CandidateSet::floats()), ["f32", "f64"]);
    assert_eq!(names(&CandidateSet::integers()), INTEGERS);
    let mut hashable: Vec<&str> = INTEGERS.to_vec();
    hashable.extend(["bool", "String"]);
    assert_eq!(names(&CandidateSet::hashable()), hashable);
    let mut primitives: Vec<&str> = INTEGERS.to_vec();
    primitives.extend(["f32", "f64", "bool", "String"]);
    assert_eq!(names(&CandidateSet::primitives()), primitives);
}

#[test]
fn each_declared_type_selects_its_own_arm() {
    for set in [
        CandidateSet::floats(),
        CandidateSet::integers(),
        CandidateSet::hashable(),
        CandidateSet::primitives(),
    ] {
        for (at, declared) in set.types().iter().enumerate() {
            assert_eq!(set.dispatch(declared, "op").unwrap(), at);
            assert_eq!(set.position(declared), Some(at));
            assert!(set.contains(declared));
            assert_eq!(set.dispatch_leaf(declared, "op").unwrap(), declared.as_primitive().unwrap());
        }
    }
}

#[test]
fn declared_sets_are_disjoint() {
    for set in [
        CandidateSet::floats(),
        CandidateSet::integers(),
        CandidateSet::hashable(),
        CandidateSet::primitives(),
    ] {
        for (i, a) in set.types().iter().enumerate() {
            for (j, b) in set.types().iter().enumerate() {
                assert_eq!(a.equals(b), i == j);
            }
        }
    }
}

#[test]
fn undeclared_type_is_not_supported() {
    let sets = [CandidateSet::floats(), CandidateSet::integers(), CandidateSet::hashable()];
    for text in ["Vec<f64>", "(i32,i32)", "HashMap<String,f64>", "SymmetricDistance"] {
        let d = Type::parse(text).unwrap();
        for set in &sets {
            assert!(!set.contains(&d));
            assert_eq!(set.position(&d), None);
            assert_eq!(set.leaf(&d), None);
            let e = set.dispatch(&d, "some_operation").unwrap_err();
            assert_eq!(e.kind(), ErrorKind::DispatchNotSupported);
            assert!(e.message().contains(text));
            assert!(e.message().contains("some_operation"));
            assert_eq!(
                e,
                Error::DispatchNotSupported {
                    descriptor: Type::parse(text).unwrap(),
                    operation: "some_operation".to_string()
                }
            );
            assert_eq!(set.dispatch_leaf(&d, "some_operation").unwrap_err(), e);
        }
    }
    let e = CandidateSet::floats().dispatch(&Type::primitive(Primitive::I32), "op").unwrap_err();
    assert_eq!(e.message(), "no match for type i32 in op");
}

#[test]
fn first_match_wins_where_a_type_is_declared_twice() {
    let set = CandidateSet::of(vec![
        Type::parse("Vec<i32>").unwrap(),
        Type::parse("i32").unwrap(),
        Type::parse("Vec< i32 >").unwrap(),
    ]);
    assert_eq!(set.dispatch(&Type::parse("Vec<i32>").unwrap(), "op").unwrap(), 0);
    assert_eq!(set.dispatch(&Type::parse("i32").unwrap(), "op").unwrap(), 1);
    assert_eq!(set.leaf(&Type::parse("Vec<i32>").unwrap()), None);
    assert_eq!(set.leaf(&Type::parse("i32").unwrap()), Some(Primitive::I32));
}

#[test]
fn two_axes_are_resolved_outer_first() {
    let outer = CandidateSet::of_primitives(vec![Primitive::U32, Primitive::I32, Primitive::F64]);
    let inner = CandidateSet::floats();
    let t = |p| Type::primitive(p);
    for (i, a) in outer.types().iter().enumerate() {
        for (j, b) in inner.types().iter().enumerate() {
            assert_eq!(dispatch2(&outer, a, &inner, b, "op").unwrap(), (i, j));
        }
    }
    let e = dispatch2(&outer, &t(Primitive::Bool), &inner, &t(Primitive::String), "op").unwrap_err();
    assert_eq!(
        e,
        Error::DispatchNotSupported { descriptor: t(Primitive::Bool), operation: "op".into() }
    );
    let e = dispatch2(&outer, &t(Primitive::I32), &inner, &t(Primitive::String), "op").unwrap_err();
    assert_eq!(
        e,
        Error::DispatchNotSupported { descriptor: t(Primitive::String), operation: "op".into() }
    );
}
