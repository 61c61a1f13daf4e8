use opendp_ffi::any::AnyObject;
use opendp_ffi::error::{Error, ErrorKind, FfiResult};
use opendp_ffi::types::{Primitive, Type};
use opendp_ffi::util::{from_bool, has_prefix, into_owned, to_bool, to_str, try_as_ref};
use opendp_ffi::value::{Atom, Repr, Value};

fn universe() -> Vec<Type> {
    [
        "i32", "i64", "u32", "f64", "bool", "String", "(i32,i32)", "(f64,f64)", "Vec<i32>",
        "Vec<f64>", "Vec<String>", "Option<i32>", "HashMap<String,f64>", "usize",
    ]
    .iter()
    .map(|s| Type::parse(s).unwrap())
    .collect()
}

fn samples() -> Vec<(Value, &'static str)> {
    vec![
        (Value::atom(Atom::I32(7)), "i32"),
        (Value::atom(Atom::F64(1.5f64.to_bits())), "f64"),
        (Value::atom(Atom::Bool(true)), "bool"),
        (Value::atom(Atom::String("A".to_string())), "String"),
        (Value::pair(Atom::I32(0), Atom::I32(10)), "(i32,i32)"),
        (Value::vector(Primitive::I32, vec![Atom::I32(1), Atom::I32(2)]).unwrap(), "Vec<i32>"),
        (Value::vector(Primitive::String, vec![]).unwrap(), "Vec<String>"),
        (Value::optional(Primitive::I32, None).unwrap(), "Option<i32>"),
        (
            Value::map(
                Primitive::String,
                Primitive::F64,
                vec![(Atom::String("k".to_string()), Atom::F64(2.0f64.to_bits()))],
            )
            .unwrap(),
            "HashMap<String,f64>",
        ),
    ]
}

#[test]
fn downcast_succeeds_under_the_wrapped_type_only() {
    for (value, name) in samples() {
        let own = Type::parse(name).unwrap();
        let object = AnyObject::new(value);
        assert_eq!(object.descriptor_text(), name);
        assert!(object.type_().equals(&own));
        let (wrapped, _) = samples().into_iter().find(|(_, n)| *n == name).unwrap();
        assert_eq!(object.downcast_ref(&own).unwrap(), &wrapped);
        for other in universe() {
            if other.equals(&own) {
                continue;
            }
            let e = object.downcast_ref(&other).unwrap_err();
            assert_eq!(e.kind(), ErrorKind::TypeMismatch);
            assert_eq!(e, Error::TypeMismatch { expected: other.clone(), actual: own.clone() });
            assert!(e.message().contains(&other.to_text()));
            assert!(e.message().contains(name));
        }
        assert_eq!(object.downcast(&own).unwrap(), wrapped);
    }
}

#[test]
fn downcast_by_value_fails_under_another_type() {
    let object = AnyObject::new(Value::atom(Atom::I32(6)));
    let e = object.downcast(&Type::primitive(Primitive::I64)).unwrap_err();
    assert_eq!(
        e,
        Error::TypeMismatch {
            expected: Type::primitive(Primitive::I64),
            actual: Type::primitive(Primitive::I32),
        }
    );
}

#[test]
fn containers_hold_one_type() {
    assert!(Value::vector(Primitive::I32, vec![Atom::I32(1), Atom::I64(2)]).is_none());
    assert!(Value::optional(Primitive::I32, Some(Atom::Bool(true))).is_none());
    assert!(Value::optional(Primitive::Bool, Some(Atom::Bool(true))).is_some());
    assert!(Value::map(Primitive::String, Primitive::F64, vec![(Atom::I32(1), Atom::F64(0))])
        .is_none());
    assert!(Value::map(
        Primitive::I32,
        Primitive::I32,
        vec![(Atom::I32(1), Atom::I32(2)), (Atom::I32(1), Atom::I32(3))]
    )
    .is_none());
    assert!(Value::map(
        Primitive::I32,
        Primitive::I32,
        vec![(Atom::I32(1), Atom::I32(2)), (Atom::I32(2), Atom::I32(2))]
    )
    .is_some());
    assert!(Value::map(
        Primitive::String,
        Primitive::Bool,
        vec![
            (Atom::String("a".into()), Atom::Bool(true)),
            (Atom::String("b".into()), Atom::Bool(true)),
            (Atom::String("a".into()), Atom::Bool(false)),
        ]
    )
    .is_none());
    assert!(Atom::I32(1).same(&Atom::I32(1)));
    assert!(!Atom::I32(1).same(&Atom::I64(1)));
    assert!(!Atom::String("a".into()).same(&Atom::String("b".into())));
    let v = Value::vector(Primitive::U8, vec![Atom::U8(1)]).unwrap();
    assert_eq!(v.repr(), &Repr::Vector(Primitive::U8, vec![Atom::U8(1)]));
    assert_eq!(v.type_of().to_text(), "Vec<u8>");
}

#[test]
fn atoms_are_ordered_within_their_type() {
    assert!(Atom::I32(-3).lt(&Atom::I32(2)));
    assert!(!Atom::I32(2).lt(&Atom::I32(2)));
    assert!(Atom::I32(2).le(&Atom::I32(2)));
    assert!(!Atom::I32(2).le(&Atom::I64(3)));
    assert!(Atom::U128(u128::MAX - 1).lt(&Atom::U128(u128::MAX)));
    assert!(Atom::I128(i128::MIN).lt(&Atom::I128(i128::MAX)));
    assert!(!Atom::Bool(false).lt(&Atom::Bool(true)));
    assert!(!Atom::String("a".into()).le(&Atom::String("b".into())));
}

#[test]
fn floats_are_ordered_as_numbers() {
    let values: [f64; 9] =
        [f64::NEG_INFINITY, -2.5, -1.0e-300, -0.0, 0.0, 1.0e-300, 1.0, 2.5, f64::INFINITY];
    for a in values {
        for b in values {
            let (x, y) = (Atom::F64(a.to_bits()), Atom::F64(b.to_bits()));
            assert_eq!(x.lt(&y), a < b, "{a} < {b}");
            assert_eq!(x.le(&y), a <= b, "{a} <= {b}");
        }
        let nan = Atom::F64(f64::NAN.to_bits());
        let x = Atom::F64(a.to_bits());
        assert!(!x.is_null());
        assert!(nan.is_null());
        assert!(!x.lt(&nan) && !nan.lt(&x) && !x.le(&nan) && !nan.le(&x));
    }
    let singles: [f32; 7] = [f32::NEG_INFINITY, -1.5, -0.0, 0.0, 1.5, f32::MAX, f32::INFINITY];
    for a in singles {
        for b in singles {
            let (x, y) = (Atom::F32(a.to_bits()), Atom::F32(b.to_bits()));
            assert_eq!(x.lt(&y), a < b);
            assert_eq!(x.le(&y), a <= b);
        }
    }
    assert!(Atom::F32(f32::NAN.to_bits()).is_null());
    assert!(Atom::F32((-f32::NAN).to_bits()).is_null());
    assert!(!Atom::I32(0).is_null());
}

#[test]
fn borrowing_rejects_null() {
    let object = AnyObject::new(Value::atom(Atom::I32(1)));
    assert!(std::ptr::eq(try_as_ref(Some(&object), "this").unwrap(), &object));
    let e = try_as_ref::<AnyObject>(None, "this").unwrap_err();
    assert_eq!(e, Error::NullArgument { argument: "this".to_string() });
    assert_eq!(e.kind(), ErrorKind::NullArgument);
    assert_eq!(e.message(), "null pointer: this");
    assert_eq!(into_owned(Some(5u8), "x").unwrap(), 5);
    assert_eq!(
        into_owned::<u8>(None, "x").unwrap_err(),
        Error::NullArgument { argument: "x".to_string() }
    );
    assert_eq!(to_str(Some("i32"), "T").unwrap(), "i32");
    assert_eq!(to_str(None, "T").unwrap_err(), Error::NullArgument { argument: "T".to_string() });
}

#[test]
fn boundary_booleans() {
    assert!(!to_bool(0));
    assert!(to_bool(1));
    assert!(to_bool(255));
    assert_eq!(from_bool(true), 1);
    assert_eq!(from_bool(false), 0);
}

#[test]
fn prefixes() {
    assert!(has_prefix("minimum", "min"));
    assert!(has_prefix("min", "min"));
    assert!(!has_prefix("mi", "min"));
    assert!(!has_prefix("amin", "min"));
    assert!(has_prefix("anything", ""));
}

#[test]
fn results_convert_both_ways() {
    let ok: Result<u8, Error> = Ok(3);
    assert_eq!(FfiResult::from_fallible(ok), FfiResult::Success(3));
    let e = Error::DomainConstructionError { reason: "r".to_string() };
    let failed: FfiResult<u8> =
        FfiResult::from_fallible(Err(Error::DomainConstructionError { reason: "r".to_string() }));
    assert!(!failed.is_ok());
    assert_eq!(failed.into_fallible(), Err(e));
    assert_eq!(FfiResult::Success(4u8).into_fallible(), Ok(4));
    assert!(FfiResult::Success(4u8).is_ok());
}

#[test]
fn every_error_has_its_kind_and_message() {
    let i32_ = || Type::primitive(Primitive::I32);
    let f64_ = || Type::primitive(Primitive::F64);
    let cases = vec![
        (Error::NullArgument { argument: "val".into() }, ErrorKind::NullArgument, "null pointer: val"),
        (
            Error::TypeParseError { text: "Vec<".into() },
            ErrorKind::TypeParseError,
            "failed to parse type: Vec<",
        ),
        (
            Error::TypeMismatch { expected: i32_(), actual: f64_() },
            ErrorKind::TypeMismatch,
            "expected data of type i32, got f64",
        ),
        (
            Error::NotAContainer { descriptor: i32_() },
            ErrorKind::NotAContainer,
            "not a container of one type: i32",
        ),
        (
            Error::DispatchNotSupported { descriptor: f64_(), operation: "op".into() },
            ErrorKind::DispatchNotSupported,
            "no match for type f64 in op",
        ),
        (
            Error::ShapeMismatch { expected_shape: "AtomDomain".into(), actual: i32_() },
            ErrorKind::ShapeMismatch,
            "expected AtomDomain, got i32",
        ),
        (
            Error::DomainConstructionError { reason: "why".into() },
            ErrorKind::DomainConstructionError,
            "why",
        ),
        (
            Error::Internal { kind: "FFI".into(), message: "m".into() },
            ErrorKind::Internal,
            "FFI: m",
        ),
    ];
    for (e, kind, message) in cases {
        assert_eq!(e.kind(), kind);
        assert_eq!(e.message(), message);
    }
}
