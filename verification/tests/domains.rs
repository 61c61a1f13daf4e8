use opendp_ffi::any::AnyObject;
use opendp_ffi::domains::ffi::{
    opendp_domains___domain_free, opendp_domains__atom_domain, opendp_domains__domain_carrier_type,
    opendp_domains__domain_debug, opendp_domains__domain_type, opendp_domains__map_domain,
    opendp_domains__member, opendp_domains__option_domain, opendp_domains__vector_domain,
};
use opendp_ffi::domains::{AnyDomain, Bounds, Domain};
use opendp_ffi::error::{Error, ErrorKind, FfiResult};
use opendp_ffi::types::{Primitive, Type};
use opendp_ffi::value::{Atom, Value};

fn object(value: Value) -> AnyObject {
    AnyObject::new(value)
}

fn i32s(items: &[i32]) -> AnyObject {
    object(Value::vector(Primitive::I32, items.iter().map(|x| Atom::I32(*x)).collect()).unwrap())
}

fn f64s(items: &[f64]) -> AnyObject {
    object(
        Value::vector(Primitive::F64, items.iter().map(|x| Atom::F64(x.to_bits())).collect())
            .unwrap(),
    )
}

fn atom_domain(bounds: Option<&AnyObject>, nullable: u8, name: &str) -> Result<AnyDomain, Error> {
    opendp_domains__atom_domain(bounds, nullable, Some(name)).into_fallible()
}

fn member(domain: &AnyDomain, value: &AnyObject) -> Result<u8, Error> {
    opendp_domains__member(Some(domain), Some(value)).into_fallible()
}

fn text(r: FfiResult<String>) -> String {
    r.into_fallible().unwrap()
}

#[test]
fn end_to_end_construction() {
    let bounds = object(Value::pair(Atom::I32(0), Atom::I32(10)));
    let atoms = atom_domain(Some(&bounds), 0, "i32").unwrap();
    let vectors = opendp_domains__vector_domain(Some(&atoms), None).into_fallible().unwrap();
    assert_eq!(member(&vectors, &i32s(&[1, 2, 3])), Ok(1));
    assert_eq!(member(&vectors, &i32s(&[1, 2, 20])), Ok(0));
    assert_eq!(member(&vectors, &i32s(&[])), Ok(1));
    assert_eq!(member(&vectors, &i32s(&[0, 10])), Ok(1));
    assert_eq!(member(&vectors, &i32s(&[-1])), Ok(0));

    let reversed = object(Value::pair(Atom::I32(10), Atom::I32(0)));
    let e = atom_domain(Some(&reversed), 0, "i32").unwrap_err();
    assert_eq!(e.kind(), ErrorKind::DomainConstructionError);
    assert_eq!(e.message(), "lower bound may not be greater than upper bound: i32");
}

#[test]
fn atom_domain_descriptors() {
    for name in [
        "u8", "u16", "u32", "u64", "u128", "i8", "i16", "i32", "i64", "i128", "usize", "f32",
        "f64", "bool", "String",
    ] {
        let domain = atom_domain(None, 0, name).unwrap();
        assert_eq!(text(opendp_domains__domain_type(Some(&domain))), format!("AtomDomain<{name}>"));
        assert_eq!(text(opendp_domains__domain_carrier_type(Some(&domain))), name);
        assert_eq!(
            text(opendp_domains__domain_debug(Some(&domain))),
            format!("AnyDomain(AtomDomain<{name}>, carrier={name})")
        );
        assert_eq!(domain.type_().to_text(), format!("AtomDomain<{name}>"));
        assert_eq!(domain.carrier_type().to_text(), name);
        let own = Type::parse(&format!("AtomDomain<{name}>")).unwrap();
        match domain.downcast_ref(&own).unwrap() {
            Domain::Atom(a) => {
                assert_eq!(a.atom.name(), name);
                assert!(a.bounds.is_none());
                assert!(!a.nullable);
            },
            other => panic!("{other:?}"),
        }
        let e = domain.downcast_ref(&Type::parse("AtomDomain<char>").unwrap_or(Type::parse("Vec<i32>").unwrap())).unwrap_err();
        assert_eq!(e.kind(), ErrorKind::TypeMismatch);
    }
}

#[test]
fn atom_domain_of_floats() {
    let bounds = object(Value::pair(Atom::F64((-1.5f64).to_bits()), Atom::F64(2.0f64.to_bits())));
    let domain = atom_domain(Some(&bounds), 0, "f64").unwrap();
    let f = |x: f64| object(Value::atom(Atom::F64(x.to_bits())));
    assert_eq!(member(&domain, &f(0.0)), Ok(1));
    assert_eq!(member(&domain, &f(-1.5)), Ok(1));
    assert_eq!(member(&domain, &f(2.0)), Ok(1));
    assert_eq!(member(&domain, &f(2.5)), Ok(0));
    assert_eq!(member(&domain, &f(-1.6)), Ok(0));
    assert_eq!(member(&domain, &f(f64::NAN)), Ok(0));

    let unbounded = atom_domain(None, 0, "f64").unwrap();
    assert_eq!(member(&unbounded, &f(f64::NAN)), Ok(0));
    assert_eq!(member(&unbounded, &f(f64::INFINITY)), Ok(1));
    let nullable = atom_domain(None, 1, "f64").unwrap();
    assert_eq!(member(&nullable, &f(f64::NAN)), Ok(1));
    let nullable = atom_domain(None, 200, "f32").unwrap();
    assert_eq!(member(&nullable, &object(Value::atom(Atom::F32(f32::NAN.to_bits())))), Ok(1));

    let reversed = object(Value::pair(Atom::F64(1.0f64.to_bits()), Atom::F64(0.5f64.to_bits())));
    assert_eq!(
        atom_domain(Some(&reversed), 0, "f64").unwrap_err(),
        Error::DomainConstructionError {
            reason: "lower bound may not be greater than upper bound: f64".into()
        }
    );
    let equal = object(Value::pair(Atom::F64(0.0f64.to_bits()), Atom::F64((-0.0f64).to_bits())));
    assert!(atom_domain(Some(&equal), 0, "f64").is_ok());
}

#[test]
fn atom_domain_rules_of_each_family() {
    let ints = object(Value::pair(Atom::I32(0), Atom::I32(10)));
    assert_eq!(
        atom_domain(None, 1, "i32").unwrap_err(),
        Error::DomainConstructionError { reason: "integers cannot be null: i32".into() }
    );
    assert_eq!(
        atom_domain(None, 1, "usize").unwrap_err(),
        Error::DomainConstructionError { reason: "integers cannot be null: usize".into() }
    );
    assert_eq!(
        atom_domain(Some(&ints), 0, "bool").unwrap_err(),
        Error::DomainConstructionError { reason: "bool cannot be bounded".into() }
    );
    assert_eq!(
        atom_domain(Some(&ints), 1, "String").unwrap_err(),
        Error::DomainConstructionError { reason: "String cannot be bounded".into() }
    );
    assert_eq!(
        atom_domain(None, 1, "String").unwrap_err(),
        Error::DomainConstructionError { reason: "String cannot be null".into() }
    );
    assert_eq!(
        atom_domain(Some(&ints), 0, "i64").unwrap_err(),
        Error::TypeMismatch {
            expected: Type::parse("(i64,i64)").unwrap(),
            actual: Type::parse("(i32,i32)").unwrap()
        }
    );
    assert_eq!(
        atom_domain(Some(&ints), 1, "f64").unwrap_err().kind(),
        ErrorKind::TypeMismatch
    );
    let reversed = object(Value::pair(Atom::I32(10), Atom::I32(0)));
    assert_eq!(
        atom_domain(Some(&reversed), 1, "i32").unwrap_err().kind(),
        ErrorKind::DomainConstructionError
    );
    let not_a_pair = object(Value::atom(Atom::I32(1)));
    assert_eq!(atom_domain(Some(&not_a_pair), 0, "i32").unwrap_err().kind(), ErrorKind::TypeMismatch);
}

#[test]
fn atom_domain_type_names() {
    assert_eq!(
        opendp_domains__atom_domain(None, 0, None).into_fallible().unwrap_err(),
        Error::NullArgument { argument: "T".into() }
    );
    assert_eq!(
        atom_domain(None, 0, "Vec<i32").unwrap_err(),
        Error::TypeParseError { text: "Vec<i32".into() }
    );
    let e = atom_domain(None, 0, "Vec<i32>").unwrap_err();
    assert_eq!(e.kind(), ErrorKind::DispatchNotSupported);
    assert!(e.message().contains("Vec<i32>"));
    assert_eq!(
        e,
        Error::DispatchNotSupported {
            descriptor: Type::parse("Vec<i32>").unwrap(),
            operation: "atom_domain".into()
        }
    );
    assert!(atom_domain(None, 0, " i32 ").is_ok());
}

#[test]
fn shape_guard_precedes_dispatch() {
    let atoms = atom_domain(None, 0, "i32").unwrap();
    let options = opendp_domains__option_domain(Some(&atoms), Some("AtomDomain<i32>"))
        .into_fallible()
        .unwrap();
    let vectors = opendp_domains__vector_domain(Some(&atoms), None).into_fallible().unwrap();
    for inner in [&options, &vectors] {
        let size = object(Value::atom(Atom::Bool(true)));
        for size in [None, Some(&size)] {
            let e = opendp_domains__vector_domain(Some(inner), size).into_fallible().unwrap_err();
            assert_eq!(e.kind(), ErrorKind::ShapeMismatch);
            assert_eq!(
                e,
                Error::ShapeMismatch {
                    expected_shape: "AtomDomain".into(),
                    actual: inner.type_().clone()
                }
            );
            assert!(e.message().contains(&inner.type_().to_text()));
        }
        let e = opendp_domains__map_domain(Some(inner), Some(&atoms)).into_fallible().unwrap_err();
        assert_eq!(e.kind(), ErrorKind::ShapeMismatch);
        let e = opendp_domains__map_domain(Some(&atoms), Some(inner)).into_fallible().unwrap_err();
        assert_eq!(
            e,
            Error::ShapeMismatch {
                expected_shape: "AtomDomain".into(),
                actual: inner.type_().clone()
            }
        );
    }
    let floats = atom_domain(None, 0, "f64").unwrap();
    let e = opendp_domains__map_domain(Some(&options), Some(&floats)).into_fallible().unwrap_err();
    assert_eq!(e.kind(), ErrorKind::ShapeMismatch);
}

#[test]
fn vector_domain_with_size() {
    let atoms = atom_domain(None, 0, "i32").unwrap();
    let size = object(Value::atom(Atom::I32(3)));
    let sized = opendp_domains__vector_domain(Some(&atoms), Some(&size)).into_fallible().unwrap();
    assert_eq!(sized.type_().to_text(), "VectorDomain<AtomDomain<i32>>");
    assert_eq!(sized.carrier_type().to_text(), "Vec<i32>");
    assert_eq!(member(&sized, &i32s(&[1, 2, 3])), Ok(1));
    assert_eq!(member(&sized, &i32s(&[1, 2])), Ok(0));
    assert_eq!(member(&sized, &i32s(&[1, 2, 3, 4])), Ok(0));
    match sized.downcast_ref(&Type::parse("VectorDomain<AtomDomain<i32>>").unwrap()).unwrap() {
        Domain::Vector { element, size } => {
            assert_eq!(element.atom, Primitive::I32);
            assert_eq!(*size, Some(3));
        },
        other => panic!("{other:?}"),
    }

    let negative = object(Value::atom(Atom::I32(-1)));
    let wrapped =
        opendp_domains__vector_domain(Some(&atoms), Some(&negative)).into_fallible().unwrap();
    match wrapped.downcast_ref(wrapped.type_()).unwrap() {
        Domain::Vector { size, .. } => assert_eq!(*size, Some(usize::MAX)),
        other => panic!("{other:?}"),
    }
    let lowest = object(Value::atom(Atom::I32(i32::MIN)));
    let wrapped =
        opendp_domains__vector_domain(Some(&atoms), Some(&lowest)).into_fallible().unwrap();
    match wrapped.downcast_ref(wrapped.type_()).unwrap() {
        Domain::Vector { size, .. } => assert_eq!(*size, Some(i32::MIN as usize)),
        other => panic!("{other:?}"),
    }

    let wrong = object(Value::atom(Atom::I64(3)));
    assert_eq!(
        opendp_domains__vector_domain(Some(&atoms), Some(&wrong)).into_fallible().unwrap_err(),
        Error::TypeMismatch {
            expected: Type::primitive(Primitive::I32),
            actual: Type::primitive(Primitive::I64)
        }
    );
}

#[test]
fn member_checks_the_carrier_type() {
    let atoms = atom_domain(None, 0, "i32").unwrap();
    let vectors = opendp_domains__vector_domain(Some(&atoms), None).into_fallible().unwrap();
    assert_eq!(
        member(&vectors, &f64s(&[1.0])).unwrap_err(),
        Error::TypeMismatch {
            expected: Type::parse("Vec<i32>").unwrap(),
            actual: Type::parse("Vec<f64>").unwrap()
        }
    );
    assert_eq!(member(&atoms, &i32s(&[1])).unwrap_err().kind(), ErrorKind::TypeMismatch);
    assert_eq!(member(&atoms, &object(Value::atom(Atom::I32(5)))), Ok(1));
}

#[test]
fn option_domain_members() {
    let bounds = object(Value::pair(Atom::I32(0), Atom::I32(10)));
    let atoms = atom_domain(Some(&bounds), 0, "i32").unwrap();
    let options = opendp_domains__option_domain(Some(&atoms), Some("AtomDomain<i32>"))
        .into_fallible()
        .unwrap();
    assert_eq!(options.type_().to_text(), "OptionDomain<AtomDomain<i32>>");
    assert_eq!(options.carrier_type().to_text(), "Option<i32>");
    let some = |x| object(Value::optional(Primitive::I32, Some(Atom::I32(x))).unwrap());
    assert_eq!(member(&options, &object(Value::optional(Primitive::I32, None).unwrap())), Ok(1));
    assert_eq!(member(&options, &some(5)), Ok(1));
    assert_eq!(member(&options, &some(11)), Ok(0));
    assert_eq!(member(&options, &object(Value::atom(Atom::I32(5)))).unwrap_err().kind(), ErrorKind::TypeMismatch);
}

#[test]
fn option_domain_errors() {
    let atoms = atom_domain(None, 0, "i32").unwrap();
    let call = |d: Option<&AnyDomain>, name: Option<&str>| {
        opendp_domains__option_domain(d, name).into_fallible().unwrap_err()
    };
    assert_eq!(call(Some(&atoms), None), Error::NullArgument { argument: "D".into() });
    assert_eq!(call(Some(&atoms), Some("AtomDomain<")).kind(), ErrorKind::TypeParseError);
    assert_eq!(
        call(Some(&atoms), Some("i32")),
        Error::NotAContainer { descriptor: Type::primitive(Primitive::I32) }
    );
    assert_eq!(
        call(Some(&atoms), Some("AtomDomain<Vec<i32>>")),
        Error::DispatchNotSupported {
            descriptor: Type::parse("Vec<i32>").unwrap(),
            operation: "option_domain".into()
        }
    );
    for name in [None, Some("AtomDomain<i32>"), Some("zz"), Some("AtomDomain<"), Some("i32")] {
        assert_eq!(call(None, name), Error::NullArgument { argument: "element_domain".into() });
    }
    assert_eq!(
        call(Some(&atoms), Some("AtomDomain<i64>")),
        Error::TypeMismatch {
            expected: Type::parse("AtomDomain<i64>").unwrap(),
            actual: Type::parse("AtomDomain<i32>").unwrap()
        }
    );
    let vectors = opendp_domains__vector_domain(Some(&atoms), None).into_fallible().unwrap();
    assert_eq!(call(Some(&vectors), Some("AtomDomain<i32>")).kind(), ErrorKind::TypeMismatch);
}

#[test]
fn map_domain_members() {
    let keys = atom_domain(None, 0, "String").unwrap();
    let bounds = object(Value::pair(Atom::F64(0.0f64.to_bits()), Atom::F64(1.0f64.to_bits())));
    let values = atom_domain(Some(&bounds), 0, "f64").unwrap();
    let maps = opendp_domains__map_domain(Some(&keys), Some(&values)).into_fallible().unwrap();
    assert_eq!(maps.type_().to_text(), "MapDomain<AtomDomain<String>,AtomDomain<f64>>");
    assert_eq!(maps.carrier_type().to_text(), "HashMap<String,f64>");
    let table = |entries: &[(&str, f64)]| {
        object(
            Value::map(
                Primitive::String,
                Primitive::F64,
                entries
                    .iter()
                    .map(|(k, v)| (Atom::String(k.to_string()), Atom::F64(v.to_bits())))
                    .collect(),
            )
            .unwrap(),
        )
    };
    assert_eq!(member(&maps, &table(&[])), Ok(1));
    assert_eq!(member(&maps, &table(&[("a", 0.5), ("b", 1.0)])), Ok(1));
    assert_eq!(member(&maps, &table(&[("a", 0.5), ("b", 1.5)])), Ok(0));
    assert_eq!(member(&maps, &table(&[("a", f64::NAN)])), Ok(0));

    let e = opendp_domains__map_domain(Some(&values), Some(&keys)).into_fallible().unwrap_err();
    assert_eq!(
        e,
        Error::DispatchNotSupported {
            descriptor: Type::primitive(Primitive::F64),
            operation: "map_domain".into()
        }
    );
    assert!(e.message().contains("f64"));
}

#[test]
fn null_handles_are_rejected() {
    let null = |argument: &str| Error::NullArgument { argument: argument.to_string() };
    let atoms = atom_domain(None, 0, "i32").unwrap();
    let value = object(Value::atom(Atom::I32(1)));
    assert_eq!(opendp_domains___domain_free(None), FfiResult::Failure(null("this")));
    assert_eq!(opendp_domains__member(None, Some(&value)), FfiResult::Failure(null("this")));
    assert_eq!(opendp_domains__member(None, None), FfiResult::Failure(null("this")));
    assert_eq!(opendp_domains__member(Some(&atoms), None), FfiResult::Failure(null("val")));
    assert_eq!(opendp_domains__domain_debug(None), FfiResult::Failure(null("this")));
    assert_eq!(opendp_domains__domain_type(None), FfiResult::Failure(null("this")));
    assert_eq!(opendp_domains__domain_carrier_type(None), FfiResult::Failure(null("this")));
    assert_eq!(
        opendp_domains__vector_domain(None, Some(&value)).into_fallible().unwrap_err(),
        null("atom_domain")
    );
    assert_eq!(
        opendp_domains__map_domain(None, Some(&atoms)).into_fallible().unwrap_err(),
        null("key_domain")
    );
    assert_eq!(
        opendp_domains__map_domain(Some(&atoms), None).into_fallible().unwrap_err(),
        null("value_domain")
    );
    assert_eq!(
        opendp_domains__option_domain(None, Some("zz")).into_fallible().unwrap_err(),
        null("element_domain")
    );
}

#[test]
fn domain_free_takes_the_handle() {
    let atoms = atom_domain(None, 0, "i32").unwrap();
    assert_eq!(opendp_domains___domain_free(Some(atoms)), FfiResult::Success(()));
}

#[test]
fn closed_bounds() {
    let b = Bounds::new_closed(Atom::U8(1), Atom::U8(1)).unwrap();
    assert!(b.member(&Atom::U8(1)));
    assert!(!b.member(&Atom::U8(2)));
    assert!(!b.member(&Atom::U16(1)));
    assert_eq!(
        Bounds::new_closed(Atom::U8(2), Atom::U8(1)).unwrap_err().kind(),
        ErrorKind::DomainConstructionError
    );
    assert_eq!(
        Bounds::new_closed(Atom::U8(1), Atom::I8(1)).unwrap_err(),
        Error::TypeMismatch {
            expected: Type::primitive(Primitive::U8),
            actual: Type::primitive(Primitive::I8)
        }
    );
    assert_eq!(
        Bounds::new_closed(Atom::Bool(false), Atom::Bool(true)).unwrap_err(),
        Error::DomainConstructionError { reason: "bool cannot be bounded".into() }
    );
    let nan = Bounds::new_closed(Atom::F64(f64::NAN.to_bits()), Atom::F64(0)).unwrap();
    assert!(!nan.member(&Atom::F64(0)));
}
