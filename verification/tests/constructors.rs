use opendp_ffi::any::AnyObject;
use opendp_ffi::domains::ffi::{
    opendp_domains__atom_domain, opendp_domains__map_domain, opendp_domains__option_domain,
    opendp_domains__vector_domain,
};
use opendp_ffi::domains::{AnyDomain, Domain};
use opendp_ffi::error::{Error, ErrorKind};
use opendp_ffi::measurements::ffi::opendp_measurements__make_base_discrete_exponential;
use opendp_ffi::measurements::{Measurement, Optimize};
use opendp_ffi::metrics::{AnyMetric, Metric};
use opendp_ffi::trans::ffi::{
    opendp_trans__make_bounded_int_monotonic_sum, opendp_trans__make_sized_bounded_int_monotonic_sum,
    opendp_trans__make_subset_by,
};
use opendp_ffi::transformations::ffi::opendp_transformations__make_sum_of_squared_deviations;
use opendp_ffi::transformations::{AnyTransformation, Summation, Transformation};
use opendp_ffi::types::{Primitive, Type};
use opendp_ffi::value::{Atom, Repr, Value};
use std::collections::HashMap;

fn object(value: Value) -> AnyObject {
    AnyObject::new(value)
}

fn vector_domain(name: &str) -> AnyDomain {
    let atoms = opendp_domains__atom_domain(None, 0, Some(name)).into_fallible().unwrap();
    opendp_domains__vector_domain(Some(&atoms), None).into_fallible().unwrap()
}

fn null(argument: &str) -> Error {
    Error::NullArgument { argument: argument.to_string() }
}

fn unsupported(descriptor: &str, operation: &str) -> Error {
    Error::DispatchNotSupported {
        descriptor: Type::parse(descriptor).unwrap(),
        operation: operation.to_string(),
    }
}

fn mismatch(expected: &str, actual: &str) -> Error {
    Error::TypeMismatch {
        expected: Type::parse(expected).unwrap(),
        actual: Type::parse(actual).unwrap(),
    }
}

/// A column of a data frame, as the code that runs a transformation sees it.
#[derive(Debug, Clone, PartialEq)]
enum Column {
    Bools(Vec<bool>),
    Strings(Vec<String>),
}

impl Column {
    fn subset(&self, indicator: &[bool]) -> Column {
        fn keep<T: Clone>(items: &[T], indicator: &[bool]) -> Vec<T> {
            items.iter().zip(indicator).filter(|(_, b)| **b).map(|(v, _)| v.clone()).collect()
        }
        match self {
            Column::Bools(items) => Column::Bools(keep(items, indicator)),
            Column::Strings(items) => Column::Strings(keep(items, indicator)),
        }
    }
}

fn to_owned(strs: &[&'static str]) -> Vec<String> {
    strs.iter().map(|s| s.to_string()).collect()
}

fn dataframe(pairs: Vec<(&str, Column)>) -> HashMap<String, Column> {
    pairs.into_iter().map(|(k, v)| (k.to_owned(), v)).collect()
}

/// Runs a subsetting transformation as its handle describes it. The
/// library builds the handle and runs nothing: the rows that come out are
/// computed here, by this file, from the fields of the handle.
fn invoke_subset(
    transformation: &AnyTransformation,
    frame: &HashMap<String, Column>,
) -> HashMap<String, Column> {
    let name = |a: &Atom| match a {
        Atom::String(s) => s.clone(),
        other => panic!("{other:?}"),
    };
    match &transformation.transformation {
        Transformation::SubsetBy { key, indicator_column, keep_columns } => {
            assert_eq!(*key, Primitive::String);
            let indicator = match &frame[&name(indicator_column)] {
                Column::Bools(b) => b.clone(),
                other => panic!("{other:?}"),
            };
            keep_columns
                .iter()
                .map(|c| (name(c), frame[&name(c)].subset(&indicator)))
                .collect()
        },
        other => panic!("{other:?}"),
    }
}

/// Runs a summing transformation as its handle describes it. The library
/// builds the handle and runs nothing: the sum is computed here, by this
/// file, so a test of the sum tests the library only in the type and the
/// fields that the handle carries.
fn invoke_sum(transformation: &AnyTransformation, arg: AnyObject) -> AnyObject {
    let (size, atom) = match &transformation.transformation {
        Transformation::BoundedIntMonotonicSum { atom, .. } => (None, *atom),
        Transformation::SizedBoundedIntMonotonicSum { size, atom, .. } => (Some(*size), *atom),
        other => panic!("{other:?}"),
    };
    assert_eq!(atom, Primitive::I32);
    let data = arg.downcast(&Type::generic1("Vec", Type::primitive(atom))).unwrap();
    let items = match data.repr() {
        Repr::Vector(_, items) => items.clone(),
        other => panic!("{other:?}"),
    };
    if let Some(size) = size {
        assert_eq!(items.len(), size);
    }
    let sum = items.iter().fold(0i32, |sum, v| match v {
        Atom::I32(x) => sum.saturating_add(*x),
        other => panic!("{other:?}"),
    });
    object(Value::atom(Atom::I32(sum)))
}

fn as_i32(object: AnyObject) -> i32 {
    match object.downcast(&Type::primitive(Primitive::I32)).unwrap().repr() {
        Repr::Atom(Atom::I32(x)) => *x,
        other => panic!("{other:?}"),
    }
}

fn i32s(items: &[i32]) -> AnyObject {
    object(Value::vector(Primitive::I32, items.iter().map(|x| Atom::I32(*x)).collect()).unwrap())
}

#[test]
fn test_make_subset_by_ffi() {
    let indicator = object(Value::atom(Atom::String("A".to_string())));
    let keep =
        object(Value::vector(Primitive::String, vec![Atom::String("B".to_owned())]).unwrap());
    let transformation =
        opendp_trans__make_subset_by(Some(&indicator), Some(&keep), Some("String"))
            .into_fallible()
            .unwrap();
    let arg = dataframe(vec![
        ("A", Column::Bools(vec![true, false, false])),
        ("B", Column::Strings(to_owned(&["1.0", "2.0", "3.0"]))),
    ]);
    // What the library returned: the handle's own fields.
    match &transformation.transformation {
        Transformation::SubsetBy { key, indicator_column, keep_columns } => {
            assert_eq!(*key, Primitive::String);
            assert_eq!(*indicator_column, Atom::String("A".to_string()));
            assert_eq!(*keep_columns, vec![Atom::String("B".to_string())]);
        },
        other => panic!("{other:?}"),
    }
    // The run is this file's own; it reads the column names off the handle.
    let res = invoke_subset(&transformation, &arg);

    let subset = res.get("B").unwrap().clone();

    assert_eq!(subset, Column::Strings(vec!["1.0".to_string()]));
    assert_eq!(res.len(), 1);
}

#[test]
fn test_make_bounded_int_monotonic_sum_ffi() {
    let bounds = object(Value::pair(Atom::I32(0), Atom::I32(10)));
    let transformation = opendp_trans__make_bounded_int_monotonic_sum(Some(&bounds), Some("i32"))
        .into_fallible()
        .unwrap();
    let arg = i32s(&[1, 2, 3]);
    // The run is this file's own; the library is tested by the match below.
    let res = invoke_sum(&transformation, arg);
    let res: i32 = as_i32(res);
    assert_eq!(res, 6);
    match transformation.transformation {
        Transformation::BoundedIntMonotonicSum { atom, bounds } => {
            assert_eq!(atom, Primitive::I32);
            assert_eq!(bounds.lower, Atom::I32(0));
            assert_eq!(bounds.upper, Atom::I32(10));
        },
        other => panic!("{other:?}"),
    }
}

#[test]
fn test_make_sized_bounded_int_monotonic_sum_ffi() {
    let bounds = object(Value::pair(Atom::I32(0), Atom::I32(10)));
    let transformation =
        opendp_trans__make_sized_bounded_int_monotonic_sum(3, Some(&bounds), Some("i32"))
            .into_fallible()
            .unwrap();
    let arg = i32s(&[1, 2, 3]);
    // The run is this file's own; the library is tested by the match below.
    let res = invoke_sum(&transformation, arg);
    let res: i32 = as_i32(res);
    assert_eq!(res, 6);
    match transformation.transformation {
        Transformation::SizedBoundedIntMonotonicSum { size, atom, bounds } => {
            assert_eq!(size, 3);
            assert_eq!(atom, Primitive::I32);
            assert_eq!(bounds.lower, Atom::I32(0));
            assert_eq!(bounds.upper, Atom::I32(10));
        },
        other => panic!("{other:?}"),
    }
}

#[test]
fn subset_by_errors_in_order() {
    let indicator = object(Value::atom(Atom::String("A".to_string())));
    let keep = object(Value::vector(Primitive::String, vec![]).unwrap());
    let call = |i: Option<&AnyObject>, k: Option<&AnyObject>, t: Option<&str>| {
        opendp_trans__make_subset_by(i, k, t).into_fallible().unwrap_err()
    };
    let number = object(Value::atom(Atom::I32(1)));
    for name in [None, Some("(String"), Some("f64"), Some("String"), Some("zz")] {
        assert_eq!(call(None, None, name), null("indicator_column"));
        assert_eq!(call(None, Some(&keep), name), null("indicator_column"));
        assert_eq!(call(Some(&indicator), None, name), null("keep_columns"));
        assert_eq!(call(Some(&number), None, name), null("keep_columns"));
        assert_eq!(call(Some(&keep), None, name), null("keep_columns"));
    }
    assert_eq!(call(Some(&indicator), Some(&keep), None), null("TK"));
    assert_eq!(
        call(Some(&indicator), Some(&keep), Some("(String")).kind(),
        ErrorKind::TypeParseError
    );
    assert_eq!(
        call(Some(&number), Some(&keep), Some("f64")),
        unsupported("f64", "make_subset_by")
    );
    assert_eq!(
        call(Some(&indicator), Some(&keep), Some("Vec<String>")),
        unsupported("Vec<String>", "make_subset_by")
    );
    assert_eq!(call(Some(&keep), Some(&keep), Some("String")), mismatch("String", "Vec<String>"));
    assert_eq!(call(Some(&number), Some(&number), Some("String")), mismatch("String", "i32"));
    assert_eq!(
        call(Some(&indicator), Some(&indicator), Some("String")),
        mismatch("Vec<String>", "String")
    );
    assert_eq!(call(Some(&indicator), Some(&keep), Some("i32")), mismatch("i32", "String"));
}

#[test]
fn monotonic_sum_over_each_integer_type() {
    let cases: Vec<(&str, Atom, Atom)> = vec![
        ("u8", Atom::U8(0), Atom::U8(255)),
        ("u16", Atom::U16(1), Atom::U16(2)),
        ("u32", Atom::U32(1), Atom::U32(2)),
        ("u64", Atom::U64(1), Atom::U64(2)),
        ("u128", Atom::U128(1), Atom::U128(2)),
        ("i8", Atom::I8(-128), Atom::I8(127)),
        ("i16", Atom::I16(-1), Atom::I16(2)),
        ("i32", Atom::I32(-1), Atom::I32(2)),
        ("i64", Atom::I64(-1), Atom::I64(2)),
        ("i128", Atom::I128(-1), Atom::I128(2)),
        ("usize", Atom::Usize(1), Atom::Usize(2)),
    ];
    for (name, lower, upper) in cases {
        let bounds = object(Value::pair(lower.clone(), upper.clone()));
        let t = opendp_trans__make_bounded_int_monotonic_sum(Some(&bounds), Some(name))
            .into_fallible()
            .unwrap();
        match t.transformation {
            Transformation::BoundedIntMonotonicSum { atom, bounds } => {
                assert_eq!(atom.name(), name);
                assert_eq!((bounds.lower, bounds.upper), (lower, upper));
            },
            other => panic!("{other:?}"),
        }
    }
}

#[test]
fn monotonic_sum_errors() {
    let bounds = object(Value::pair(Atom::I32(0), Atom::I32(10)));
    let reversed = object(Value::pair(Atom::I32(10), Atom::I32(0)));
    let call = |b: Option<&AnyObject>, t: Option<&str>| {
        let plain = opendp_trans__make_bounded_int_monotonic_sum(b, t).into_fallible().unwrap_err();
        let sized = opendp_trans__make_sized_bounded_int_monotonic_sum(4, b, t)
            .into_fallible()
            .unwrap_err();
        assert_eq!(plain.kind(), sized.kind());
        (plain, sized)
    };
    assert_eq!(call(Some(&bounds), None), (null("T"), null("T")));
    assert_eq!(call(Some(&bounds), Some("i32>")).0.kind(), ErrorKind::TypeParseError);
    assert_eq!(
        call(Some(&bounds), Some("f64")),
        (
            unsupported("f64", "make_bounded_int_monotonic_sum"),
            unsupported("f64", "make_sized_bounded_int_monotonic_sum")
        )
    );
    assert_eq!(call(Some(&bounds), Some("bool")).0.kind(), ErrorKind::DispatchNotSupported);
    for name in [None, Some("i32"), Some("f64"), Some("i32>"), Some("zz")] {
        assert_eq!(call(None, name), (null("bounds"), null("bounds")));
    }
    assert_eq!(call(Some(&bounds), Some("i64")).0, mismatch("(i64,i64)", "(i32,i32)"));
    assert_eq!(
        call(Some(&reversed), Some("i32")).1,
        Error::DomainConstructionError {
            reason: "lower bound may not be greater than upper bound: i32".into()
        }
    );
}

#[test]
fn sum_of_squared_deviations_selects_the_strategy() {
    let metric = AnyMetric::new(Metric::SymmetricDistance);
    assert_eq!(metric.type_().to_text(), "SymmetricDistance");
    for (float, primitive) in [("f32", Primitive::F32), ("f64", Primitive::F64)] {
        let domain = vector_domain(float);
        for (name, expected) in
            [("Sequential", Summation::Sequential), ("Pairwise", Summation::Pairwise)]
        {
            let s = format!("{name}<{float}>");
            let t = opendp_transformations__make_sum_of_squared_deviations(
                Some(&domain),
                Some(&metric),
                Some(&s),
            )
            .into_fallible()
            .unwrap();
            match t.transformation {
                Transformation::SumOfSquaredDeviations {
                    strategy,
                    atom,
                    input_domain,
                    input_metric,
                } => {
                    assert_eq!(strategy, expected);
                    assert_eq!(atom, primitive);
                    assert_eq!(input_metric, Metric::SymmetricDistance);
                    assert_eq!(
                        input_domain.type_of().to_text(),
                        format!("VectorDomain<AtomDomain<{float}>>")
                    );
                },
                other => panic!("{other:?}"),
            }
        }
    }
}

#[test]
fn sum_of_squared_deviations_errors_in_order() {
    let op = "make_sum_of_squared_deviations";
    let metric = AnyMetric::new(Metric::SymmetricDistance);
    let other_metric = AnyMetric::new(Metric::LInfDiffDistance(Primitive::F64));
    let domain = vector_domain("f64");
    let call = |d: Option<&AnyDomain>, m: Option<&AnyMetric>, s: Option<&str>| {
        opendp_transformations__make_sum_of_squared_deviations(d, m, s).into_fallible().unwrap_err()
    };
    assert_eq!(call(None, None, None), null("input_domain"));
    assert_eq!(call(Some(&domain), None, None), null("input_metric"));
    assert_eq!(call(Some(&domain), Some(&metric), None), null("S"));
    assert_eq!(call(Some(&domain), Some(&metric), Some("Pairwise<<f64>")).kind(), ErrorKind::TypeParseError);
    assert_eq!(
        call(Some(&domain), Some(&metric), Some("f64")),
        Error::NotAContainer { descriptor: Type::primitive(Primitive::F64) }
    );
    assert_eq!(call(Some(&domain), Some(&metric), Some("Pairwise<i32>")), unsupported("i32", op));
    assert_eq!(
        call(Some(&domain), Some(&metric), Some("Vec<f64>")),
        unsupported("Vec<f64>", op)
    );
    assert_eq!(
        call(Some(&domain), Some(&metric), Some("Pairwise<f32>")),
        mismatch("VectorDomain<AtomDomain<f32>>", "VectorDomain<AtomDomain<f64>>")
    );
    assert_eq!(
        call(Some(&domain), Some(&other_metric), Some("Pairwise<f64>")),
        mismatch("SymmetricDistance", "LInfDiffDistance<f64>")
    );
}

fn exponential(
    d: Option<&AnyDomain>,
    m: Option<&AnyMetric>,
    t: Option<&AnyObject>,
    o: Option<&str>,
    q: Option<&str>,
) -> Result<Measurement, Error> {
    opendp_measurements__make_base_discrete_exponential(d, m, t, o, q)
        .into_fallible()
        .map(|m| m.measurement)
}

#[test]
fn discrete_exponential_over_each_pair_of_types() {
    for (scores, input) in [
        ("u32", Primitive::U32),
        ("u64", Primitive::U64),
        ("i32", Primitive::I32),
        ("i64", Primitive::I64),
        ("usize", Primitive::Usize),
        ("f32", Primitive::F32),
        ("f64", Primitive::F64),
    ] {
        let domain = vector_domain(scores);
        let metric = AnyMetric::new(Metric::LInfDiffDistance(input));
        for (noise, output, temperature) in [
            ("f32", Primitive::F32, Atom::F32(1.0f32.to_bits())),
            ("f64", Primitive::F64, Atom::F64(1.0f64.to_bits())),
        ] {
            let t = object(Value::atom(temperature.clone()));
            let m = exponential(Some(&domain), Some(&metric), Some(&t), Some("Maximize"), Some(noise))
                .unwrap();
            match m {
                Measurement::BaseDiscreteExponential {
                    input: i,
                    output: o,
                    input_domain,
                    input_metric,
                    temperature: t,
                    optimize,
                } => {
                    assert_eq!((i, o), (input, output));
                    assert_eq!(input_metric, Metric::LInfDiffDistance(input));
                    assert_eq!(t, temperature);
                    assert_eq!(optimize, Optimize::Max);
                    assert!(matches!(input_domain, Domain::Vector { size: None, .. }));
                },
            }
        }
    }
}

#[test]
fn discrete_exponential_reads_the_word_in_any_case() {
    let domain = vector_domain("i32");
    let metric = AnyMetric::new(Metric::LInfDiffDistance(Primitive::I32));
    let t = object(Value::atom(Atom::F64(1.0f64.to_bits())));
    for (word, expected) in [
        ("min", Optimize::Min),
        ("MIN", Optimize::Min),
        ("Minimize", Optimize::Min),
        ("max", Optimize::Max),
        ("MAXIMUM", Optimize::Max),
        ("mAx", Optimize::Max),
    ] {
        match exponential(Some(&domain), Some(&metric), Some(&t), Some(word), Some("f64")).unwrap()
        {
            Measurement::BaseDiscreteExponential { optimize, .. } => assert_eq!(optimize, expected),
        }
        assert_eq!(Optimize::parse(word).unwrap(), expected);
    }
    for word in ["", "mi", "amin", "median", " min"] {
        let e = exponential(Some(&domain), Some(&metric), Some(&t), Some(word), Some("f64"))
            .unwrap_err();
        assert_eq!(e.kind(), ErrorKind::Internal);
        assert_eq!(e.message(), "FFI: optimize must start with \"min\" or \"max\"");
    }
    assert_eq!(Optimize::from_lowercase("MIN").unwrap_err().kind(), ErrorKind::Internal);
    assert_eq!(Optimize::from_lowercase("min").unwrap(), Optimize::Min);
}

#[test]
fn discrete_exponential_errors_in_order() {
    let op = "make_base_discrete_exponential";
    let domain = vector_domain("i32");
    let atoms = opendp_domains__atom_domain(None, 0, Some("i32")).into_fallible().unwrap();
    let options = opendp_domains__option_domain(Some(&atoms), Some("AtomDomain<i32>"))
        .into_fallible()
        .unwrap();
    let metric = AnyMetric::new(Metric::LInfDiffDistance(Primitive::I32));
    let t = object(Value::atom(Atom::F64(1.0f64.to_bits())));
    let call = |d: Option<&AnyDomain>,
                m: Option<&AnyMetric>,
                t: Option<&AnyObject>,
                o: Option<&str>,
                q: Option<&str>| exponential(d, m, t, o, q).unwrap_err();
    let keys = opendp_domains__atom_domain(None, 0, Some("String")).into_fallible().unwrap();
    let maps = opendp_domains__map_domain(Some(&keys), Some(&atoms)).into_fallible().unwrap();
    for word in [None, Some("average"), Some("min")] {
        for name in [None, Some("f64"), Some("i32"), Some("zz")] {
            assert_eq!(call(None, None, None, word, name), null("input_domain"));
            assert_eq!(call(None, Some(&metric), Some(&t), word, name), null("input_domain"));
            for d in [&domain, &atoms, &options, &maps] {
                assert_eq!(call(Some(d), None, Some(&t), word, name), null("input_metric"));
                assert_eq!(call(Some(d), Some(&metric), None, word, name), null("temperature"));
            }
        }
    }
    assert_eq!(
        call(Some(&maps), Some(&metric), Some(&t), Some("average"), Some("f64")),
        Error::NotAContainer { descriptor: maps.type_().clone() }
    );
    let e = call(Some(&atoms), Some(&metric), Some(&t), Some("average"), Some("f64"));
    assert_eq!(e.kind(), ErrorKind::Internal);
    assert!(e.message().contains("optimize must start with"));
    assert_eq!(
        call(Some(&atoms), Some(&metric), Some(&t), Some("min"), Some("f64")),
        mismatch("VectorDomain<AtomDomain<i32>>", "AtomDomain<i32>")
    );
    let e = call(Some(&domain), Some(&metric), Some(&t), Some("max"), Some("i32"));
    assert_eq!(e, unsupported("i32", op));
    assert!(e.message().contains("i32"));
    assert_eq!(call(Some(&domain), Some(&metric), Some(&t), None, None), null("optimize"));
    assert_eq!(
        call(Some(&domain), Some(&metric), Some(&t), Some("none"), None).kind(),
        ErrorKind::Internal
    );
    assert_eq!(call(Some(&domain), Some(&metric), Some(&t), Some("min"), None), null("QO"));
    assert_eq!(
        call(Some(&domain), Some(&metric), Some(&t), Some("min"), Some("f64,")).kind(),
        ErrorKind::TypeParseError
    );
    assert_eq!(
        call(Some(&vector_domain("u8")), Some(&metric), Some(&t), Some("min"), Some("i32")),
        unsupported("u8", op)
    );
    assert_eq!(
        call(Some(&domain), Some(&metric), Some(&t), Some("min"), Some("i32")),
        unsupported("i32", op)
    );
    assert_eq!(
        call(Some(&options), Some(&metric), Some(&t), Some("min"), Some("f64")),
        mismatch("VectorDomain<AtomDomain<i32>>", "OptionDomain<AtomDomain<i32>>")
    );
    let symmetric = AnyMetric::new(Metric::SymmetricDistance);
    assert_eq!(
        call(Some(&domain), Some(&symmetric), Some(&t), Some("min"), Some("f64")),
        mismatch("LInfDiffDistance<i32>", "SymmetricDistance")
    );
    let other = AnyMetric::new(Metric::LInfDiffDistance(Primitive::I64));
    assert_eq!(
        call(Some(&domain), Some(&other), Some(&t), Some("min"), Some("f64")),
        mismatch("LInfDiffDistance<i32>", "LInfDiffDistance<i64>")
    );
    assert_eq!(
        call(Some(&domain), Some(&metric), Some(&t), Some("min"), Some("f32")),
        mismatch("f32", "f64")
    );
    let list = object(Value::vector(Primitive::F64, vec![]).unwrap());
    assert_eq!(
        call(Some(&domain), Some(&metric), Some(&list), Some("min"), Some("f64")),
        mismatch("f64", "Vec<f64>")
    );
}

#[test]
fn metric_handles() {
    let m = AnyMetric::new(Metric::LInfDiffDistance(Primitive::U32));
    assert_eq!(m.type_().to_text(), "LInfDiffDistance<u32>");
    assert_eq!(
        m.downcast_ref(&Type::parse("LInfDiffDistance<u32>").unwrap()).unwrap(),
        Metric::LInfDiffDistance(Primitive::U32)
    );
    assert_eq!(
        m.downcast_ref(&Type::parse("SymmetricDistance").unwrap()).unwrap_err(),
        mismatch("SymmetricDistance", "LInfDiffDistance<u32>")
    );
}
