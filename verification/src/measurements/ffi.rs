//! The boundary's entry points for measurements.
use crate::any::AnyObject;
use crate::dispatch::{
    dispatch2, floats_spec, lemma_declared_sets, lemma_leaves_contains, CandidateSet,
};
use crate::domains::ffi::vector_domain_shape;
use crate::domains::{AnyDomain, DomainView};
use crate::error::{Error, ErrorView, Fallible, FfiResult};
use crate::measurements::{optimize_of, AnyMeasurement, Measurement, MeasurementView, Optimize};
use crate::metrics::{AnyMetric, Metric};
use crate::parse::parse_spec;
use crate::types::{Primitive, Shape, Type};
use crate::util::{lowercase_of, text_of, to_str, try_as_ref, view_of};
use crate::value::{Repr, ValueView};
use vstd::prelude::*;

verus! {

/// The types of score that the discrete exponential mechanism takes, in
/// declaration order.
pub open spec fn scores_spec() -> Seq<Primitive> {
    seq![
        Primitive::U32,
        Primitive::U64,
        Primitive::I32,
        Primitive::I64,
        Primitive::Usize,
        Primitive::F32,
        Primitive::F64,
    ]
}

/// The mechanism that the implementation for scores of type `input` and
/// noise of type `output` builds from the erased arguments: each argument
/// must be of the type that the implementation expects.
pub open spec fn exponential_spec(
    input: Primitive,
    output: Primitive,
    domain: DomainView,
    metric: Metric,
    temperature: ValueView,
    optimize: Optimize,
) -> Result<MeasurementView, ErrorView> {
    if domain.type_shape() != vector_domain_shape(input) {
        Err(
            ErrorView::TypeMismatch {
                expected: vector_domain_shape(input),
                actual: domain.type_shape(),
            },
        )
    } else if metric != Metric::LInfDiffDistance(input) {
        Err(
            ErrorView::TypeMismatch {
                expected: Metric::LInfDiffDistance(input).type_shape(),
                actual: metric.type_shape(),
            },
        )
    } else {
        match temperature {
            ValueView::Atom(t) => if t.primitive() == output {
                Ok(
                    MeasurementView::BaseDiscreteExponential {
                        input,
                        output,
                        input_domain: domain,
                        input_metric: metric,
                        temperature: t,
                        optimize,
                    },
                )
            } else {
                Err(
                    ErrorView::TypeMismatch {
                        expected: Shape::Primitive(output),
                        actual: temperature.type_shape(),
                    },
                )
            },
            _ => Err(
                ErrorView::TypeMismatch {
                    expected: Shape::Primitive(output),
                    actual: temperature.type_shape(),
                },
            ),
        }
    }
}

/// The two-axis dispatch of the mechanism: the outer axis is the type of
/// the scores, the inner one the type of the noise.
pub open spec fn exponential_dispatch_spec(
    scores: Shape,
    noise: Shape,
    domain: DomainView,
    metric: Metric,
    temperature: ValueView,
    optimize: Optimize,
) -> Result<MeasurementView, ErrorView> {
    match scores {
        Shape::Primitive(input) => if scores_spec().contains(input) {
            match noise {
                Shape::Primitive(output) => if output.is_float() {
                    exponential_spec(input, output, domain, metric, temperature, optimize)
                } else {
                    Err(
                        ErrorView::DispatchNotSupported {
                            descriptor: noise,
                            operation: "make_base_discrete_exponential"@,
                        },
                    )
                },
                _ => Err(
                    ErrorView::DispatchNotSupported {
                        descriptor: noise,
                        operation: "make_base_discrete_exponential"@,
                    },
                ),
            }
        } else {
            Err(
                ErrorView::DispatchNotSupported {
                    descriptor: scores,
                    operation: "make_base_discrete_exponential"@,
                },
            )
        },
        _ => Err(
            ErrorView::DispatchNotSupported {
                descriptor: scores,
                operation: "make_base_discrete_exponential"@,
            },
        ),
    }
}

/// What `opendp_measurements__make_base_discrete_exponential` returns. The
/// three handles are borrowed first. The type of the scores is the leaf of
/// the input domain's own descriptor; then the word is read, then the type
/// of the noise.
pub open spec fn make_base_discrete_exponential_spec(
    input_domain: Option<DomainView>,
    input_metric: Option<Metric>,
    temperature: Option<ValueView>,
    optimize: Option<Seq<char>>,
    noise: Option<Seq<char>>,
) -> Result<MeasurementView, ErrorView> {
    match input_domain {
        None => Err(ErrorView::NullArgument { argument: "input_domain"@ }),
        Some(domain) => match input_metric {
            None => Err(ErrorView::NullArgument { argument: "input_metric"@ }),
            Some(metric) => match temperature {
                None => Err(ErrorView::NullArgument { argument: "temperature"@ }),
                Some(temp) => match domain.type_shape().leaf() {
                    Err(e) => Err(e),
                    Ok(scores) => match optimize {
                        None => Err(ErrorView::NullArgument { argument: "optimize"@ }),
                        Some(word) => match optimize_of(lowercase_of(word)) {
                            Err(e) => Err(e),
                            Ok(o) => match noise {
                                None => Err(ErrorView::NullArgument { argument: "QO"@ }),
                                Some(name) => match parse_spec(name) {
                                    None => Err(ErrorView::TypeParseError { text: name }),
                                    Some(q) => exponential_dispatch_spec(
                                        scores,
                                        q,
                                        domain,
                                        metric,
                                        temp,
                                        o,
                                    ),
                                },
                            },
                        },
                    },
                },
            },
        },
    }
}

fn monomorphize(
    input: Primitive,
    output: Primitive,
    input_domain: &AnyDomain,
    input_metric: &AnyMetric,
    temperature: &AnyObject,
    optimize: Optimize,
) -> (r: Fallible<AnyMeasurement>)
    ensures
        match r {
            Ok(m) => exponential_spec(
                input,
                output,
                input_domain@,
                input_metric@,
                temperature@,
                optimize,
            ) == Ok::<MeasurementView, ErrorView>(m@),
            Err(e) => exponential_spec(
                input,
                output,
                input_domain@,
                input_metric@,
                temperature@,
                optimize,
            ) == Err::<MeasurementView, ErrorView>(e@),
        },
{
    let domain_type = Type::generic1(
        "VectorDomain",
        Type::generic1("AtomDomain", Type::primitive(input)),
    );
    let domain = match input_domain.downcast_ref(&domain_type) {
        Ok(d) => d.clone(),
        Err(e) => {
            return Err(e);
        },
    };
    let metric_type = Metric::LInfDiffDistance(input).type_of();
    let metric = match input_metric.downcast_ref(&metric_type) {
        Ok(m) => m,
        Err(e) => {
            return Err(e);
        },
    };
    proof {
        lemma_metric_types(input_metric@, Metric::LInfDiffDistance(input));
    }
    let noise_type = Type::primitive(output);
    let value = match temperature.downcast_ref(&noise_type) {
        Ok(v) => v,
        Err(e) => {
            return Err(e);
        },
    };
    match value.repr() {
        Repr::Atom(t) => Ok(
            AnyMeasurement::new(
                Measurement::BaseDiscreteExponential {
                    input,
                    output,
                    input_domain: domain,
                    input_metric: metric,
                    temperature: t.clone(),
                    optimize,
                },
            ),
        ),
        _ => Err(Error::TypeMismatch { expected: noise_type, actual: temperature.type_().clone() }),
    }
}

/// Two metrics have the same type only where they are the same metric.
pub proof fn lemma_metric_types(a: Metric, b: Metric)
    ensures
        a.type_shape() == b.type_shape() <==> a == b,
{
    if a.type_shape() == b.type_shape() {
        match (a, b) {
            (Metric::LInfDiffDistance(p), Metric::LInfDiffDistance(q)) => {
                assert(a.type_shape()->Generic_1[0] == b.type_shape()->Generic_1[0]);
            },
            _ => {},
        }
    }
}

/// Constructs the discrete exponential mechanism. The type of the scores
/// comes from the input domain, the type of the noise from `QO`. Every
/// handle is borrowed before anything else is looked at.
#[allow(non_snake_case)]
pub fn opendp_measurements__make_base_discrete_exponential(
    input_domain: Option<&AnyDomain>,
    input_metric: Option<&AnyMetric>,
    temperature: Option<&AnyObject>,
    optimize: Option<&str>,
    QO: Option<&str>,
) -> (r: FfiResult<AnyMeasurement>)
    ensures
        match r {
            FfiResult::Success(m) => make_base_discrete_exponential_spec(
                view_of(input_domain),
                view_of(input_metric),
                view_of(temperature),
                text_of(optimize),
                text_of(QO),
            ) == Ok::<MeasurementView, ErrorView>(m@),
            FfiResult::Failure(e) => make_base_discrete_exponential_spec(
                view_of(input_domain),
                view_of(input_metric),
                view_of(temperature),
                text_of(optimize),
                text_of(QO),
            ) == Err::<MeasurementView, ErrorView>(e@),
        },
{
    let input_domain = match try_as_ref(input_domain, "input_domain") {
        Ok(d) => d,
        Err(e) => {
            return FfiResult::Failure(e);
        },
    };
    let input_metric = match try_as_ref(input_metric, "input_metric") {
        Ok(m) => m,
        Err(e) => {
            return FfiResult::Failure(e);
        },
    };
    let temperature = match try_as_ref(temperature, "temperature") {
        Ok(t) => t,
        Err(e) => {
            return FfiResult::Failure(e);
        },
    };
    let TIA = match input_domain.type_().get_leaf() {
        Ok(t) => t,
        Err(e) => {
            return FfiResult::Failure(e);
        },
    };
    let word = match to_str(optimize, "optimize") {
        Ok(w) => w,
        Err(e) => {
            return FfiResult::Failure(e);
        },
    };
    let optimize = match Optimize::parse(word) {
        Ok(o) => o,
        Err(e) => {
            return FfiResult::Failure(e);
        },
    };
    let name = match to_str(QO, "QO") {
        Ok(n) => n,
        Err(e) => {
            return FfiResult::Failure(e);
        },
    };
    let QO = match Type::parse(name) {
        Ok(t) => t,
        Err(e) => {
            return FfiResult::Failure(e);
        },
    };
    let mut scores: Vec<Primitive> = Vec::new();
    scores.push(Primitive::U32);
    scores.push(Primitive::U64);
    scores.push(Primitive::I32);
    scores.push(Primitive::I64);
    scores.push(Primitive::Usize);
    scores.push(Primitive::F32);
    scores.push(Primitive::F64);
    assert(scores@ =~= scores_spec());
    let scores = CandidateSet::of_primitives(scores);
    let floats = CandidateSet::floats();
    proof {
        lemma_leaves_contains(scores_spec(), TIA@);
        lemma_leaves_contains(floats_spec(), QO@);
        if QO@ is Primitive {
            lemma_declared_sets(QO@->Primitive_0);
        }
    }
    let outcome = match dispatch2(&scores, &TIA, &floats, &QO, "make_base_discrete_exponential") {
        Ok(_) => match (TIA.as_primitive(), QO.as_primitive()) {
            (Some(input), Some(output)) => monomorphize(
                input,
                output,
                input_domain,
                input_metric,
                temperature,
                optimize,
            ),
            _ => Err(
                Error::DispatchNotSupported {
                    descriptor: TIA,
                    operation: String::from_str("make_base_discrete_exponential"),
                },
            ),
        },
        Err(e) => Err(e),
    };
    FfiResult::from_fallible(outcome)
}

} // verus!
