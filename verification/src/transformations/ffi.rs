//! The boundary's entry point for the sum of squared deviations.
use crate::dispatch::{floats_spec, lemma_declared_sets, lemma_leaves_contains, CandidateSet};
use crate::domains::ffi::vector_domain_shape;
use crate::domains::{AnyDomain, DomainView};
use crate::error::{ErrorView, Fallible, FfiResult};
use crate::measurements::ffi::lemma_metric_types;
use crate::metrics::{AnyMetric, Metric};
use crate::parse::parse_spec;
use crate::transformations::{AnyTransformation, Summation, Transformation, TransformationView};
use crate::types::{lemma_shapes, shapes, Plain, Primitive, Shape, Type};
use crate::util::{text_of, to_str, try_as_ref, view_of};
use vstd::prelude::*;

verus! {

/// The descriptor `Sequential<T>`.
pub open spec fn sequential_shape(t: Shape) -> Shape {
    Shape::Generic("Sequential"@, seq![t])
}

/// The descriptor `Pairwise<T>`.
pub open spec fn pairwise_shape(t: Shape) -> Shape {
    Shape::Generic("Pairwise"@, seq![t])
}

/// The transformation that the implementation for the order `strategy`
/// over floats of type `atom` builds from the erased arguments.
pub open spec fn deviations_spec(
    strategy: Summation,
    atom: Primitive,
    domain: DomainView,
    metric: Metric,
) -> Result<TransformationView, ErrorView> {
    if domain.type_shape() != vector_domain_shape(atom) {
        Err(
            ErrorView::TypeMismatch {
                expected: vector_domain_shape(atom),
                actual: domain.type_shape(),
            },
        )
    } else if metric != Metric::SymmetricDistance {
        Err(
            ErrorView::TypeMismatch {
                expected: Metric::SymmetricDistance.type_shape(),
                actual: metric.type_shape(),
            },
        )
    } else {
        Ok(
            TransformationView::SumOfSquaredDeviations {
                strategy,
                atom,
                input_domain: domain,
                input_metric: metric,
            },
        )
    }
}

/// The inner dispatch: `s` is matched against `Sequential<T>` and
/// `Pairwise<T>`, in this order.
pub open spec fn strategy_spec(s: Shape, atom: Primitive, domain: DomainView, metric: Metric)
    -> Result<TransformationView, ErrorView> {
    if s == sequential_shape(Shape::Primitive(atom)) {
        deviations_spec(Summation::Sequential, atom, domain, metric)
    } else if s == pairwise_shape(Shape::Primitive(atom)) {
        deviations_spec(Summation::Pairwise, atom, domain, metric)
    } else {
        Err(
            ErrorView::DispatchNotSupported {
                descriptor: s,
                operation: "make_sum_of_squared_deviations"@,
            },
        )
    }
}

/// What `opendp_transformations__make_sum_of_squared_deviations` returns.
/// The outer dispatch is on the argument of `S`, which must be a float.
pub open spec fn make_sum_of_squared_deviations_spec(
    input_domain: Option<DomainView>,
    input_metric: Option<Metric>,
    strategy: Option<Seq<char>>,
) -> Result<TransformationView, ErrorView> {
    match input_domain {
        None => Err(ErrorView::NullArgument { argument: "input_domain"@ }),
        Some(domain) => match input_metric {
            None => Err(ErrorView::NullArgument { argument: "input_metric"@ }),
            Some(metric) => match strategy {
                None => Err(ErrorView::NullArgument { argument: "S"@ }),
                Some(name) => match parse_spec(name) {
                    None => Err(ErrorView::TypeParseError { text: name }),
                    Some(s) => match s.atom() {
                        None => Err(ErrorView::NotAContainer { descriptor: s }),
                        Some(t) => match t {
                            Shape::Primitive(atom) => if atom.is_float() {
                                strategy_spec(s, atom, domain, metric)
                            } else {
                                Err(
                                    ErrorView::DispatchNotSupported {
                                        descriptor: t,
                                        operation: "make_sum_of_squared_deviations"@,
                                    },
                                )
                            },
                            _ => Err(
                                ErrorView::DispatchNotSupported {
                                    descriptor: t,
                                    operation: "make_sum_of_squared_deviations"@,
                                },
                            ),
                        },
                    },
                },
            },
        },
    }
}

fn monomorphize2(
    strategy: Summation,
    atom: Primitive,
    input_domain: &AnyDomain,
    input_metric: &AnyMetric,
) -> (r: Fallible<AnyTransformation>)
    ensures
        match r {
            Ok(t) => deviations_spec(strategy, atom, input_domain@, input_metric@) == Ok::<
                TransformationView,
                ErrorView,
            >(t@),
            Err(e) => deviations_spec(strategy, atom, input_domain@, input_metric@) == Err::<
                TransformationView,
                ErrorView,
            >(e@),
        },
{
    let domain_type = Type::generic1(
        "VectorDomain",
        Type::generic1("AtomDomain", Type::primitive(atom)),
    );
    let domain = match input_domain.downcast_ref(&domain_type) {
        Ok(d) => d.clone(),
        Err(e) => {
            return Err(e);
        },
    };
    let metric = match input_metric.downcast_ref(&Type::plain(Plain::SymmetricDistance)) {
        Ok(m) => m,
        Err(e) => {
            return Err(e);
        },
    };
    proof {
        lemma_metric_types(input_metric@, Metric::SymmetricDistance);
    }
    Ok(
        AnyTransformation::new(
            Transformation::SumOfSquaredDeviations {
                strategy,
                atom,
                input_domain: domain,
                input_metric: metric,
            },
        ),
    )
}

fn monomorphize(atom: Primitive, input_domain: &AnyDomain, input_metric: &AnyMetric, S: &Type) -> (r:
    Fallible<AnyTransformation>)
    ensures
        match r {
            Ok(t) => strategy_spec(S@, atom, input_domain@, input_metric@) == Ok::<
                TransformationView,
                ErrorView,
            >(t@),
            Err(e) => strategy_spec(S@, atom, input_domain@, input_metric@) == Err::<
                TransformationView,
                ErrorView,
            >(e@),
        },
{
    let mut strategies: Vec<Type> = Vec::new();
    strategies.push(Type::generic1("Sequential", Type::primitive(atom)));
    strategies.push(Type::generic1("Pairwise", Type::primitive(atom)));
    proof {
        lemma_shapes(strategies@);
        assert(shapes(strategies@) =~= seq![
            sequential_shape(Shape::Primitive(atom)),
            pairwise_shape(Shape::Primitive(atom)),
        ]);
    }
    let strategies = CandidateSet::of(strategies);
    match strategies.dispatch(S, "make_sum_of_squared_deviations") {
        Ok(at) => {
            if at == 0 {
                monomorphize2(Summation::Sequential, atom, input_domain, input_metric)
            } else {
                monomorphize2(Summation::Pairwise, atom, input_domain, input_metric)
            }
        },
        Err(e) => {
            proof {
                assert(strategies@[0] == sequential_shape(Shape::Primitive(atom)));
                assert(strategies@[1] == pairwise_shape(Shape::Primitive(atom)));
            }
            Err(e)
        },
    }
}

/// Constructs the sum of squared deviations. `S` names the summation
/// strategy, `Sequential<T>` or `Pairwise<T>`, for a float type `T`.
#[allow(non_snake_case)]
pub fn opendp_transformations__make_sum_of_squared_deviations(
    input_domain: Option<&AnyDomain>,
    input_metric: Option<&AnyMetric>,
    S: Option<&str>,
) -> (r: FfiResult<AnyTransformation>)
    ensures
        match r {
            FfiResult::Success(t) => make_sum_of_squared_deviations_spec(
                view_of(input_domain),
                view_of(input_metric),
                text_of(S),
            ) == Ok::<TransformationView, ErrorView>(t@),
            FfiResult::Failure(e) => make_sum_of_squared_deviations_spec(
                view_of(input_domain),
                view_of(input_metric),
                text_of(S),
            ) == Err::<TransformationView, ErrorView>(e@),
        },
{
    let input_domain = match try_as_ref(input_domain, "input_domain") {
        Ok(d) => d,
        Err(e) => {
            return FfiResult::Failure(e);
        },
    };
    let input_metric = match try_as_ref(input_metric, "input_metric") {
        Ok(m) => m,
        Err(e) => {
            return FfiResult::Failure(e);
        },
    };
    let name = match to_str(S, "S") {
        Ok(n) => n,
        Err(e) => {
            return FfiResult::Failure(e);
        },
    };
    let S = match Type::parse(name) {
        Ok(t) => t,
        Err(e) => {
            return FfiResult::Failure(e);
        },
    };
    let T = match S.get_atom() {
        Ok(t) => t,
        Err(e) => {
            return FfiResult::Failure(e);
        },
    };
    proof {
        lemma_leaves_contains(floats_spec(), T@);
        if T@ is Primitive {
            lemma_declared_sets(T@->Primitive_0);
        }
    }
    let outcome = match CandidateSet::floats().dispatch_leaf(
        &T,
        "make_sum_of_squared_deviations",
    ) {
        Ok(atom) => monomorphize(atom, input_domain, input_metric, &S),
        Err(e) => Err(e),
    };
    FfiResult::from_fallible(outcome)
}

} // verus!
