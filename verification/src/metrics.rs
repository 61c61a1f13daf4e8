//! Metrics, and the handle that carries one.
use crate::any::{check_type, downcast_spec};
use crate::error::{ErrorView, Fallible};
use crate::types::{Plain, Primitive, Shape, Type};
use vstd::prelude::*;

verus! {

/// The metrics the boundary knows.
#[derive(Clone, Copy, PartialEq, Eq, Debug, Structural)]
pub enum Metric {
    /// The number of records by which two data sets differ.
    SymmetricDistance,
    /// The greatest difference between the scores of type `T` of two
    /// vectors.
    LInfDiffDistance(Primitive),
}

impl Metric {
    /// The descriptor of the metric's type.
    pub open spec fn type_shape(self) -> Shape {
        match self {
            Metric::SymmetricDistance => Shape::Plain(Plain::SymmetricDistance),
            Metric::LInfDiffDistance(p) => Shape::Generic(
                "LInfDiffDistance"@,
                seq![Shape::Primitive(p)],
            ),
        }
    }

    /// The descriptor of the metric's type.
    pub fn type_of(self) -> (t: Type)
        ensures
            t@ == self.type_shape(),
    {
        match self {
            Metric::SymmetricDistance => Type::plain(Plain::SymmetricDistance),
            Metric::LInfDiffDistance(p) => Type::generic1("LInfDiffDistance", Type::primitive(p)),
        }
    }
}

/// A metric behind a handle, with the descriptor of its type.
#[derive(Debug)]
pub struct AnyMetric {
    type_: Type,
    metric: Metric,
}

impl View for AnyMetric {
    type V = Metric;

    closed spec fn view(&self) -> Metric {
        self.metric
    }
}

impl AnyMetric {
    #[verifier::type_invariant]
    spec fn inv(self) -> bool {
        self.type_@ == self.metric.type_shape()
    }

    /// Wraps a metric with the descriptor of its type.
    pub fn new(metric: Metric) -> (r: AnyMetric)
        ensures
            r@ == metric,
    {
        AnyMetric { type_: metric.type_of(), metric }
    }

    /// The descriptor of the metric's type.
    pub fn type_(&self) -> (t: &Type)
        ensures
            t@ == self@.type_shape(),
    {
        proof {
            use_type_invariant(self);
        }
        &self.type_
    }

    /// Reads the metric as the type `expected`, which must equal the
    /// stored descriptor.
    pub fn downcast_ref(&self, expected: &Type) -> (r: Fallible<Metric>)
        ensures
            match r {
                Ok(m) => downcast_spec(self@.type_shape(), expected@, self@) == Ok::<
                    Metric,
                    ErrorView,
                >(m),
                Err(e) => downcast_spec(self@.type_shape(), expected@, self@) == Err::<
                    Metric,
                    ErrorView,
                >(e@),
            },
    {
        proof {
            use_type_invariant(self);
        }
        match check_type(&self.type_, expected) {
            Ok(_) => Ok(self.metric),
            Err(e) => Err(e),
        }
    }
}

} // verus!
