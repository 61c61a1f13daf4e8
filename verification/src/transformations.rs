//! Transformations, and the handle that carries one.
use crate::domains::{Bounds, BoundsView, Domain, DomainView};
use crate::metrics::Metric;
use crate::types::Primitive;
use crate::value::{atom_views, Atom, AtomView};
use vstd::prelude::*;

pub mod ffi;

verus! {

/// The order in which a sum adds its terms.
#[derive(Clone, Copy, PartialEq, Eq, Debug, Structural)]
pub enum Summation {
    Sequential,
    Pairwise,
}

/// The transformations the boundary can build, each with the types that
/// selected its implementation and the arguments it was given.
#[derive(Debug)]
pub enum Transformation {
    /// Keeps the rows of a data frame that a boolean column marks, and of
    /// them the named columns. Column names are of type `key`.
    SubsetBy { key: Primitive, indicator_column: Atom, keep_columns: Vec<Atom> },
    /// The sum of bounded integers of type `atom`, of any number of them.
    BoundedIntMonotonicSum { atom: Primitive, bounds: Bounds },
    /// The sum of `size` bounded integers of type `atom`.
    SizedBoundedIntMonotonicSum { size: usize, atom: Primitive, bounds: Bounds },
    /// The sum of the squared deviations of floats of type `atom` from
    /// their mean, added up in the order `strategy`.
    SumOfSquaredDeviations {
        strategy: Summation,
        atom: Primitive,
        input_domain: Domain,
        input_metric: Metric,
    },
}

/// The mathematical form of a transformation.
pub enum TransformationView {
    SubsetBy { key: Primitive, indicator_column: AtomView, keep_columns: Seq<AtomView> },
    BoundedIntMonotonicSum { atom: Primitive, bounds: BoundsView },
    SizedBoundedIntMonotonicSum { size: nat, atom: Primitive, bounds: BoundsView },
    SumOfSquaredDeviations {
        strategy: Summation,
        atom: Primitive,
        input_domain: DomainView,
        input_metric: Metric,
    },
}

impl View for Transformation {
    type V = TransformationView;

    open spec fn view(&self) -> TransformationView {
        match self {
            Transformation::SubsetBy { key, indicator_column, keep_columns } => {
                TransformationView::SubsetBy {
                    key: *key,
                    indicator_column: indicator_column@,
                    keep_columns: atom_views(keep_columns@),
                }
            },
            Transformation::BoundedIntMonotonicSum { atom, bounds } => {
                TransformationView::BoundedIntMonotonicSum { atom: *atom, bounds: bounds@ }
            },
            Transformation::SizedBoundedIntMonotonicSum { size, atom, bounds } => {
                TransformationView::SizedBoundedIntMonotonicSum {
                    size: *size as nat,
                    atom: *atom,
                    bounds: bounds@,
                }
            },
            Transformation::SumOfSquaredDeviations {
                strategy,
                atom,
                input_domain,
                input_metric,
            } => TransformationView::SumOfSquaredDeviations {
                strategy: *strategy,
                atom: *atom,
                input_domain: input_domain@,
                input_metric: *input_metric,
            },
        }
    }
}

/// A transformation behind a handle.
#[derive(Debug)]
pub struct AnyTransformation {
    pub transformation: Transformation,
}

impl View for AnyTransformation {
    type V = TransformationView;

    open spec fn view(&self) -> TransformationView {
        self.transformation@
    }
}

impl AnyTransformation {
    /// Wraps a transformation.
    pub fn new(transformation: Transformation) -> (r: AnyTransformation)
        ensures
            r@ == transformation@,
    {
        AnyTransformation { transformation }
    }
}

} // verus!
