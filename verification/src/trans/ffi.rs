//! The boundary's entry points for subsetting and for monotonic sums.
use crate::any::AnyObject;
use crate::dispatch::{
    hashable_spec, integers_spec, lemma_declared_sets, lemma_leaves_contains, CandidateSet,
};
use crate::domains::ffi::bounds_spec;
use crate::domains::{Bounds, BoundsView};
use crate::error::{Error, ErrorView, Fallible, FfiResult};
use crate::parse::parse_spec;
use crate::transformations::{AnyTransformation, Transformation, TransformationView};
use crate::types::{Primitive, Shape, Type};
use crate::util::{text_of, to_str, try_as_ref, view_of};
use crate::value::{atom_views, Atom, Repr, ValueView};
use vstd::prelude::*;

verus! {

/// The descriptor `Vec<T>`.
pub open spec fn vec_shape(p: Primitive) -> Shape {
    Shape::Generic("Vec"@, seq![Shape::Primitive(p)])
}

/// The transformation that the implementation for column names of type
/// `key` builds from the erased arguments: the indicator column must be a
/// `key`, the columns to keep a `Vec<key>`.
pub open spec fn subset_by_spec(key: Primitive, indicator: ValueView, keep: ValueView) -> Result<
    TransformationView,
    ErrorView,
> {
    if indicator.type_shape() != Shape::Primitive(key) {
        Err(
            ErrorView::TypeMismatch {
                expected: Shape::Primitive(key),
                actual: indicator.type_shape(),
            },
        )
    } else if keep.type_shape() != vec_shape(key) {
        Err(ErrorView::TypeMismatch { expected: vec_shape(key), actual: keep.type_shape() })
    } else {
        Ok(
            TransformationView::SubsetBy {
                key,
                indicator_column: indicator->Atom_0,
                keep_columns: keep->Vector_1,
            },
        )
    }
}

/// What `opendp_trans__make_subset_by` returns. Both handles are borrowed
/// before the type name is read.
pub open spec fn make_subset_by_spec(
    indicator_column: Option<ValueView>,
    keep_columns: Option<ValueView>,
    key: Option<Seq<char>>,
) -> Result<TransformationView, ErrorView> {
    match indicator_column {
        None => Err(ErrorView::NullArgument { argument: "indicator_column"@ }),
        Some(indicator) => match keep_columns {
            None => Err(ErrorView::NullArgument { argument: "keep_columns"@ }),
            Some(keep) => match key {
                None => Err(ErrorView::NullArgument { argument: "TK"@ }),
                Some(name) => match parse_spec(name) {
                    None => Err(ErrorView::TypeParseError { text: name }),
                    Some(t) => match t {
                        Shape::Primitive(p) => if !p.is_float() {
                            subset_by_spec(p, indicator, keep)
                        } else {
                            Err(
                                ErrorView::DispatchNotSupported {
                                    descriptor: t,
                                    operation: "make_subset_by"@,
                                },
                            )
                        },
                        _ => Err(
                            ErrorView::DispatchNotSupported {
                                descriptor: t,
                                operation: "make_subset_by"@,
                            },
                        ),
                    },
                },
            },
        },
    }
}

/// Copies a list of atoms.
fn clone_atoms(items: &Vec<Atom>) -> (r: Vec<Atom>)
    ensures
        atom_views(r@) == atom_views(items@),
{
    let mut out: Vec<Atom> = Vec::new();
    let mut i: usize = 0;
    while i < items.len()
        invariant
            0 <= i <= items.len(),
            out.len() == i,
            forall|j: int| 0 <= j < i ==> out[j]@ == items[j]@,
        decreases items.len() - i,
    {
        out.push(items[i].clone());
        i = i + 1;
    }
    assert(atom_views(out@) =~= atom_views(items@));
    out
}

fn monomorphize_subset(key: Primitive, indicator: &AnyObject, keep: &AnyObject) -> (r: Fallible<
    AnyTransformation,
>)
    ensures
        match r {
            Ok(t) => subset_by_spec(key, indicator@, keep@) == Ok::<
                TransformationView,
                ErrorView,
            >(t@),
            Err(e) => subset_by_spec(key, indicator@, keep@) == Err::<
                TransformationView,
                ErrorView,
            >(e@),
        },
{
    let key_type = Type::primitive(key);
    let indicator_column = match indicator.downcast_ref(&key_type) {
        Ok(v) => match v.repr() {
            Repr::Atom(a) => a.clone(),
            _ => {
                return Err(
                    Error::TypeMismatch { expected: key_type, actual: indicator.type_().clone() },
                );
            },
        },
        Err(e) => {
            return Err(e);
        },
    };
    let list_type = Type::generic1("Vec", Type::primitive(key));
    let keep_columns = match keep.downcast_ref(&list_type) {
        Ok(v) => match v.repr() {
            Repr::Vector(_, items) => clone_atoms(items),
            _ => {
                proof {
                    lemma_vector_shapes(v@);
                }
                return Err(
                    Error::TypeMismatch { expected: list_type, actual: keep.type_().clone() },
                );
            },
        },
        Err(e) => {
            return Err(e);
        },
    };
    Ok(AnyTransformation::new(Transformation::SubsetBy { key, indicator_column, keep_columns }))
}

/// Only a vector has a type named `Vec`.
proof fn lemma_vector_shapes(v: ValueView)
    ensures
        v.type_shape().has_name("Vec"@) <==> v is Vector,
{
    reveal_strlit("Vec");
    reveal_strlit("Option");
    reveal_strlit("HashMap");
    assert("Vec"@.len() == 3);
    assert("Option"@.len() == 6);
    assert("HashMap"@.len() == 7);
}

/// Constructs the transformation that subsets a data frame by a boolean
/// column. `TK` names the type of the column names, which must be
/// hashable.
#[allow(non_snake_case)]
pub fn opendp_trans__make_subset_by(
    indicator_column: Option<&AnyObject>,
    keep_columns: Option<&AnyObject>,
    TK: Option<&str>,
) -> (r: FfiResult<AnyTransformation>)
    ensures
        match r {
            FfiResult::Success(t) => make_subset_by_spec(
                view_of(indicator_column),
                view_of(keep_columns),
                text_of(TK),
            ) == Ok::<TransformationView, ErrorView>(t@),
            FfiResult::Failure(e) => make_subset_by_spec(
                view_of(indicator_column),
                view_of(keep_columns),
                text_of(TK),
            ) == Err::<TransformationView, ErrorView>(e@),
        },
{
    let indicator = match try_as_ref(indicator_column, "indicator_column") {
        Ok(o) => o,
        Err(e) => {
            return FfiResult::Failure(e);
        },
    };
    let keep = match try_as_ref(keep_columns, "keep_columns") {
        Ok(o) => o,
        Err(e) => {
            return FfiResult::Failure(e);
        },
    };
    let name = match to_str(TK, "TK") {
        Ok(n) => n,
        Err(e) => {
            return FfiResult::Failure(e);
        },
    };
    let TK = match Type::parse(name) {
        Ok(t) => t,
        Err(e) => {
            return FfiResult::Failure(e);
        },
    };
    proof {
        lemma_leaves_contains(hashable_spec(), TK@);
        if TK@ is Primitive {
            lemma_declared_sets(TK@->Primitive_0);
        }
    }
    let outcome = match CandidateSet::hashable().dispatch_leaf(&TK, "make_subset_by") {
        Ok(key) => monomorphize_subset(key, indicator, keep),
        Err(e) => Err(e),
    };
    FfiResult::from_fallible(outcome)
}

/// The interval that a bounds argument asks for: the argument must be a
/// pair `(T,T)` whose first member is not greater than its second.
pub open spec fn required_bounds_spec(atom: Primitive, bounds: ValueView) -> Result<
    BoundsView,
    ErrorView,
> {
    match bounds_spec(atom, Some(bounds)) {
        Ok(b) => Ok(b->Some_0),
        Err(e) => Err(e),
    }
}

/// Reads a bounds argument for integers of type `atom`.
fn read_required_bounds(atom: Primitive, object: &AnyObject) -> (r: Fallible<Bounds>)
    requires
        atom.is_integer(),
    ensures
        match r {
            Ok(b) => required_bounds_spec(atom, object@) == Ok::<BoundsView, ErrorView>(b@),
            Err(e) => required_bounds_spec(atom, object@) == Err::<BoundsView, ErrorView>(e@),
        },
{
    let expected = Type::pair(Type::primitive(atom), Type::primitive(atom));
    match object.downcast_ref(&expected) {
        Err(e) => Err(e),
        Ok(value) => match value.repr() {
            Repr::Pair(lower, upper) => Bounds::new_closed(lower.clone(), upper.clone()),
            _ => Err(Error::TypeMismatch { expected, actual: object.type_().clone() }),
        },
    }
}

/// The integer type that a type name selects, for the operation named.
pub open spec fn integer_type_spec(atom: Option<Seq<char>>, operation: Seq<char>) -> Result<
    Primitive,
    ErrorView,
> {
    match atom {
        None => Err(ErrorView::NullArgument { argument: "T"@ }),
        Some(name) => match parse_spec(name) {
            None => Err(ErrorView::TypeParseError { text: name }),
            Some(t) => match t {
                Shape::Primitive(p) => if p.is_integer() {
                    Ok(p)
                } else {
                    Err(ErrorView::DispatchNotSupported { descriptor: t, operation })
                },
                _ => Err(ErrorView::DispatchNotSupported { descriptor: t, operation }),
            },
        },
    }
}

/// Reads the name of an integer type and dispatches on it.
fn read_integer_type(atom: Option<&str>, operation: &str) -> (r: Fallible<Primitive>)
    ensures
        match r {
            Ok(p) => integer_type_spec(text_of(atom), operation@) == Ok::<Primitive, ErrorView>(
                p,
            ) && p.is_integer(),
            Err(e) => integer_type_spec(text_of(atom), operation@) == Err::<
                Primitive,
                ErrorView,
            >(e@),
        },
{
    let name = match to_str(atom, "T") {
        Ok(n) => n,
        Err(e) => {
            return Err(e);
        },
    };
    let T = match Type::parse(name) {
        Ok(t) => t,
        Err(e) => {
            return Err(e);
        },
    };
    proof {
        lemma_leaves_contains(integers_spec(), T@);
        if T@ is Primitive {
            lemma_declared_sets(T@->Primitive_0);
        }
    }
    CandidateSet::integers().dispatch_leaf(&T, operation)
}

/// What `opendp_trans__make_bounded_int_monotonic_sum` returns. The
/// handle is borrowed before the type name is read.
pub open spec fn make_bounded_int_monotonic_sum_spec(
    bounds: Option<ValueView>,
    atom: Option<Seq<char>>,
) -> Result<TransformationView, ErrorView> {
    match bounds {
        None => Err(ErrorView::NullArgument { argument: "bounds"@ }),
        Some(v) => match integer_type_spec(atom, "make_bounded_int_monotonic_sum"@) {
            Err(e) => Err(e),
            Ok(p) => match required_bounds_spec(p, v) {
                Ok(b) => Ok(TransformationView::BoundedIntMonotonicSum { atom: p, bounds: b }),
                Err(e) => Err(e),
            },
        },
    }
}

/// Constructs the sum of bounded integers of the type that `T` names.
#[allow(non_snake_case)]
pub fn opendp_trans__make_bounded_int_monotonic_sum(bounds: Option<&AnyObject>, T: Option<&str>) -> (r:
    FfiResult<AnyTransformation>)
    ensures
        match r {
            FfiResult::Success(t) => make_bounded_int_monotonic_sum_spec(
                view_of(bounds),
                text_of(T),
            ) == Ok::<TransformationView, ErrorView>(t@),
            FfiResult::Failure(e) => make_bounded_int_monotonic_sum_spec(
                view_of(bounds),
                text_of(T),
            ) == Err::<TransformationView, ErrorView>(e@),
        },
{
    let bounds = match try_as_ref(bounds, "bounds") {
        Ok(o) => o,
        Err(e) => {
            return FfiResult::Failure(e);
        },
    };
    let outcome = match read_integer_type(T, "make_bounded_int_monotonic_sum") {
        Ok(atom) => match read_required_bounds(atom, bounds) {
            Ok(bounds) => Ok(
                AnyTransformation::new(Transformation::BoundedIntMonotonicSum { atom, bounds }),
            ),
            Err(e) => Err(e),
        },
        Err(e) => Err(e),
    };
    FfiResult::from_fallible(outcome)
}

/// What `opendp_trans__make_sized_bounded_int_monotonic_sum` returns. The
/// handle is borrowed before the type name is read.
pub open spec fn make_sized_bounded_int_monotonic_sum_spec(
    size: u32,
    bounds: Option<ValueView>,
    atom: Option<Seq<char>>,
) -> Result<TransformationView, ErrorView> {
    match bounds {
        None => Err(ErrorView::NullArgument { argument: "bounds"@ }),
        Some(v) => match integer_type_spec(atom, "make_sized_bounded_int_monotonic_sum"@) {
            Err(e) => Err(e),
            Ok(p) => match required_bounds_spec(p, v) {
                Ok(b) => Ok(
                    TransformationView::SizedBoundedIntMonotonicSum {
                        size: size as nat,
                        atom: p,
                        bounds: b,
                    },
                ),
                Err(e) => Err(e),
            },
        },
    }
}

/// Constructs the sum of `size` bounded integers of the type that `T`
/// names.
#[allow(non_snake_case)]
pub fn opendp_trans__make_sized_bounded_int_monotonic_sum(
    size: u32,
    bounds: Option<&AnyObject>,
    T: Option<&str>,
) -> (r: FfiResult<AnyTransformation>)
    ensures
        match r {
            FfiResult::Success(t) => make_sized_bounded_int_monotonic_sum_spec(
                size,
                view_of(bounds),
                text_of(T),
            ) == Ok::<TransformationView, ErrorView>(t@),
            FfiResult::Failure(e) => make_sized_bounded_int_monotonic_sum_spec(
                size,
                view_of(bounds),
                text_of(T),
            ) == Err::<TransformationView, ErrorView>(e@),
        },
{
    let size = size as usize;
    let bounds = match try_as_ref(bounds, "bounds") {
        Ok(o) => o,
        Err(e) => {
            return FfiResult::Failure(e);
        },
    };
    let outcome = match read_integer_type(T, "make_sized_bounded_int_monotonic_sum") {
        Ok(atom) => match read_required_bounds(atom, bounds) {
            Ok(bounds) => Ok(
                AnyTransformation::new(
                    Transformation::SizedBoundedIntMonotonicSum { size, atom, bounds },
                ),
            ),
            Err(e) => Err(e),
        },
        Err(e) => Err(e),
    };
    FfiResult::from_fallible(outcome)
}

} // verus!
