//! Type-erased objects: a value paired, once and for all, with the
//! descriptor of its static type.
use crate::error::{Error, ErrorView, Fallible};
use crate::types::{Shape, Type};
use crate::value::{Value, ValueView};
use vstd::prelude::*;

verus! {

/// A value behind a handle. The descriptor is taken from the value when
/// the object is made and never changes.
#[derive(Debug)]
pub struct AnyObject {
    type_: Type,
    value: Value,
}

impl View for AnyObject {
    type V = ValueView;

    closed spec fn view(&self) -> ValueView {
        self.value@
    }
}

/// What a checked downcast of a value of type `stored` to the type
/// `expected` gives.
pub open spec fn downcast_spec<V>(stored: Shape, expected: Shape, payload: V) -> Result<
    V,
    ErrorView,
> {
    if expected == stored {
        Ok(payload)
    } else {
        Err(ErrorView::TypeMismatch { expected, actual: stored })
    }
}

/// The checked part of every downcast: the requested descriptor must equal
/// the stored one.
pub fn check_type(stored: &Type, expected: &Type) -> (r: Fallible<()>)
    ensures
        match r {
            Ok(_) => expected@ == stored@,
            Err(e) => expected@ != stored@ && e@ == (ErrorView::TypeMismatch {
                expected: expected@,
                actual: stored@,
            }),
        },
{
    if expected.equals(stored) {
        Ok(())
    } else {
        Err(Error::TypeMismatch { expected: expected.clone(), actual: stored.clone() })
    }
}

impl AnyObject {
    #[verifier::type_invariant]
    spec fn inv(self) -> bool {
        self.type_@ == self.value@.type_shape()
    }

    /// Wraps a value with the descriptor of its static type.
    pub fn new(value: Value) -> (r: AnyObject)
        ensures
            r@ == value@,
    {
        let type_ = value.type_of();
        AnyObject { type_, value }
    }

    /// The descriptor stored with the value.
    pub fn type_(&self) -> (t: &Type)
        ensures
            t@ == self@.type_shape(),
    {
        proof {
            use_type_invariant(self);
        }
        &self.type_
    }

    /// Borrows the value as the type `expected`. This succeeds exactly
    /// when `expected` equals the stored descriptor; on a mismatch the
    /// value is not touched.
    pub fn downcast_ref(&self, expected: &Type) -> (r: Fallible<&Value>)
        ensures
            match r {
                Ok(v) => downcast_spec(self@.type_shape(), expected@, self@) == Ok::<
                    ValueView,
                    ErrorView,
                >(v@),
                Err(e) => downcast_spec(self@.type_shape(), expected@, self@) == Err::<
                    ValueView,
                    ErrorView,
                >(e@),
            },
    {
        proof {
            use_type_invariant(self);
        }
        match check_type(&self.type_, expected) {
            Ok(_) => Ok(&self.value),
            Err(e) => Err(e),
        }
    }

    /// Takes the value out as the type `expected`, under the same check.
    pub fn downcast(self, expected: &Type) -> (r: Fallible<Value>)
        ensures
            match r {
                Ok(v) => downcast_spec(self@.type_shape(), expected@, self@) == Ok::<
                    ValueView,
                    ErrorView,
                >(v@),
                Err(e) => downcast_spec(self@.type_shape(), expected@, self@) == Err::<
                    ValueView,
                    ErrorView,
                >(e@),
            },
    {
        proof {
            use_type_invariant(&self);
        }
        match check_type(&self.type_, expected) {
            Ok(_) => Ok(self.value),
            Err(e) => Err(e),
        }
    }

    /// The canonical text of the stored descriptor.
    pub fn descriptor_text(&self) -> (r: String)
        ensures
            r@ == self@.type_shape().text(),
    {
        proof {
            use_type_invariant(self);
        }
        self.type_.to_text()
    }
}

/// A wrapped value comes back under its own type, and under no other.
pub proof fn lemma_downcast_sound(payload: ValueView, requested: Shape)
    ensures
        requested == payload.type_shape() ==> downcast_spec(
            payload.type_shape(),
            requested,
            payload,
        ) == Ok::<ValueView, ErrorView>(payload),
        requested != payload.type_shape() ==> downcast_spec(
            payload.type_shape(),
            requested,
            payload,
        ) == Err::<ValueView, ErrorView>(
            ErrorView::TypeMismatch { expected: requested, actual: payload.type_shape() },
        ),
{
}

} // verus!
