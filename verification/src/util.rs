//! Borrowing and validating what the foreign side hands over.
use crate::error::{Error, ErrorView, Fallible};
use vstd::prelude::*;

verus! {

/// A boolean as it crosses the boundary: zero is false, anything else true.
#[allow(non_camel_case_types)]
pub type c_bool = u8;

/// What a borrowed handle stands for, where there is one.
pub open spec fn view_of<T: View>(handle: Option<&T>) -> Option<T::V> {
    match handle {
        Some(target) => Some(target@),
        None => None,
    }
}

/// The text of a text argument, where there is one.
pub open spec fn text_of(text: Option<&str>) -> Option<Seq<char>> {
    match text {
        Some(s) => Some(s@),
        None => None,
    }
}

/// The lower-case form of a text, as the Unicode character database
/// defines it.
pub uninterp spec fn lowercase_of(s: Seq<char>) -> Seq<char>;

/// Calls `str::to_lowercase`, which returns the lower-case form of its
/// argument as a new `String`. Nothing more is claimed of the result than
/// that it is this form.
#[verifier::external_body]
pub(crate) fn to_lowercase(s: &str) -> (r: String)
    ensures
        r@ == lowercase_of(s@),
{
    s.to_lowercase()
}

/// `s` begins with `prefix`.
pub open spec fn starts_with(s: Seq<char>, prefix: Seq<char>) -> bool {
    prefix.len() <= s.len() && s.subrange(0, prefix.len() as int) == prefix
}

/// Whether `s` begins with `prefix`.
pub fn has_prefix(s: &str, prefix: &str) -> (r: bool)
    ensures
        r == starts_with(s@, prefix@),
{
    let n = s.unicode_len();
    let m = prefix.unicode_len();
    if m > n {
        return false;
    }
    let mut i: usize = 0;
    while i < m
        invariant
            0 <= i <= m <= n,
            n == s@.len(),
            m == prefix@.len(),
            forall|j: int| 0 <= j < i ==> s@[j] == prefix@[j],
        decreases m - i,
    {
        if s.get_char(i) != prefix.get_char(i) {
            assert(s@.subrange(0, m as int)[i as int] != prefix@[i as int]);
            return false;
        }
        i = i + 1;
    }
    assert(s@.subrange(0, m as int) =~= prefix@);
    true
}

/// Reads a boundary boolean.
pub fn to_bool(b: c_bool) -> (r: bool)
    ensures
        r == (b != 0),
{
    b != 0
}

/// Writes a boundary boolean: 1 for true, 0 for false.
pub fn from_bool(b: bool) -> (r: c_bool)
    ensures
        r == if b { 1u8 } else { 0u8 },
{
    if b {
        1
    } else {
        0
    }
}

/// Borrows a handle for the length of the call. A null handle, `None`
/// here, is an error that names the argument.
pub fn try_as_ref<'a, T>(handle: Option<&'a T>, argument: &str) -> (r: Fallible<&'a T>)
    ensures
        match handle {
            Some(target) => r == Ok::<&T, Error>(target),
            None => r matches Err(e) && e@ == (ErrorView::NullArgument { argument: argument@ }),
        },
{
    match handle {
        Some(target) => Ok(target),
        None => Err(Error::NullArgument { argument: String::from_str(argument) }),
    }
}

/// Takes a handle back from the foreign side. A null handle is an error
/// that names the argument.
pub fn into_owned<T>(handle: Option<T>, argument: &str) -> (r: Fallible<T>)
    ensures
        match handle {
            Some(target) => r == Ok::<T, Error>(target),
            None => r matches Err(e) && e@ == (ErrorView::NullArgument { argument: argument@ }),
        },
{
    match handle {
        Some(target) => Ok(target),
        None => Err(Error::NullArgument { argument: String::from_str(argument) }),
    }
}

/// Reads a text argument. A null pointer, `None` here, is an error that
/// names the argument.
pub fn to_str<'a>(text: Option<&'a str>, argument: &str) -> (r: Fallible<&'a str>)
    ensures
        match text {
            Some(s) => r matches Ok(out) && out@ == s@,
            None => r matches Err(e) && e@ == (ErrorView::NullArgument { argument: argument@ }),
        },
{
    match text {
        Some(s) => Ok(s),
        None => Err(Error::NullArgument { argument: String::from_str(argument) }),
    }
}

} // verus!
