//! The errors of the boundary and the tagged result that carries them.
use crate::types::{Shape, Type};
use vstd::prelude::*;

verus! {

/// The tag of an error.
#[derive(Clone, Copy, PartialEq, Eq, Debug, Structural)]
pub enum ErrorKind {
    NullArgument,
    TypeParseError,
    TypeMismatch,
    NotAContainer,
    DispatchNotSupported,
    ShapeMismatch,
    DomainConstructionError,
    Internal,
}

/// What went wrong, with the offending descriptor or argument.
#[derive(Debug, PartialEq, Eq)]
pub enum Error {
    NullArgument { argument: String },
    TypeParseError { text: String },
    TypeMismatch { expected: Type, actual: Type },
    NotAContainer { descriptor: Type },
    DispatchNotSupported { descriptor: Type, operation: String },
    ShapeMismatch { expected_shape: String, actual: Type },
    DomainConstructionError { reason: String },
    Internal { kind: String, message: String },
}

/// The mathematical form of an error.
pub enum ErrorView {
    NullArgument { argument: Seq<char> },
    TypeParseError { text: Seq<char> },
    TypeMismatch { expected: Shape, actual: Shape },
    NotAContainer { descriptor: Shape },
    DispatchNotSupported { descriptor: Shape, operation: Seq<char> },
    ShapeMismatch { expected_shape: Seq<char>, actual: Shape },
    DomainConstructionError { reason: Seq<char> },
    Internal { kind: Seq<char>, message: Seq<char> },
}

impl ErrorView {
    pub open spec fn kind(self) -> ErrorKind {
        match self {
            ErrorView::NullArgument { .. } => ErrorKind::NullArgument,
            ErrorView::TypeParseError { .. } => ErrorKind::TypeParseError,
            ErrorView::TypeMismatch { .. } => ErrorKind::TypeMismatch,
            ErrorView::NotAContainer { .. } => ErrorKind::NotAContainer,
            ErrorView::DispatchNotSupported { .. } => ErrorKind::DispatchNotSupported,
            ErrorView::ShapeMismatch { .. } => ErrorKind::ShapeMismatch,
            ErrorView::DomainConstructionError { .. } => ErrorKind::DomainConstructionError,
            ErrorView::Internal { .. } => ErrorKind::Internal,
        }
    }

    /// The text shown to the caller. It holds the canonical text of each
    /// descriptor the error carries, the name of the argument, or the
    /// reason; a reason is written so that it names the type or the
    /// argument it is about.
    pub open spec fn message(self) -> Seq<char> {
        match self {
            ErrorView::NullArgument { argument } => "null pointer: "@ + argument,
            ErrorView::TypeParseError { text } => "failed to parse type: "@ + text,
            ErrorView::TypeMismatch { expected, actual } => "expected data of type "@
                + expected.text() + ", got "@ + actual.text(),
            ErrorView::NotAContainer { descriptor } => "not a container of one type: "@
                + descriptor.text(),
            ErrorView::DispatchNotSupported { descriptor, operation } => "no match for type "@
                + descriptor.text() + " in "@ + operation,
            ErrorView::ShapeMismatch { expected_shape, actual } => "expected "@ + expected_shape
                + ", got "@ + actual.text(),
            ErrorView::DomainConstructionError { reason } => reason,
            ErrorView::Internal { kind, message } => kind + ": "@ + message,
        }
    }
}

impl View for Error {
    type V = ErrorView;

    open spec fn view(&self) -> ErrorView {
        match self {
            Error::NullArgument { argument } => ErrorView::NullArgument { argument: argument@ },
            Error::TypeParseError { text } => ErrorView::TypeParseError { text: text@ },
            Error::TypeMismatch { expected, actual } => ErrorView::TypeMismatch {
                expected: expected@,
                actual: actual@,
            },
            Error::NotAContainer { descriptor } => ErrorView::NotAContainer {
                descriptor: descriptor@,
            },
            Error::DispatchNotSupported { descriptor, operation } => {
                ErrorView::DispatchNotSupported { descriptor: descriptor@, operation: operation@ }
            },
            Error::ShapeMismatch { expected_shape, actual } => ErrorView::ShapeMismatch {
                expected_shape: expected_shape@,
                actual: actual@,
            },
            Error::DomainConstructionError { reason } => ErrorView::DomainConstructionError {
                reason: reason@,
            },
            Error::Internal { kind, message } => ErrorView::Internal {
                kind: kind@,
                message: message@,
            },
        }
    }
}

impl Error {
    /// The tag of the error.
    pub fn kind(&self) -> (k: ErrorKind)
        ensures
            k == self@.kind(),
    {
        match self {
            Error::NullArgument { .. } => ErrorKind::NullArgument,
            Error::TypeParseError { .. } => ErrorKind::TypeParseError,
            Error::TypeMismatch { .. } => ErrorKind::TypeMismatch,
            Error::NotAContainer { .. } => ErrorKind::NotAContainer,
            Error::DispatchNotSupported { .. } => ErrorKind::DispatchNotSupported,
            Error::ShapeMismatch { .. } => ErrorKind::ShapeMismatch,
            Error::DomainConstructionError { .. } => ErrorKind::DomainConstructionError,
            Error::Internal { .. } => ErrorKind::Internal,
        }
    }

    /// The text of the error.
    pub fn message(&self) -> (m: String)
        ensures
            m@ == self@.message(),
    {
        match self {
            Error::NullArgument { argument } => String::from_str("null pointer: ").concat(
                argument.as_str(),
            ),
            Error::TypeParseError { text } => String::from_str("failed to parse type: ").concat(
                text.as_str(),
            ),
            Error::TypeMismatch { expected, actual } => {
                let mut out = String::from_str("expected data of type ");
                out.append(expected.to_text().as_str());
                out.append(", got ");
                out.append(actual.to_text().as_str());
                out
            },
            Error::NotAContainer { descriptor } => String::from_str(
                "not a container of one type: ",
            ).concat(descriptor.to_text().as_str()),
            Error::DispatchNotSupported { descriptor, operation } => {
                let mut out = String::from_str("no match for type ");
                out.append(descriptor.to_text().as_str());
                out.append(" in ");
                out.append(operation.as_str());
                out
            },
            Error::ShapeMismatch { expected_shape, actual } => {
                let mut out = String::from_str("expected ");
                out.append(expected_shape.as_str());
                out.append(", got ");
                out.append(actual.to_text().as_str());
                out
            },
            Error::DomainConstructionError { reason } => reason.clone(),
            Error::Internal { kind, message } => {
                let mut out = kind.clone();
                out.append(": ");
                out.append(message.as_str());
                out
            },
        }
    }
}

/// Whether `part` occurs in `whole` as a block of consecutive characters.
pub open spec fn occurs_in(part: Seq<char>, whole: Seq<char>) -> bool {
    exists|at: int|
        0 <= at <= whole.len() - part.len() && #[trigger] whole.subrange(at, at + part.len())
            == part
}

/// The message of an error holds the canonical text of each descriptor the
/// error is about, or the name of the argument, or the text that did not
/// parse, or the reason, or the kind and message that were passed
/// through.
pub proof fn lemma_message_embeds_descriptor(e: ErrorView)
    ensures
        e matches ErrorView::DispatchNotSupported { descriptor, .. } ==> occurs_in(
            descriptor.text(),
            e.message(),
        ),
        e matches ErrorView::NotAContainer { descriptor } ==> occurs_in(
            descriptor.text(),
            e.message(),
        ),
        e matches ErrorView::TypeMismatch { expected, actual } ==> occurs_in(
            expected.text(),
            e.message(),
        ) && occurs_in(actual.text(), e.message()),
        e matches ErrorView::ShapeMismatch { actual, .. } ==> occurs_in(actual.text(), e.message()),
        e matches ErrorView::NullArgument { argument } ==> occurs_in(argument, e.message()),
        e matches ErrorView::TypeParseError { text } ==> occurs_in(text, e.message()),
        e matches ErrorView::DomainConstructionError { reason } ==> occurs_in(reason, e.message()),
        e matches ErrorView::Internal { kind, message } ==> occurs_in(kind, e.message())
            && occurs_in(message, e.message()),
{
    let m = e.message();
    match e {
        ErrorView::DispatchNotSupported { descriptor, operation } => {
            let at = "no match for type "@.len() as int;
            assert(m.subrange(at, at + descriptor.text().len()) =~= descriptor.text());
        },
        ErrorView::NotAContainer { descriptor } => {
            let at = "not a container of one type: "@.len() as int;
            assert(m.subrange(at, at + descriptor.text().len()) =~= descriptor.text());
        },
        ErrorView::TypeMismatch { expected, actual } => {
            let at = "expected data of type "@.len() as int;
            assert(m.subrange(at, at + expected.text().len()) =~= expected.text());
            let to = (at + expected.text().len() + ", got "@.len()) as int;
            assert(m.subrange(to, to + actual.text().len()) =~= actual.text());
        },
        ErrorView::ShapeMismatch { expected_shape, actual } => {
            let at = ("expected "@.len() + expected_shape.len() + ", got "@.len()) as int;
            assert(m.subrange(at, at + actual.text().len()) =~= actual.text());
        },
        ErrorView::NullArgument { argument } => {
            let at = "null pointer: "@.len() as int;
            assert(m.subrange(at, at + argument.len()) =~= argument);
        },
        ErrorView::TypeParseError { text } => {
            let at = "failed to parse type: "@.len() as int;
            assert(m.subrange(at, at + text.len()) =~= text);
        },
        ErrorView::DomainConstructionError { reason } => {
            let at = 0int;
            assert(m.subrange(at, at + reason.len()) =~= reason);
        },
        ErrorView::Internal { kind, message } => {
            let start = 0int;
            assert(m.subrange(start, start + kind.len()) =~= kind);
            let at = (kind.len() + ": "@.len()) as int;
            assert(m.subrange(at, at + message.len()) =~= message);
        },
    }
}

/// The outcome of an internal operation.
pub type Fallible<T> = Result<T, Error>;

/// The tagged result that crosses the boundary: a payload or an error,
/// never both.
#[derive(Debug, PartialEq, Eq)]
pub enum FfiResult<T> {
    Success(T),
    Failure(Error),
}

impl<T> FfiResult<T> {
    /// Converts the outcome of an internal operation, success or failure,
    /// into the tagged result.
    pub fn from_fallible(outcome: Fallible<T>) -> (r: FfiResult<T>)
        ensures
            match outcome {
                Ok(value) => r == FfiResult::Success(value),
                Err(e) => r == FfiResult::<T>::Failure(e),
            },
    {
        match outcome {
            Ok(value) => FfiResult::Success(value),
            Err(e) => FfiResult::Failure(e),
        }
    }

    /// The tagged result as an ordinary `Result`.
    pub fn into_fallible(self) -> (r: Fallible<T>)
        ensures
            match self {
                FfiResult::Success(value) => r == Ok::<T, Error>(value),
                FfiResult::Failure(e) => r == Err::<T, Error>(e),
            },
    {
        match self {
            FfiResult::Success(value) => Ok(value),
            FfiResult::Failure(e) => Err(e),
        }
    }

    pub fn is_ok(&self) -> (r: bool)
        ensures
            r == (self is Success),
    {
        match self {
            FfiResult::Success(_) => true,
            FfiResult::Failure(_) => false,
        }
    }
}

} // verus!
