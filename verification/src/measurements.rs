//! Measurements, and the handle that carries one.
use crate::domains::{Domain, DomainView};
use crate::error::{occurs_in, Error, ErrorView, Fallible};
use crate::metrics::Metric;
use crate::types::Primitive;
use crate::util::{has_prefix, lowercase_of, starts_with, to_lowercase};
use crate::value::{Atom, AtomView};
use vstd::prelude::*;

pub mod ffi;

verus! {

/// Which end of the scores a selection prefers.
#[derive(Clone, Copy, PartialEq, Eq, Debug, Structural)]
pub enum Optimize {
    Min,
    Max,
}

/// What a lower-case word says of the end to prefer: a word that begins
/// with `min` or with `max` names that end; any other word is refused.
pub open spec fn optimize_of(lower: Seq<char>) -> Result<Optimize, ErrorView> {
    if starts_with(lower, "min"@) {
        Ok(Optimize::Min)
    } else if starts_with(lower, "max"@) {
        Ok(Optimize::Max)
    } else {
        Err(
            ErrorView::Internal {
                kind: "FFI"@,
                message: "optimize must start with \"min\" or \"max\""@,
            },
        )
    }
}

/// The refusal of a word names the argument it came in.
pub proof fn lemma_optimize_error_names_the_argument(lower: Seq<char>)
    ensures
        optimize_of(lower) matches Err(e) ==> occurs_in("optimize"@, e.message()),
{
    if optimize_of(lower) is Err {
        let e = optimize_of(lower)->Err_0;
        let text = "optimize must start with \"min\" or \"max\""@;
        reveal_strlit("optimize must start with \"min\" or \"max\"");
        reveal_strlit("optimize");
        let word = "optimize"@;
        assert(word.len() == 8 && word[0] == 'o' && word[1] == 'p' && word[2] == 't' && word[3]
            == 'i' && word[4] == 'm' && word[5] == 'i' && word[6] == 'z' && word[7] == 'e');
        assert(text.len() >= 8 && text[0] == 'o' && text[1] == 'p' && text[2] == 't' && text[3]
            == 'i' && text[4] == 'm' && text[5] == 'i' && text[6] == 'z' && text[7] == 'e');
        let at = ("FFI"@.len() + ": "@.len()) as int;
        assert(e.message().subrange(at, at + 8) =~= word);
    }
}

impl Optimize {
    /// Reads the end to prefer from a word that is already in lower case.
    pub fn from_lowercase(lower: &str) -> (r: Fallible<Optimize>)
        ensures
            match r {
                Ok(o) => optimize_of(lower@) == Ok::<Optimize, ErrorView>(o),
                Err(e) => optimize_of(lower@) == Err::<Optimize, ErrorView>(e@),
            },
    {
        if has_prefix(lower, "min") {
            Ok(Optimize::Min)
        } else if has_prefix(lower, "max") {
            Ok(Optimize::Max)
        } else {
            Err(
                Error::Internal {
                    kind: String::from_str("FFI"),
                    message: String::from_str("optimize must start with \"min\" or \"max\""),
                },
            )
        }
    }

    /// Reads the end to prefer from a word in any case.
    pub fn parse(word: &str) -> (r: Fallible<Optimize>)
        ensures
            match r {
                Ok(o) => optimize_of(lowercase_of(word@)) == Ok::<Optimize, ErrorView>(o),
                Err(e) => optimize_of(lowercase_of(word@)) == Err::<Optimize, ErrorView>(e@),
            },
    {
        let lower = to_lowercase(word);
        Optimize::from_lowercase(lower.as_str())
    }
}

/// The measurements the boundary can build, each with the types that
/// selected its implementation and the arguments it was given.
#[derive(Debug)]
pub enum Measurement {
    /// The discrete exponential mechanism over scores of type `input`,
    /// with noise of the float type `output`.
    BaseDiscreteExponential {
        input: Primitive,
        output: Primitive,
        input_domain: Domain,
        input_metric: Metric,
        temperature: Atom,
        optimize: Optimize,
    },
}

/// The mathematical form of a measurement.
pub enum MeasurementView {
    BaseDiscreteExponential {
        input: Primitive,
        output: Primitive,
        input_domain: DomainView,
        input_metric: Metric,
        temperature: AtomView,
        optimize: Optimize,
    },
}

impl View for Measurement {
    type V = MeasurementView;

    open spec fn view(&self) -> MeasurementView {
        match self {
            Measurement::BaseDiscreteExponential {
                input,
                output,
                input_domain,
                input_metric,
                temperature,
                optimize,
            } => MeasurementView::BaseDiscreteExponential {
                input: *input,
                output: *output,
                input_domain: input_domain@,
                input_metric: *input_metric,
                temperature: temperature@,
                optimize: *optimize,
            },
        }
    }
}

/// A measurement behind a handle.
#[derive(Debug)]
pub struct AnyMeasurement {
    pub measurement: Measurement,
}

impl View for AnyMeasurement {
    type V = MeasurementView;

    open spec fn view(&self) -> MeasurementView {
        self.measurement@
    }
}

impl AnyMeasurement {
    /// Wraps a measurement.
    pub fn new(measurement: Measurement) -> (r: AnyMeasurement)
        ensures
            r@ == measurement@,
    {
        AnyMeasurement { measurement }
    }
}

} // verus!
