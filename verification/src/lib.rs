//! Type-erased handles, run-time type descriptors and dispatch for a
//! C-callable boundary around a generically typed library.
pub mod any;
pub mod dispatch;
pub mod domains;
pub mod error;
pub mod guarantees;
pub mod measurements;
pub mod metrics;
pub mod parse;
pub mod round_trip;
pub mod trans;
pub mod transformations;
pub mod types;
pub mod util;
pub mod value;
