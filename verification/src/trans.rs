//! Transformations of the older family: subsetting a data frame and
//! summing bounded integers.
pub mod ffi;
