//! Types of std that the library carries through without looking inside.
use vstd::prelude::*;

verus! {

/// `std::io::Error`, carried in the error types for failures of the
/// surrounding input and output.
#[verifier::external_type_specification]
#[verifier::external_body]
pub struct ExIoError(std::io::Error);

/// `std::num::ParseIntError`, the failure of reading a count.
#[verifier::external_type_specification]
#[verifier::external_body]
pub struct ExParseIntError(std::num::ParseIntError);

} // verus!
