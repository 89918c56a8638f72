//! The ways in which a request for an excerpt fails.

use std::ops::RangeInclusive;
use vstd::prelude::*;
use vstd::std_specs::convert::FromSpecImpl;

verus! {

#[verifier::external_type_specification]
#[verifier::external_body]
pub struct ExIoError(std::io::Error);

#[verifier::external_type_specification]
#[verifier::external_body]
pub struct ExJsonError(serde_json::Error);

/// Why no excerpt was produced.
#[derive(Debug)]
pub enum LearError {
    /// A scene's stored document could not be read.
    IoError(std::io::Error),
    /// The play has no such act.
    InvalidAct(usize),
    /// The act has no such scene.
    InvalidScene { act: usize, scene: usize },
    /// The scene has no spoken line in the range.
    InvalidLines { act: usize, scene: usize, lines: RangeInclusive<usize> },
}

/// The I/O error that `serde_json` turns one of its errors into.
pub uninterp spec fn io_error_of(e: serde_json::Error) -> std::io::Error;

/// `From<serde_json::Error>` for `std::io::Error`, of `serde_json`: the
/// error's own I/O error where it has one, else a new one of the kind that
/// fits the error's category. The result depends on the error alone.
#[verifier::external_body]
fn json_to_io(e: serde_json::Error) -> (r: std::io::Error)
    ensures
        r == io_error_of(e),
{
    e.into()
}

impl From<serde_json::Error> for LearError {
    fn from(e: serde_json::Error) -> (r: Self) {
        LearError::IoError(json_to_io(e))
    }
}

impl FromSpecImpl<serde_json::Error> for LearError {
    open spec fn obeys_from_spec() -> bool {
        true
    }

    open spec fn from_spec(e: serde_json::Error) -> Self {
        LearError::IoError(io_error_of(e))
    }
}

} // verus!
