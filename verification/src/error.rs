//! The failures that loading and matching report.

use vstd::prelude::*;
use vstd::std_specs::convert::FromSpecImpl;

verus! {

/// The error of the `csv` crate. Nothing is known of what a value holds.
#[verifier::external_type_specification]
#[verifier::external_body]
pub struct ExCsvError(csv::Error);

/// Why loading or matching failed.
#[derive(Debug)]
pub enum LocationFinderError {
    /// A table could not be read or parsed.
    CSV(csv::Error),
    /// The location records are inconsistent, were loaded twice, or were
    /// asked for before they were loaded.
    Loader,
}

impl LocationFinderError {
    /// The text that describes the failure.
    pub open spec fn message_text(&self) -> Seq<char> {
        match self {
            LocationFinderError::CSV(_) => "Error parsing CSV file"@,
            LocationFinderError::Loader => "Error loading location records"@,
        }
    }

    /// Describes the failure in words.
    pub fn message(&self) -> (text: String)
        ensures
            text@ == self.message_text(),
    {
        match self {
            LocationFinderError::CSV(_) => "Error parsing CSV file".to_string(),
            LocationFinderError::Loader => "Error loading location records".to_string(),
        }
    }
}

impl From<csv::Error> for LocationFinderError {
    fn from(error: csv::Error) -> (out: LocationFinderError) {
        LocationFinderError::CSV(error)
    }
}

impl FromSpecImpl<csv::Error> for LocationFinderError {
    open spec fn obeys_from_spec() -> bool {
        true
    }

    open spec fn from_spec(error: csv::Error) -> LocationFinderError {
        LocationFinderError::CSV(error)
    }
}

} // verus!
