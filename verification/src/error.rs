//! Unified validation / internal error type: an English message and the
//! location of the offending field, as a path of field names. Internal
//! failures carry the sentinel location ":internal:".

use vstd::prelude::*;
use vstd::string::StringExecFns;

use crate::text::{dec_str_signed, i64_to_dec_string};

verus! {

/// Unified error type.
#[derive(Debug, Clone)]
pub struct Error {
    /// English error message.
    pub message: String,
    /// Location of the error in the input object, as a path of field names,
    /// for example `["user", "name"]`.
    pub location: Vec<String>,
}

/// Whether an error is an internal (server-side) failure, marked by the
/// sentinel location ":internal:".
pub open spec fn spec_is_internal(e: Error) -> bool {
    e.location@.len() >= 1 && e.location@[0]@ == ":internal:"@
}

impl Error {
    pub fn new(message: String, location: Vec<String>) -> (r: Self)
        ensures
            r.message == message,
            r.location == location,
    {
        Self { message, location }
    }

    pub fn extra_not_allowed(location: Vec<String>) -> (r: Self)
        ensures
            r.message@ == "Extra field not allowed"@,
            r.location == location,
    {
        Self { message: String::from_str("Extra field not allowed"), location }
    }

    pub fn required_field(location: Vec<String>) -> (r: Self)
        ensures
            r.message@ == "Required field"@,
            r.location == location,
    {
        Self { message: String::from_str("Required field"), location }
    }

    pub fn type_mismatch(expected: &str, location: Vec<String>) -> (r: Self)
        ensures
            r.message@ == "Field must be type "@ + expected@,
            r.location == location,
    {
        let message = String::from_str("Field must be type ").concat(expected);
        Self { message, location }
    }

    pub fn internal_error(message: String) -> (r: Self)
        ensures
            r.message == message,
            r.location@.len() == 1,
            r.location@[0]@ == ":internal:"@,
            spec_is_internal(r),
    {
        let location = vec![String::from_str(":internal:")];
        Self { message, location }
    }

    pub fn invalid_url(location: Vec<String>) -> (r: Self)
        ensures
            r.message@ == "Invalid URL"@,
            r.location == location,
    {
        Self { message: String::from_str("Invalid URL"), location }
    }

    pub fn max_exceeded(max: i64, location: Vec<String>) -> (r: Self)
        ensures
            r.message@ == "Value must be at most: "@ + dec_str_signed(max as int),
            r.location == location,
    {
        let rendered = i64_to_dec_string(max);
        let message = String::from_str("Value must be at most: ").concat(rendered.as_str());
        Self { message, location }
    }

    pub fn min_exceeded(min: i64, location: Vec<String>) -> (r: Self)
        ensures
            r.message@ == "Value must be at least: "@ + dec_str_signed(min as int),
            r.location == location,
    {
        let rendered = i64_to_dec_string(min);
        let message = String::from_str("Value must be at least: ").concat(rendered.as_str());
        Self { message, location }
    }

    /// Whether this error is an internal failure.
    pub fn is_internal(&self) -> (r: bool)
        ensures
            r == spec_is_internal(*self),
    {
        if self.location.len() >= 1 {
            let sentinel = String::from_str(":internal:");
            self.location[0] == sentinel
        } else {
            false
        }
    }
}

/// A failure reported by the persistence layer, carried as plain text.
#[derive(Debug, Clone)]
pub struct StoreError {
    pub message: String,
}

/// Conversion of a failure into the unified error type.
pub trait ToTTError {
    fn to_tt_error(&self) -> Error;
}

impl ToTTError for StoreError {
    fn to_tt_error(&self) -> Error {
        Error::internal_error(self.message.clone())
    }
}

} // verus!
