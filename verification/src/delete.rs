//! Deletion of a link by its authenticated owner: the authorization state
//! machine. A missing credential and a wrong credential are distinct
//! outcomes; a missing link is reported before authentication is checked.

use vstd::prelude::*;
use vstd::string::StringExecFns;

use crate::error::StoreError;
use crate::link::LinkRecord;
use crate::resolve::trail_not_found_message;

verus! {

/// Terminal outcomes of a deletion request.
#[derive(Debug)]
pub enum DeleteTrailResponse {
    /// No secret was supplied, though one is required.
    Unauthenticated,
    /// A secret was supplied but does not match the stored one.
    Unauthorized,
    /// The link was removed.
    Deleted,
    /// No link with that code exists.
    NotFound,
    /// A persistence failure; carries a message for the log.
    InternalError(String),
}

/// What a deletion request decides for a looked-up record: the outcome
/// handed to the caller, and whether the link is to be removed.
pub fn delete_trail(found: Option<&LinkRecord>, provided_secret: Option<&String>) -> (r: (
    DeleteTrailResponse,
    bool,
))
    ensures
        match found {
            None => r.0 is NotFound && !r.1,
            Some(rec) => match provided_secret {
                None => r.0 is Unauthenticated && !r.1,
                Some(s) => {
                    if s@ == rec.secret@ {
                        r.0 is Deleted && r.1
                    } else {
                        r.0 is Unauthorized && !r.1
                    }
                },
            },
        },
{
    match found {
        None => (DeleteTrailResponse::NotFound, false),
        Some(rec) => match provided_secret {
            None => (DeleteTrailResponse::Unauthenticated, false),
            Some(s) => {
                if *s == rec.secret {
                    (DeleteTrailResponse::Deleted, true)
                } else {
                    (DeleteTrailResponse::Unauthorized, false)
                }
            },
        },
    }
}

impl DeleteTrailResponse {
    /// The HTTP status this outcome is rendered with.
    pub fn status_code(&self) -> (r: u16)
        ensures
            r == match self {
                DeleteTrailResponse::Unauthenticated => 401int,
                DeleteTrailResponse::Unauthorized => 403int,
                DeleteTrailResponse::Deleted => 200int,
                DeleteTrailResponse::NotFound => 404int,
                DeleteTrailResponse::InternalError(_) => 500int,
            },
    {
        match self {
            DeleteTrailResponse::Unauthenticated => 401,
            DeleteTrailResponse::Unauthorized => 403,
            DeleteTrailResponse::Deleted => 200,
            DeleteTrailResponse::NotFound => 404,
            DeleteTrailResponse::InternalError(_) => 500,
        }
    }

    /// The response body.
    pub fn body_text(&self) -> (r: String)
        ensures
            r@ == match self {
                DeleteTrailResponse::NotFound => "Trail ID has not been found or has expired"@,
                DeleteTrailResponse::InternalError(msg) => msg@,
                _ => Seq::<char>::empty(),
            },
    {
        match self {
            DeleteTrailResponse::NotFound => String::from_str(trail_not_found_message()),
            DeleteTrailResponse::InternalError(msg) => msg.clone(),
            _ => String::new(),
        }
    }

    /// The outcome standing for a persistence failure.
    pub fn from_store_error(e: StoreError) -> (r: Self)
        ensures
            r matches DeleteTrailResponse::InternalError(msg) && msg == e.message,
    {
        DeleteTrailResponse::InternalError(e.message)
    }
}

} // verus!
