//! Resolution of a short code: the expiration state machine, and the click
//! that a successful resolution records.
//!
//! An expired link is deliberately indistinguishable from a missing one in
//! the rendered response, so a caller cannot learn whether a code ever
//! existed.

use vstd::prelude::*;
use vstd::string::StringExecFns;

use crate::error::StoreError;
use crate::hashing::{hash_with_env_salt, process_salt, sha256_hex};
use crate::link::{ClickRecord, LinkRecord};
use crate::clock::MAX_TIMESTAMP;

verus! {

/// Terminal outcomes of resolving a short code.
#[derive(Debug)]
pub enum ResolveResponse {
    /// The link exists and is live; carries the redirect target.
    Found(String),
    /// No link with that code exists, or the code is empty.
    NotFound,
    /// The link exists but its expiration window has passed.
    Expired,
    /// A persistence failure; carries a message for the log.
    InternalError(String),
}

/// What resolution decides for a looked-up record at a given instant: the
/// outcome handed to the caller and the click to record, if any.
pub fn resolve_record(found: Option<&LinkRecord>, now: i64, requester_address: Option<&String>) -> (r:
    (ResolveResponse, Option<ClickRecord>))
    requires
        0 <= now <= MAX_TIMESTAMP,
        match found {
            Some(rec) => rec.wf(),
            None => true,
        },
    ensures
        match found {
            None => r.0 is NotFound && r.1 is None,
            Some(rec) => {
                if rec.spec_expired(now as int) {
                    r.0 is Expired && r.1 is None
                } else {
                    &&& r.0 matches ResolveResponse::Found(url) && url@ == rec.target_url@
                    &&& r.1 matches Some(click)
                    &&& click.link_id == rec.id
                    &&& click.created_at == now
                    &&& match (click.hashed_address, requester_address) {
                        (Some(h), Some(a)) => h@ == sha256_hex(process_salt(), a@),
                        (None, None) => true,
                        _ => false,
                    }
                    &&& click.wf()
                }
            },
        },
{
    match found {
        None => (ResolveResponse::NotFound, None),
        Some(rec) => {
            if rec.is_expired(now) {
                (ResolveResponse::Expired, None)
            } else {
                let hashed_address = match requester_address {
                    Some(address) => Some(hash_with_env_salt(address.as_str())),
                    None => None,
                };
                let click = ClickRecord { link_id: rec.id, hashed_address, created_at: now };
                (ResolveResponse::Found(rec.target_url.clone()), Some(click))
            }
        },
    }
}

/// The body served when a code is missing or expired; one text for both, so
/// the two cases cannot be told apart.
pub fn trail_not_found_message() -> (r: &'static str)
    ensures
        r@ == "Trail ID has not been found or has expired"@,
{
    "Trail ID has not been found or has expired"
}

impl ResolveResponse {
    /// The HTTP status this outcome is rendered with. A missing and an
    /// expired link share one status.
    pub fn status_code(&self) -> (r: u16)
        ensures
            r == match self {
                ResolveResponse::Found(_) => 302int,
                ResolveResponse::NotFound => 404int,
                ResolveResponse::Expired => 404int,
                ResolveResponse::InternalError(_) => 500int,
            },
    {
        match self {
            ResolveResponse::Found(_) => 302,
            ResolveResponse::NotFound => 404,
            ResolveResponse::Expired => 404,
            ResolveResponse::InternalError(_) => 500,
        }
    }

    /// The redirect target, on the Found outcome alone.
    pub fn redirect_target(&self) -> (r: Option<&String>)
        ensures
            match self {
                ResolveResponse::Found(url) => r matches Some(u) && u@ == url@,
                _ => r is None,
            },
    {
        match self {
            ResolveResponse::Found(url) => Some(url),
            _ => None,
        }
    }

    /// The response body. A missing and an expired link share one body, so
    /// they are observably identical.
    pub fn body_text(&self) -> (r: String)
        ensures
            r@ == match self {
                ResolveResponse::Found(_) => Seq::<char>::empty(),
                ResolveResponse::NotFound => "Trail ID has not been found or has expired"@,
                ResolveResponse::Expired => "Trail ID has not been found or has expired"@,
                ResolveResponse::InternalError(msg) => msg@,
            },
    {
        match self {
            ResolveResponse::Found(_) => String::new(),
            ResolveResponse::NotFound => String::from_str(trail_not_found_message()),
            ResolveResponse::Expired => String::from_str(trail_not_found_message()),
            ResolveResponse::InternalError(msg) => msg.clone(),
        }
    }

    /// The outcome standing for a persistence failure.
    pub fn from_store_error(e: StoreError) -> (r: Self)
        ensures
            r matches ResolveResponse::InternalError(msg) && msg == e.message,
    {
        ResolveResponse::InternalError(e.message)
    }
}

} // verus!
