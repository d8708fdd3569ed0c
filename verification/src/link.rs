//! The stored records: a link (a short code mapped to a target URL with an
//! owner secret and an expiration window) and a click (one recorded
//! resolution of a link).

use vstd::prelude::*;

use crate::clock::MAX_TIMESTAMP;

verus! {

/// Expiration windows are bounded to between one hour and thirty days.
pub const MAX_EXPIRATION_HOURS: u16 = 720;

/// Seconds in one hour, the granularity of expiration arithmetic.
pub const SECONDS_PER_HOUR: i64 = 3600;

/// A stored link.
#[derive(Debug, Clone)]
pub struct LinkRecord {
    /// Store-assigned, monotonically increasing identifier.
    pub id: u64,
    /// The public short code, a reversible encoding of `id`.
    pub code: String,
    /// The absolute URL the code resolves to.
    pub target_url: String,
    /// Owner credential required to delete the link or view its detail
    /// fields.
    pub secret: String,
    /// When the link was created, in UTC seconds.
    pub created_at: i64,
    /// How many hours after creation the link expires.
    pub expiration_hours: u16,
}

impl LinkRecord {
    /// Well-formedness: the expiration window is in range and the expiry
    /// time fits in the supported timestamp range.
    pub open spec fn wf(self) -> bool {
        &&& 1 <= self.expiration_hours <= MAX_EXPIRATION_HOURS
        &&& 0 <= self.created_at
        &&& self.created_at + (self.expiration_hours as int) * (SECONDS_PER_HOUR as int)
            <= MAX_TIMESTAMP
    }

    /// The instant the link expires.
    pub open spec fn spec_expires_at(self) -> int {
        self.created_at + (self.expiration_hours as int) * (SECONDS_PER_HOUR as int)
    }

    /// A link is expired from its expiry instant on.
    pub open spec fn spec_expired(self, now: int) -> bool {
        now >= self.spec_expires_at()
    }

    /// The instant the link expires.
    pub fn expires_at(&self) -> (r: i64)
        requires
            self.wf(),
        ensures
            r == self.spec_expires_at(),
    {
        self.created_at + (self.expiration_hours as i64) * SECONDS_PER_HOUR
    }

    /// Whether the link is expired at the given instant.
    pub fn is_expired(&self, now: i64) -> (r: bool)
        requires
            self.wf(),
        ensures
            r == self.spec_expired(now as int),
    {
        now >= self.expires_at()
    }

    /// Whether a caller-supplied secret authenticates the owner.
    pub fn secret_matches(&self, provided: Option<&String>) -> (r: bool)
        ensures
            r == self.spec_secret_matches(provided),
    {
        match provided {
            Some(s) => *s == self.secret,
            None => false,
        }
    }

    /// Whether a caller-supplied secret authenticates the owner.
    pub open spec fn spec_secret_matches(self, provided: Option<&String>) -> bool {
        match provided {
            Some(s) => s@ == self.secret@,
            None => false,
        }
    }
}

/// The expiration boundary for a one-hour link: live a minute before the
/// hour is up, expired at exactly the hour, and expired a minute after.
pub proof fn lemma_expiration_boundary(rec: LinkRecord)
    requires
        rec.wf(),
        rec.expiration_hours == 1,
    ensures
        !rec.spec_expired(rec.created_at + 59 * 60),
        rec.spec_expired(rec.created_at + 60 * 60),
        rec.spec_expired(rec.created_at + 61 * 60),
{
}

/// One recorded resolution of a link.
#[derive(Debug, Clone)]
pub struct ClickRecord {
    /// The link the click was recorded against.
    pub link_id: u64,
    /// The salted hash of the requester's address; absent when the address
    /// was unavailable. The raw address is never stored.
    pub hashed_address: Option<String>,
    /// When the click was recorded, in UTC seconds.
    pub created_at: i64,
}

impl ClickRecord {
    /// Well-formedness: the click's timestamp is in the supported range.
    pub open spec fn wf(self) -> bool {
        0 <= self.created_at <= MAX_TIMESTAMP
    }
}

} // verus!
