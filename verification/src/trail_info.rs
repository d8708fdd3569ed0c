//! The info view of a link: public base fields for anyone who knows the
//! code, and detail fields (creation time, expiration, click-time history)
//! only for the authenticated owner.
//!
//! An incorrect secret is treated exactly like an absent one: the detail
//! fields are omitted, not reported as an authorization failure.

use vstd::prelude::*;

use crate::clicks::{count_clicks, spec_unique_count};
use crate::clock::{format_utc, utc_string_of, MAX_TIMESTAMP};
use crate::error::StoreError;
use crate::link::LinkRecord;
use crate::response::TTResponse;

verus! {

/// Query parameters of an info request.
#[derive(Debug, Clone)]
pub struct TrailInfoQueryParams {
    /// Whether the owner asks for the click timestamps of the last week.
    pub with_week_history: bool,
}

/// The info payload. The optional fields are present exactly when the
/// caller authenticated as the owner.
#[derive(Debug, Clone)]
pub struct TrailInfoResponseData {
    /// The link's short code.
    pub trailid: String,
    /// The target URL.
    pub long: String,
    /// Distinct click sources; all anonymous clicks count as one bucket.
    pub unique_tracks: i64,
    /// Every recorded click.
    pub total_tracks: i64,
    /// Owner only: when the link was created, as a UTC time string.
    pub created_at: Option<String>,
    /// Owner only: the expiration window in hours.
    pub expiration_hours: Option<i32>,
    /// Owner only: when the link expires, as a UTC time string.
    pub expires_at: Option<String>,
    /// Owner only, on request: click times of the last week, newest first.
    pub week_history: Option<Vec<String>>,
}

/// Outcomes of an info request.
#[derive(Debug)]
pub enum TrailInfoResponse {
    /// No link with that code exists.
    NotFound,
    /// The unified response: the payload, or an internal error.
    TTResponse(TTResponse<TrailInfoResponseData>),
}

/// What the info payload owes for a link, given whether the caller
/// authenticated: base fields always, detail fields exactly under
/// authentication, the week history only when authenticated and asked for.
pub open spec fn spec_info_post(
    rec: LinkRecord,
    auth: bool,
    with_week: bool,
    clicks: Seq<Option<String>>,
    week: Seq<i64>,
    d: TrailInfoResponseData,
) -> bool {
    &&& d.trailid@ == rec.code@
    &&& d.long@ == rec.target_url@
    &&& d.unique_tracks == spec_unique_count(clicks)
    &&& d.total_tracks == clicks.len()
    &&& (match d.created_at {
        Option::Some(s) => auth && s@ == utc_string_of(rec.created_at as int),
        Option::None => !auth,
    })
    &&& d.expiration_hours == (if auth {
        Option::Some(rec.expiration_hours as i32)
    } else {
        Option::None
    })
    &&& (match d.expires_at {
        Option::Some(s) => auth && s@ == utc_string_of(rec.spec_expires_at()),
        Option::None => !auth,
    })
    &&& (match d.week_history {
        Option::Some(v) => auth && with_week && v@.len() == week.len() && (forall|i: int|
            0 <= i < week.len() ==> (#[trigger] v@[i])@ == utc_string_of(week[i] as int)),
        Option::None => !(auth && with_week),
    })
}

/// What an info request decides for a looked-up record: the payload built
/// from the record, the caller's secret, and the link's clicks.
pub fn trail_info(
    found: Option<&LinkRecord>,
    provided_secret: Option<&String>,
    with_week_history: bool,
    click_addresses: &Vec<Option<String>>,
    week_timestamps: &Vec<i64>,
) -> (r: TrailInfoResponse)
    requires
        match found {
            Some(rec) => rec.wf(),
            None => true,
        },
        click_addresses@.len() <= i64::MAX,
        forall|i: int|
            0 <= i < week_timestamps@.len() ==> 0 <= #[trigger] week_timestamps@[i]
                <= MAX_TIMESTAMP,
    ensures
        match found {
            None => r is NotFound,
            Some(rec) => r matches TrailInfoResponse::TTResponse(TTResponse::Data(d))
                && spec_info_post(
                *rec,
                rec.spec_secret_matches(provided_secret),
                with_week_history,
                click_addresses@,
                week_timestamps@,
                d,
            ),
        },
{
    let rec = match found {
        None => {
            return TrailInfoResponse::NotFound;
        },
        Some(rec) => rec,
    };

    let has_auth = rec.secret_matches(provided_secret);
    let (unique, total) = count_clicks(click_addresses);

    let created_at = if has_auth {
        Some(format_utc(rec.created_at))
    } else {
        None
    };
    let expiration_hours = if has_auth {
        Some(rec.expiration_hours as i32)
    } else {
        None
    };
    let expires_at = if has_auth {
        Some(format_utc(rec.expires_at()))
    } else {
        None
    };

    let week_history = if has_auth && with_week_history {
        let mut rendered: Vec<String> = Vec::new();
        let mut i: usize = 0;
        while i < week_timestamps.len()
            invariant
                0 <= i <= week_timestamps@.len(),
                rendered@.len() == i,
                forall|j: int|
                    0 <= j < i ==> (#[trigger] rendered@[j])@ == utc_string_of(
                        week_timestamps@[j] as int,
                    ),
                forall|j: int|
                    0 <= j < week_timestamps@.len() ==> 0 <= #[trigger] week_timestamps@[j]
                        <= MAX_TIMESTAMP,
            decreases week_timestamps@.len() - i,
        {
            rendered.push(format_utc(week_timestamps[i]));
            i = i + 1;
        }
        Some(rendered)
    } else {
        None
    };

    TrailInfoResponse::TTResponse(TTResponse::Data(TrailInfoResponseData {
        trailid: rec.code.clone(),
        long: rec.target_url.clone(),
        unique_tracks: unique as i64,
        total_tracks: total as i64,
        created_at,
        expiration_hours,
        expires_at,
        week_history,
    }))
}

/// Without authentication the detail fields are absent.
pub proof fn lemma_info_hides_details_without_auth(
    rec: LinkRecord,
    with_week: bool,
    clicks: Seq<Option<String>>,
    week: Seq<i64>,
    d: TrailInfoResponseData,
)
    requires
        spec_info_post(rec, false, with_week, clicks, week, d),
    ensures
        d.created_at is None,
        d.expiration_hours is None,
        d.expires_at is None,
        d.week_history is None,
{
}

/// With authentication the detail fields are all present.
pub proof fn lemma_info_shows_details_with_auth(
    rec: LinkRecord,
    with_week: bool,
    clicks: Seq<Option<String>>,
    week: Seq<i64>,
    d: TrailInfoResponseData,
)
    requires
        spec_info_post(rec, true, with_week, clicks, week, d),
    ensures
        d.created_at is Some,
        d.expiration_hours is Some,
        d.expires_at is Some,
        with_week ==> d.week_history is Some,
{
}

/// An incorrect secret authenticates exactly as well as no secret at all.
pub proof fn lemma_wrong_secret_like_none(rec: LinkRecord, provided: String)
    requires
        provided@ != rec.secret@,
    ensures
        rec.spec_secret_matches(Option::Some(&provided)) == rec.spec_secret_matches(
            Option::None,
        ),
{
}

/// The stored secret authenticates the owner.
pub proof fn lemma_correct_secret_authenticates(rec: LinkRecord, provided: String)
    requires
        provided@ == rec.secret@,
    ensures
        rec.spec_secret_matches(Option::Some(&provided)),
{
}

/// Two payloads built for the same record, authentication outcome, clicks
/// and history read the same: the info view is determined by those inputs.
pub proof fn lemma_info_observably_equal(
    rec: LinkRecord,
    auth: bool,
    with_week: bool,
    clicks: Seq<Option<String>>,
    week: Seq<i64>,
    d1: TrailInfoResponseData,
    d2: TrailInfoResponseData,
)
    requires
        spec_info_post(rec, auth, with_week, clicks, week, d1),
        spec_info_post(rec, auth, with_week, clicks, week, d2),
    ensures
        d1.trailid@ == d2.trailid@,
        d1.long@ == d2.long@,
        d1.unique_tracks == d2.unique_tracks,
        d1.total_tracks == d2.total_tracks,
        d1.created_at is Some <==> d2.created_at is Some,
        d1.created_at matches Some(s1) ==> d2.created_at matches Some(s2) && s1@ == s2@,
        d1.expiration_hours == d2.expiration_hours,
        d1.expires_at is Some <==> d2.expires_at is Some,
        d1.expires_at matches Some(s1) ==> d2.expires_at matches Some(s2) && s1@ == s2@,
        d1.week_history is Some <==> d2.week_history is Some,
        d1.week_history matches Some(v1) ==> d2.week_history matches Some(v2) && v1@.len()
            == v2@.len() && (forall|i: int|
            0 <= i < v1@.len() ==> (#[trigger] v1@[i])@ == v2@[i]@),
{
}

impl TrailInfoResponse {
    /// The HTTP status this outcome is rendered with.
    pub fn status_code(&self) -> (r: u16)
        ensures
            r == match self {
                TrailInfoResponse::NotFound => 404int,
                TrailInfoResponse::TTResponse(inner) => inner.spec_status_code(),
            },
    {
        match self {
            TrailInfoResponse::NotFound => 404,
            TrailInfoResponse::TTResponse(inner) => inner.status_code(),
        }
    }

    /// The outcome standing for a persistence failure.
    pub fn from_store_error(e: StoreError) -> (r: Self)
        ensures
            r matches TrailInfoResponse::TTResponse(inner) && inner matches TTResponse::Error(err)
                && err.message == e.message,
    {
        TrailInfoResponse::TTResponse(TTResponse::from_store_error(e))
    }
}

} // verus!
