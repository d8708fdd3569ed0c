//! The service operations, composed end to end over the reference store:
//! creating a link, resolving a code, viewing a link's info, and deleting
//! a link. Each operation states what it returns and how it changes the
//! store.

use vstd::prelude::*;
use vstd::string::StrSliceExecFns;

use crate::clicks::sorted_desc;
use crate::clock::MAX_TIMESTAMP;
use crate::codec::{encode62, is_base62_char};
use crate::delete::{delete_trail as delete_decision, DeleteTrailResponse};
use crate::hashing::{process_salt, sha256_hex};
use crate::json::JsonData;
use crate::link::{MAX_EXPIRATION_HOURS, SECONDS_PER_HOUR};
use crate::resolve::{resolve_record, ResolveResponse};
use crate::response::TTResponse;
use crate::shorten::{
    spec_errors_for, spec_validate, ShortenInput, ShortenResponseData, ValidationOutcome,
    SECRET_LENGTH,
};
use crate::store::{
    spec_clicks_without, spec_find_index, spec_has_code, spec_link_addresses,
    spec_recent_timestamps, LinkStore,
};
use crate::trail_info::{
    spec_info_post, trail_info as trail_info_decision, TrailInfoQueryParams, TrailInfoResponse,
};

verus! {

/// How far back the click history of an info request reaches.
pub const WEEK_SECONDS: i64 = 604800;

/// What resolving a code against a store amounts to, before any click is
/// recorded: missing (or empty) code, expired link, or a live link.
pub enum ResolutionKind {
    /// The code is empty or no link carries it.
    Missing,
    /// A link carries the code but its window has passed.
    Expired,
    /// A link carries the code and is live; the index of that link.
    Live(int),
}

/// The resolution outcome a store owes for a code at an instant.
pub open spec fn spec_resolution(store: LinkStore, code: Seq<char>, now: int) -> ResolutionKind {
    let idx = spec_find_index(store.links@, code);
    if code.len() == 0 || idx == -1 {
        ResolutionKind::Missing
    } else if store.links@[idx].spec_expired(now) {
        ResolutionKind::Expired
    } else {
        ResolutionKind::Live(idx)
    }
}

/// Creates a short link from a request body: validates it, generates an
/// owner secret, and allocates the next identifier's code, all before any
/// caller can observe a partial record. A rejected body leaves the store
/// untouched.
pub fn shorten(store: &mut LinkStore, input_json: &JsonData, now: i64) -> (r: TTResponse<
    ShortenResponseData,
>)
    requires
        old(store).wf(),
        old(store).next_id < u64::MAX,
        0 <= now,
        now + (MAX_EXPIRATION_HOURS as int) * (SECONDS_PER_HOUR as int) <= MAX_TIMESTAMP,
    ensures
        final(store).wf(),
        match spec_validate(*input_json) {
            ValidationOutcome::Accept(u, h) => {
                &&& r matches TTResponse::Data(d)
                &&& d.trailid@ == encode62(old(store).next_id as nat)
                &&& d.secret@.len() == SECRET_LENGTH
                &&& forall|i: int| 0 <= i < d.secret@.len() ==> is_base62_char(#[trigger] d.secret@[i])
                &&& final(store).links@.len() == old(store).links@.len() + 1
                &&& (forall|i: int|
                    0 <= i < old(store).links@.len() ==> final(store).links@[i] == old(
                        store,
                    ).links@[i])
                &&& ({
                    let rec = final(store).links@.last();
                    &&& rec.id == old(store).next_id
                    &&& rec.code@ == d.trailid@
                    &&& rec.target_url@ == u
                    &&& rec.secret == d.secret
                    &&& rec.created_at == now
                    &&& rec.expiration_hours as int == (match h {
                        Option::Some(hv) => hv,
                        Option::None => 1int,
                    })
                })
                &&& final(store).next_id == old(store).next_id + 1
                &&& final(store).clicks == old(store).clicks
            },
            _ => {
                &&& r matches TTResponse::Errors(es)
                &&& spec_errors_for(spec_validate(*input_json), es@)
                &&& *final(store) == *old(store)
            },
        },
{
    let input = match ShortenInput::from_json(input_json) {
        Err(errors) => {
            return TTResponse::Errors(errors);
        },
        Ok(input) => input,
    };
    let secret = crate::shorten::generate_secret();
    let expiration_hours: u16 = match input.expiration_hours {
        Some(h) => h,
        None => 1,
    };
    let code = store.create_link(input.url, secret.clone(), expiration_hours, now);
    TTResponse::Data(ShortenResponseData { trailid: code, secret })
}

/// Resolves a short code: an empty or unknown code is missing, an expired
/// link is reported expired, and a live link yields its target URL and
/// records one click, carrying the salted hash of the requester's address
/// and the resolution time.
pub fn resolve(
    store: &mut LinkStore,
    code: &String,
    requester_address: Option<&String>,
    now: i64,
) -> (r: ResolveResponse)
    requires
        old(store).wf(),
        0 <= now <= MAX_TIMESTAMP,
    ensures
        final(store).wf(),
        final(store).links == old(store).links,
        final(store).next_id == old(store).next_id,
        match spec_resolution(*old(store), code@, now as int) {
            ResolutionKind::Missing => r is NotFound && final(store).clicks == old(store).clicks,
            ResolutionKind::Expired => r is Expired && final(store).clicks == old(store).clicks,
            ResolutionKind::Live(idx) => {
                let rec = old(store).links@[idx];
                &&& r matches ResolveResponse::Found(url) && url@ == rec.target_url@
                &&& final(store).clicks@.len() == old(store).clicks@.len() + 1
                &&& (forall|i: int|
                    0 <= i < old(store).clicks@.len() ==> final(store).clicks@[i] == old(
                        store,
                    ).clicks@[i])
                &&& ({
                    let click = final(store).clicks@.last();
                    &&& click.link_id == rec.id
                    &&& click.created_at == now
                    &&& match (click.hashed_address, requester_address) {
                        (Option::Some(h), Option::Some(a)) => h@ == sha256_hex(
                            process_salt(),
                            a@,
                        ),
                        (Option::None, Option::None) => true,
                        _ => false,
                    }
                })
            },
        },
{
    if code.as_str().is_empty() {
        return ResolveResponse::NotFound;
    }
    let found = store.find_link_by_code(code);
    proof {
        if found is Some {
            let idx = spec_find_index(store.links@, code@);
            assert(store.links@[idx].wf());
        }
    }
    let (response, click) = resolve_record(found, now, requester_address);
    match click {
        Some(click) => {
            proof {
                let idx = spec_find_index(store.links@, code@);
                assert(store.links@[idx].id == click.link_id);
            }
            store.insert_click(click);
        },
        None => {},
    }
    response
}

/// Serves an info request: the link's base fields and click counts for
/// anyone who knows the code, the detail fields only under the owner
/// secret, and on request the click times of the last week, newest first.
pub fn trail_info(
    store: &LinkStore,
    code: &String,
    provided_secret: Option<&String>,
    query: &TrailInfoQueryParams,
    now: i64,
) -> (r: TrailInfoResponse)
    requires
        store.wf(),
        store.clicks@.len() <= i64::MAX,
        0 <= now <= MAX_TIMESTAMP,
    ensures
        ({
            let idx = spec_find_index(store.links@, code@);
            if idx == -1 {
                r is NotFound
            } else {
                let rec = store.links@[idx];
                let since = now - WEEK_SECONDS;
                &&& r matches TrailInfoResponse::TTResponse(TTResponse::Data(d))
                &&& exists|week: Seq<i64>|
                    {
                        &&& sorted_desc(week)
                        &&& week.to_multiset() == spec_recent_timestamps(
                            store.clicks@,
                            rec.id,
                            since as int,
                        ).to_multiset()
                        &&& #[trigger] spec_info_post(
                            rec,
                            rec.spec_secret_matches(provided_secret),
                            query.with_week_history,
                            spec_link_addresses(store.clicks@, rec.id),
                            week,
                            d,
                        )
                    }
            }
        }),
{
    let rec = match store.find_link_by_code(code) {
        None => {
            return TrailInfoResponse::NotFound;
        },
        Some(rec) => rec,
    };
    proof {
        let idx = spec_find_index(store.links@, code@);
        assert(store.links@[idx].wf());
    }
    let since = now - WEEK_SECONDS;
    let week_timestamps = store.recent_click_timestamps(rec.id, since);
    let addresses = store.link_addresses(rec.id);
    trail_info_decision(
        Some(rec),
        provided_secret,
        query.with_week_history,
        &addresses,
        &week_timestamps,
    )
}

/// Deletes a link: reported missing when the code is unknown, refused
/// without a credential or with a wrong one, and removed (clicks
/// cascaded) under the owner secret. Only a successful deletion changes
/// the store.
pub fn delete_trail(store: &mut LinkStore, code: &String, provided_secret: Option<&String>) -> (r:
    DeleteTrailResponse)
    requires
        old(store).wf(),
    ensures
        final(store).wf(),
        final(store).next_id == old(store).next_id,
        ({
            let idx = spec_find_index(old(store).links@, code@);
            if idx == -1 {
                &&& r is NotFound
                &&& final(store).links == old(store).links
                &&& final(store).clicks == old(store).clicks
            } else {
                let rec = old(store).links@[idx];
                match provided_secret {
                    Option::None => {
                        &&& r is Unauthenticated
                        &&& final(store).links == old(store).links
                        &&& final(store).clicks == old(store).clicks
                    },
                    Option::Some(s) => {
                        if s@ == rec.secret@ {
                            &&& r is Deleted
                            &&& final(store).links@ == old(store).links@.remove(idx)
                            &&& final(store).clicks@ == spec_clicks_without(
                                old(store).clicks@,
                                rec.id,
                            )
                            &&& !spec_has_code(final(store).links@, code@)
                        } else {
                            &&& r is Unauthorized
                            &&& final(store).links == old(store).links
                            &&& final(store).clicks == old(store).clicks
                        }
                    },
                }
            }
        }),
{
    let found = store.find_link_by_code(code);
    let (response, do_delete) = delete_decision(found, provided_secret);
    if do_delete {
        store.delete_link_by_code(code);
    }
    response
}

/// A deleted code resolves as missing: once no link carries the code, the
/// resolution outcome at every instant is `Missing`.
pub proof fn lemma_deleted_code_is_missing(store: LinkStore, code: Seq<char>, now: int)
    requires
        !spec_has_code(store.links@, code),
    ensures
        spec_resolution(store, code, now) is Missing,
{
}

/// An unchanged link set resolves unchanged: a refused deletion (or any
/// operation that only touches clicks) leaves every code's resolution
/// outcome as it was.
pub proof fn lemma_same_links_same_resolution(
    s1: LinkStore,
    s2: LinkStore,
    code: Seq<char>,
    now: int,
)
    requires
        s1.links == s2.links,
    ensures
        spec_resolution(s1, code, now) == spec_resolution(s2, code, now),
{
}

} // verus!
