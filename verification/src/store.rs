//! A reference link store: the persistence collaborator's contract
//! (reserve an identifier, finalize a code, fetch by code, record and
//! aggregate clicks) realized over in-memory vectors.
//!
//! Creation is one unit of work: the identifier is assigned, the code
//! derived from it, and the finished record made visible in a single call,
//! so no caller ever observes a row with a placeholder code.

use vstd::prelude::*;

use crate::clicks::{count_clicks, sort_desc, sorted_desc, spec_unique_count};
use crate::clock::MAX_TIMESTAMP;
use crate::codec::{encode62, encode_base62, lemma_encode62_injective};
use crate::link::{ClickRecord, LinkRecord, MAX_EXPIRATION_HOURS, SECONDS_PER_HOUR};

verus! {

/// The in-memory link store.
#[derive(Debug)]
pub struct LinkStore {
    /// The stored links, in creation order.
    pub links: Vec<LinkRecord>,
    /// The recorded clicks, in insertion order.
    pub clicks: Vec<ClickRecord>,
    /// The next identifier to assign; identifiers are monotonically
    /// increasing and start at 1.
    pub next_id: u64,
}

/// The index of the first link with the given code, or -1.
pub open spec fn spec_find_index(links: Seq<LinkRecord>, code: Seq<char>) -> int
    decreases links.len(),
{
    if links.len() == 0 {
        -1
    } else if links[0].code@ == code {
        0
    } else {
        let rest = spec_find_index(links.drop_first(), code);
        if rest == -1 {
            -1
        } else {
            rest + 1
        }
    }
}

/// Whether some link carries the given code.
pub open spec fn spec_has_code(links: Seq<LinkRecord>, code: Seq<char>) -> bool {
    spec_find_index(links, code) != -1
}

/// The find index is in range, marks the first link with the code, and is
/// -1 exactly when no link has the code.
pub proof fn lemma_find_index_props(links: Seq<LinkRecord>, code: Seq<char>)
    ensures
        spec_find_index(links, code) == -1 ==> forall|i: int|
            0 <= i < links.len() ==> (#[trigger] links[i]).code@ != code,
        spec_find_index(links, code) != -1 ==> {
            &&& 0 <= spec_find_index(links, code) < links.len()
            &&& links[spec_find_index(links, code)].code@ == code
            &&& forall|i: int|
                0 <= i < spec_find_index(links, code) ==> (#[trigger] links[i]).code@ != code
        },
    decreases links.len(),
{
    if links.len() > 0 && links[0].code@ != code {
        let t = links.drop_first();
        lemma_find_index_props(t, code);
        let r = spec_find_index(t, code);
        if r == -1 {
            assert forall|i: int| 0 <= i < links.len() implies (#[trigger] links[i]).code@
                != code by {
                if i > 0 {
                    assert(t[i - 1] == links[i]);
                }
            }
        } else {
            assert(links[r + 1] == t[r]);
            assert forall|i: int| 0 <= i < r + 1 implies (#[trigger] links[i]).code@ != code by {
                if i > 0 {
                    assert(t[i - 1] == links[i]);
                }
            }
        }
    }
}

/// The clicks that remain when a link's clicks are cascaded away.
pub open spec fn spec_clicks_without(clicks: Seq<ClickRecord>, id: u64) -> Seq<ClickRecord>
    decreases clicks.len(),
{
    if clicks.len() == 0 {
        Seq::empty()
    } else {
        let rest = spec_clicks_without(clicks.drop_last(), id);
        if clicks.last().link_id == id {
            rest
        } else {
            rest.push(clicks.last())
        }
    }
}

/// The hashed addresses of a link's clicks, in insertion order.
pub open spec fn spec_link_addresses(clicks: Seq<ClickRecord>, id: u64) -> Seq<Option<String>>
    decreases clicks.len(),
{
    if clicks.len() == 0 {
        Seq::empty()
    } else {
        let rest = spec_link_addresses(clicks.drop_last(), id);
        if clicks.last().link_id == id {
            rest.push(clicks.last().hashed_address)
        } else {
            rest
        }
    }
}

/// A link has no more addresses than there are clicks.
pub proof fn lemma_link_addresses_len(clicks: Seq<ClickRecord>, id: u64)
    ensures
        spec_link_addresses(clicks, id).len() <= clicks.len(),
    decreases clicks.len(),
{
    if clicks.len() > 0 {
        lemma_link_addresses_len(clicks.drop_last(), id);
    }
}

/// The timestamps of a link's clicks newer than the given instant, in
/// insertion order.
pub open spec fn spec_recent_timestamps(clicks: Seq<ClickRecord>, id: u64, since: int) -> Seq<i64>
    decreases clicks.len(),
{
    if clicks.len() == 0 {
        Seq::empty()
    } else {
        let rest = spec_recent_timestamps(clicks.drop_last(), id, since);
        if clicks.last().link_id == id && clicks.last().created_at > since {
            rest.push(clicks.last().created_at)
        } else {
            rest
        }
    }
}

/// Every recent timestamp is a well-formed click's timestamp.
pub proof fn lemma_recent_timestamps_range(clicks: Seq<ClickRecord>, id: u64, since: int)
    requires
        forall|i: int| 0 <= i < clicks.len() ==> (#[trigger] clicks[i]).wf(),
    ensures
        forall|i: int|
            0 <= i < spec_recent_timestamps(clicks, id, since).len() ==> 0
                <= #[trigger] spec_recent_timestamps(clicks, id, since)[i] <= MAX_TIMESTAMP,
    decreases clicks.len(),
{
    if clicks.len() > 0 {
        let t = clicks.drop_last();
        assert forall|i: int| 0 <= i < t.len() implies (#[trigger] t[i]).wf() by {
            assert(t[i] == clicks[i]);
        }
        lemma_recent_timestamps_range(t, id, since);
        let rest = spec_recent_timestamps(t, id, since);
        let s = spec_recent_timestamps(clicks, id, since);
        assert(clicks[clicks.len() - 1].wf());
        assert forall|i: int| 0 <= i < s.len() implies 0 <= #[trigger] s[i] <= MAX_TIMESTAMP by {
            if clicks.last().link_id == id && clicks.last().created_at > since {
                assert(s == rest.push(clicks.last().created_at));
                if i < rest.len() {
                    assert(s[i] == rest[i]);
                }
            } else {
                assert(s == rest);
            }
        }
    }
}

/// The clicks that survive a cascade are all well formed.
proof fn lemma_clicks_without_wf(clicks: Seq<ClickRecord>, id: u64)
    requires
        forall|i: int| 0 <= i < clicks.len() ==> (#[trigger] clicks[i]).wf(),
    ensures
        forall|i: int|
            0 <= i < spec_clicks_without(clicks, id).len() ==> (#[trigger] spec_clicks_without(
                clicks,
                id,
            )[i]).wf(),
    decreases clicks.len(),
{
    if clicks.len() > 0 {
        let t = clicks.drop_last();
        assert forall|i: int| 0 <= i < t.len() implies (#[trigger] t[i]).wf() by {
            assert(t[i] == clicks[i]);
        }
        lemma_clicks_without_wf(t, id);
        let rest = spec_clicks_without(t, id);
        let s = spec_clicks_without(clicks, id);
        assert(clicks[clicks.len() - 1].wf());
        assert forall|i: int| 0 <= i < s.len() implies (#[trigger] s[i]).wf() by {
            if clicks.last().link_id != id {
                assert(s == rest.push(clicks.last()));
                if i < rest.len() {
                    assert(s[i] == rest[i]);
                }
            } else {
                assert(s == rest);
            }
        }
    }
}

impl LinkStore {
    /// Well-formedness: every link is well formed with a distinct
    /// identifier below the next one, every code is the encoding of its
    /// link's identifier, and every click is well formed.
    pub open spec fn wf(self) -> bool {
        &&& forall|i: int| 0 <= i < self.links@.len() ==> (#[trigger] self.links@[i]).wf()
        &&& forall|i: int| 0 <= i < self.links@.len() ==> (#[trigger] self.links@[i]).id < self.next_id
        &&& forall|i: int, j: int|
            0 <= i < self.links@.len() && 0 <= j < self.links@.len() && i != j
                ==> (#[trigger] self.links@[i]).id != (#[trigger] self.links@[j]).id
        &&& forall|i: int|
            0 <= i < self.links@.len() ==> (#[trigger] self.links@[i]).code@ == encode62(
                self.links@[i].id as nat,
            )
        &&& self.next_id >= 1
        &&& forall|i: int| 0 <= i < self.clicks@.len() ==> (#[trigger] self.clicks@[i]).wf()
    }

    /// An empty store; the first identifier to be assigned is 1.
    pub fn new() -> (r: Self)
        ensures
            r.wf(),
            r.links@.len() == 0,
            r.clicks@.len() == 0,
            r.next_id == 1,
    {
        LinkStore { links: Vec::new(), clicks: Vec::new(), next_id: 1 }
    }

    /// Creates a link in one unit of work: assigns the next identifier,
    /// derives the code from it, and appends the finished record. Two
    /// calls never return the same code, because each consumes a fresh
    /// identifier and the encoding is injective.
    pub fn create_link(
        &mut self,
        target_url: String,
        secret: String,
        expiration_hours: u16,
        now: i64,
    ) -> (code: String)
        requires
            old(self).wf(),
            old(self).next_id < u64::MAX,
            1 <= expiration_hours <= MAX_EXPIRATION_HOURS,
            0 <= now,
            now + (MAX_EXPIRATION_HOURS as int) * (SECONDS_PER_HOUR as int) <= MAX_TIMESTAMP,
        ensures
            final(self).wf(),
            code@ == encode62(old(self).next_id as nat),
            final(self).links@.len() == old(self).links@.len() + 1,
            forall|i: int|
                0 <= i < old(self).links@.len() ==> final(self).links@[i] == old(self).links@[i],
            final(self).links@.last() == (LinkRecord {
                id: old(self).next_id,
                code: final(self).links@.last().code,
                target_url,
                secret,
                created_at: now,
                expiration_hours,
            }),
            final(self).links@.last().code@ == encode62(old(self).next_id as nat),
            final(self).clicks == old(self).clicks,
            final(self).next_id == old(self).next_id + 1,
    {
        let id = self.next_id;
        let code = encode_base62(id);
        let record = LinkRecord {
            id,
            code: code.clone(),
            target_url,
            secret,
            created_at: now,
            expiration_hours,
        };
        self.links.push(record);
        self.next_id = id + 1;
        code
    }

    /// Fetches the link with the given code, if one exists.
    pub fn find_link_by_code<'a>(&'a self, code: &String) -> (r: Option<&'a LinkRecord>)
        ensures
            match r {
                Some(rec) => 0 <= spec_find_index(self.links@, code@) < self.links@.len() && *rec
                    == self.links@[spec_find_index(self.links@, code@)],
                None => spec_find_index(self.links@, code@) == -1,
            },
    {
        match find_index_of_code(&self.links, code) {
            Some(i) => Some(&self.links[i]),
            None => None,
        }
    }

    /// Deletes the link with the given code, cascading its clicks away;
    /// returns whether a link was removed. Afterwards no link carries the
    /// code.
    pub fn delete_link_by_code(&mut self, code: &String) -> (r: bool)
        requires
            old(self).wf(),
        ensures
            final(self).wf(),
            final(self).next_id == old(self).next_id,
            ({
                let idx = spec_find_index(old(self).links@, code@);
                if idx == -1 {
                    &&& !r
                    &&& final(self).links == old(self).links
                    &&& final(self).clicks == old(self).clicks
                } else {
                    &&& r
                    &&& final(self).links@ == old(self).links@.remove(idx)
                    &&& final(self).clicks@ == spec_clicks_without(
                        old(self).clicks@,
                        old(self).links@[idx].id,
                    )
                }
            }),
            !spec_has_code(final(self).links@, code@),
    {
        let idx = match find_index_of_code(&self.links, code) {
            None => {
                return false;
            },
            Some(idx) => idx,
        };
        proof {
            lemma_find_index_props(self.links@, code@);
        }
        let removed = self.links.remove(idx);
        let removed_id = removed.id;
        proof {
            let old_ls = old(self).links@;
            let new_ls = self.links@;
            assert forall|i: int| 0 <= i < new_ls.len() implies #[trigger] new_ls[i] == old_ls[if i
                < idx {
                i
            } else {
                i + 1
            }] by {}
        }

        let mut retained: Vec<ClickRecord> = Vec::new();
        core::mem::swap(&mut self.clicks, &mut retained);
        let ghost all_clicks = retained@;
        let ghost links_after = self.links@;
        let ghost next_id_after = self.next_id;
        let mut k: usize = 0;
        while k < retained.len()
            invariant
                0 <= k <= retained@.len(),
                retained@ == all_clicks,
                self.links@ == links_after,
                self.next_id == next_id_after,
                self.clicks@ == spec_clicks_without(all_clicks.take(k as int), removed_id),
            decreases retained@.len() - k,
        {
            proof {
                let t = all_clicks.take(k + 1);
                assert(t.drop_last() =~= all_clicks.take(k as int));
                assert(t.last() == all_clicks[k as int]);
            }
            let click = &retained[k];
            if click.link_id != removed_id {
                self.clicks.push(clone_click(click));
            }
            k = k + 1;
        }
        proof {
            assert(all_clicks.take(all_clicks.len() as int) =~= all_clicks);
            lemma_no_code_after_remove(old(self).links@, self.links@, code@, idx as int);
            lemma_find_index_props(self.links@, code@);
            lemma_clicks_without_wf(all_clicks, removed_id);
            let old_ls = old(self).links@;
            let new_ls = self.links@;
            assert forall|i: int| 0 <= i < new_ls.len() implies #[trigger] new_ls[i] == old_ls[if i
                < idx {
                i
            } else {
                i + 1
            }] by {}
            assert forall|i: int, j: int|
                0 <= i < new_ls.len() && 0 <= j < new_ls.len() && i
                    != j implies (#[trigger] new_ls[i]).id != (#[trigger] new_ls[j]).id by {
                let si = if i < idx {
                    i
                } else {
                    i + 1
                };
                let sj = if j < idx {
                    j
                } else {
                    j + 1
                };
                assert(old_ls[si].id != old_ls[sj].id);
            }
        }
        true
    }

    /// Records a click against an existing link.
    pub fn insert_click(&mut self, click: ClickRecord)
        requires
            old(self).wf(),
            click.wf(),
            exists|i: int|
                0 <= i < old(self).links@.len() && (#[trigger] old(self).links@[i]).id
                    == click.link_id,
        ensures
            final(self).wf(),
            final(self).links == old(self).links,
            final(self).next_id == old(self).next_id,
            final(self).clicks@ == old(self).clicks@.push(click),
    {
        self.clicks.push(click);
    }

    /// The hashed addresses of a link's clicks, in insertion order.
    pub fn link_addresses(&self, link_id: u64) -> (r: Vec<Option<String>>)
        ensures
            r@ == spec_link_addresses(self.clicks@, link_id),
            r@.len() <= self.clicks@.len(),
    {
        let mut addresses: Vec<Option<String>> = Vec::new();
        let mut i: usize = 0;
        while i < self.clicks.len()
            invariant
                0 <= i <= self.clicks@.len(),
                addresses@ == spec_link_addresses(self.clicks@.take(i as int), link_id),
            decreases self.clicks@.len() - i,
        {
            proof {
                let t = self.clicks@.take(i + 1);
                assert(t.drop_last() =~= self.clicks@.take(i as int));
                assert(t.last() == self.clicks@[i as int]);
            }
            let click = &self.clicks[i];
            if click.link_id == link_id {
                addresses.push(clone_address(&click.hashed_address));
            }
            i = i + 1;
        }
        proof {
            assert(self.clicks@.take(self.clicks@.len() as int) =~= self.clicks@);
            lemma_link_addresses_len(self.clicks@, link_id);
        }
        addresses
    }

    /// Aggregates a link's clicks: the unique count and the total count.
    pub fn aggregate_clicks(&self, link_id: u64) -> (r: (u64, u64))
        requires
            self.clicks@.len() < u64::MAX,
        ensures
            r.0 == spec_unique_count(spec_link_addresses(self.clicks@, link_id)),
            r.1 == spec_link_addresses(self.clicks@, link_id).len(),
            r.0 <= r.1 <= self.clicks@.len(),
    {
        let addresses = self.link_addresses(link_id);
        count_clicks(&addresses)
    }

    /// The timestamps of a link's clicks newer than the given instant,
    /// newest first.
    pub fn recent_click_timestamps(&self, link_id: u64, since: i64) -> (r: Vec<i64>)
        requires
            self.wf(),
        ensures
            sorted_desc(r@),
            r@.to_multiset() == spec_recent_timestamps(self.clicks@, link_id, since as int)
                .to_multiset(),
            r@.len() == spec_recent_timestamps(self.clicks@, link_id, since as int).len(),
            forall|i: int| 0 <= i < r@.len() ==> 0 <= #[trigger] r@[i] <= MAX_TIMESTAMP,
    {
        let mut timestamps: Vec<i64> = Vec::new();
        let mut i: usize = 0;
        while i < self.clicks.len()
            invariant
                0 <= i <= self.clicks@.len(),
                timestamps@ == spec_recent_timestamps(
                    self.clicks@.take(i as int),
                    link_id,
                    since as int,
                ),
            decreases self.clicks@.len() - i,
        {
            proof {
                let t = self.clicks@.take(i + 1);
                assert(t.drop_last() =~= self.clicks@.take(i as int));
                assert(t.last() == self.clicks@[i as int]);
            }
            let click = &self.clicks[i];
            if click.link_id == link_id && click.created_at > since {
                timestamps.push(click.created_at);
            }
            i = i + 1;
        }
        proof {
            assert(self.clicks@.take(self.clicks@.len() as int) =~= self.clicks@);
        }
        let sorted = sort_desc(timestamps);
        proof {
            broadcast use vstd::seq_lib::group_to_multiset_ensures;

            lemma_recent_timestamps_range(self.clicks@, link_id, since as int);
            let spec_ts = spec_recent_timestamps(self.clicks@, link_id, since as int);
            assert forall|i: int| 0 <= i < sorted@.len() implies 0 <= #[trigger] sorted@[i]
                <= MAX_TIMESTAMP by {
                assert(sorted@.contains(sorted@[i]));
                assert(sorted@.to_multiset().count(sorted@[i]) > 0);
                assert(spec_ts.to_multiset().count(sorted@[i]) > 0);
                assert(spec_ts.contains(sorted@[i]));
                let j = choose|j: int| 0 <= j < spec_ts.len() && spec_ts[j] == sorted@[i];
            }
        }
        sorted
    }
}

/// All codes in a well-formed store are distinct: each is the injective
/// encoding of its link's distinct identifier.
pub proof fn lemma_codes_distinct(store: LinkStore)
    requires
        store.wf(),
    ensures
        forall|i: int, j: int|
            0 <= i < store.links@.len() && 0 <= j < store.links@.len() && i != j
                ==> (#[trigger] store.links@[i]).code@ != (#[trigger] store.links@[j]).code@,
{
    assert forall|i: int, j: int|
        0 <= i < store.links@.len() && 0 <= j < store.links@.len() && i
            != j implies (#[trigger] store.links@[i]).code@ != (#[trigger] store.links@[j]).code@ by {
        lemma_encode62_injective(store.links@[i].id as nat, store.links@[j].id as nat);
    }
}

/// After removing the only link with a code from a well-formed store's
/// links, no link has that code.
proof fn lemma_no_code_after_remove(
    links: Seq<LinkRecord>,
    remaining: Seq<LinkRecord>,
    code: Seq<char>,
    idx: int,
)
    requires
        0 <= idx < links.len(),
        remaining == links.remove(idx),
        links[idx].code@ == code,
        forall|i: int| 0 <= i < links.len() ==> (#[trigger] links[i]).code@ == encode62(
            links[i].id as nat,
        ),
        forall|i: int, j: int|
            0 <= i < links.len() && 0 <= j < links.len() && i != j ==> (#[trigger] links[i]).id
                != (#[trigger] links[j]).id,
    ensures
        forall|i: int| 0 <= i < remaining.len() ==> (#[trigger] remaining[i]).code@ != code,
{
    assert forall|i: int| 0 <= i < remaining.len() implies (#[trigger] remaining[i]).code@
        != code by {
        let src = if i < idx {
            i
        } else {
            i + 1
        };
        assert(remaining[i] == links[src]);
        lemma_encode62_injective(links[src].id as nat, links[idx].id as nat);
    }
}

/// The position of the first link with the given code, if any.
fn find_index_of_code(links: &Vec<LinkRecord>, code: &String) -> (r: Option<usize>)
    ensures
        match r {
            Some(i) => i == spec_find_index(links@, code@) && i < links@.len(),
            None => spec_find_index(links@, code@) == -1,
        },
{
    let mut i: usize = 0;
    while i < links.len()
        invariant
            0 <= i <= links@.len(),
            forall|j: int| 0 <= j < i ==> (#[trigger] links@[j]).code@ != code@,
        decreases links@.len() - i,
    {
        if links[i].code == *code {
            proof {
                lemma_find_index_props(links@, code@);
            }
            return Some(i);
        }
        i = i + 1;
    }
    proof {
        lemma_find_index_props(links@, code@);
    }
    None
}

/// A copy of a click's optional hashed address.
pub(crate) fn clone_address(a: &Option<String>) -> (r: Option<String>)
    ensures
        r == *a,
{
    match a {
        Some(s) => Some(s.clone()),
        None => None,
    }
}

/// A copy of a click record.
fn clone_click(c: &ClickRecord) -> (r: ClickRecord)
    ensures
        r == *c,
{
    ClickRecord {
        link_id: c.link_id,
        hashed_address: clone_address(&c.hashed_address),
        created_at: c.created_at,
    }
}

} // verus!
