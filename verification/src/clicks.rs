//! Click-counting semantics and ordering of click histories.
//!
//! "Total clicks" counts every recorded click. "Unique clicks" counts
//! distinct hashed addresses, with all anonymous clicks (absent address)
//! together contributing at most one extra bucket.

use vstd::prelude::*;

verus! {

/// The set of distinct hashed-address texts among the present addresses.
pub open spec fn spec_distinct_hashed(s: Seq<Option<String>>) -> Set<Seq<char>>
    decreases s.len(),
{
    if s.len() == 0 {
        Set::empty()
    } else {
        let rest = spec_distinct_hashed(s.drop_last());
        match s.last() {
            Option::Some(a) => rest.insert(a@),
            Option::None => rest,
        }
    }
}

/// Whether some click has no address.
pub open spec fn spec_has_anonymous(s: Seq<Option<String>>) -> bool
    decreases s.len(),
{
    if s.len() == 0 {
        false
    } else {
        spec_has_anonymous(s.drop_last()) || s.last() is None
    }
}

/// The unique-click count: distinct hashed addresses, plus one shared
/// bucket for the anonymous clicks, if any.
pub open spec fn spec_unique_count(s: Seq<Option<String>>) -> int {
    spec_distinct_hashed(s).len() + if spec_has_anonymous(s) {
        1int
    } else {
        0int
    }
}

/// The distinct-address set is finite, holds exactly the texts of the
/// present addresses, and is no larger than the sequence.
pub proof fn lemma_distinct_hashed_props(s: Seq<Option<String>>)
    ensures
        spec_distinct_hashed(s).finite(),
        forall|t: Seq<char>|
            spec_distinct_hashed(s).contains(t) <==> exists|i: int|
                0 <= i < s.len() && ((#[trigger] s[i]) matches Option::Some(a) && a@ == t),
        spec_distinct_hashed(s).len() <= s.len(),
    decreases s.len(),
{
    broadcast use vstd::set::group_set_axioms, vstd::set::axiom_set_insert_len;

    if s.len() > 0 {
        let t = s.drop_last();
        lemma_distinct_hashed_props(t);
        assert forall|x: Seq<char>|
            spec_distinct_hashed(s).contains(x) implies exists|i: int|
            0 <= i < s.len() && ((#[trigger] s[i]) matches Option::Some(a) && a@ == x) by {
            if spec_distinct_hashed(t).contains(x) {
                let i = choose|i: int|
                    0 <= i < t.len() && ((#[trigger] t[i]) matches Option::Some(a) && a@ == x);
                assert(s[i] == t[i]);
            } else {
                assert(s[s.len() - 1] matches Option::Some(a) && a@ == x);
            }
        }
        assert forall|x: Seq<char>|
            (exists|i: int|
                0 <= i < s.len() && ((#[trigger] s[i]) matches Option::Some(a) && a@
                    == x)) implies spec_distinct_hashed(s).contains(x) by {
            let i = choose|i: int|
                0 <= i < s.len() && ((#[trigger] s[i]) matches Option::Some(a) && a@ == x);
            if i < s.len() - 1 {
                assert(t[i] == s[i]);
            }
        }
    }
}

/// The unique-click count never exceeds the number of clicks.
pub proof fn lemma_unique_count_le_len(s: Seq<Option<String>>)
    ensures
        0 <= spec_unique_count(s) <= s.len(),
    decreases s.len(),
{
    broadcast use vstd::set::group_set_axioms, vstd::set::axiom_set_insert_len;

    if s.len() > 0 {
        let t = s.drop_last();
        lemma_unique_count_le_len(t);
        lemma_distinct_hashed_props(t);
    }
}

/// Whether the address's text was already seen among the first `upto`
/// clicks.
#[verifier::loop_isolation(false)]
fn address_seen(addresses: &Vec<Option<String>>, upto: usize, address: &String) -> (r: bool)
    requires
        upto <= addresses@.len(),
    ensures
        r == spec_distinct_hashed(addresses@.take(upto as int)).contains(address@),
{
    proof {
        lemma_distinct_hashed_props(addresses@.take(upto as int));
    }
    let mut j: usize = 0;
    while j < upto
        invariant
            0 <= j <= upto <= addresses@.len(),
            forall|k: int|
                0 <= k < j ==> !((#[trigger] addresses@[k]) matches Option::Some(a) && a@
                    == address@),
        decreases upto - j,
    {
        match &addresses[j] {
            Some(b) => {
                if *b == *address {
                    proof {
                        assert(addresses@.take(upto as int)[j as int] == addresses@[j as int]);
                    }
                    return true;
                }
            },
            None => {},
        }
        j = j + 1;
    }
    proof {
        assert(forall|k: int|
            0 <= k < upto ==> addresses@.take(upto as int)[k] == addresses@[k]);
    }
    false
}

/// Counts a link's clicks: the unique count and the total count.
#[verifier::loop_isolation(false)]
pub fn count_clicks(addresses: &Vec<Option<String>>) -> (r: (u64, u64))
    requires
        addresses@.len() < u64::MAX,
    ensures
        r.0 == spec_unique_count(addresses@),
        r.0 <= addresses@.len(),
        r.1 == addresses@.len(),
{
    broadcast use vstd::set::group_set_axioms, vstd::set::axiom_set_insert_len;

    let mut unique: u64 = 0;
    let mut anonymous_seen = false;
    let mut i: usize = 0;
    while i < addresses.len()
        invariant
            0 <= i <= addresses@.len() < u64::MAX,
            unique <= i,
            unique == spec_distinct_hashed(addresses@.take(i as int)).len(),
            anonymous_seen == spec_has_anonymous(addresses@.take(i as int)),
        decreases addresses@.len() - i,
    {
        proof {
            let t = addresses@.take(i + 1);
            assert(t.drop_last() =~= addresses@.take(i as int));
            assert(t.last() == addresses@[i as int]);
            lemma_distinct_hashed_props(addresses@.take(i as int));
        }
        match &addresses[i] {
            Some(a) => {
                if !address_seen(addresses, i, a) {
                    unique = unique + 1;
                } else {
                    proof {
                        assert(spec_distinct_hashed(addresses@.take(i as int)).insert(
                            addresses@[i as int]->Some_0@,
                        ) =~= spec_distinct_hashed(addresses@.take(i as int)));
                    }
                }
            },
            None => {
                anonymous_seen = true;
            },
        }
        i = i + 1;
    }
    proof {
        assert(addresses@.take(addresses@.len() as int) =~= addresses@);
        lemma_unique_count_le_len(addresses@);
    }
    let unique_total = if anonymous_seen {
        unique + 1
    } else {
        unique
    };
    (unique_total, addresses.len() as u64)
}

/// Sorted in non-increasing order: newest first for timestamps.
pub open spec fn sorted_desc(s: Seq<i64>) -> bool {
    forall|i: int, j: int| 0 <= i < j < s.len() ==> s[i] >= s[j]
}

/// The index of a maximal element of a non-empty vector.
fn index_of_max(v: &Vec<i64>) -> (r: usize)
    requires
        v@.len() > 0,
    ensures
        r < v@.len(),
        forall|j: int| 0 <= j < v@.len() ==> v@[r as int] >= v@[j],
{
    let mut best: usize = 0;
    let mut j: usize = 1;
    while j < v.len()
        invariant
            0 <= best < j <= v@.len(),
            forall|k: int| 0 <= k < j ==> v@[best as int] >= v@[k],
        decreases v@.len() - j,
    {
        if v[j] > v[best] {
            best = j;
        }
        j = j + 1;
    }
    best
}

/// Sorts the values in non-increasing order, keeping exactly the same
/// values.
#[verifier::loop_isolation(false)]
pub fn sort_desc(values: Vec<i64>) -> (r: Vec<i64>)
    ensures
        sorted_desc(r@),
        r@.to_multiset() == values@.to_multiset(),
        r@.len() == values@.len(),
{
    broadcast use vstd::seq_lib::group_to_multiset_ensures, vstd::multiset::group_multiset_axioms;

    let mut rest = values;
    let mut out: Vec<i64> = Vec::new();
    while rest.len() > 0
        invariant
            sorted_desc(out@),
            forall|i: int, j: int|
                0 <= i < out@.len() && 0 <= j < rest@.len() ==> out@[i] >= rest@[j],
            out@.to_multiset().add(rest@.to_multiset()) =~= values@.to_multiset(),
            out@.len() + rest@.len() == values@.len(),
        decreases rest@.len(),
    {
        let ghost rest_old = rest@;
        let ghost out_old = out@;
        let m = index_of_max(&rest);
        let x = rest.remove(m);
        out.push(x);
        proof {
            assert(rest_old.contains(rest_old[m as int]));
            assert(out@.to_multiset() =~= out_old.to_multiset().insert(x));
            assert(rest@.to_multiset() =~= rest_old.to_multiset().remove(x));
            assert(out@.to_multiset().add(rest@.to_multiset()) =~= values@.to_multiset());
            assert(forall|j: int| 0 <= j < rest@.len() ==> rest@[j] == if j < m {
                rest_old[j]
            } else {
                rest_old[j + 1]
            });
        }
    }
    proof {
        assert(out@.to_multiset().add(rest@.to_multiset()) =~= out@.to_multiset());
    }
    out
}

} // verus!
