//! A per-key token-bucket admission controller, independent of any request
//! handler.
//!
//! Each key holds a bucket of tokens, counted in thousandths so that
//! refilling is exact integer arithmetic: a rate of `r` tokens per second
//! adds exactly `r` milli-tokens per millisecond. A check lazily creates
//! the key's bucket at full capacity, refills it from the elapsed time,
//! and admits the request if a whole token is available. A periodic sweep
//! evicts buckets that have not been touched within the staleness window,
//! bounding memory to the recently active keys.

use vstd::prelude::*;
use vstd::pervasive::VecAdditionalExecFns;

verus! {

/// Milli-tokens per token.
pub const TOKEN_SCALE: u64 = 1000;

/// The controller's policy: how fast buckets refill, how many tokens they
/// hold, and how long an idle bucket is kept.
#[derive(Debug, Clone)]
pub struct RateLimiterConfig {
    /// Tokens added per second of elapsed time.
    pub refill_rate: u64,
    /// The most tokens a bucket can hold.
    pub burst_capacity: u64,
    /// How long an untouched bucket survives a sweep, in milliseconds.
    pub stale_after_ms: u64,
}

impl RateLimiterConfig {
    /// A usable policy: positive rate and capacity, and a capacity whose
    /// milli-token count fits the bucket counter.
    pub open spec fn valid(self) -> bool {
        &&& self.refill_rate >= 1
        &&& 1 <= self.burst_capacity
        &&& self.burst_capacity * (TOKEN_SCALE as int) <= u64::MAX
    }

    /// A full bucket, in milli-tokens.
    pub open spec fn spec_capacity_milli(self) -> int {
        self.burst_capacity * (TOKEN_SCALE as int)
    }

    /// A full bucket, in milli-tokens.
    pub fn capacity_milli(&self) -> (r: u64)
        requires
            self.valid(),
        ensures
            r == self.spec_capacity_milli(),
    {
        self.burst_capacity * TOKEN_SCALE
    }
}

/// One key's bucket: its remaining tokens and when they were last
/// refilled.
#[derive(Debug, Clone)]
pub struct TokenBucket {
    /// The client key the bucket belongs to.
    pub key: String,
    /// Remaining tokens, in milli-tokens; never above capacity.
    pub milli_tokens: u64,
    /// When the bucket was last refilled, in milliseconds.
    pub last_refill_ms: u64,
}

/// The outcome of an admission check. A rejection is a normal outcome, not
/// an error.
#[derive(Debug, PartialEq, Eq, Structural)]
pub enum Admission {
    /// A token was available and consumed.
    Allow,
    /// The bucket is exhausted; the request is to be refused.
    Reject,
}

/// The tokens a bucket holds after a lazy refill at the given instant:
/// the elapsed milliseconds times the rate, capped at capacity. A clock
/// that stands still or runs backward refills nothing.
pub open spec fn spec_refilled(tokens: int, last: int, now: int, rate: int, cap_milli: int) -> int {
    let elapsed = if now > last {
        now - last
    } else {
        0
    };
    let total = tokens + elapsed * rate;
    if total > cap_milli {
        cap_milli
    } else {
        total
    }
}

/// The index of the bucket for a key, or -1.
pub open spec fn spec_bucket_index(buckets: Seq<TokenBucket>, key: Seq<char>) -> int
    decreases buckets.len(),
{
    if buckets.len() == 0 {
        -1
    } else if buckets[0].key@ == key {
        0
    } else {
        let rest = spec_bucket_index(buckets.drop_first(), key);
        if rest == -1 {
            -1
        } else {
            rest + 1
        }
    }
}

/// The bucket index is in range and marks the first bucket with the key,
/// and is -1 exactly when no bucket has the key.
pub proof fn lemma_bucket_index_props(buckets: Seq<TokenBucket>, key: Seq<char>)
    ensures
        spec_bucket_index(buckets, key) == -1 ==> forall|i: int|
            0 <= i < buckets.len() ==> (#[trigger] buckets[i]).key@ != key,
        spec_bucket_index(buckets, key) != -1 ==> {
            &&& 0 <= spec_bucket_index(buckets, key) < buckets.len()
            &&& buckets[spec_bucket_index(buckets, key)].key@ == key
            &&& forall|i: int|
                0 <= i < spec_bucket_index(buckets, key) ==> (#[trigger] buckets[i]).key@ != key
        },
    decreases buckets.len(),
{
    if buckets.len() > 0 && buckets[0].key@ != key {
        let t = buckets.drop_first();
        lemma_bucket_index_props(t, key);
        let r = spec_bucket_index(t, key);
        if r == -1 {
            assert forall|i: int| 0 <= i < buckets.len() implies (#[trigger] buckets[i]).key@
                != key by {
                if i > 0 {
                    assert(t[i - 1] == buckets[i]);
                }
            }
        } else {
            assert(buckets[r + 1] == t[r]);
            assert forall|i: int| 0 <= i < r + 1 implies (#[trigger] buckets[i]).key@ != key by {
                if i > 0 {
                    assert(t[i - 1] == buckets[i]);
                }
            }
        }
    }
}

/// The buckets that survive a sweep at an instant: those touched within
/// the staleness window.
pub open spec fn spec_swept(buckets: Seq<TokenBucket>, now: int, stale_after: int) -> Seq<
    TokenBucket,
>
    decreases buckets.len(),
{
    if buckets.len() == 0 {
        Seq::empty()
    } else {
        let rest = spec_swept(buckets.drop_last(), now, stale_after);
        if now - buckets.last().last_refill_ms <= stale_after {
            rest.push(buckets.last())
        } else {
            rest
        }
    }
}

/// The admission controller: a policy and the live buckets, one per
/// recently seen key.
#[derive(Debug)]
pub struct RateLimiter {
    /// The policy.
    pub config: RateLimiterConfig,
    /// The live buckets; at most one per key.
    pub buckets: Vec<TokenBucket>,
}

impl RateLimiter {
    /// Well-formedness: the policy is usable, no bucket overflows the
    /// capacity, and no key has two buckets.
    pub open spec fn wf(self) -> bool {
        &&& self.config.valid()
        &&& forall|i: int|
            0 <= i < self.buckets@.len() ==> (#[trigger] self.buckets@[i]).milli_tokens
                <= self.config.spec_capacity_milli()
        &&& forall|i: int, j: int|
            0 <= i < self.buckets@.len() && 0 <= j < self.buckets@.len() && i != j
                ==> (#[trigger] self.buckets@[i]).key@ != (#[trigger] self.buckets@[j]).key@
    }

    /// A controller with the given policy and no buckets. A policy with a
    /// non-positive rate or capacity is a startup-time misconfiguration,
    /// kept out by the precondition.
    pub fn new(config: RateLimiterConfig) -> (r: Self)
        requires
            config.valid(),
        ensures
            r.wf(),
            r.config == config,
            r.buckets@.len() == 0,
    {
        RateLimiter { config, buckets: Vec::new() }
    }

    /// Admits or rejects one request from a key at an instant: the key's
    /// bucket is created at full capacity if absent, refilled from the
    /// elapsed time, and a whole token consumed if one is available. A
    /// fresh bucket always admits, since capacity is at least one token.
    pub fn check_and_consume(&mut self, key: &String, now_ms: u64) -> (r: Admission)
        requires
            old(self).wf(),
        ensures
            final(self).wf(),
            final(self).config == old(self).config,
            ({
                let cap = old(self).config.spec_capacity_milli();
                let idx = spec_bucket_index(old(self).buckets@, key@);
                if idx == -1 {
                    &&& r == Admission::Allow
                    &&& final(self).buckets@.len() == old(self).buckets@.len() + 1
                    &&& (forall|i: int|
                        0 <= i < old(self).buckets@.len() ==> final(self).buckets@[i] == old(
                            self,
                        ).buckets@[i])
                    &&& ({
                        let b = final(self).buckets@.last();
                        &&& b.key@ == key@
                        &&& b.milli_tokens == cap - TOKEN_SCALE
                        &&& b.last_refill_ms == now_ms
                    })
                } else {
                    let b = old(self).buckets@[idx];
                    let refilled = spec_refilled(
                        b.milli_tokens as int,
                        b.last_refill_ms as int,
                        now_ms as int,
                        old(self).config.refill_rate as int,
                        cap,
                    );
                    &&& final(self).buckets@.len() == old(self).buckets@.len()
                    &&& (forall|i: int|
                        0 <= i < old(self).buckets@.len() && i != idx ==> final(self).buckets@[i]
                            == old(self).buckets@[i])
                    &&& ({
                        let nb = final(self).buckets@[idx];
                        &&& nb.key == b.key
                        &&& nb.last_refill_ms == now_ms
                        &&& if refilled >= TOKEN_SCALE {
                            r == Admission::Allow && nb.milli_tokens == refilled - TOKEN_SCALE
                        } else {
                            r == Admission::Reject && nb.milli_tokens == refilled
                        }
                    })
                }
            }),
    {
        let cap = self.config.capacity_milli();
        let idx = match find_bucket(&self.buckets, key) {
            None => {
                let bucket = TokenBucket {
                    key: key.clone(),
                    milli_tokens: cap - TOKEN_SCALE,
                    last_refill_ms: now_ms,
                };
                proof {
                    lemma_bucket_index_props(self.buckets@, key@);
                }
                self.buckets.push(bucket);
                return Admission::Allow;
            },
            Some(idx) => idx,
        };
        let bucket = &self.buckets[idx];
        let elapsed: u64 = if now_ms > bucket.last_refill_ms {
            now_ms - bucket.last_refill_ms
        } else {
            0
        };
        proof {
            let e = elapsed as int;
            let rt = self.config.refill_rate as int;
            assert(e * rt + u64::MAX < u128::MAX) by (nonlinear_arith)
                requires
                    0 <= e <= u64::MAX,
                    0 <= rt <= u64::MAX,
            ;
        }
        let added: u128 = (elapsed as u128) * (self.config.refill_rate as u128);
        let total: u128 = (bucket.milli_tokens as u128) + added;
        let refilled: u64 = if total > cap as u128 {
            cap
        } else {
            total as u64
        };
        let key_copy = bucket.key.clone();
        if refilled >= TOKEN_SCALE {
            self.buckets.set(
                idx,
                TokenBucket {
                    key: key_copy,
                    milli_tokens: refilled - TOKEN_SCALE,
                    last_refill_ms: now_ms,
                },
            );
            Admission::Allow
        } else {
            self.buckets.set(
                idx,
                TokenBucket { key: key_copy, milli_tokens: refilled, last_refill_ms: now_ms },
            );
            Admission::Reject
        }
    }

    /// Evicts every bucket not touched within the staleness window,
    /// keeping the rest in order: after a sweep, only recently active
    /// keys occupy memory.
    pub fn sweep(&mut self, now_ms: u64)
        requires
            old(self).wf(),
        ensures
            final(self).wf(),
            final(self).config == old(self).config,
            final(self).buckets@ == spec_swept(
                old(self).buckets@,
                now_ms as int,
                old(self).config.stale_after_ms as int,
            ),
            forall|i: int|
                0 <= i < final(self).buckets@.len() ==> now_ms
                    - (#[trigger] final(self).buckets@[i]).last_refill_ms <= old(
                    self,
                ).config.stale_after_ms,
    {
        let mut retained: Vec<TokenBucket> = Vec::new();
        core::mem::swap(&mut self.buckets, &mut retained);
        let ghost all_buckets = retained@;
        let ghost stale_after = self.config.stale_after_ms as int;
        let mut k: usize = 0;
        while k < retained.len()
            invariant
                0 <= k <= retained@.len(),
                retained@ == all_buckets,
                self.config == old(self).config,
                stale_after == self.config.stale_after_ms as int,
                self.buckets@ == spec_swept(all_buckets.take(k as int), now_ms as int, stale_after),
                forall|i: int|
                    0 <= i < self.buckets@.len() ==> now_ms as int - (#[trigger] self.buckets@[i]).last_refill_ms
                        <= stale_after,
            decreases retained@.len() - k,
        {
            proof {
                let t = all_buckets.take(k + 1);
                assert(t.drop_last() =~= all_buckets.take(k as int));
                assert(t.last() == all_buckets[k as int]);
            }
            let bucket = &retained[k];
            let fresh_enough: bool = if now_ms >= bucket.last_refill_ms {
                now_ms - bucket.last_refill_ms <= self.config.stale_after_ms
            } else {
                true
            };
            proof {
                let t = all_buckets.take(k + 1);
                let prev = spec_swept(all_buckets.take(k as int), now_ms as int, stale_after);
                assert(fresh_enough == (now_ms as int - all_buckets[k as int].last_refill_ms
                    <= stale_after));
                if fresh_enough {
                    assert(spec_swept(t, now_ms as int, stale_after) == prev.push(
                        all_buckets[k as int],
                    ));
                } else {
                    assert(spec_swept(t, now_ms as int, stale_after) == prev);
                }
            }
            if fresh_enough {
                self.buckets.push(clone_bucket(bucket));
            }
            k = k + 1;
        }
        proof {
            assert(all_buckets.take(all_buckets.len() as int) =~= all_buckets);
            lemma_swept_wf(
                all_buckets,
                now_ms as int,
                stale_after,
                self.config.spec_capacity_milli(),
            );
        }
    }
}

/// Every bucket that survives a sweep was among the buckets before it.
proof fn lemma_swept_sub(buckets: Seq<TokenBucket>, now: int, stale_after: int)
    ensures
        forall|i: int|
            0 <= i < spec_swept(buckets, now, stale_after).len() ==> exists|j: int|
                0 <= j < buckets.len() && (#[trigger] spec_swept(buckets, now, stale_after)[i])
                    == buckets[j],
    decreases buckets.len(),
{
    if buckets.len() > 0 {
        let t = buckets.drop_last();
        lemma_swept_sub(t, now, stale_after);
        let rest = spec_swept(t, now, stale_after);
        let s = spec_swept(buckets, now, stale_after);
        assert forall|i: int| 0 <= i < s.len() implies exists|j: int|
            0 <= j < buckets.len() && (#[trigger] s[i]) == buckets[j] by {
            if now - buckets.last().last_refill_ms <= stale_after && i == s.len() - 1 {
                assert(s[i] == buckets[buckets.len() - 1]);
            } else {
                assert(s[i] == rest[i]);
                let j = choose|j: int| 0 <= j < t.len() && rest[i] == t[j];
                assert(buckets[j] == t[j]);
            }
        }
    }
}

/// With a burst capacity of one token, a second check at the same instant
/// finds the bucket empty: back-to-back requests from one key are allow
/// then reject.
pub proof fn lemma_burst_one_rejects_back_to_back(cfg: RateLimiterConfig, now: int)
    requires
        cfg.valid(),
        cfg.burst_capacity == 1,
    ensures
        spec_refilled(
            cfg.spec_capacity_milli() - TOKEN_SCALE,
            now,
            now,
            cfg.refill_rate as int,
            cfg.spec_capacity_milli(),
        ) < TOKEN_SCALE,
{
}

/// After at least one full second, any empty bucket has refilled to at
/// least one whole token: the key is admitted again.
pub proof fn lemma_full_second_refills_a_token(cfg: RateLimiterConfig, last: int, now: int)
    requires
        cfg.valid(),
        now >= last + 1000,
    ensures
        spec_refilled(
            0,
            last,
            now,
            cfg.refill_rate as int,
            cfg.spec_capacity_milli(),
        ) >= TOKEN_SCALE,
{
    let elapsed = now - last;
    let rate = cfg.refill_rate as int;
    assert(elapsed * rate >= 1000) by (nonlinear_arith)
        requires
            elapsed >= 1000,
            rate >= 1,
    ;
    assert(cfg.spec_capacity_milli() >= 1000);
}

/// A sweep keeps the buckets within capacity and the keys distinct.
proof fn lemma_swept_wf(buckets: Seq<TokenBucket>, now: int, stale_after: int, cap: int)
    requires
        forall|i: int| 0 <= i < buckets.len() ==> (#[trigger] buckets[i]).milli_tokens <= cap,
        forall|i: int, j: int|
            0 <= i < buckets.len() && 0 <= j < buckets.len() && i != j
                ==> (#[trigger] buckets[i]).key@ != (#[trigger] buckets[j]).key@,
    ensures
        forall|i: int|
            0 <= i < spec_swept(buckets, now, stale_after).len() ==> (#[trigger] spec_swept(
                buckets,
                now,
                stale_after,
            )[i]).milli_tokens <= cap,
        forall|i: int, j: int|
            0 <= i < spec_swept(buckets, now, stale_after).len() && 0 <= j < spec_swept(
                buckets,
                now,
                stale_after,
            ).len() && i != j ==> (#[trigger] spec_swept(buckets, now, stale_after)[i]).key@
                != (#[trigger] spec_swept(buckets, now, stale_after)[j]).key@,
    decreases buckets.len(),
{
    if buckets.len() > 0 {
        let t = buckets.drop_last();
        assert forall|i: int| 0 <= i < t.len() implies (#[trigger] t[i]).milli_tokens <= cap by {
            assert(t[i] == buckets[i]);
        }
        assert forall|i: int, j: int|
            0 <= i < t.len() && 0 <= j < t.len() && i != j implies (#[trigger] t[i]).key@
            != (#[trigger] t[j]).key@ by {
            assert(t[i] == buckets[i]);
            assert(t[j] == buckets[j]);
        }
        lemma_swept_wf(t, now, stale_after, cap);
        lemma_swept_sub(t, now, stale_after);
        let rest = spec_swept(t, now, stale_after);
        let s = spec_swept(buckets, now, stale_after);
        let last = buckets.last();
        assert(buckets[buckets.len() - 1] == last);
        if now - last.last_refill_ms <= stale_after {
            assert(s == rest.push(last));
            assert forall|i: int| 0 <= i < s.len() implies (#[trigger] s[i]).milli_tokens
                <= cap by {
                if i < rest.len() {
                    assert(s[i] == rest[i]);
                }
            }
            assert forall|i: int, j: int|
                0 <= i < s.len() && 0 <= j < s.len() && i != j implies (#[trigger] s[i]).key@
                != (#[trigger] s[j]).key@ by {
                if i < rest.len() && j < rest.len() {
                    assert(s[i] == rest[i] && s[j] == rest[j]);
                } else if i < rest.len() {
                    assert(s[i] == rest[i] && s[j] == last);
                    let m = choose|m: int| 0 <= m < t.len() && rest[i] == t[m];
                    assert(buckets[m] == t[m]);
                } else {
                    assert(s[i] == last && s[j] == rest[j]);
                    let m = choose|m: int| 0 <= m < t.len() && rest[j] == t[m];
                    assert(buckets[m] == t[m]);
                }
            }
        } else {
            assert(s == rest);
        }
    }
}

/// The position of the key's bucket, if one exists.
fn find_bucket(buckets: &Vec<TokenBucket>, key: &String) -> (r: Option<usize>)
    ensures
        match r {
            Some(i) => i == spec_bucket_index(buckets@, key@) && i < buckets@.len(),
            None => spec_bucket_index(buckets@, key@) == -1,
        },
{
    let mut i: usize = 0;
    while i < buckets.len()
        invariant
            0 <= i <= buckets@.len(),
            forall|j: int| 0 <= j < i ==> (#[trigger] buckets@[j]).key@ != key@,
        decreases buckets@.len() - i,
    {
        if buckets[i].key == *key {
            proof {
                lemma_bucket_index_props(buckets@, key@);
            }
            return Some(i);
        }
        i = i + 1;
    }
    proof {
        lemma_bucket_index_props(buckets@, key@);
    }
    None
}

/// A copy of a bucket.
fn clone_bucket(b: &TokenBucket) -> (r: TokenBucket)
    ensures
        r == *b,
{
    TokenBucket {
        key: b.key.clone(),
        milli_tokens: b.milli_tokens,
        last_refill_ms: b.last_refill_ms,
    }
}

} // verus!
