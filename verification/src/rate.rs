//! Token-bucket rate limiter.
//!
//! Buckets are keyed by string. A bucket holds `(qps, burst, tokens, debt,
//! last-update)`: tokens refill continuously at `qps` tokens per second and
//! are capped at `burst`; the token count never goes negative and never
//! exceeds the burst. An acquire that finds enough tokens consumes them and
//! waits nothing. One that does not reserves the shortfall as *debt*: the
//! bucket's tokens drop to zero, refill first pays the debt, and the caller
//! is told to wait exactly as long as the accumulated debt takes to refill.
//! Queued acquires therefore stack their waits in wall-clock time instead of
//! stampeding when the bucket empties.
//!
//! Quantities are fixed-point integers: token counts in thousandths of a
//! token ("milli-tokens"), rates in milli-tokens per second, time in
//! milliseconds. The limiter never sleeps itself: [`RateLimiter::handle`]
//! only computes the wait and hands it back, and the shell that owns the
//! clock delivers the permit after that wait.

use vstd::prelude::*;

use crate::table::{lemma_index_of_distinct, lemma_push_distinct};

verus! {

/// Stable string identity of a bucket.
#[derive(Debug)]
pub struct RateKey(pub String);

/// The permit sent on a reply channel when an acquire is granted.
#[derive(Debug)]
pub struct RatePermit;

/// Messages the rate limiter consumes. `R` is the caller's reply handle,
/// carried through untouched.
pub enum RateMsg<R> {
    /// Create or reconfigure the bucket for `key`. The rate is in
    /// milli-tokens per second, the burst in whole tokens; both must be
    /// positive or the upsert is refused.
    Upsert { key: RateKey, qps_milli: u64, burst: u32 },
    /// Acquire `cost` whole tokens on `key`; the permit is to be sent on
    /// `reply` once the wait has elapsed.
    Acquire { key: RateKey, cost: u32, reply: R },
}

/// What the shell must do after the limiter handled one message.
pub enum RateAction<R> {
    /// The upsert was stored; nothing to do.
    Stored,
    /// The upsert was refused (zero rate or zero burst); nothing stored.
    Rejected,
    /// Sleep `wait_ms`, then send a permit on `reply`, best-effort.
    Deliver { wait_ms: u64, reply: R },
}

/// Ceiling division for positive divisors.
pub open spec fn ceil_div(a: int, b: int) -> int {
    (a + b - 1) / b
}

/// Milliseconds elapsed from `last` to `now` on a monotonic clock: zero if
/// `now` is not past `last`.
pub open spec fn spec_dt(last: u64, now: u64) -> int {
    if now >= last {
        now - last
    } else {
        0
    }
}

/// The available balance after refilling `avail` for `dt` milliseconds at
/// `qps` milli-tokens per second, capped at `burst`.
pub open spec fn spec_refilled(avail: int, dt: int, qps: int, burst: int) -> int {
    let raw = avail + dt * qps / 1000;
    if raw <= burst {
        raw
    } else {
        burst
    }
}

/// One token bucket: configuration, current tokens, reserved debt, and the
/// time of the last refill.
#[derive(Clone, Copy, Debug)]
pub struct Bucket {
    qps_milli: u64,
    burst_milli: u64,
    tokens_milli: u64,
    debt_milli: u64,
    last_ms: u64,
}

impl Bucket {
    /// Refill rate, in milli-tokens per second.
    pub closed spec fn qps(&self) -> u64 {
        self.qps_milli
    }

    /// Bucket capacity, in milli-tokens.
    pub closed spec fn burst(&self) -> u64 {
        self.burst_milli
    }

    /// Tokens on hand, in milli-tokens.
    pub closed spec fn tokens(&self) -> u64 {
        self.tokens_milli
    }

    /// Reserved shortfall still to be repaid by refill, in milli-tokens.
    pub closed spec fn debt(&self) -> u64 {
        self.debt_milli
    }

    /// When the bucket was last refilled, in milliseconds.
    pub closed spec fn last(&self) -> u64 {
        self.last_ms
    }

    /// The bucket's available balance: tokens on hand minus reserved debt.
    pub open spec fn avail(&self) -> int {
        self.tokens() - self.debt()
    }

    /// Tokens stay within `[0, burst]`, debt and tokens never coexist, and
    /// the rate is positive.
    pub open spec fn wf(&self) -> bool {
        &&& self.qps() >= 1
        &&& self.burst() >= 1
        &&& self.tokens() <= self.burst()
        &&& self.tokens() == 0 || self.debt() == 0
    }

    /// The available balance this bucket reaches when refilled at `now_ms`.
    pub open spec fn avail_refilled(&self, now_ms: u64) -> int {
        spec_refilled(self.avail(), spec_dt(self.last(), now_ms), self.qps() as int, self.burst() as int)
    }

    /// A bucket created full, as an upsert or a lazy default creates it.
    pub fn new(qps_milli: u64, burst_milli: u64, now_ms: u64) -> (r: Bucket)
        requires
            qps_milli >= 1,
            burst_milli >= 1,
        ensures
            r.wf(),
            r.qps() == qps_milli,
            r.burst() == burst_milli,
            r.tokens() == burst_milli,
            r.debt() == 0,
            r.last() == now_ms,
    {
        Bucket {
            qps_milli,
            burst_milli,
            tokens_milli: burst_milli,
            debt_milli: 0,
            last_ms: now_ms,
        }
    }

    /// Replace the configuration, keeping the clock and the balance, with
    /// tokens clamped to the new burst.
    pub fn reconfigure(&mut self, qps_milli: u64, burst_milli: u64)
        requires
            old(self).wf(),
            qps_milli >= 1,
            burst_milli >= 1,
        ensures
            final(self).wf(),
            final(self).qps() == qps_milli,
            final(self).burst() == burst_milli,
            final(self).tokens() == if old(self).tokens() <= burst_milli {
                old(self).tokens()
            } else {
                burst_milli
            },
            final(self).debt() == old(self).debt(),
            final(self).last() == old(self).last(),
    {
        self.qps_milli = qps_milli;
        self.burst_milli = burst_milli;
        if self.tokens_milli > burst_milli {
            self.tokens_milli = burst_milli;
        }
    }

    /// Advance the bucket to `now_ms`: refill pays outstanding debt first,
    /// then fills tokens up to the burst. The available balance becomes
    /// exactly `avail_refilled(now_ms)`.
    fn refill(&mut self, now_ms: u64)
        requires
            old(self).wf(),
        ensures
            final(self).wf(),
            final(self).qps() == old(self).qps(),
            final(self).burst() == old(self).burst(),
            final(self).avail() == old(self).avail_refilled(now_ms),
            final(self).last() == if now_ms >= old(self).last() {
                now_ms
            } else {
                old(self).last()
            },
    {
        let dt: u64 = if now_ms >= self.last_ms {
            now_ms - self.last_ms
        } else {
            0
        };
        proof {
            vstd::arithmetic::mul::lemma_mul_upper_bound(
                dt as int,
                u64::MAX as int,
                self.qps_milli as int,
                u64::MAX as int,
            );
        }
        let raw: u128 = (dt as u128) * (self.qps_milli as u128) / 1000;
        let need: u128 = (self.debt_milli as u128) + ((self.burst_milli - self.tokens_milli) as u128);
        let gain: u128 = if raw < need {
            raw
        } else {
            need
        };
        if gain <= self.debt_milli as u128 {
            self.debt_milli = self.debt_milli - (gain as u64);
        } else {
            let extra: u128 = gain - (self.debt_milli as u128);
            self.tokens_milli = self.tokens_milli + (extra as u64);
            self.debt_milli = 0;
        }
        if now_ms >= self.last_ms {
            self.last_ms = now_ms;
        }
    }

    /// Acquire `cost` whole tokens, refilling first; returns the wait in
    /// milliseconds before the permit may be delivered.
    ///
    /// The refilled balance covers the cost: the cost is consumed and the
    /// wait is zero — a zero cost is an immediate permit. Otherwise the
    /// shortfall joins the bucket's debt, tokens drop to zero, and the wait
    /// is the accumulated debt divided by the rate, rounded up. Either way
    /// the available balance drops by exactly the cost (up to the machine
    /// cap on debt); see [`acquire_outcome`].
    pub fn acquire(&mut self, cost: u32, now_ms: u64) -> (wait_ms: u64)
        requires
            old(self).wf(),
        ensures
            final(self).wf(),
            acquire_outcome(*old(self), *final(self), cost, now_ms, wait_ms),
            final(self).last() == if now_ms >= old(self).last() {
                now_ms
            } else {
                old(self).last()
            },
    {
        self.refill(now_ms);
        let cost_milli: u64 = (cost as u64) * 1000;
        if self.tokens_milli >= cost_milli {
            self.tokens_milli = self.tokens_milli - cost_milli;
            0
        } else {
            let shortfall: u64 = cost_milli - self.tokens_milli;
            self.tokens_milli = 0;
            self.debt_milli = if self.debt_milli <= u64::MAX - shortfall {
                self.debt_milli + shortfall
            } else {
                u64::MAX
            };
            let num: u128 = (self.debt_milli as u128) * 1000;
            let q: u128 = self.qps_milli as u128;
            let w: u128 = (num + (q - 1)) / q;
            if w > u64::MAX as u128 {
                u64::MAX
            } else {
                w as u64
            }
        }
    }
}

/// The wait that a deficit asks for, capped at the largest representable
/// number of milliseconds.
pub open spec fn capped_wait(deficit: int, qps: int) -> int {
    if ceil_div(1000 * deficit, qps) <= u64::MAX {
        ceil_div(1000 * deficit, qps)
    } else {
        u64::MAX as int
    }
}

/// What one acquire does to a bucket: the configuration is untouched; when
/// the refilled balance covers the cost the wait is zero, otherwise the
/// tokens drop to zero and the wait repays the whole accumulated debt; in
/// both cases the available balance drops by exactly the cost, as long as
/// the debt stays below the machine cap.
pub open spec fn acquire_outcome(
    before: Bucket,
    after: Bucket,
    cost: u32,
    now_ms: u64,
    wait_ms: u64,
) -> bool {
    &&& after.qps() == before.qps()
    &&& after.burst() == before.burst()
    &&& (cost == 0 ==> wait_ms == 0 && after.avail() == before.avail_refilled(now_ms))
    &&& (cost > 0 && before.avail_refilled(now_ms) >= 1000 * cost ==> wait_ms == 0 && after.avail()
        == before.avail_refilled(now_ms) - 1000 * cost)
    &&& (cost > 0 && before.avail_refilled(now_ms) < 1000 * cost && 1000 * cost
        - before.avail_refilled(now_ms) <= u64::MAX ==> after.avail() == before.avail_refilled(
        now_ms,
    ) - 1000 * cost && after.tokens() == 0 && wait_ms == capped_wait(
        1000 * cost - before.avail_refilled(now_ms),
        before.qps() as int,
    ))
}

/// The wait returned for a shortfall always covers it: waiting `wait_ms` at
/// `qps` milli-tokens per second refills at least the `deficit` that was
/// reserved.
proof fn lemma_wait_covers_deficit(deficit: int, qps: int)
    requires
        deficit >= 0,
        qps >= 1,
        ceil_div(1000 * deficit, qps) <= u64::MAX,
    ensures
        ceil_div(1000 * deficit, qps) * qps >= 1000 * deficit,
        ceil_div(1000 * deficit, qps) >= 1000 * deficit / qps,
{
    let n = 1000 * deficit;
    let w = (n + qps - 1) / qps;
    vstd::arithmetic::div_mod::lemma_fundamental_div_mod(n + qps - 1, qps);
    vstd::arithmetic::div_mod::lemma_mod_bound(n + qps - 1, qps);
    assert(w * qps == n + qps - 1 - (n + qps - 1) % qps);
    assert(w * qps >= n);
    vstd::arithmetic::div_mod::lemma_div_is_ordered(n, n + qps - 1, qps);
}

/// A permit never outruns the bucket's rate: for a positive cost, the wait
/// an acquire computes refills at least the shortfall between the cost and
/// the balance the bucket had refilled to — the permit is delivered no
/// earlier than `max(0, (cost - refilled)/qps)` after the acquire. Bounded
/// by the machine cap on a wait.
pub proof fn lemma_permit_respects_rate(
    before: Bucket,
    after: Bucket,
    cost: u32,
    now_ms: u64,
    wait_ms: u64,
)
    requires
        before.wf(),
        cost >= 1,
        acquire_outcome(before, after, cost, now_ms, wait_ms),
        1000 * cost - before.avail_refilled(now_ms) <= u64::MAX,
        ceil_div(1000 * (1000 * cost - before.avail_refilled(now_ms)), before.qps() as int)
            <= u64::MAX,
    ensures
        wait_ms * before.qps() >= 1000 * (1000 * cost - before.avail_refilled(now_ms)),
{
    let refilled = before.avail_refilled(now_ms);
    if refilled < 1000 * cost {
        let deficit = 1000 * cost - refilled;
        lemma_wait_covers_deficit(deficit, before.qps() as int);
        assert(wait_ms == ceil_div(1000 * deficit, before.qps() as int));
    } else {
        vstd::arithmetic::mul::lemma_mul_nonnegative(wait_ms as int, before.qps() as int);
    }
}

/// Between two consecutive permits on the same bucket, the tokens consumed
/// — the drop from each refilled balance to the balance the acquire leaves
/// — add up to exactly the sum of the two costs, and the bucket's token
/// count never goes negative and never exceeds the burst.
pub proof fn lemma_consecutive_acquires_consume_sum(
    b0: Bucket,
    b1: Bucket,
    b2: Bucket,
    c1: u32,
    c2: u32,
    t1: u64,
    t2: u64,
    w1: u64,
    w2: u64,
)
    requires
        b1.wf(),
        b2.wf(),
        acquire_outcome(b0, b1, c1, t1, w1),
        acquire_outcome(b1, b2, c2, t2, w2),
        1000 * c1 - b0.avail_refilled(t1) <= u64::MAX,
        1000 * c2 - b1.avail_refilled(t2) <= u64::MAX,
    ensures
        (b0.avail_refilled(t1) - b1.avail()) + (b1.avail_refilled(t2) - b2.avail()) == 1000 * (c1
            + c2),
        0 <= b1.tokens() <= b1.burst(),
        0 <= b2.tokens() <= b2.burst(),
{
}

/// The bucket that an acquire on an unknown key creates before acquiring:
/// full, at the default rate of one token per second with a burst of one.
pub closed spec fn default_bucket(now_ms: u64) -> Bucket {
    Bucket {
        qps_milli: DEFAULT_QPS_MILLI,
        burst_milli: DEFAULT_BURST_MILLI,
        tokens_milli: DEFAULT_BURST_MILLI,
        debt_milli: 0,
        last_ms: now_ms,
    }
}

/// The default bucket is well-formed, full, and freshly stamped.
pub proof fn lemma_default_bucket(now_ms: u64)
    ensures
        default_bucket(now_ms).wf(),
        default_bucket(now_ms).qps() == DEFAULT_QPS_MILLI,
        default_bucket(now_ms).burst() == DEFAULT_BURST_MILLI,
        default_bucket(now_ms).avail() == DEFAULT_BURST_MILLI,
        default_bucket(now_ms).debt() == 0,
        default_bucket(now_ms).last() == now_ms,
{
}

/// Both limiters hold key `m` alike: the same presence and the same
/// bucket.
pub open spec fn rate_agree(t0: &RateLimiter, t1: &RateLimiter, m: Seq<char>) -> bool {
    t0.has_key(m) == t1.has_key(m) && (t0.has_key(m) ==> t0.bucket_for(m) == t1.bucket_for(m))
}

/// Both limiters agree on every key other than `k`.
pub open spec fn rate_others_preserved(t0: &RateLimiter, t1: &RateLimiter, k: Seq<char>) -> bool {
    forall|m: Seq<char>| m != k ==> #[trigger] rate_agree(t0, t1, m)
}

/// What a stored upsert does to the limiter: the key exists afterwards
/// with the new configuration — a fresh bucket starts full and stamped at
/// `now_ms`, an existing one keeps its clock and balance, tokens clamped
/// to the new burst — and every other key is untouched.
pub open spec fn upsert_transition(
    t0: &RateLimiter,
    t1: &RateLimiter,
    k: Seq<char>,
    qps_milli: u64,
    burst: u32,
    now_ms: u64,
) -> bool {
    &&& t1.has_key(k)
    &&& rate_others_preserved(t0, t1, k)
    &&& t1.bucket_for(k).qps() == qps_milli
    &&& t1.bucket_for(k).burst() == 1000 * burst
    &&& (t0.has_key(k) ==> t1.bucket_for(k).debt() == t0.bucket_for(k).debt() && t1.bucket_for(
        k,
    ).last() == t0.bucket_for(k).last() && t1.bucket_for(k).tokens() == if t0.bucket_for(
        k,
    ).tokens() <= 1000 * burst {
        t0.bucket_for(k).tokens() as int
    } else {
        1000 * burst
    })
    &&& (!t0.has_key(k) ==> t1.bucket_for(k).tokens() == 1000 * burst && t1.bucket_for(k).debt()
        == 0 && t1.bucket_for(k).last() == now_ms)
}

/// What an acquire does to the limiter: the key's bucket — the stored one,
/// or the full default bucket a fresh key starts from — goes through
/// [`acquire_outcome`], and every other key is untouched.
pub open spec fn acquire_transition(
    t0: &RateLimiter,
    t1: &RateLimiter,
    k: Seq<char>,
    cost: u32,
    now_ms: u64,
    wait_ms: u64,
) -> bool {
    &&& t1.has_key(k)
    &&& rate_others_preserved(t0, t1, k)
    &&& (t0.has_key(k) ==> acquire_outcome(
        t0.bucket_for(k),
        t1.bucket_for(k),
        cost,
        now_ms,
        wait_ms,
    ))
    &&& (!t0.has_key(k) ==> acquire_outcome(
        default_bucket(now_ms),
        t1.bucket_for(k),
        cost,
        now_ms,
        wait_ms,
    ))
}

/// Token-bucket rate limiter: a table of buckets keyed by string.
pub struct RateLimiter {
    keys: Vec<RateKey>,
    buckets: Vec<Bucket>,
}

/// Rate, in milli-tokens per second, of a bucket created lazily for an
/// unknown key: one token per second.
pub const DEFAULT_QPS_MILLI: u64 = 1000;

/// Capacity, in milli-tokens, of a bucket created lazily for an unknown
/// key: one token.
pub const DEFAULT_BURST_MILLI: u64 = 1000;

impl RateLimiter {
    /// The bucket keys, as character sequences, in table order.
    pub closed spec fn key_seq(&self) -> Seq<Seq<char>> {
        self.keys@.map_values(|k: RateKey| k.0@)
    }

    /// The buckets, in table order.
    pub closed spec fn buckets(&self) -> Seq<Bucket> {
        self.buckets@
    }

    /// Whether a bucket exists for key `k`.
    pub open spec fn has_key(&self, k: Seq<char>) -> bool {
        self.key_seq().contains(k)
    }

    /// The bucket stored for key `k`.
    pub open spec fn bucket_for(&self, k: Seq<char>) -> Bucket {
        self.buckets()[self.key_seq().index_of(k)]
    }

    /// One bucket per key, every key distinct, every bucket well-formed.
    pub open spec fn wf(&self) -> bool {
        &&& self.key_seq().len() == self.buckets().len()
        &&& crate::table::distinct_seq(self.key_seq())
        &&& forall|i: int| 0 <= i < self.buckets().len() ==> (#[trigger] self.buckets()[i]).wf()
    }

    /// An empty limiter: no buckets.
    pub fn new() -> (r: RateLimiter)
        ensures
            r.wf(),
            r.key_seq().len() == 0,
    {
        RateLimiter { keys: Vec::new(), buckets: Vec::new() }
    }

    /// Find the table index of `key`, if present.
    fn find(&self, key: &RateKey) -> (r: Option<usize>)
        requires
            self.wf(),
        ensures
            match r {
                Some(i) => 0 <= i < self.key_seq().len() && self.key_seq()[i as int] == key.0@
                    && self.key_seq().index_of(key.0@) == i,
                None => !self.has_key(key.0@),
            },
    {
        let n = self.keys.len();
        let mut i: usize = 0;
        while i < n
            invariant
                0 <= i <= n,
                n == self.key_seq().len(),
                self.wf(),
                forall|j: int| 0 <= j < i ==> self.key_seq()[j] != key.0@,
            decreases n - i,
        {
            if self.keys[i].0 == key.0 {
                proof {
                    assert(self.key_seq()[i as int] == key.0@);
                    lemma_index_of_distinct(self.key_seq(), i as int);
                }
                return Some(i);
            }
            i = i + 1;
        }
        proof {
            assert(forall|j: int| 0 <= j < self.key_seq().len() ==> self.key_seq()[j] != key.0@);
        }
        None
    }

    /// Create or reconfigure the bucket for `key`.
    ///
    /// Returns `true` and stores exactly when both the rate and the burst
    /// are positive; a zero rate or zero burst is refused and nothing is
    /// stored. A new bucket starts full; an existing one keeps its clock
    /// and balance and only changes configuration; see
    /// [`upsert_transition`].
    pub fn upsert(&mut self, key: RateKey, qps_milli: u64, burst: u32, now_ms: u64) -> (stored:
        bool)
        requires
            old(self).wf(),
        ensures
            final(self).wf(),
            stored <==> qps_milli >= 1 && burst >= 1,
            !stored ==> final(self).key_seq() == old(self).key_seq() && final(self).buckets() == old(
                self,
            ).buckets(),
            stored ==> upsert_transition(old(self), final(self), key.0@, qps_milli, burst, now_ms),
    {
        if qps_milli == 0 || burst == 0 {
            return false;
        }
        let burst_milli: u64 = (burst as u64) * 1000;
        match self.find(&key) {
            Some(i) => {
                let mut b = self.buckets[i];
                b.reconfigure(qps_milli, burst_milli);
                self.buckets.set(i, b);
                proof {
                    assert(self.key_seq() =~= old(self).key_seq());
                    lemma_index_of_distinct(self.key_seq(), i as int);
                    assert(self.bucket_for(key.0@) == b);
                    assert forall|j: int| 0 <= j < self.buckets().len() implies (
                    #[trigger] self.buckets()[j]).wf() by {
                        if j != i as int {
                            assert(self.buckets()[j] == old(self).buckets()[j]);
                        }
                    }
                    assert forall|m: Seq<char>| m != key.0@ implies #[trigger] rate_agree(
                        old(self),
                        self,
                        m,
                    ) by {
                        if old(self).has_key(m) {
                            let k = choose|k: int|
                                0 <= k < old(self).key_seq().len() && old(self).key_seq()[k] == m;
                            assert(k != i as int);
                            lemma_index_of_distinct(self.key_seq(), k);
                            assert(self.buckets()[k] == old(self).buckets()[k]);
                        }
                    }
                }
            },
            None => {
                let b = Bucket::new(qps_milli, burst_milli, now_ms);
                self.keys.push(key);
                self.buckets.push(b);
                proof {
                    let n = old(self).key_seq().len() as int;
                    assert(self.key_seq() =~= old(self).key_seq().push(key.0@));
                    lemma_push_distinct(old(self).key_seq(), key.0@);
                    assert(self.key_seq()[n] == key.0@);
                    lemma_index_of_distinct(self.key_seq(), n);
                    assert(self.bucket_for(key.0@) == b);
                    assert forall|j: int| 0 <= j < self.buckets().len() implies (
                    #[trigger] self.buckets()[j]).wf() by {
                        if j < old(self).buckets().len() {
                            assert(self.buckets()[j] == old(self).buckets()[j]);
                        }
                    }
                    assert forall|m: Seq<char>| m != key.0@ implies #[trigger] rate_agree(
                        old(self),
                        self,
                        m,
                    ) by {
                        if old(self).has_key(m) {
                            let k0 = choose|k0: int|
                                0 <= k0 < old(self).key_seq().len() && old(self).key_seq()[k0]
                                    == m;
                            assert(self.key_seq()[k0] == m);
                            assert(self.has_key(m));
                            lemma_index_of_distinct(old(self).key_seq(), k0);
                            lemma_index_of_distinct(self.key_seq(), k0);
                            assert(self.buckets()[k0] == old(self).buckets()[k0]);
                        }
                        if self.has_key(m) {
                            let k = choose|k: int|
                                0 <= k < self.key_seq().len() && self.key_seq()[k] == m;
                            assert(k != n);
                            assert(old(self).key_seq()[k] == m);
                            assert(old(self).has_key(m));
                        }
                    }
                }
            },
        }
        true
    }

    /// Acquire `cost` tokens on `key`, creating a default bucket (one token
    /// per second, burst of one) when the key is unknown. Returns the wait
    /// in milliseconds, as [`Bucket::acquire`] computes it on the bucket
    /// stored for the key.
    pub fn acquire(&mut self, key: RateKey, cost: u32, now_ms: u64) -> (wait_ms: u64)
        requires
            old(self).wf(),
        ensures
            final(self).wf(),
            acquire_transition(old(self), final(self), key.0@, cost, now_ms, wait_ms),
    {
        match self.find(&key) {
            Some(i) => {
                let mut b = self.buckets[i];
                let wait_ms = b.acquire(cost, now_ms);
                self.buckets.set(i, b);
                proof {
                    assert(self.key_seq() =~= old(self).key_seq());
                    lemma_index_of_distinct(self.key_seq(), i as int);
                    assert(self.bucket_for(key.0@) == b);
                    assert forall|j: int| 0 <= j < self.buckets().len() implies (
                    #[trigger] self.buckets()[j]).wf() by {
                        if j != i as int {
                            assert(self.buckets()[j] == old(self).buckets()[j]);
                        }
                    }
                    assert forall|m: Seq<char>| m != key.0@ implies #[trigger] rate_agree(
                        old(self),
                        self,
                        m,
                    ) by {
                        if old(self).has_key(m) {
                            let k = choose|k: int|
                                0 <= k < old(self).key_seq().len() && old(self).key_seq()[k] == m;
                            assert(k != i as int);
                            lemma_index_of_distinct(self.key_seq(), k);
                            assert(self.buckets()[k] == old(self).buckets()[k]);
                        }
                    }
                }
                wait_ms
            },
            None => {
                let mut b = Bucket::new(DEFAULT_QPS_MILLI, DEFAULT_BURST_MILLI, now_ms);
                proof {
                    assert(b == default_bucket(now_ms));
                }
                let wait_ms = b.acquire(cost, now_ms);
                self.keys.push(key);
                self.buckets.push(b);
                proof {
                    let n = old(self).key_seq().len() as int;
                    assert(self.key_seq() =~= old(self).key_seq().push(key.0@));
                    lemma_push_distinct(old(self).key_seq(), key.0@);
                    assert(self.key_seq()[n] == key.0@);
                    lemma_index_of_distinct(self.key_seq(), n);
                    assert(self.bucket_for(key.0@) == b);
                    assert forall|j: int| 0 <= j < self.buckets().len() implies (
                    #[trigger] self.buckets()[j]).wf() by {
                        if j < old(self).buckets().len() {
                            assert(self.buckets()[j] == old(self).buckets()[j]);
                        }
                    }
                    assert forall|m: Seq<char>| m != key.0@ implies #[trigger] rate_agree(
                        old(self),
                        self,
                        m,
                    ) by {
                        if old(self).has_key(m) {
                            let k0 = choose|k0: int|
                                0 <= k0 < old(self).key_seq().len() && old(self).key_seq()[k0]
                                    == m;
                            assert(self.key_seq()[k0] == m);
                            assert(self.has_key(m));
                            lemma_index_of_distinct(old(self).key_seq(), k0);
                            lemma_index_of_distinct(self.key_seq(), k0);
                            assert(self.buckets()[k0] == old(self).buckets()[k0]);
                        }
                        if self.has_key(m) {
                            let k = choose|k: int|
                                0 <= k < self.key_seq().len() && self.key_seq()[k] == m;
                            assert(k != n);
                            assert(old(self).key_seq()[k] == m);
                            assert(old(self).has_key(m));
                        }
                    }
                }
                wait_ms
            },
        }
    }

    /// Handle one limiter message at time `now_ms`: an upsert is stored or
    /// refused with no further action; an acquire yields a delivery order —
    /// sleep the computed wait, then send the permit on the caller's reply
    /// handle. The limiter itself never sleeps.
    pub fn handle<R>(&mut self, msg: RateMsg<R>, now_ms: u64) -> (action: RateAction<R>)
        requires
            old(self).wf(),
        ensures
            final(self).wf(),
            msg matches RateMsg::Upsert { key, qps_milli, burst } ==> (action is Stored <==> (
            qps_milli >= 1 && burst >= 1)) && (action is Stored || action is Rejected) && (action
                is Stored ==> upsert_transition(
                old(self),
                final(self),
                key.0@,
                qps_milli,
                burst,
                now_ms,
            )) && (action is Rejected ==> final(self).key_seq() == old(self).key_seq()
                && final(self).buckets() == old(self).buckets()),
            msg matches RateMsg::Acquire { key, cost, reply } ==> (action matches
                RateAction::Deliver { wait_ms: w, reply: r } && r == reply && acquire_transition(
                old(self),
                final(self),
                key.0@,
                cost,
                now_ms,
                w,
            )),
    {
        match msg {
            RateMsg::Upsert { key, qps_milli, burst } => {
                let stored = self.upsert(key, qps_milli, burst, now_ms);
                if stored {
                    RateAction::Stored
                } else {
                    RateAction::Rejected
                }
            },
            RateMsg::Acquire { key, cost, reply } => {
                let wait_ms = self.acquire(key, cost, now_ms);
                RateAction::Deliver { wait_ms, reply }
            },
        }
    }
}

impl Default for RateLimiter {
    /// An empty limiter, as [`RateLimiter::new`] builds it.
    fn default() -> (r: RateLimiter)
        ensures
            r.wf(),
            r.key_seq().len() == 0,
    {
        RateLimiter::new()
    }
}

} // verus!
