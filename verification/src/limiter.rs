//! The rate-limit engine's decisions: when a request may go out on its
//! bucket, how a response's rate-limit headers update the bucket, the
//! exponential back-off on 429 responses, the global throttle and the
//! circuit breaker that locks the engine after a burst of 429 responses.
//! Times are milliseconds on a monotonic clock.
use vstd::prelude::*;
use crate::text::{chars_of, parse_u32, parsed_u32, contains_seq, str_contains, concat2};
use crate::json::JsonValue;
use crate::error::AppError;

verus! {

/// The state of one rate-limit bucket.
pub struct BucketInfo {
    pub remaining: u32,
    pub reset_at: u64,
    pub limit: u32,
    pub consecutive_429s: u32,
    pub bucket_id: Option<String>,
    pub last_request_at: u64,
}

/// The abstract value of a bucket.
pub ghost struct BucketView {
    pub remaining: u32,
    pub reset_at: u64,
    pub limit: u32,
    pub consecutive_429s: u32,
    pub bucket_id: Option<Seq<char>>,
    pub last_request_at: u64,
}

/// The abstract value of an optional string.
pub open spec fn opt_view(s: Option<String>) -> Option<Seq<char>> {
    match s {
        Some(x) => Some(x@),
        None => None,
    }
}

impl View for BucketInfo {
    type V = BucketView;

    open spec fn view(&self) -> BucketView {
        BucketView {
            remaining: self.remaining,
            reset_at: self.reset_at,
            limit: self.limit,
            consecutive_429s: self.consecutive_429s,
            bucket_id: opt_view(self.bucket_id),
            last_request_at: self.last_request_at,
        }
    }
}

/// A fresh bucket: one request allowed, resetting at `now`.
pub open spec fn fresh_bucket(now: u64) -> BucketView {
    BucketView {
        remaining: 1,
        reset_at: now,
        limit: 1,
        consecutive_429s: 0,
        bucket_id: None,
        last_request_at: now,
    }
}

impl BucketInfo {
    /// A fresh bucket: one request allowed, resetting now.
    pub fn new_at(now: u64) -> (b: BucketInfo)
        ensures
            b@ == fresh_bucket(now),
    {
        BucketInfo {
            remaining: 1,
            reset_at: now,
            limit: 1,
            consecutive_429s: 0,
            bucket_id: None,
            last_request_at: now,
        }
    }
}

/// What the engine does with a request that wants to go out.
#[derive(Debug, Clone, Copy, PartialEq, Eq, Structural)]
pub enum Admission {
    /// Send it now.
    Proceed,
    /// Wait this long for the global throttle, then try again.
    WaitGlobal(u64),
    /// Wait this long for the bucket to reset, then try again.
    WaitBucket(u64),
}

/// The grace added to a bucket wait.
pub const BUCKET_GRACE_MS: u64 = 100;

/// One admission attempt at time `now`: the bucket afterwards and the decision.
/// A bucket past its reset time is refilled to its limit first.
pub open spec fn acquire_step(global_reset_at: u64, b: BucketView, now: u64) -> (BucketView, Admission) {
    if now < global_reset_at {
        (b, Admission::WaitGlobal((global_reset_at - now) as u64))
    } else {
        let refilled = if now >= b.reset_at { b.limit } else { b.remaining };
        if refilled == 0 {
            let wait = if b.reset_at > now { b.reset_at - now } else { 0 };
            let wait_total = if wait + BUCKET_GRACE_MS > u64::MAX { u64::MAX } else { (wait + BUCKET_GRACE_MS) as u64 };
            (BucketView { remaining: 0, ..b }, Admission::WaitBucket(wait_total))
        } else {
            (
                BucketView { remaining: (refilled - 1) as u32, last_request_at: now, ..b },
                Admission::Proceed,
            )
        }
    }
}

/// Decides whether a request may go out now on this bucket.
pub fn try_acquire(global_reset_at: u64, bucket: &mut BucketInfo, now: u64) -> (r: Admission)
    ensures
        (final(bucket)@, r) == acquire_step(global_reset_at, old(bucket)@, now),
{
    if now < global_reset_at {
        return Admission::WaitGlobal(global_reset_at - now);
    }
    if now >= bucket.reset_at {
        bucket.remaining = bucket.limit;
    }
    if bucket.remaining == 0 {
        let wait = bucket.reset_at.saturating_sub(now);
        return Admission::WaitBucket(wait.saturating_add(BUCKET_GRACE_MS));
    }
    bucket.remaining = bucket.remaining - 1;
    bucket.last_request_at = now;
    Admission::Proceed
}

/// The number of requests admitted when admission is tried at each of
/// `times` in turn, with no response in between.
pub open spec fn proceeds(global_reset_at: u64, b: BucketView, times: Seq<u64>) -> nat
    decreases times.len(),
{
    if times.len() == 0 {
        0
    } else {
        let (next, a) = acquire_step(global_reset_at, b, times[0]);
        (if a == Admission::Proceed { 1nat } else { 0nat }) + proceeds(
            global_reset_at,
            next,
            times.drop_first(),
        )
    }
}

/// Before a bucket resets, no more requests go out on it than it has left:
/// however many attempts are made before its reset time, at most `remaining`
/// of them are admitted.
pub proof fn lemma_admissions_bounded_before_reset(
    global_reset_at: u64,
    b: BucketView,
    times: Seq<u64>,
)
    requires
        forall|i: int| 0 <= i < times.len() ==> times[i] < b.reset_at,
    ensures
        proceeds(global_reset_at, b, times) <= b.remaining,
    decreases times.len(),
{
    if times.len() > 0 {
        let (next, a) = acquire_step(global_reset_at, b, times[0]);
        assert(next.reset_at == b.reset_at);
        assert forall|i: int| 0 <= i < times.drop_first().len() implies times.drop_first()[i]
            < next.reset_at by {
            assert(times.drop_first()[i] == times[i + 1]);
        }
        lemma_admissions_bounded_before_reset(global_reset_at, next, times.drop_first());
    }
}

/// No request goes out while the global throttle is active.
pub proof fn lemma_global_throttle_holds(global_reset_at: u64, b: BucketView, now: u64)
    requires
        now < global_reset_at,
    ensures
        acquire_step(global_reset_at, b, now).1 != Admission::Proceed,
        acquire_step(global_reset_at, b, now).0 == b,
{
}

/// The admission rule of each attempt: a request goes out exactly when the
/// global throttle is over and its bucket has a request left (a bucket past
/// its reset time counts as refilled to its limit); each request that goes
/// out takes one from the bucket and is stamped with its time; a refused one
/// leaves the bucket's counters, reset time and limit as they were, save the
/// refill.
pub proof fn lemma_admission_rule(global_reset_at: u64, b: BucketView, now: u64)
    ensures
        ({
            let (next, a) = acquire_step(global_reset_at, b, now);
            let refilled = if now >= b.reset_at { b.limit } else { b.remaining };
            &&& (a == Admission::Proceed) <==> (now >= global_reset_at && refilled > 0)
            &&& a == Admission::Proceed ==> next.remaining == refilled - 1 && next.last_request_at == now
            &&& next.reset_at == b.reset_at && next.limit == b.limit
            &&& next.consecutive_429s == b.consecutive_429s && next.bucket_id == b.bucket_id
            &&& (b.remaining == 0 && now < b.reset_at) ==> a != Admission::Proceed
        }),
{
}

/// The rate-limit headers of a response, as the engine reads them.
/// The integer headers are kept as their text; the two durations, which the
/// server sends as decimal seconds, are given in milliseconds.
pub struct RateLimitHeaders {
    pub bucket: Option<String>,
    pub limit: Option<String>,
    pub remaining: Option<String>,
    pub reset_after_ms: Option<u64>,
    pub retry_after_ms: Option<u64>,
    pub is_global: bool,
}

/// The engine-wide throttle: when requests may resume, and how many 429
/// responses have come in a row.
#[derive(Debug, Clone, Copy, PartialEq, Eq, Structural)]
pub struct GlobalThrottle {
    pub reset_at: u64,
    pub count_429: u32,
}

/// The retry delay used when a 429 response carries no `retry-after`.
pub const DEFAULT_RETRY_MS: u64 = 1000;
/// How long the circuit breaker locks the engine.
pub const CIRCUIT_LOCK_MS: u64 = 60000;
/// More consecutive 429 responses than this trip the circuit breaker.
pub const CIRCUIT_THRESHOLD: u32 = 10;

/// 2 to the power `e`.
pub open spec fn pow2(e: nat) -> nat
    decreases e,
{
    if e == 0 {
        1
    } else {
        2 * pow2((e - 1) as nat)
    }
}

/// The exponent of the back-off after `n` consecutive 429 responses.
pub open spec fn backoff_exponent(n: u32) -> nat {
    if n < 6 { n as nat } else { 6 }
}

/// The back-off after `n` consecutive 429 responses: the server's retry delay
/// plus 2^min(n, 6) seconds.
pub open spec fn backoff_ms(retry_ms: u64, n: u32) -> int {
    retry_ms + pow2(backoff_exponent(n)) * 1000
}

/// The back-off grows with the number of consecutive 429 responses and never
/// exceeds the retry delay plus 64 seconds.
pub proof fn lemma_backoff_monotone_and_capped(retry_ms: u64, n1: u32, n2: u32)
    requires
        n1 <= n2,
    ensures
        backoff_ms(retry_ms, n1) <= backoff_ms(retry_ms, n2),
        backoff_ms(retry_ms, n2) <= retry_ms + 64000,
        backoff_ms(retry_ms, n1) >= retry_ms + 2000 || n1 == 0,
{
    lemma_pow2_mono(backoff_exponent(n1), backoff_exponent(n2));
    lemma_pow2_mono(backoff_exponent(n2), 6);
    if n1 > 0 {
        lemma_pow2_mono(1, backoff_exponent(n1));
    }
    assert(pow2(6) == 64) by {
        reveal_with_fuel(pow2, 7);
    }
    assert(pow2(1) == 2) by {
        reveal_with_fuel(pow2, 2);
    }
}

proof fn lemma_pow2_mono(a: nat, b: nat)
    requires
        a <= b,
    ensures
        pow2(a) <= pow2(b),
    decreases b,
{
    if a < b {
        lemma_pow2_mono(a, (b - 1) as nat);
    }
}

fn pow2_seconds_ms(n: u32) -> (r: u64)
    ensures
        r == pow2(backoff_exponent(n)) * 1000,
        r <= 64000,
{
    proof {
        reveal_with_fuel(pow2, 7);
    }
    if n == 0 {
        1000
    } else if n == 1 {
        2000
    } else if n == 2 {
        4000
    } else if n == 3 {
        8000
    } else if n == 4 {
        16000
    } else if n == 5 {
        32000
    } else {
        64000
    }
}

/// The header text parsed as `str::parse::<u32>()` does.
pub open spec fn header_u32(h: Option<String>) -> Option<u32> {
    match h {
        Some(t) => parsed_u32(t@),
        None => None,
    }
}

fn parse_header_u32(h: &Option<String>) -> (r: Option<u32>)
    ensures
        r == header_u32(*h),
{
    match h {
        Some(t) => {
            let cs = chars_of(t.as_str());
            parse_u32(cs.as_slice())
        },
        None => None,
    }
}

/// The times that a response's headers ask the engine to compute stay on the clock.
pub open spec fn headers_fit(h: RateLimitHeaders, now: u64) -> bool {
    &&& h.reset_after_ms is Some ==> now + h.reset_after_ms->0 <= u64::MAX
    &&& now + retry_of(h) + 64000 <= u64::MAX
    &&& now + CIRCUIT_LOCK_MS <= u64::MAX
}

/// Whether the times that a response's headers ask for stay on the clock.
pub fn headers_within_range(h: &RateLimitHeaders, now: u64) -> (r: bool)
    ensures
        r == headers_fit(*h, now),
{
    let reset_ok = match h.reset_after_ms {
        Some(ms) => ms <= u64::MAX - now,
        None => true,
    };
    let retry: u64 = match h.retry_after_ms {
        Some(r) => r,
        None => DEFAULT_RETRY_MS,
    };
    let retry_ok = now <= u64::MAX - 64000 && retry <= u64::MAX - 64000 - now;
    let lock_ok = now <= u64::MAX - CIRCUIT_LOCK_MS;
    reset_ok && retry_ok && lock_ok
}

/// The retry delay of a 429 response.
pub open spec fn retry_of(h: RateLimitHeaders) -> u64 {
    match h.retry_after_ms {
        Some(r) => r,
        None => DEFAULT_RETRY_MS,
    }
}

/// The bucket after the rate-limit headers of a response are read.
pub open spec fn apply_headers(b: BucketView, h: RateLimitHeaders, now: u64) -> BucketView {
    BucketView {
        bucket_id: match h.bucket {
            Some(id) => Some(id@),
            None => b.bucket_id,
        },
        limit: match header_u32(h.limit) {
            Some(l) => l,
            None => b.limit,
        },
        remaining: match header_u32(h.remaining) {
            Some(r) => r,
            None => b.remaining,
        },
        reset_at: match h.reset_after_ms {
            Some(ms) => (now + ms) as u64,
            None => b.reset_at,
        },
        ..b
    }
}

/// The global 429 counter after one more 429 response: past the threshold the
/// circuit breaker trips and the counter starts again from zero.
pub open spec fn next_count_429(count: u32) -> u32 {
    if count > CIRCUIT_THRESHOLD { 0 } else { (count + 1) as u32 }
}

/// What the engine does with a response.
#[derive(Debug, Clone, Copy, PartialEq, Eq, Structural)]
pub enum ResponseOutcome {
    /// The response was a 429: try the request again.
    Retry { backoff_ms: u64, circuit_tripped: bool, global: bool },
    /// Hand the response to the caller.
    Deliver,
}

/// The bucket and throttle after a response, and what is done with it.
pub open spec fn response_step(
    b: BucketView,
    g: GlobalThrottle,
    h: RateLimitHeaders,
    status: u16,
    now: u64,
) -> (BucketView, GlobalThrottle, ResponseOutcome) {
    let hb = apply_headers(b, h, now);
    if status == 429 {
        let n = (hb.consecutive_429s + 1) as u32;
        let retry = retry_of(h);
        let backoff = backoff_ms(retry, n);
        let tripped = g.count_429 > CIRCUIT_THRESHOLD;
        let after_circuit = if tripped { (now + CIRCUIT_LOCK_MS) as u64 } else { g.reset_at };
        let g_reset = if h.is_global { (now + retry) as u64 } else { after_circuit };
        (
            BucketView {
                consecutive_429s: n,
                reset_at: (now + backoff) as u64,
                remaining: 0,
                ..hb
            },
            GlobalThrottle { reset_at: g_reset, count_429: next_count_429(g.count_429) },
            ResponseOutcome::Retry {
                backoff_ms: (backoff) as u64,
                circuit_tripped: tripped,
                global: h.is_global,
            },
        )
    } else {
        (
            BucketView { consecutive_429s: 0, ..hb },
            GlobalThrottle { count_429: 0, ..g },
            ResponseOutcome::Deliver,
        )
    }
}

/// Reads a response's rate-limit headers into its bucket and the global
/// throttle, and decides whether the request is tried again.
pub fn on_response(
    bucket: &mut BucketInfo,
    global: &mut GlobalThrottle,
    headers: &RateLimitHeaders,
    status: u16,
    now: u64,
) -> (r: ResponseOutcome)
    requires
        headers_fit(*headers, now),
        old(bucket).consecutive_429s < u32::MAX,
    ensures
        (final(bucket)@, *final(global), r) == response_step(
            old(bucket)@,
            *old(global),
            *headers,
            status,
            now,
        ),
{
    match &headers.bucket {
        Some(id) => {
            bucket.bucket_id = Some(id.clone());
        },
        None => {},
    }
    match parse_header_u32(&headers.limit) {
        Some(l) => {
            bucket.limit = l;
        },
        None => {},
    }
    match parse_header_u32(&headers.remaining) {
        Some(r) => {
            bucket.remaining = r;
        },
        None => {},
    }
    match headers.reset_after_ms {
        Some(ms) => {
            bucket.reset_at = now + ms;
        },
        None => {},
    }
    if status == 429 {
        bucket.consecutive_429s = bucket.consecutive_429s + 1;
        let retry = match headers.retry_after_ms {
            Some(r) => r,
            None => DEFAULT_RETRY_MS,
        };
        let tripped = global.count_429 > CIRCUIT_THRESHOLD;
        if tripped {
            global.reset_at = now + CIRCUIT_LOCK_MS;
            global.count_429 = 0;
        } else {
            global.count_429 = global.count_429 + 1;
        }
        let backoff = retry + pow2_seconds_ms(bucket.consecutive_429s);
        bucket.reset_at = now + backoff;
        bucket.remaining = 0;
        if headers.is_global {
            global.reset_at = now + retry;
        }
        ResponseOutcome::Retry { backoff_ms: backoff, circuit_tripped: tripped, global: headers.is_global }
    } else {
        bucket.consecutive_429s = 0;
        global.count_429 = 0;
        ResponseOutcome::Deliver
    }
}

/// The global 429 counter never exceeds one past the threshold.
pub proof fn lemma_count_429_bounded(count: u32)
    requires
        count <= CIRCUIT_THRESHOLD + 1,
    ensures
        next_count_429(count) <= CIRCUIT_THRESHOLD + 1,
{
}

/// A 429 on one route backs off that route's bucket only: when the response
/// is not marked global and the circuit breaker does not trip, the global
/// throttle keeps its reset time, so other routes go on, while the bucket
/// itself is emptied. Any other status
/// leaves the global reset time as it was too.
pub proof fn lemma_bucket_429_stays_local(
    b: BucketView,
    g: GlobalThrottle,
    h: RateLimitHeaders,
    status: u16,
    now: u64,
)
    ensures
        (status == 429 && !h.is_global && g.count_429 <= CIRCUIT_THRESHOLD) ==> response_step(
            b,
            g,
            h,
            status,
            now,
        ).1.reset_at == g.reset_at && response_step(b, g, h, status, now).0.remaining == 0,
        status != 429 ==> response_step(b, g, h, status, now).1.reset_at == g.reset_at,
{
}

/// A 429 response after more than the threshold of consecutive 429 responses
/// locks the whole engine for a minute (unless the response itself sets a
/// global throttle), and every 429 puts its bucket to sleep for the back-off.
pub proof fn lemma_circuit_breaker(
    b: BucketView,
    g: GlobalThrottle,
    h: RateLimitHeaders,
    now: u64,
)
    requires
        g.count_429 > CIRCUIT_THRESHOLD,
        !h.is_global,
        headers_fit(h, now),
    ensures
        response_step(b, g, h, 429, now).1.reset_at == now + CIRCUIT_LOCK_MS,
        response_step(b, g, h, 429, now).1.count_429 == 0,
        response_step(b, g, h, 429, now).0.remaining == 0,
{
}

/// Any response other than a 429 ends a run of 429 responses, for its bucket
/// and for the engine.
pub proof fn lemma_success_resets_backoff(
    b: BucketView,
    g: GlobalThrottle,
    h: RateLimitHeaders,
    status: u16,
    now: u64,
)
    requires
        status != 429,
    ensures
        response_step(b, g, h, status, now).0.consecutive_429s == 0,
        response_step(b, g, h, status, now).1.count_429 == 0,
        response_step(b, g, h, status, now).2 == ResponseOutcome::Deliver,
{
}

/// The engine's shared state: one bucket per route key, and the global throttle.
pub struct RateLimiterCore {
    pub keys: Vec<String>,
    pub buckets: Vec<BucketInfo>,
    pub global: GlobalThrottle,
}

impl RateLimiterCore {
    /// Keys and buckets pair up, and no route key occurs twice.
    pub open spec fn wf(&self) -> bool {
        &&& self.keys@.len() == self.buckets@.len()
        &&& forall|i: int, j: int|
            0 <= i < j < self.keys@.len() ==> (#[trigger] self.keys@[i])@ != (#[trigger] self.keys@[j])@
    }

    /// The index of the bucket for a route key.
    pub open spec fn index_of(&self, key: Seq<char>) -> Option<int> {
        if exists|i: int| 0 <= i < self.keys@.len() && (#[trigger] self.keys@[i])@ == key {
            Some(choose|i: int| 0 <= i < self.keys@.len() && (#[trigger] self.keys@[i])@ == key)
        } else {
            None
        }
    }

    /// An engine with no buckets whose global throttle has expired at `now`.
    pub fn new(now: u64) -> (r: RateLimiterCore)
        ensures
            r.wf(),
            r.keys@.len() == 0,
            r.global == (GlobalThrottle { reset_at: now, count_429: 0 }),
    {
        RateLimiterCore { keys: Vec::new(), buckets: Vec::new(), global: GlobalThrottle { reset_at: now, count_429: 0 } }
    }

    /// The bucket for a route key, created fresh at `now` when the key is new.
    pub fn bucket_index(&mut self, route: &str, now: u64) -> (i: usize)
        requires
            old(self).wf(),
        ensures
            final(self).wf(),
            i < final(self).keys@.len(),
            final(self).keys@[i as int]@ == route@,
            final(self).global == old(self).global,
            old(self).index_of(route@) is Some ==> {
                &&& i == old(self).index_of(route@)->0
                &&& final(self).keys@ == old(self).keys@
                &&& final(self).buckets@ == old(self).buckets@
            },
            old(self).index_of(route@) is None ==> {
                &&& i == old(self).keys@.len()
                &&& final(self).keys@.len() == old(self).keys@.len() + 1
                &&& final(self).keys@.take(i as int) == old(self).keys@
                &&& final(self).buckets@.take(i as int) == old(self).buckets@
                &&& final(self).buckets@[i as int]@ == fresh_bucket(now)
            },
    {
        let key = String::from_str(route);
        let mut i: usize = 0;
        while i < self.keys.len()
            invariant
                self.wf(),
                key@ == route@,
                i <= self.keys@.len(),
                forall|j: int| 0 <= j < i ==> (#[trigger] self.keys@[j])@ != route@,
            decreases self.keys@.len() - i,
        {
            if self.keys[i] == key {
                proof {
                    let k = self.index_of(route@)->0;
                    assert(self.keys@[k]@ == route@);
                    if k != i as int {
                        if k < i {
                        } else {
                            assert(self.keys@[i as int]@ != self.keys@[k]@);
                        }
                    }
                }
                return i;
            }
            i += 1;
        }
        let ghost old_keys = self.keys@;
        let ghost old_buckets = self.buckets@;
        self.keys.push(key);
        self.buckets.push(BucketInfo::new_at(now));
        proof {
            assert(self.keys@.take(i as int) == old_keys);
            assert(self.buckets@.take(i as int) == old_buckets);
            assert forall|a: int, b: int| 0 <= a < b < self.keys@.len() implies (
            #[trigger] self.keys@[a])@ != (#[trigger] self.keys@[b])@ by {
                if b == i as int {
                    assert(old_keys[a]@ != route@);
                } else {
                    assert(self.keys@[a] == old_keys[a]);
                    assert(self.keys@[b] == old_keys[b]);
                }
            }
        }
        i
    }

    /// One admission attempt for the request on bucket `i` at `now`.
    pub fn acquire(&mut self, i: usize, now: u64) -> (r: Admission)
        requires
            old(self).wf(),
            i < old(self).keys@.len(),
        ensures
            final(self).wf(),
            final(self).keys@ == old(self).keys@,
            final(self).global == old(self).global,
            final(self).buckets@.len() == old(self).buckets@.len(),
            forall|j: int| 0 <= j < final(self).buckets@.len() && j != i ==> final(self).buckets@[j] == old(self).buckets@[j],
            (final(self).buckets@[i as int]@, r) == acquire_step(old(self).global.reset_at, old(self).buckets@[i as int]@, now),
    {
        let g = self.global.reset_at;
        try_acquire(g, &mut self.buckets[i], now)
    }

    /// Reads the response to the request on bucket `i`.
    pub fn respond(&mut self, i: usize, headers: &RateLimitHeaders, status: u16, now: u64) -> (r: ResponseOutcome)
        requires
            old(self).wf(),
            i < old(self).keys@.len(),
            headers_fit(*headers, now),
            old(self).buckets@[i as int].consecutive_429s < u32::MAX,
        ensures
            final(self).wf(),
            final(self).keys@ == old(self).keys@,
            final(self).buckets@.len() == old(self).buckets@.len(),
            forall|j: int| 0 <= j < final(self).buckets@.len() && j != i ==> final(self).buckets@[j] == old(self).buckets@[j],
            (final(self).buckets@[i as int]@, final(self).global, r) == response_step(
                old(self).buckets@[i as int]@,
                old(self).global,
                *headers,
                status,
                now,
            ),
    {
        on_response(&mut self.buckets[i], &mut self.global, headers, status, now)
    }

    /// Reads the response to the request on bucket `i`, unless the bucket
    /// does not exist, the headers ask for times past the clock's end, or the
    /// bucket's 429 counter is exhausted: then nothing changes.
    pub fn try_respond(&mut self, i: usize, headers: &RateLimitHeaders, status: u16, now: u64) -> (r: Option<ResponseOutcome>)
        requires
            old(self).wf(),
        ensures
            final(self).wf(),
            r is None <==> !(i < old(self).keys@.len() && headers_fit(*headers, now)
                && old(self).buckets@[i as int].consecutive_429s < u32::MAX),
            r is None ==> *final(self) == *old(self),
            r matches Some(o) ==> (final(self).buckets@[i as int]@, final(self).global, o) == response_step(
                old(self).buckets@[i as int]@,
                old(self).global,
                *headers,
                status,
                now,
            ),
    {
        if i >= self.keys.len() || !headers_within_range(headers, now) {
            return None;
        }
        if self.buckets[i].consecutive_429s == u32::MAX {
            return None;
        }
        Some(self.respond(i, headers, status, now))
    }
}

/// The admission law of the engine: for the bucket of a route's key, an
/// attempt at `now` goes out exactly when the global throttle is over and
/// the bucket, refilled to its limit once past its reset time, has a
/// request left; one that goes out takes one from that bucket; while the
/// throttle holds, or the bucket is empty before its reset, none goes out.
/// (`acquire` on that bucket's index takes exactly this step and leaves the
/// other buckets as they were.)
pub proof fn lemma_engine_admission(e: RateLimiterCore, key: Seq<char>, now: u64)
    requires
        e.wf(),
        e.index_of(key) is Some,
    ensures
        ({
            let b = e.buckets@[e.index_of(key)->0]@;
            let (next, a) = acquire_step(e.global.reset_at, b, now);
            let refilled = if now >= b.reset_at { b.limit } else { b.remaining };
            &&& (a == Admission::Proceed) <==> (now >= e.global.reset_at && refilled > 0)
            &&& a == Admission::Proceed ==> next.remaining == refilled - 1
            &&& now < e.global.reset_at ==> a != Admission::Proceed && next == b
            &&& (b.remaining == 0 && now < b.reset_at) ==> a != Admission::Proceed
        }),
{
    let i = e.index_of(key)->0;
    assert(0 <= i < e.keys@.len() && e.keys@[i]@ == key);
    lemma_admission_rule(e.global.reset_at, e.buckets@[i]@, now);
}

/// The `authorization` header value for a token.
pub open spec fn authorization_of(token: Seq<char>, is_bearer: bool) -> Seq<char> {
    if is_bearer { "Bearer "@ + token } else { token }
}

/// The `authorization` header value: `Bearer {token}` for an OAuth token,
/// the raw token otherwise.
pub fn authorization_value(token: &str, is_bearer: bool) -> (r: String)
    ensures
        r@ == authorization_of(token@, is_bearer),
{
    if is_bearer {
        concat2("Bearer ", token)
    } else {
        String::from_str(token)
    }
}

/// The `referer` header of a request: the one given, or the channel list for
/// a message endpoint.
pub open spec fn referer_of(referer: Option<Seq<char>>, url: Seq<char>) -> Option<Seq<char>> {
    match referer {
        Some(r) => Some(r),
        None => if contains_seq(url, "/messages"@) {
            Some("https://discord.com/channels/@me"@)
        } else {
            None
        },
    }
}

/// The `referer` header of a request, if it gets one.
pub fn referer_for(referer: &Option<String>, url: &str) -> (r: Option<String>)
    ensures
        opt_view(r) == referer_of(opt_view(*referer), url@),
{
    match referer {
        Some(r) => Some(r.clone()),
        None => if str_contains(url, "/messages") {
            Some(String::from_str("https://discord.com/channels/@me"))
        } else {
            None
        },
    }
}

/// How the body of a delivered response is read.
#[derive(Debug, Clone, Copy, PartialEq, Eq, Structural)]
pub enum BodyHandling {
    /// Hand back the raw bytes.
    RawBytes,
    /// 204 No Content: hand back an empty JSON object.
    EmptyJson,
    /// Parse the body as JSON.
    Json,
    /// Not a success: read the body as a Discord error.
    DiscordError,
}

/// How the body of a delivered response with this status is read.
pub open spec fn body_handling_of(status: u16, return_raw_bytes: bool) -> BodyHandling {
    if 200 <= status <= 299 {
        if return_raw_bytes {
            BodyHandling::RawBytes
        } else if status == 204 {
            BodyHandling::EmptyJson
        } else {
            BodyHandling::Json
        }
    } else {
        BodyHandling::DiscordError
    }
}

/// How the body of a delivered response with this status is read.
pub fn body_handling(status: u16, return_raw_bytes: bool) -> (r: BodyHandling)
    ensures
        r == body_handling_of(status, return_raw_bytes),
{
    if 200 <= status && status <= 299 {
        if return_raw_bytes {
            BodyHandling::RawBytes
        } else if status == 204 {
            BodyHandling::EmptyJson
        } else {
            BodyHandling::Json
        }
    } else {
        BodyHandling::DiscordError
    }
}

/// The content of a successful API response.
pub enum ApiResponseContent {
    Json(JsonValue),
    Bytes(Vec<u8>),
}

impl ApiResponseContent {
    /// The JSON content, or an error when the response was raw bytes.
    pub fn json(self) -> (r: Result<JsonValue, AppError>)
        ensures
            self is Json ==> r == Ok::<JsonValue, AppError>(self->Json_0),
            self is Bytes ==> r is Err && r->Err_0.user_message@ == "Expected JSON response"@
                && r->Err_0.error_code@ == "api_type_mismatch"@,
    {
        match self {
            ApiResponseContent::Json(v) => Ok(v),
            _ => Err(AppError::new("Expected JSON response", "api_type_mismatch")),
        }
    }
}

} // verus!
