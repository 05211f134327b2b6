//! Token-bucket rate limiting, per bucket and per client.
use vstd::prelude::*;
use crate::clock::Clock;

verus! {

/// Nanoseconds that must pass before a bucket is refilled.
pub open spec fn refill_interval_nanos() -> nat {
    100_000_000
}

/// The state of a token bucket: refill rate (tokens per second), capacity, tokens held, and the
/// reading of the bucket's clock (nanoseconds since the bucket was created) at its last refill.
#[derive(Clone, Copy, Debug, PartialEq, Eq)]
pub struct BucketState {
    pub rate: u64,
    pub capacity: u64,
    pub tokens: u64,
    pub last_refill: u128,
}

/// A bucket holds no more tokens than its capacity.
pub open spec fn within_capacity(s: BucketState) -> bool {
    s.tokens <= s.capacity
}

/// A full bucket with the given rate and capacity, just created: its last refill is its
/// clock's start.
pub open spec fn full_bucket(rate: u64, capacity: u64) -> BucketState {
    BucketState { rate, capacity, tokens: capacity, last_refill: 0 }
}

/// Whole tokens earned at `rate` tokens per second over `nanos` nanoseconds, saturated at `u64::MAX`.
pub open spec fn refill_amount(nanos: nat, rate: nat) -> nat {
    let t = (nanos * rate) / 1_000_000_000;
    if t > u64::MAX as nat { u64::MAX as nat } else { t }
}

/// Whether `nanos` of elapsed time refill the bucket: at least a tenth of a second has passed
/// and at least one whole token has been earned.
pub open spec fn refills(s: BucketState, nanos: nat) -> bool {
    nanos >= refill_interval_nanos() && refill_amount(nanos, s.rate as nat) > 0
}

/// The bucket after `nanos` of elapsed time: earned tokens are added, up to the capacity.
pub open spec fn refilled(s: BucketState, nanos: nat) -> BucketState {
    if refills(s, nanos) {
        let total = s.tokens + refill_amount(nanos, s.rate as nat);
        BucketState { tokens: if total > s.capacity { s.capacity } else { total as u64 }, ..s }
    } else {
        s
    }
}

/// Taking `count` tokens: granted, and the tokens removed, exactly when the bucket holds enough.
pub open spec fn taken(s: BucketState, count: u64) -> (BucketState, bool) {
    if s.tokens >= count {
        (BucketState { tokens: (s.tokens - count) as u64, ..s }, true)
    } else {
        (s, false)
    }
}

/// The tokens of one request for `count` tokens, `nanos` after the bucket was last refilled
/// (the time of the last refill is left as it was).
pub open spec fn consume_step(s: BucketState, nanos: nat, count: u64) -> (BucketState, bool) {
    taken(refilled(s, nanos), count)
}

/// The nanoseconds from `last` to `now`, zero when `now` is the earlier reading.
pub open spec fn elapsed_since(last: u128, now: u128) -> nat {
    if now >= last { (now - last) as nat } else { 0 }
}

/// One request for `count` tokens when the bucket's clock reads `now`: the bucket is refilled
/// for the time since its last refill, which then becomes `now`, and the tokens are taken if
/// it holds that many.
pub open spec fn consume_at(s: BucketState, now: u128, count: u64) -> (BucketState, bool) {
    let nanos = elapsed_since(s.last_refill, now);
    let step = consume_step(s, nanos, count);
    (if refills(s, nanos) { BucketState { last_refill: now, ..step.0 } } else { step.0 }, step.1)
}

proof fn lemma_refill_split(nanos: nat, rate: nat)
    ensures
        (nanos * rate) / 1_000_000_000 == (nanos / 1_000_000_000) * rate + ((nanos % 1_000_000_000) * rate) / 1_000_000_000,
{
    let q = nanos / 1_000_000_000;
    let r = nanos % 1_000_000_000;
    vstd::arithmetic::div_mod::lemma_fundamental_div_mod(nanos as int, 1_000_000_000);
    assert(nanos * rate == r * rate + (q * rate) * 1_000_000_000) by (nonlinear_arith)
        requires
            nanos == 1_000_000_000 * q + r,
    ;
    vstd::arithmetic::div_mod::lemma_hoist_over_denominator((r * rate) as int, (q * rate) as int, 1_000_000_000);
}

/// Whole tokens earned at `rate` over `nanos` nanoseconds, saturated at `u64::MAX`.
fn earned_tokens(nanos: u128, rate: u64) -> (t: u64)
    ensures
        t == refill_amount(nanos as nat, rate as nat),
{
    proof {
        lemma_refill_split(nanos as nat, rate as nat);
    }
    if rate == 0 {
        assert(nanos * 0 == 0);
        return 0;
    }
    let q: u128 = nanos / 1_000_000_000;
    let r: u128 = nanos % 1_000_000_000;
    if q > u64::MAX as u128 {
        assert(q * rate >= q) by (nonlinear_arith)
            requires
                rate >= 1,
                q >= 0,
        ;
        return u64::MAX;
    }
    assert(q * rate <= u64::MAX * u64::MAX) by (nonlinear_arith)
        requires
            q <= u64::MAX,
            rate <= u64::MAX,
    ;
    let whole: u128 = q * (rate as u128);
    if whole > u64::MAX as u128 {
        return u64::MAX;
    }
    assert(r * rate < 1_000_000_000 * u64::MAX) by (nonlinear_arith)
        requires
            r < 1_000_000_000,
            rate <= u64::MAX,
    ;
    let part: u128 = (r * (rate as u128)) / 1_000_000_000;
    let total: u128 = whole + part;
    if total > u64::MAX as u128 {
        u64::MAX
    } else {
        total as u64
    }
}

/// A token bucket: it holds up to `capacity` tokens and earns `rate_per_sec` tokens a second.
#[derive(Debug)]
pub struct TokenBucket {
    rate_per_sec: u64,
    capacity: u64,
    tokens: u64,
    last_refill: u128,
    clock: Clock,
}

impl TokenBucket {
    #[verifier::type_invariant]
    spec fn holds_at_most_capacity(self) -> bool {
        self.tokens <= self.capacity
    }

    /// The rate, capacity, tokens held and the clock reading at the last refill.
    pub closed spec fn view(&self) -> BucketState {
        BucketState {
            rate: self.rate_per_sec,
            capacity: self.capacity,
            tokens: self.tokens,
            last_refill: self.last_refill,
        }
    }

    /// The latest reading of the bucket's clock (nanoseconds since the bucket was created);
    /// zero before the first request.
    pub closed spec fn clock_reading(&self) -> u128 {
        self.clock.latest()
    }

    /// A full bucket, refilled at `rate_per_sec` tokens a second up to `capacity`; its clock
    /// starts now, and that start counts as its last refill.
    pub fn new(rate_per_sec: u64, capacity: u64) -> (b: TokenBucket)
        ensures
            b@ == full_bucket(rate_per_sec, capacity),
            b.clock_reading() == 0,
    {
        TokenBucket { rate_per_sec, capacity, tokens: capacity, last_refill: 0, clock: Clock::start() }
    }

    /// Serves a request for `count` tokens when the bucket's clock reads `now` (nanoseconds
    /// since the bucket was created): refills it for the time since its last refill, recording
    /// `now` when that earns tokens, then takes `count` tokens if it holds that many.
    pub fn check_and_consume_at(&mut self, now: u128, count: u64) -> (granted: bool)
        ensures
            (final(self)@, granted) == consume_at(old(self)@, now, count),
            within_capacity(final(self)@),
            final(self).clock_reading() == old(self).clock_reading(),
    {
        proof {
            use_type_invariant(&*self);
        }
        let elapsed: u128 = if now >= self.last_refill { now - self.last_refill } else { 0 };
        if elapsed >= 100_000_000 {
            let earned = earned_tokens(elapsed, self.rate_per_sec);
            if earned > 0 {
                let room = self.capacity - self.tokens;
                self.tokens = if earned >= room { self.capacity } else { self.tokens + earned };
                self.last_refill = now;
            }
        }
        if self.tokens < count {
            return false;
        }
        self.tokens = self.tokens - count;
        true
    }

    /// Serves a request for `count` tokens at a new reading of the bucket's clock, which is
    /// never below the reading of the previous request.
    pub fn check_and_consume(&mut self, count: u64) -> (granted: bool)
        ensures
            final(self).clock_reading() >= old(self).clock_reading(),
            (final(self)@, granted) == consume_at(old(self)@, final(self).clock_reading(), count),
            within_capacity(final(self)@),
    {
        proof {
            use_type_invariant(&*self);
        }
        let now = self.clock.reading();
        self.check_and_consume_at(now, count)
    }
}

/// A client's bucket and the latest reading of the bucket's clock.
#[derive(Clone, Copy, Debug, PartialEq, Eq)]
pub struct ClientLimit {
    pub bucket: BucketState,
    pub reading: u128,
}

/// What a request from `key` is served from: the client's own bucket, or, for a client not seen
/// before, a full bucket with `rate` and `burst` whose clock has just started.
pub open spec fn limit_for(limits: Map<Seq<char>, ClientLimit>, key: Seq<char>, rate: u64, burst: u64) -> ClientLimit {
    if limits.contains_key(key) {
        limits[key]
    } else {
        ClientLimit { bucket: full_bucket(rate, burst), reading: 0 }
    }
}

/// The limits and the verdict after one request from `key`, when the clock of its bucket
/// reads `now`.
pub open spec fn acquire_outcome(
    limits: Map<Seq<char>, ClientLimit>,
    key: Seq<char>,
    rate: u64,
    burst: u64,
    now: u128,
) -> (Map<Seq<char>, ClientLimit>, bool) {
    let step = consume_at(limit_for(limits, key, rate, burst).bucket, now, 1);
    (limits.insert(key, ClientLimit { bucket: step.0, reading: now }), step.1)
}

/// The number of tokens granted by a run of requests, each `(nanos, count)`, and the bucket after it.
pub open spec fn run_requests(s: BucketState, requests: Seq<(nat, u64)>) -> (BucketState, nat)
    decreases requests.len(),
{
    if requests.len() == 0 {
        (s, 0)
    } else {
        let before = run_requests(s, requests.drop_last());
        let step = consume_step(before.0, requests.last().0, requests.last().1);
        (step.0, before.1 + if step.1 { requests.last().1 as nat } else { 0 })
    }
}

/// A request never leaves a bucket above its capacity, and never changes its rate or capacity.
pub proof fn law_step_within_capacity(s: BucketState, nanos: nat, count: u64)
    requires
        within_capacity(s),
    ensures
        within_capacity(consume_step(s, nanos, count).0),
        consume_step(s, nanos, count).0.rate == s.rate,
        consume_step(s, nanos, count).0.capacity == s.capacity,
{
}

/// A request is granted exactly when the refilled bucket holds `count` tokens, and no token is
/// created or lost: the tokens left plus the tokens granted are the refilled tokens.
pub proof fn law_tokens_conserved(s: BucketState, nanos: nat, count: u64)
    ensures
        consume_step(s, nanos, count).1 <==> refilled(s, nanos).tokens >= count,
        consume_step(s, nanos, count).0.tokens + (if consume_step(s, nanos, count).1 { count as nat } else { 0 })
            == refilled(s, nanos).tokens,
{
}

/// Refilling never loses tokens, and the longer the wait, the fuller the bucket.
pub proof fn law_refill_monotone(s: BucketState, n1: nat, n2: nat)
    requires
        within_capacity(s),
        n1 <= n2,
    ensures
        s.tokens <= refilled(s, n1).tokens,
        refilled(s, n1).tokens <= refilled(s, n2).tokens,
        within_capacity(refilled(s, n2)),
{
    vstd::arithmetic::mul::lemma_mul_inequality(n1 as int, n2 as int, s.rate as int);
    vstd::arithmetic::div_mod::lemma_div_is_ordered(
        (n1 * s.rate) as int,
        (n2 * s.rate) as int,
        1_000_000_000,
    );
}

/// A full bucket grants a first request exactly when it asks for no more than the capacity,
/// however long it has waited.
pub proof fn law_full_bucket_first_request(rate: u64, capacity: u64, nanos: nat, count: u64)
    ensures
        consume_step(full_bucket(rate, capacity), nanos, count).1 <==> count <= capacity,
{
}

/// Over a run of requests none of which waits long enough to refill the bucket, the tokens
/// granted in total are the tokens the bucket started with less the tokens it ends with; so
/// they never exceed what it started with.
pub proof fn law_no_refill_bounds_grants(s: BucketState, requests: Seq<(nat, u64)>)
    requires
        forall|i: int| 0 <= i < requests.len() ==> !refills(s, #[trigger] requests[i].0),
    ensures
        run_requests(s, requests).1 + run_requests(s, requests).0.tokens == s.tokens,
        run_requests(s, requests).1 <= s.tokens,
        run_requests(s, requests).0.rate == s.rate,
    decreases requests.len(),
{
    if requests.len() > 0 {
        let prefix = requests.drop_last();
        assert forall|i: int| 0 <= i < prefix.len() implies !refills(s, #[trigger] prefix[i].0) by {
            assert(prefix[i] == requests[i]);
        }
        law_no_refill_bounds_grants(s, prefix);
        assert(!refills(s, requests[requests.len() - 1].0));
    }
}

/// A bucket that earns no tokens grants, over any run of requests, at most the tokens it
/// started with.
pub proof fn law_idle_bucket_bounds_grants(s: BucketState, requests: Seq<(nat, u64)>)
    requires
        s.rate == 0,
    ensures
        run_requests(s, requests).1 <= s.tokens,
{
    assert forall|i: int| 0 <= i < requests.len() implies !refills(s, #[trigger] requests[i].0) by {
        assert(requests[i].0 * 0 == 0);
    }
    law_no_refill_bounds_grants(s, requests);
}

/// Whole tokens that `nanos` of waiting add to a bucket earning `rate` tokens a second, before
/// the capacity caps them.
pub open spec fn earned(rate: u64, nanos: nat) -> nat {
    if nanos >= refill_interval_nanos() { refill_amount(nanos, rate as nat) } else { 0 }
}

/// The tokens that a run of requests, each `(nanos, count)`, earns at `rate`.
pub open spec fn total_earned(rate: u64, requests: Seq<(nat, u64)>) -> nat
    decreases requests.len(),
{
    if requests.len() == 0 {
        0
    } else {
        total_earned(rate, requests.drop_last()) + earned(rate, requests.last().0)
    }
}

/// Over any run of requests, the tokens granted plus the tokens left are at most the tokens the
/// bucket started with plus the tokens the waits earned: no request is served from nothing.
pub proof fn law_grants_bounded_by_earnings(s: BucketState, requests: Seq<(nat, u64)>)
    ensures
        run_requests(s, requests).1 + run_requests(s, requests).0.tokens <= s.tokens + total_earned(s.rate, requests),
        run_requests(s, requests).0.rate == s.rate,
    decreases requests.len(),
{
    if requests.len() > 0 {
        law_grants_bounded_by_earnings(s, requests.drop_last());
    }
}

/// A request moves the time of the last refill only forward, and only to the time of the
/// request, and only when the request refills the bucket.
pub proof fn law_refill_time_forward(s: BucketState, now: u128, count: u64)
    ensures
        consume_at(s, now, count).0.last_refill >= s.last_refill,
        consume_at(s, now, count).0.last_refill == s.last_refill
            || consume_at(s, now, count).0.last_refill == now,
        consume_at(s, now, count).0.last_refill == now <== refills(s, elapsed_since(s.last_refill, now)),
{
}

/// A request at a clock reading never leaves a bucket above its capacity, and never changes its
/// rate or capacity.
pub proof fn law_request_within_capacity(s: BucketState, now: u128, count: u64)
    requires
        within_capacity(s),
    ensures
        within_capacity(consume_at(s, now, count).0),
        consume_at(s, now, count).0.rate == s.rate,
        consume_at(s, now, count).0.capacity == s.capacity,
{
}

/// A bucket that earns at least one token a second and holds at least one token when full grants
/// a one-token request whenever its clock reads at least a tenth of a second, and at least the
/// time to earn one whole token, after its last refill, however drained it was.
pub proof fn law_wait_refills_one_token(s: BucketState, now: u128)
    requires
        within_capacity(s),
        s.rate >= 1,
        s.capacity >= 1,
        now >= s.last_refill,
        now - s.last_refill >= refill_interval_nanos(),
        (now - s.last_refill) * s.rate >= 1_000_000_000,
    ensures
        consume_at(s, now, 1).1,
        consume_at(s, now, 1).0.last_refill == now,
{
    let n = elapsed_since(s.last_refill, now);
    assert(n == now - s.last_refill);
    vstd::arithmetic::div_mod::lemma_div_is_ordered(1_000_000_000, (n * s.rate) as int, 1_000_000_000);
    assert(refill_amount(n, s.rate as nat) >= 1);
    assert(refills(s, n));
}

/// A client's first request is granted exactly when the burst is at least one token.
pub proof fn law_new_client_first_request(
    buckets: Map<Seq<char>, ClientLimit>,
    key: Seq<char>,
    rate: u64,
    burst: u64,
    now: u128,
)
    requires
        !buckets.contains_key(key),
    ensures
        acquire_outcome(buckets, key, rate, burst, now).1 <==> burst >= 1,
        acquire_outcome(buckets, key, rate, burst, now).0[key].bucket.capacity == burst,
        acquire_outcome(buckets, key, rate, burst, now).0[key].bucket.rate == rate,
{
}

/// A request touches only its own client's bucket, and a known client keeps the rate and
/// capacity it was first given, whatever the request passes.
pub proof fn law_clients_isolated(
    buckets: Map<Seq<char>, ClientLimit>,
    key: Seq<char>,
    rate: u64,
    burst: u64,
    now: u128,
    other: Seq<char>,
)
    requires
        other != key,
    ensures
        acquire_outcome(buckets, key, rate, burst, now).0.contains_key(other) == buckets.contains_key(other),
        buckets.contains_key(other) ==> acquire_outcome(buckets, key, rate, burst, now).0[other] == buckets[other],
        buckets.contains_key(key) ==> acquire_outcome(buckets, key, rate, burst, now).0[key].bucket.rate == buckets[key].bucket.rate,
        buckets.contains_key(key) ==> acquire_outcome(buckets, key, rate, burst, now).0[key].bucket.capacity == buckets[key].bucket.capacity,
        acquire_outcome(buckets, key, rate, burst, now).0.contains_key(key),
        acquire_outcome(buckets, key, rate, burst, now).0[key].reading == now,
{
}

/// One client's bucket, under the client's key.
struct ClientBucket {
    key: String,
    bucket: TokenBucket,
}

/// The keys of `entries`, in order.
spec fn keys_of(entries: Seq<ClientBucket>) -> Seq<Seq<char>> {
    entries.map_values(|e: ClientBucket| e.key@)
}

/// No key occurs twice in `keys`.
spec fn distinct_keys(keys: Seq<Seq<char>>) -> bool {
    forall|i: int, j: int| 0 <= i < keys.len() && 0 <= j < keys.len() && i != j ==> keys[i] != keys[j]
}

/// The position of `key` in `keys`.
spec fn slot(keys: Seq<Seq<char>>, key: Seq<char>) -> int {
    choose|i: int| 0 <= i < keys.len() && keys[i] == key
}

proof fn lemma_slot(keys: Seq<Seq<char>>, key: Seq<char>, i: int)
    requires
        distinct_keys(keys),
        0 <= i < keys.len(),
        keys[i] == key,
    ensures
        slot(keys, key) == i,
{
}

/// A client's bucket and its clock's latest reading.
spec fn entry_limit(e: ClientBucket) -> ClientLimit {
    ClientLimit { bucket: e.bucket@, reading: e.bucket.clock_reading() }
}

/// The bucket of every client seen so far, by client key.
spec fn buckets_by_key(entries: Seq<ClientBucket>) -> Map<Seq<char>, ClientLimit> {
    Map::new(
        |k: Seq<char>| keys_of(entries).contains(k),
        |k: Seq<char>| entry_limit(entries[slot(keys_of(entries), k)]),
    )
}


proof fn lemma_lookup_entry(entries: Seq<ClientBucket>, i: int)
    requires
        distinct_keys(keys_of(entries)),
        0 <= i < entries.len(),
    ensures
        buckets_by_key(entries).contains_key(entries[i].key@),
        buckets_by_key(entries)[entries[i].key@] == entry_limit(entries[i]),
{
    let keys = keys_of(entries);
    assert(keys[i] == entries[i].key@);
    lemma_slot(keys, entries[i].key@, i);
}

proof fn lemma_push_entry(entries: Seq<ClientBucket>, e: ClientBucket)
    requires
        distinct_keys(keys_of(entries)),
        !keys_of(entries).contains(e.key@),
    ensures
        keys_of(entries.push(e)) == keys_of(entries).push(e.key@),
        distinct_keys(keys_of(entries.push(e))),
        buckets_by_key(entries.push(e)) == buckets_by_key(entries).insert(e.key@, entry_limit(e)),
{
    let keys = keys_of(entries);
    let keys2 = keys_of(entries.push(e));
    assert(keys2 =~= keys.push(e.key@));
    assert forall|i: int, j: int| 0 <= i < keys2.len() && 0 <= j < keys2.len() && i != j implies keys2[i] != keys2[j] by {
        if i == keys.len() as int {
            assert(keys[j] == keys2[j]);
        } else if j == keys.len() as int {
            assert(keys[i] == keys2[i]);
        }
    }
    let m2 = buckets_by_key(entries.push(e));
    let m1 = buckets_by_key(entries).insert(e.key@, entry_limit(e));
    assert forall|k: Seq<char>| #[trigger] m2.contains_key(k) <==> m1.contains_key(k) by {
        if keys2.contains(k) {
            let j = choose|j: int| 0 <= j < keys2.len() && keys2[j] == k;
            if j < keys.len() {
                assert(keys[j] == k);
            }
        }
        if keys.contains(k) {
            let j = choose|j: int| 0 <= j < keys.len() && keys[j] == k;
            assert(keys2[j] == k);
        }
        if k == e.key@ {
            assert(keys2[keys.len() as int] == k);
        }
    }
    assert forall|k: Seq<char>| m2.contains_key(k) implies #[trigger] m2[k] == m1[k] by {
        let j = choose|j: int| 0 <= j < keys2.len() && keys2[j] == k;
        lemma_slot(keys2, k, j);
        if j < keys.len() {
            assert(keys[j] == k);
            lemma_slot(keys, k, j);
        }
    }
    assert(m2 =~= m1);
}

proof fn lemma_update_entry(entries: Seq<ClientBucket>, i: int, e: ClientBucket)
    requires
        distinct_keys(keys_of(entries)),
        0 <= i < entries.len(),
        e.key@ == entries[i].key@,
    ensures
        keys_of(entries.update(i, e)) == keys_of(entries),
        buckets_by_key(entries.update(i, e)) == buckets_by_key(entries).insert(e.key@, entry_limit(e)),
{
    let keys = keys_of(entries);
    let entries2 = entries.update(i, e);
    assert(keys_of(entries2) =~= keys);
    let m2 = buckets_by_key(entries2);
    let m1 = buckets_by_key(entries).insert(e.key@, entry_limit(e));
    assert(keys[i] == e.key@);
    assert forall|k: Seq<char>| m2.contains_key(k) implies #[trigger] m2[k] == m1[k] by {
        let j = choose|j: int| 0 <= j < keys.len() && keys[j] == k;
        lemma_slot(keys, k, j);
    }
    assert(m2 =~= m1);
}

/// A token bucket per client key, created on the client's first request.
pub struct RateLimiterManager {
    buckets: Vec<ClientBucket>,
}

impl RateLimiterManager {
    #[verifier::type_invariant]
    spec fn one_bucket_per_key(self) -> bool {
        distinct_keys(keys_of(self.buckets@))
    }

    /// The bucket of every client seen so far.
    pub closed spec fn view(&self) -> Map<Seq<char>, ClientLimit> {
        buckets_by_key(self.buckets@)
    }

    /// A limiter that has seen no client.
    pub fn new() -> (m: RateLimiterManager)
        ensures
            m@ == Map::<Seq<char>, ClientLimit>::empty(),
    {
        let m = RateLimiterManager { buckets: Vec::new() };
        assert(m@ =~= Map::<Seq<char>, ClientLimit>::empty());
        m
    }

    /// Takes one token from the bucket of `client_key`, refilled for the time since its last
    /// refill, at a new reading of that bucket's clock that is never below the client's previous
    /// one. A client seen for the first time gets a full bucket with `rate` and `burst`; a known
    /// client keeps the rate and capacity of its first request.
    pub fn acquire(&mut self, client_key: &str, rate: u64, burst: u64) -> (granted: bool)
        ensures
            exists|now: u128|
                now >= limit_for(old(self)@, client_key@, rate, burst).reading
                    && (final(self)@, granted) == #[trigger] acquire_outcome(old(self)@, client_key@, rate, burst, now),
    {
        proof {
            use_type_invariant(&*self);
        }
        let mut buckets: Vec<ClientBucket> = Vec::new();
        std::mem::swap(&mut buckets, &mut self.buckets);
        let key = String::from_str(client_key);
        let ghost keys = keys_of(buckets@);
        let mut i: usize = 0;
        while i < buckets.len()
            invariant
                i <= buckets@.len(),
                keys == keys_of(buckets@),
                key@ == client_key@,
                forall|j: int| 0 <= j < i ==> keys[j] != client_key@,
            ensures
                i <= buckets@.len(),
                i < buckets@.len() ==> keys[i as int] == client_key@,
                forall|j: int| 0 <= j < i ==> keys[j] != client_key@,
            decreases buckets.len() - i,
        {
            if buckets[i].key == key {
                break;
            }
            i = i + 1;
        }
        let ghost before = limit_for(old(self)@, client_key@, rate, burst);
        if i == buckets.len() {
            proof {
                assert(!keys.contains(client_key@));
            }
            let fresh = ClientBucket { key, bucket: TokenBucket::new(rate, burst) };
            proof {
                lemma_push_entry(buckets@, fresh);
            }
            buckets.push(fresh);
        } else {
            proof {
                lemma_lookup_entry(buckets@, i as int);
                assert(old(self)@.insert(client_key@, before) =~= old(self)@);
            }
        }
        assert(buckets_by_key(buckets@) == old(self)@.insert(client_key@, before));
        assert(entry_limit(buckets@[i as int]) == before) by {
            lemma_lookup_entry(buckets@, i as int);
        }
        let ghost mid = buckets@;
        let granted = buckets[i].bucket.check_and_consume(1);
        proof {
            let e = buckets@[i as int];
            assert(buckets@ == mid.update(i as int, e));
            lemma_update_entry(mid, i as int, e);
            assert(old(self)@.insert(client_key@, before).insert(client_key@, entry_limit(e))
                =~= old(self)@.insert(client_key@, entry_limit(e)));
            let n = e.bucket.clock_reading();
            assert((buckets_by_key(buckets@), granted) == acquire_outcome(old(self)@, client_key@, rate, burst, n));
        }
        self.buckets = buckets;
        granted
    }
}

impl Default for RateLimiterManager {
    fn default() -> (m: RateLimiterManager)
        ensures
            m@ == Map::<Seq<char>, ClientLimit>::empty(),
    {
        RateLimiterManager::new()
    }
}

} // verus!
