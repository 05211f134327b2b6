//! Request counters and their Prometheus text exposition.
use vstd::prelude::*;
use vstd::string::*;
use crate::clock::Clock;
use crate::text::{decimal, push_decimal};

verus! {

/// The three counters that the registry keeps.
#[derive(Clone, Copy, Debug, PartialEq, Eq)]
pub struct MetricsCounts {
    pub requests: u64,
    pub waf_blocks: u64,
    pub rate_limited: u64,
}

/// Counters of processed, WAF-blocked and rate-limited requests, and a clock started with them.
pub struct MetricsRegistry {
    requests_total: u64,
    waf_blocks_total: u64,
    rate_limited_total: u64,
    clock: Clock,
}

/// The events that the registry counts.
#[derive(Clone, Copy, Debug, PartialEq, Eq)]
pub enum MetricEvent {
    Request,
    WafBlock,
    RateLimited,
}

/// The counters after one event: its counter goes up by one (wrapping), the others stay.
pub open spec fn after_event(c: MetricsCounts, e: MetricEvent) -> MetricsCounts {
    match e {
        MetricEvent::Request => MetricsCounts { requests: bump(c.requests), ..c },
        MetricEvent::WafBlock => MetricsCounts { waf_blocks: bump(c.waf_blocks), ..c },
        MetricEvent::RateLimited => MetricsCounts { rate_limited: bump(c.rate_limited), ..c },
    }
}

/// The counters after a run of events, in order.
pub open spec fn after_events(c: MetricsCounts, events: Seq<MetricEvent>) -> MetricsCounts
    decreases events.len(),
{
    if events.len() == 0 {
        c
    } else {
        after_event(after_events(c, events.drop_last()), events.last())
    }
}

/// How many times `e` occurs in `events`.
pub open spec fn occurrences(events: Seq<MetricEvent>, e: MetricEvent) -> nat
    decreases events.len(),
{
    if events.len() == 0 {
        0
    } else {
        occurrences(events.drop_last(), e) + if events.last() == e { 1nat } else { 0nat }
    }
}

/// Whole seconds in a clock reading of `nanos` nanoseconds, saturated at `u64::MAX`.
pub open spec fn whole_seconds_of(nanos: u128) -> u64 {
    if nanos / 1_000_000_000 > u64::MAX as u128 { u64::MAX } else { (nanos / 1_000_000_000) as u64 }
}

/// Over a run of events, each counter grows by exactly the number of its events, as long as no
/// counter passes `u64::MAX`.
pub proof fn law_counters_count_events(c: MetricsCounts, events: Seq<MetricEvent>)
    requires
        c.requests + occurrences(events, MetricEvent::Request) <= u64::MAX,
        c.waf_blocks + occurrences(events, MetricEvent::WafBlock) <= u64::MAX,
        c.rate_limited + occurrences(events, MetricEvent::RateLimited) <= u64::MAX,
    ensures
        after_events(c, events).requests == c.requests + occurrences(events, MetricEvent::Request),
        after_events(c, events).waf_blocks == c.waf_blocks + occurrences(events, MetricEvent::WafBlock),
        after_events(c, events).rate_limited == c.rate_limited + occurrences(events, MetricEvent::RateLimited),
    decreases events.len(),
{
    if events.len() > 0 {
        law_counters_count_events(c, events.drop_last());
    }
}

/// Between two renderings of a registry, with a run of events counted in between (no counter
/// passing `u64::MAX`), every counter grows by exactly its events and the uptime shown does not
/// go back, since the second rendering reads the clock no earlier than the first.
pub proof fn law_later_rendering(c: MetricsCounts, events: Seq<MetricEvent>, first: u128, second: u128)
    requires
        c.requests + occurrences(events, MetricEvent::Request) <= u64::MAX,
        c.waf_blocks + occurrences(events, MetricEvent::WafBlock) <= u64::MAX,
        c.rate_limited + occurrences(events, MetricEvent::RateLimited) <= u64::MAX,
        first <= second,
    ensures
        after_events(c, events).requests == c.requests + occurrences(events, MetricEvent::Request),
        after_events(c, events).waf_blocks == c.waf_blocks + occurrences(events, MetricEvent::WafBlock),
        after_events(c, events).rate_limited == c.rate_limited + occurrences(events, MetricEvent::RateLimited),
        whole_seconds_of(first) <= whole_seconds_of(second),
{
    law_counters_count_events(c, events);
    law_uptime_monotone(first, second);
}

/// The uptime shown for a clock reading of `t` nanoseconds is its whole seconds: the largest
/// count of seconds that fits in `t` (below the `u64` limit).
pub proof fn law_uptime_is_whole_seconds(t: u128)
    requires
        t / 1_000_000_000 <= u64::MAX,
    ensures
        whole_seconds_of(t) * 1_000_000_000 <= t,
        t < (whole_seconds_of(t) + 1) * 1_000_000_000,
{
    vstd::arithmetic::div_mod::lemma_fundamental_div_mod(t as int, 1_000_000_000);
}

/// The uptime shown never goes back as the clock reading grows.
pub proof fn law_uptime_monotone(t1: u128, t2: u128)
    requires
        t1 <= t2,
    ensures
        whole_seconds_of(t1) <= whole_seconds_of(t2),
{
    vstd::arithmetic::div_mod::lemma_div_is_ordered(t1 as int, t2 as int, 1_000_000_000);
}

/// `n + 1`, wrapping to zero past `u64::MAX`.
pub open spec fn bump(n: u64) -> u64 {
    if n == u64::MAX { 0 } else { (n + 1) as u64 }
}

/// The Prometheus exposition of `counts` after `uptime` seconds.
pub open spec fn metrics_text(counts: MetricsCounts, uptime: u64) -> Seq<char> {
    "# HELP zenith_requests_total Total number of HTTP requests processed\n# TYPE zenith_requests_total counter\nzenith_requests_total "@
        + decimal(counts.requests as nat)
        + "\n# HELP zenith_waf_blocks_total Total number of requests blocked by WAF\n# TYPE zenith_waf_blocks_total counter\nzenith_waf_blocks_total "@
        + decimal(counts.waf_blocks as nat)
        + "\n# HELP zenith_rate_limited_total Total number of requests rejected by Rate Limiter\n# TYPE zenith_rate_limited_total counter\nzenith_rate_limited_total "@
        + decimal(counts.rate_limited as nat)
        + "\n# HELP zenith_uptime_seconds Gateway uptime in seconds\n# TYPE zenith_uptime_seconds gauge\nzenith_uptime_seconds "@
        + decimal(uptime as nat)
        + "\n"@
}

/// Renders `counts` and `uptime` (in seconds) in the Prometheus text format.
pub fn render_metrics_text(counts: MetricsCounts, uptime: u64) -> (s: String)
    ensures
        s@ == metrics_text(counts, uptime),
{
    let mut s = String::from_str(
        "# HELP zenith_requests_total Total number of HTTP requests processed\n# TYPE zenith_requests_total counter\nzenith_requests_total ",
    );
    push_decimal(&mut s, counts.requests);
    s.append(
        "\n# HELP zenith_waf_blocks_total Total number of requests blocked by WAF\n# TYPE zenith_waf_blocks_total counter\nzenith_waf_blocks_total ",
    );
    push_decimal(&mut s, counts.waf_blocks);
    s.append(
        "\n# HELP zenith_rate_limited_total Total number of requests rejected by Rate Limiter\n# TYPE zenith_rate_limited_total counter\nzenith_rate_limited_total ",
    );
    push_decimal(&mut s, counts.rate_limited);
    s.append(
        "\n# HELP zenith_uptime_seconds Gateway uptime in seconds\n# TYPE zenith_uptime_seconds gauge\nzenith_uptime_seconds ",
    );
    push_decimal(&mut s, uptime);
    s.append("\n");
    s
}

impl MetricsRegistry {
    /// A registry with every counter at zero, whose clock starts now.
    pub fn new() -> (m: MetricsRegistry)
        ensures
            m@ == (MetricsCounts { requests: 0, waf_blocks: 0, rate_limited: 0 }),
            m.uptime_reading() == 0,
    {
        MetricsRegistry {
            requests_total: 0,
            waf_blocks_total: 0,
            rate_limited_total: 0,
            clock: Clock::start(),
        }
    }

    /// The latest reading of the registry's clock (nanoseconds since the registry was created),
    /// which the last rendering showed; zero before the first.
    pub closed spec fn uptime_reading(&self) -> u128 {
        self.clock.latest()
    }

    /// The current counter values.
    pub closed spec fn view(&self) -> MetricsCounts {
        MetricsCounts {
            requests: self.requests_total,
            waf_blocks: self.waf_blocks_total,
            rate_limited: self.rate_limited_total,
        }
    }

    /// Counts one processed request.
    pub fn inc_requests(&mut self)
        ensures
            final(self)@ == after_event(old(self)@, MetricEvent::Request),
            final(self).uptime_reading() == old(self).uptime_reading(),
    {
        self.requests_total = self.requests_total.wrapping_add(1);
    }

    /// Counts one request blocked by the WAF.
    pub fn inc_waf_blocks(&mut self)
        ensures
            final(self)@ == after_event(old(self)@, MetricEvent::WafBlock),
            final(self).uptime_reading() == old(self).uptime_reading(),
    {
        self.waf_blocks_total = self.waf_blocks_total.wrapping_add(1);
    }

    /// Counts one request rejected by the rate limiter.
    pub fn inc_rate_limited(&mut self)
        ensures
            final(self)@ == after_event(old(self)@, MetricEvent::RateLimited),
            final(self).uptime_reading() == old(self).uptime_reading(),
    {
        self.rate_limited_total = self.rate_limited_total.wrapping_add(1);
    }

    /// The counters and the whole seconds since the registry was created, in the Prometheus
    /// text format: the uptime is a new reading of the registry's clock, in whole seconds, never
    /// below the reading the previous rendering showed.
    pub fn render_prometheus(&mut self) -> (s: String)
        ensures
            final(self)@ == old(self)@,
            final(self).uptime_reading() >= old(self).uptime_reading(),
            s@ == metrics_text(old(self)@, whole_seconds_of(final(self).uptime_reading())),
    {
        let now = self.clock.reading();
        let secs: u128 = now / 1_000_000_000;
        let uptime: u64 = if secs > u64::MAX as u128 { u64::MAX } else { secs as u64 };
        let counts = MetricsCounts {
            requests: self.requests_total,
            waf_blocks: self.waf_blocks_total,
            rate_limited: self.rate_limited_total,
        };
        let s = render_metrics_text(counts, uptime);
        assert(s@ == metrics_text(old(self)@, whole_seconds_of(now)));
        s
    }
}

impl Default for MetricsRegistry {
    fn default() -> (m: MetricsRegistry)
        ensures
            m@ == (MetricsCounts { requests: 0, waf_blocks: 0, rate_limited: 0 }),
            m.uptime_reading() == 0,
    {
        MetricsRegistry::new()
    }
}

} // verus!
