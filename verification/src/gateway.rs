//! The per-request pipeline: admin endpoints, WAF inspection, per-client rate limiting and routing.
use vstd::prelude::*;
use vstd::string::*;
use vstd::utf8::encode_utf8;
use crate::config::RouteConfig;
use crate::limiter::{ClientLimit, RateLimiterManager, acquire_outcome, limit_for};
use crate::metrics::{MetricsCounts, MetricsRegistry, bump, metrics_text, whole_seconds_of};
use crate::router::{Router, any_route_accepts, is_first_match};
use crate::text::{decimal, push_decimal, first_line, first_line_of, words, first_two_words, same_text};
use crate::pattern::regex_compiles;
use crate::waf::{WafDecision, WafEngine, WafError, inspection, SQLI_PATTERN, XSS_PATTERN, PATH_TRAVERSAL_PATTERN};

verus! {

/// Tokens a second that each client's bucket earns.
pub const CLIENT_RATE_PER_SECOND: u64 = 100;

/// The capacity of each client's bucket.
pub const CLIENT_BURST: u64 = 200;

/// An HTTP/1.1 response with the given status line, content type and body; the declared
/// length is the body's length in UTF-8 bytes.
pub open spec fn http_response(status: Seq<char>, content_type: Seq<char>, body: Seq<char>) -> Seq<char> {
    "HTTP/1.1 "@ + status + "\r\nContent-Type: "@ + content_type + "\r\nContent-Length: "@
        + decimal(encode_utf8(body).len()) + "\r\n\r\n"@ + body
}

/// Builds an HTTP/1.1 response.
pub fn http_reply(status: &str, content_type: &str, body: &str) -> (r: String)
    ensures
        r@ == http_response(status@, content_type@, body@),
{
    let mut r = String::from_str("HTTP/1.1 ");
    r.append(status);
    r.append("\r\nContent-Type: ");
    r.append(content_type);
    r.append("\r\nContent-Length: ");
    let ghost head = r@;
    assert(head == "HTTP/1.1 "@ + status@ + "\r\nContent-Type: "@ + content_type@ + "\r\nContent-Length: "@);
    let bytes = body.as_bytes();
    let n = bytes.len();
    assert(n == encode_utf8(body@).len());
    let n64 = n as u64;
    assert(n64 as nat == encode_utf8(body@).len());
    push_decimal(&mut r, n64);
    assert(r@ == head + decimal(encode_utf8(body@).len()));
    r.append("\r\n\r\n");
    r.append(body);
    r
}

/// The body of the health endpoint.
pub open spec fn health_body() -> Seq<char> {
    "{\"status\":\"healthy\",\"gateway\":\"zenith-rs\"}"@
}

/// The body of a reply to a request that the WAF blocked for `reason`.
pub open spec fn forbidden_body(reason: Seq<char>) -> Seq<char> {
    "{\"error\":\"Forbidden by Zenith WAF\",\"reason\":\""@ + reason + "\"}"@
}

/// The body of a reply to a rate-limited request.
pub open spec fn too_many_body() -> Seq<char> {
    "{\"error\":\"Too Many Requests\",\"message\":\"Rate limit exceeded\"}"@
}

/// The body of a reply to a request forwarded along `route`.
pub open spec fn forwarded_body(route: RouteConfig) -> Seq<char> {
    "{\"proxy\":\"zenith-gateway\",\"status\":\"forwarded\",\"route_id\":\""@ + route.id@
        + "\",\"upstream\":\""@ + route.upstream_url@ + "\"}"@
}

/// The body of a reply to a request that no route accepts.
pub open spec fn not_found_body() -> Seq<char> {
    "{\"error\":\"Not Found\",\"message\":\"No matching route\"}"@
}

/// What the gateway holds: its route table, each client's bucket (with its clock's latest
/// reading), its counters, and the registry clock's reading that the last `/metrics` showed.
pub struct GatewayState {
    pub routes: Seq<RouteConfig>,
    pub limits: Map<Seq<char>, ClientLimit>,
    pub counts: MetricsCounts,
    pub uptime_reading: u128,
}

/// The state after, and the reply to, the request text `request` from a client at `ip`, where
/// `metrics_now` is the reading of the registry's clock and `bucket_now` that of the client's
/// bucket's clock (nanoseconds since each was started). `None`: nothing is sent back.
pub open spec fn handled(
    g: GatewayState,
    request: Seq<char>,
    ip: Seq<char>,
    metrics_now: u128,
    bucket_now: u128,
) -> (GatewayState, Option<Seq<char>>) {
    match first_line(request) {
        None => (g, None),
        Some(line) => {
            let counted = GatewayState {
                counts: MetricsCounts { requests: bump(g.counts.requests), ..g.counts },
                ..g
            };
            let w = words(line);
            if w.len() < 2 {
                (counted, None)
            } else {
                let method = w[0];
                let path = w[1];
                if path == "/metrics"@ {
                    (
                        GatewayState { uptime_reading: metrics_now, ..counted },
                        Some(http_response("200 OK"@, "text/plain"@, metrics_text(counted.counts, whole_seconds_of(metrics_now)))),
                    )
                } else if path == "/health"@ {
                    (counted, Some(http_response("200 OK"@, "application/json"@, health_body())))
                } else {
                    match inspection(path, ""@, request, ip, Seq::empty()) {
                        Some(reason) => (
                            GatewayState {
                                counts: MetricsCounts { waf_blocks: bump(counted.counts.waf_blocks), ..counted.counts },
                                ..counted
                            },
                            Some(http_response("403 Forbidden"@, "application/json"@, forbidden_body(reason))),
                        ),
                        None => {
                            let outcome = acquire_outcome(counted.limits, ip, CLIENT_RATE_PER_SECOND, CLIENT_BURST, bucket_now);
                            let admitted = GatewayState { limits: outcome.0, ..counted };
                            if !outcome.1 {
                                (
                                    GatewayState {
                                        counts: MetricsCounts { rate_limited: bump(admitted.counts.rate_limited), ..admitted.counts },
                                        ..admitted
                                    },
                                    Some(http_response("429 Too Many Requests"@, "application/json"@, too_many_body())),
                                )
                            } else if any_route_accepts(g.routes, path, method) {
                                let i = choose|i: int| is_first_match(g.routes, path, method, i);
                                (admitted, Some(http_response("200 OK"@, "application/json"@, forwarded_body(g.routes[i]))))
                            } else {
                                (admitted, Some(http_response("404 Not Found"@, "application/json"@, not_found_body())))
                            }
                        },
                    }
                }
            }
        },
    }
}

/// The state after, and the reply to, a request (see `handled`).
pub open spec fn handled_state(g: GatewayState, request: Seq<char>, ip: Seq<char>, metrics_now: u128, bucket_now: u128) -> GatewayState {
    handled(g, request, ip, metrics_now, bucket_now).0
}

/// The admin endpoints are answered before the WAF and the limiter: they never block, never
/// touch a client's bucket and count only as a request.
pub proof fn law_admin_bypasses_filters(g: GatewayState, request: Seq<char>, ip: Seq<char>, metrics_now: u128, bucket_now: u128)
    requires
        first_line(request) matches Some(line) && words(line).len() >= 2
            && (words(line)[1] == "/metrics"@ || words(line)[1] == "/health"@),
    ensures
        handled_state(g, request, ip, metrics_now, bucket_now).limits == g.limits,
        handled_state(g, request, ip, metrics_now, bucket_now).counts.waf_blocks == g.counts.waf_blocks,
        handled_state(g, request, ip, metrics_now, bucket_now).counts.rate_limited == g.counts.rate_limited,
        handled_state(g, request, ip, metrics_now, bucket_now).counts.requests == bump(g.counts.requests),
        handled(g, request, ip, metrics_now, bucket_now).1 is Some,
{
}

/// A request that the WAF blocks takes no token from the client's bucket and is answered
/// `403 Forbidden` with the WAF's reason.
pub proof fn law_blocked_request_spends_no_token(g: GatewayState, request: Seq<char>, ip: Seq<char>, metrics_now: u128, bucket_now: u128)
    requires
        first_line(request) matches Some(line) && words(line).len() >= 2
            && words(line)[1] != "/metrics"@ && words(line)[1] != "/health"@
            && inspection(words(line)[1], ""@, request, ip, Seq::empty()) is Some,
    ensures
        handled_state(g, request, ip, metrics_now, bucket_now).limits == g.limits,
        ({
            let line = first_line(request)->0;
            let reason = inspection(words(line)[1], ""@, request, ip, Seq::empty())->0;
            handled(g, request, ip, metrics_now, bucket_now).1 == Some(
                http_response("403 Forbidden"@, "application/json"@, forbidden_body(reason)),
            )
        }),
{
}

/// Every non-empty request is counted, once; an empty one changes nothing and gets no reply.
pub proof fn law_requests_counted(g: GatewayState, request: Seq<char>, ip: Seq<char>, metrics_now: u128, bucket_now: u128)
    ensures
        request.len() > 0 ==> handled_state(g, request, ip, metrics_now, bucket_now).counts.requests == bump(g.counts.requests),
        request.len() == 0 ==> handled(g, request, ip, metrics_now, bucket_now) == (g, None::<Seq<char>>),
        handled_state(g, request, ip, metrics_now, bucket_now).routes == g.routes,
{
}

/// A request whose first line has fewer than two words gets no reply and only counts as a request.
pub proof fn law_malformed_request_unanswered(g: GatewayState, request: Seq<char>, ip: Seq<char>, metrics_now: u128, bucket_now: u128)
    requires
        first_line(request) matches Some(line) && words(line).len() < 2,
    ensures
        handled(g, request, ip, metrics_now, bucket_now).1 is None,
        handled_state(g, request, ip, metrics_now, bucket_now).limits == g.limits,
{
}

/// Neither the uptime shown nor any client's clock reading goes back: given readings no earlier
/// than the previous ones (as `Gateway::handle` promises), every reading after a request is at
/// least the one before it.
pub proof fn law_readings_never_go_back(
    g: GatewayState,
    request: Seq<char>,
    ip: Seq<char>,
    metrics_now: u128,
    bucket_now: u128,
    key: Seq<char>,
)
    requires
        metrics_now >= g.uptime_reading,
        bucket_now >= limit_for(g.limits, ip, CLIENT_RATE_PER_SECOND, CLIENT_BURST).reading,
        g.limits.contains_key(key),
    ensures
        handled_state(g, request, ip, metrics_now, bucket_now).uptime_reading >= g.uptime_reading,
        handled_state(g, request, ip, metrics_now, bucket_now).limits.contains_key(key),
        handled_state(g, request, ip, metrics_now, bucket_now).limits[key].reading >= g.limits[key].reading,
{
}

/// The gateway: router, WAF, per-client limiter and counters.
pub struct Gateway {
    router: Router,
    waf: WafEngine,
    limiter: RateLimiterManager,
    metrics: MetricsRegistry,
}

impl Gateway {
    /// The route table, the clients' buckets and the counters.
    pub closed spec fn view(&self) -> GatewayState {
        GatewayState {
            routes: self.router@,
            limits: self.limiter@,
            counts: self.metrics@,
            uptime_reading: self.metrics.uptime_reading(),
        }
    }

    /// A gateway over `routes`, with no client seen and every counter at zero; an error when a
    /// WAF rule does not compile.
    pub fn new(routes: Vec<RouteConfig>) -> (r: Result<Gateway, WafError>)
        ensures
            r is Ok <==> (regex_compiles(SQLI_PATTERN@) && regex_compiles(XSS_PATTERN@) && regex_compiles(PATH_TRAVERSAL_PATTERN@)),
            r matches Ok(g) ==> g@ == (GatewayState {
                routes: routes@,
                limits: Map::empty(),
                counts: MetricsCounts { requests: 0, waf_blocks: 0, rate_limited: 0 },
                uptime_reading: 0,
            }),
    {
        let waf = match WafEngine::new() {
            Ok(w) => w,
            Err(e) => {
                return Err(e);
            },
        };
        Ok(Gateway {
            router: Router::new(routes),
            waf,
            limiter: RateLimiterManager::new(),
            metrics: MetricsRegistry::new(),
        })
    }

    /// Handles the text of one request from a client at `client_ip` and returns the reply to
    /// send, if any. The clocks are read no earlier than their previous readings.
    pub fn handle(&mut self, request: &str, client_ip: &str) -> (reply: Option<String>)
        ensures
            exists|metrics_now: u128, bucket_now: u128|
                metrics_now >= old(self)@.uptime_reading
                    && bucket_now >= limit_for(old(self)@.limits, client_ip@, CLIENT_RATE_PER_SECOND, CLIENT_BURST).reading
                    && #[trigger] handled(old(self)@, request@, client_ip@, metrics_now, bucket_now)
                    == (final(self)@, match reply {
                        Some(s) => Some(s@),
                        None => None,
                    }),
    {
        let ghost m0 = old(self)@.uptime_reading;
        let ghost b0 = limit_for(old(self)@.limits, client_ip@, CLIENT_RATE_PER_SECOND, CLIENT_BURST).reading;
        let line = match first_line_of(request) {
            Some(l) => l,
            None => {
                assert(handled(old(self)@, request@, client_ip@, m0, b0) == (self@, None::<Seq<char>>));
                return None;
            },
        };
        self.metrics.inc_requests();
        let (method, path) = match first_two_words(line) {
            Some(p) => p,
            None => {
                assert(handled(old(self)@, request@, client_ip@, m0, b0) == (self@, None::<Seq<char>>));
                return None;
            },
        };
        if same_text(path.as_str(), "/metrics") {
            let body = self.metrics.render_prometheus();
            let reply = http_reply("200 OK", "text/plain", body.as_str());
            proof {
                let now = self.metrics.uptime_reading();
                assert(handled(old(self)@, request@, client_ip@, now, b0) == (self@, Some(reply@)));
            }
            return Some(reply);
        }
        if same_text(path.as_str(), "/health") {
            let reply = http_reply("200 OK", "application/json", "{\"status\":\"healthy\",\"gateway\":\"zenith-rs\"}");
            assert(handled(old(self)@, request@, client_ip@, m0, b0) == (self@, Some(reply@)));
            return Some(reply);
        }
        let no_blocked: Vec<String> = Vec::new();
        assert(no_blocked@.map_values(|s: String| s@) =~= Seq::empty());
        let decision = self.waf.inspect(path.as_str(), "", request, client_ip, no_blocked.as_slice());
        if let WafDecision::Block(reason) = decision {
            self.metrics.inc_waf_blocks();
            let body = String::from_str("{\"error\":\"Forbidden by Zenith WAF\",\"reason\":\"")
                .concat(reason.as_str())
                .concat("\"}");
            let reply = http_reply("403 Forbidden", "application/json", body.as_str());
            assert(handled(old(self)@, request@, client_ip@, m0, b0) == (self@, Some(reply@)));
            return Some(reply);
        }
        let granted = self.limiter.acquire(client_ip, CLIENT_RATE_PER_SECOND, CLIENT_BURST);
        let ghost bucket_now = choose|n: u128|
            n >= b0 && (self.limiter@, granted) == acquire_outcome(old(self).limiter@, client_ip@, CLIENT_RATE_PER_SECOND, CLIENT_BURST, n);
        if !granted {
            self.metrics.inc_rate_limited();
            let reply = http_reply(
                "429 Too Many Requests",
                "application/json",
                "{\"error\":\"Too Many Requests\",\"message\":\"Rate limit exceeded\"}",
            );
            assert(handled(old(self)@, request@, client_ip@, m0, bucket_now) == (self@, Some(reply@)));
            return Some(reply);
        }
        match self.router.match_route(path.as_str(), method.as_str()) {
            Some(route) => {
                let body = String::from_str("{\"proxy\":\"zenith-gateway\",\"status\":\"forwarded\",\"route_id\":\"")
                    .concat(route.id.as_str())
                    .concat("\",\"upstream\":\"")
                    .concat(route.upstream_url.as_str())
                    .concat("\"}");
                let reply = http_reply("200 OK", "application/json", body.as_str());
                proof {
                    let i = choose|i: int| is_first_match(self.router@, path@, method@, i) && self.router@[i] == *route;
                    let j = choose|j: int| is_first_match(self.router@, path@, method@, j);
                    assert(i == j);
                    assert(handled(old(self)@, request@, client_ip@, m0, bucket_now) == (self@, Some(reply@)));
                }
                Some(reply)
            },
            None => {
                let reply = http_reply(
                    "404 Not Found",
                    "application/json",
                    "{\"error\":\"Not Found\",\"message\":\"No matching route\"}",
                );
                assert(handled(old(self)@, request@, client_ip@, m0, bucket_now) == (self@, Some(reply@)));
                Some(reply)
            },
        }
    }
}

} // verus!
