//! Request inspection: an address blocklist and three signature rules matched by `regex`.
use vstd::prelude::*;
use vstd::string::*;
use crate::pattern::{CompiledPattern, compile_pattern, pattern_finds, regex_compiles, regex_finds};
use crate::ipv4::{entry_covers, entry_covers_address, parse_ipv4, ipv4_value, cidr_value, in_range};

verus! {

/// The SQL-injection signature.
pub const SQLI_PATTERN: &'static str = r"(?i)(\b(UNION(\s+ALL)?|SELECT|INSERT|UPDATE|DELETE|DROP|ALTER|CREATE|EXEC)\b|--|\bOR\b\s+\d+=\d+|\bAND\b\s+\d+=\d+)";

/// The cross-site-scripting signature.
pub const XSS_PATTERN: &'static str = r"(?i)(<script[\s>]|javascript:|onload=|onerror=|eval\(|<iframe[\s>])";

/// The path-traversal signature.
pub const PATH_TRAVERSAL_PATTERN: &'static str = r"(\.\./|\.\.\\|%2e%2e%2f|%2e%2e/|\.\.%2f)";

/// The three signature rules.
#[derive(Clone, Copy, Debug, PartialEq, Eq)]
pub enum WafRule {
    SqlInjection,
    CrossSiteScripting,
    PathTraversal,
}

/// The pattern of each rule.
pub open spec fn rule_pattern(rule: WafRule) -> Seq<char> {
    match rule {
        WafRule::SqlInjection => SQLI_PATTERN@,
        WafRule::CrossSiteScripting => XSS_PATTERN@,
        WafRule::PathTraversal => PATH_TRAVERSAL_PATTERN@,
    }
}

/// Why no engine could be built: the pattern of this rule did not compile.
#[derive(Clone, Copy, Debug, PartialEq, Eq)]
pub enum WafError {
    InvalidPattern(WafRule),
}

/// The verdict on a request.
#[derive(Debug, PartialEq, Eq)]
pub enum WafDecision {
    Allow,
    Block(String),
}

/// The reason a decision blocks for, or `None` for `Allow`.
pub open spec fn block_reason(d: WafDecision) -> Option<Seq<char>> {
    match d {
        WafDecision::Allow => None,
        WafDecision::Block(reason) => Some(reason@),
    }
}

/// The reason for blocking, given which checks fired, in the order they are applied:
/// the address blocklist, then path traversal, then SQL injection, then cross-site scripting.
pub open spec fn verdict(ip: Seq<char>, ip_blocked: bool, traversal: bool, sqli: bool, xss: bool) -> Option<Seq<char>> {
    if ip_blocked {
        Some("IP address "@ + ip + " is blacklisted"@)
    } else if traversal {
        Some("Path traversal pattern detected"@)
    } else if sqli {
        Some("SQL Injection signature detected"@)
    } else if xss {
        Some("Cross-Site Scripting (XSS) signature detected"@)
    } else {
        None
    }
}

/// Some entry of `blocked_ips` covers the client at `ip`: it is the address itself, or a CIDR
/// range (`a.b.c.d/n`) that contains the IPv4 address `ip`.
pub open spec fn blocklisted(blocked_ips: Seq<Seq<char>>, ip: Seq<char>) -> bool {
    exists|i: int| 0 <= i < blocked_ips.len() && entry_covers(#[trigger] blocked_ips[i], ip)
}

/// The verdict on a request with the given fields from a client at `ip`.
pub open spec fn inspection(
    path: Seq<char>,
    query: Seq<char>,
    body: Seq<char>,
    ip: Seq<char>,
    blocked_ips: Seq<Seq<char>>,
) -> Option<Seq<char>> {
    let trav = rule_pattern(WafRule::PathTraversal);
    let sqli = rule_pattern(WafRule::SqlInjection);
    let xss = rule_pattern(WafRule::CrossSiteScripting);
    verdict(
        ip,
        blocklisted(blocked_ips, ip),
        regex_finds(trav, path) || regex_finds(trav, query),
        regex_finds(sqli, path) || regex_finds(sqli, query) || regex_finds(sqli, body),
        regex_finds(xss, path) || regex_finds(xss, query) || regex_finds(xss, body),
    )
}

/// A client on the blocklist is blocked for its address, whatever its request holds.
pub proof fn law_blocklist_first(path: Seq<char>, query: Seq<char>, body: Seq<char>, ip: Seq<char>, blocked_ips: Seq<Seq<char>>)
    requires
        blocklisted(blocked_ips, ip),
    ensures
        inspection(path, query, body, ip, blocked_ips) == Some("IP address "@ + ip + " is blacklisted"@),
{
}

/// A request is allowed exactly when the client is not on the blocklist and no rule matches any
/// inspected field (path traversal looks at the path and the query only).
pub proof fn law_allow_iff_clean(path: Seq<char>, query: Seq<char>, body: Seq<char>, ip: Seq<char>, blocked_ips: Seq<Seq<char>>)
    ensures
        inspection(path, query, body, ip, blocked_ips) is None <==> {
            &&& !blocklisted(blocked_ips, ip)
            &&& !regex_finds(rule_pattern(WafRule::PathTraversal), path)
            &&& !regex_finds(rule_pattern(WafRule::PathTraversal), query)
            &&& forall|t: Seq<char>| (t == path || t == query || t == body) ==> {
                &&& !regex_finds(rule_pattern(WafRule::SqlInjection), t)
                &&& !regex_finds(rule_pattern(WafRule::CrossSiteScripting), t)
            }
        },
{
}

/// Whether a request is blocked depends on the blocklist only through whether one of its
/// entries covers the client.
pub proof fn law_blocklist_membership_only(
    path: Seq<char>,
    query: Seq<char>,
    body: Seq<char>,
    ip: Seq<char>,
    l1: Seq<Seq<char>>,
    l2: Seq<Seq<char>>,
)
    requires
        blocklisted(l1, ip) == blocklisted(l2, ip),
    ensures
        inspection(path, query, body, ip, l1) == inspection(path, query, body, ip, l2),
{
}

/// A CIDR entry blocks every IPv4 address in its range, whatever the request holds.
pub proof fn law_cidr_entry_blocks_range(
    path: Seq<char>,
    query: Seq<char>,
    body: Seq<char>,
    ip: Seq<char>,
    blocked_ips: Seq<Seq<char>>,
    i: int,
)
    requires
        0 <= i < blocked_ips.len(),
        cidr_value(blocked_ips[i]) matches Some((net, len)) && ipv4_value(ip) matches Some(addr)
            && in_range(addr, net, len),
    ensures
        inspection(path, query, body, ip, blocked_ips) == Some("IP address "@ + ip + " is blacklisted"@),
{
    assert(entry_covers(blocked_ips[i], ip));
}

/// The decision, given which checks fired for a request from `ip`.
pub fn decide(ip: &str, ip_blocked: bool, traversal: bool, sqli: bool, xss: bool) -> (d: WafDecision)
    ensures
        block_reason(d) == verdict(ip@, ip_blocked, traversal, sqli, xss),
{
    if ip_blocked {
        let reason = String::from_str("IP address ").concat(ip).concat(" is blacklisted");
        WafDecision::Block(reason)
    } else if traversal {
        WafDecision::Block(String::from_str("Path traversal pattern detected"))
    } else if sqli {
        WafDecision::Block(String::from_str("SQL Injection signature detected"))
    } else if xss {
        WafDecision::Block(String::from_str("Cross-Site Scripting (XSS) signature detected"))
    } else {
        WafDecision::Allow
    }
}

/// Whether some entry of `blocked_ips` covers the client at `ip`.
fn is_blocked(ip: &str, blocked_ips: &[String]) -> (b: bool)
    ensures
        b == blocklisted(blocked_ips@.map_values(|s: String| s@), ip@),
{
    let addr = parse_ipv4(ip);
    let ghost listed = blocked_ips@.map_values(|s: String| s@);
    let mut i: usize = 0;
    while i < blocked_ips.len()
        invariant
            i <= blocked_ips@.len(),
            match addr {
                Some(v) => ipv4_value(ip@) == Some(v as nat),
                None => ipv4_value(ip@) is None,
            },
            listed == blocked_ips@.map_values(|s: String| s@),
            forall|j: int| 0 <= j < i ==> !entry_covers(#[trigger] listed[j], ip@),
        decreases blocked_ips.len() - i,
    {
        if entry_covers_address(blocked_ips[i].as_str(), ip, addr) {
            assert(entry_covers(listed[i as int], ip@));
            return true;
        }
        i = i + 1;
    }
    false
}

/// The signature rules, compiled.
pub struct WafEngine {
    sqli: CompiledPattern,
    xss: CompiledPattern,
    path_traversal: CompiledPattern,
}

impl WafEngine {
    #[verifier::type_invariant]
    spec fn compiled_from_rules(self) -> bool {
        &&& self.sqli@ == rule_pattern(WafRule::SqlInjection)
        &&& self.xss@ == rule_pattern(WafRule::CrossSiteScripting)
        &&& self.path_traversal@ == rule_pattern(WafRule::PathTraversal)
    }

    /// Compiles the three rules; the error names the first rule, in the order SQL injection,
    /// cross-site scripting, path traversal, whose pattern does not compile.
    pub fn new() -> (r: Result<WafEngine, WafError>)
        ensures
            r is Ok <==> (regex_compiles(SQLI_PATTERN@) && regex_compiles(XSS_PATTERN@) && regex_compiles(PATH_TRAVERSAL_PATTERN@)),
            r matches Err(e) ==> e == (if !regex_compiles(SQLI_PATTERN@) {
                WafError::InvalidPattern(WafRule::SqlInjection)
            } else if !regex_compiles(XSS_PATTERN@) {
                WafError::InvalidPattern(WafRule::CrossSiteScripting)
            } else {
                WafError::InvalidPattern(WafRule::PathTraversal)
            }),
    {
        let sqli = match compile_pattern(SQLI_PATTERN) {
            Ok(p) => p,
            Err(_) => {
                return Err(WafError::InvalidPattern(WafRule::SqlInjection));
            },
        };
        let xss = match compile_pattern(XSS_PATTERN) {
            Ok(p) => p,
            Err(_) => {
                return Err(WafError::InvalidPattern(WafRule::CrossSiteScripting));
            },
        };
        let path_traversal = match compile_pattern(PATH_TRAVERSAL_PATTERN) {
            Ok(p) => p,
            Err(_) => {
                return Err(WafError::InvalidPattern(WafRule::PathTraversal));
            },
        };
        Ok(WafEngine { sqli, xss, path_traversal })
    }

    /// Whether the pattern of `rule` matches anywhere in `text`.
    pub fn matches_rule(&self, rule: WafRule, text: &str) -> (b: bool)
        ensures
            b == regex_finds(rule_pattern(rule), text@),
    {
        proof {
            use_type_invariant(self);
        }
        match rule {
            WafRule::SqlInjection => pattern_finds(&self.sqli, text),
            WafRule::CrossSiteScripting => pattern_finds(&self.xss, text),
            WafRule::PathTraversal => pattern_finds(&self.path_traversal, text),
        }
    }

    /// Blocks a client covered by an entry of `blocked_ips` (its address itself, or a CIDR
    /// range that contains it), then a request whose path or query
    /// shows path traversal, then one whose path, query or body shows SQL injection, then one
    /// whose path, query or body shows cross-site scripting; allows every other request.
    pub fn inspect(&self, path: &str, query: &str, body: &str, ip: &str, blocked_ips: &[String]) -> (d: WafDecision)
        ensures
            block_reason(d) == inspection(path@, query@, body@, ip@, blocked_ips@.map_values(|s: String| s@)),
    {
        let ip_blocked = is_blocked(ip, blocked_ips);
        let traversal = self.matches_rule(WafRule::PathTraversal, path)
            || self.matches_rule(WafRule::PathTraversal, query);
        let sqli = self.matches_rule(WafRule::SqlInjection, path)
            || self.matches_rule(WafRule::SqlInjection, query)
            || self.matches_rule(WafRule::SqlInjection, body);
        let xss = self.matches_rule(WafRule::CrossSiteScripting, path)
            || self.matches_rule(WafRule::CrossSiteScripting, query)
            || self.matches_rule(WafRule::CrossSiteScripting, body);
        decide(ip, ip_blocked, traversal, sqli, xss)
    }
}

} // verus!
