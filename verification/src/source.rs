//! Source configuration and the harvest step.
//!
//! A source names a site, the locator to fetch, the extraction pattern,
//! the protocol labels it attaches, and the retry policy for its
//! fetches. The network client that performs the fetch lives outside
//! the library; once a page text is in hand, `harvest_text` extracts
//! the candidates and admits them to the shared registry.

use vstd::prelude::*;
use vstd::string::StringExecFns;

use crate::endpoint::CandidateEndpoint;
use crate::pattern::{ExtractionPattern, pattern_matches, spec_extract};
use crate::registry::Registry;
use crate::retry::RetryPolicy;

verus! {

/// Everything one source supplies for a harvest cycle: a display
/// domain, the target locator, the extraction pattern text, the
/// protocol labels, and how its fetches retry.
pub struct SourceConfig {
    pub domain: String,
    pub url: String,
    pub pattern: String,
    pub protocols: Vec<String>,
    pub policy: RetryPolicy,
}

/// The socks5 listing of proxyscan.io: one page, a pattern capturing an
/// IPv4-shaped address and a port, the SOCKS5 label.
pub fn proxyscan_io_socks5() -> (c: SourceConfig)
    ensures
        c.domain@ == "proxyscan.io/socks5"@,
        c.url@ == "https://www.proxyscan.io/download?type=socks5"@,
        c.pattern@ == "(?P<ip>(?:\\d+\\.?){4})\\:(?P<port>\\d+)"@,
        c.protocols.deep_view() == seq!["SOCKS5"@],
        c.policy.max_attempts == 3,
        c.policy.timeout_secs == 8,
{
    let mut protocols: Vec<String> = Vec::new();
    protocols.push(String::from_str("SOCKS5"));
    proof {
        assert(protocols.deep_view() =~= seq!["SOCKS5"@]);
    }
    SourceConfig {
        domain: String::from_str("proxyscan.io/socks5"),
        url: String::from_str("https://www.proxyscan.io/download?type=socks5"),
        pattern: String::from_str("(?P<ip>(?:\\d+\\.?){4})\\:(?P<port>\\d+)"),
        protocols,
        policy: RetryPolicy::default(),
    }
}

/// One harvest step once a page text is in hand: extract the candidates
/// and admit them to the shared registry. Returns the candidates and
/// how many the registry newly accepted.
pub fn harvest_text(
    registry: &mut Registry,
    pattern: &ExtractionPattern,
    protocols: &Vec<String>,
    text: &str,
) -> (r: (Vec<CandidateEndpoint>, usize))
    requires
        old(registry).inv(),
    ensures
        final(registry).inv(),
        r.0.deep_view() == spec_extract(
            pattern_matches(pattern.spec_pattern(), text@),
            protocols.deep_view(),
        ),
        final(registry)@ == old(registry)@.admit_all(r.0.deep_view()),
        r.1 as nat == final(registry)@.entries.len() - old(registry)@.entries.len(),
{
    let candidates = pattern.find_proxies(text, protocols);
    let added = registry.admit_batch(&candidates);
    (candidates, added)
}

} // verus!
