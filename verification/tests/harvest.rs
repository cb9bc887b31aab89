//! End-to-end behaviour of the extractor, the registry, the retry
//! engine and the fan-in, on concrete inputs.

use proxy_harvest::{
    CandidateEndpoint, ExtractionPattern, PatternError, Registry, RetryPolicy, RetrySession,
    candidates_from_matches, collect_in_order, harvest_text, make_key, parse_port,
    proxyscan_io_socks5, run_recorded,
};

fn socks5_labels() -> Vec<String> {
    vec!["SOCKS5".to_string()]
}

fn candidate(address: &str, port: u16) -> CandidateEndpoint {
    CandidateEndpoint { address: address.to_string(), port, protocols: socks5_labels() }
}

#[test]
fn parse_port_accepts_digit_strings_in_range() {
    assert_eq!(parse_port("0"), Some(0));
    assert_eq!(parse_port("8080"), Some(8080));
    assert_eq!(parse_port("65535"), Some(65535));
    assert_eq!(parse_port("007"), Some(7));
}

#[test]
fn parse_port_rejects_everything_else() {
    assert_eq!(parse_port(""), None);
    assert_eq!(parse_port("65536"), None);
    assert_eq!(parse_port("99999999999999999999"), None);
    assert_eq!(parse_port("12a"), None);
    assert_eq!(parse_port("-1"), None);
    assert_eq!(parse_port("+1"), None);
    assert_eq!(parse_port(" 80"), None);
}

#[test]
fn key_is_address_colon_port() {
    assert_eq!(make_key("1.2.3.4", 8080), "1.2.3.4:8080");
    assert_eq!(make_key("example", 0), "example:0");
    assert_eq!(make_key("10.0.0.1", 65535), "10.0.0.1:65535");
}

#[test]
fn scenario_two_endpoints_in_noisy_text() {
    let pattern = ExtractionPattern::new(r"(?P<ip>(?:\d+\.?){4})\:(?P<port>\d+)").unwrap();
    let found = pattern.find_proxies("1.2.3.4:8080 noise 5.6.7.8:9999", &socks5_labels());
    assert_eq!(found, vec![candidate("1.2.3.4", 8080), candidate("5.6.7.8", 9999)]);
}

#[test]
fn oversized_port_captures_are_dropped() {
    let pattern = ExtractionPattern::new(r"(\d+\.\d+\.\d+\.\d+):(\d+)").unwrap();
    let found = pattern.find_proxies("1.1.1.1:70000 2.2.2.2:443", &socks5_labels());
    assert_eq!(found, vec![candidate("2.2.2.2", 443)]);
}

#[test]
fn non_numeric_port_captures_are_dropped() {
    let pattern = ExtractionPattern::new(r"([0-9.]+):([a-z0-9]+)").unwrap();
    let found = pattern.find_proxies("1.1.1.1:http 2.2.2.2:1080", &socks5_labels());
    assert_eq!(found, vec![candidate("2.2.2.2", 1080)]);
}

#[test]
fn every_extracted_port_is_sixteen_bit() {
    let pattern = ExtractionPattern::new(r"(\S+):(\d+)").unwrap();
    let text = "a:1 b:65535 c:65536 d:123456789 e:0";
    for c in pattern.find_proxies(text, &socks5_labels()) {
        assert!(c.protocols == socks5_labels());
    }
    let found = pattern.find_proxies(text, &socks5_labels());
    assert_eq!(found.len(), 3);
    assert_eq!(found[0], candidate("a", 1));
    assert_eq!(found[1], candidate("b", 65535));
    assert_eq!(found[2], candidate("e", 0));
}

#[test]
fn candidates_come_from_well_shaped_matches_only() {
    let rows: Vec<Vec<Option<String>>> = vec![
        // A usable match: whole text, address, parsing port.
        vec![
            Some("1.2.3.4:8080".to_string()),
            Some("1.2.3.4".to_string()),
            Some("8080".to_string()),
        ],
        // Port capture did not participate.
        vec![Some("5.6.7.8:".to_string()), Some("5.6.7.8".to_string()), None],
        // Address capture did not participate.
        vec![Some(":9999".to_string()), None, Some("9999".to_string())],
        // Port capture does not parse.
        vec![Some("9.9.9.9:x".to_string()), Some("9.9.9.9".to_string()), Some("x".to_string())],
        // A match without both capture positions.
        vec![Some("stray".to_string())],
        // Another usable match after all the skipped ones.
        vec![Some("5.6.7.8:9999".to_string()), Some("5.6.7.8".to_string()), Some("9999".to_string())],
    ];
    let found = candidates_from_matches(&rows, &socks5_labels());
    assert_eq!(found, vec![candidate("1.2.3.4", 8080), candidate("5.6.7.8", 9999)]);
}

#[test]
fn no_matches_yield_no_candidates() {
    let rows: Vec<Vec<Option<String>>> = vec![];
    assert_eq!(candidates_from_matches(&rows, &socks5_labels()).len(), 0);
}

#[test]
fn malformed_pattern_fails_loudly_at_setup() {
    assert_eq!(ExtractionPattern::new("(").err(), Some(PatternError::Malformed));
}

#[test]
fn pattern_must_have_exactly_two_captures() {
    assert_eq!(ExtractionPattern::new("abc").err(), Some(PatternError::CaptureCount));
    assert_eq!(ExtractionPattern::new("(a)").err(), Some(PatternError::CaptureCount));
    assert_eq!(ExtractionPattern::new("(a)(b)(c)").err(), Some(PatternError::CaptureCount));
    assert!(ExtractionPattern::new("(a)(b)").is_ok());
}

#[test]
fn registry_deduplicates_by_address_and_port() {
    let mut registry = Registry::new(100);
    let batch = vec![
        candidate("1.2.3.4", 8080),
        candidate("1.2.3.4", 8080),
        candidate("1.2.3.4", 9999),
        candidate("5.6.7.8", 8080),
    ];
    let added = registry.admit_batch(&batch);
    assert_eq!(added, 3);
    assert_eq!(registry.len(), 3);
}

#[test]
fn second_identical_batch_adds_nothing() {
    let mut registry = Registry::new(100);
    let batch = vec![candidate("1.2.3.4", 8080), candidate("5.6.7.8", 9999)];
    assert_eq!(registry.admit_batch(&batch), 2);
    assert_eq!(registry.admit_batch(&batch), 0);
    assert_eq!(registry.len(), 2);
}

#[test]
fn overlapping_batches_from_two_sources_never_duplicate_a_key() {
    let mut registry = Registry::new(100);
    let first = vec![candidate("1.1.1.1", 80), candidate("2.2.2.2", 80)];
    let second = vec![candidate("2.2.2.2", 80), candidate("3.3.3.3", 80)];
    assert_eq!(registry.admit_batch(&first), 2);
    assert_eq!(registry.admit_batch(&second), 1);
    let entries = registry.entries();
    assert_eq!(entries.len(), 3);
    for i in 0..entries.len() {
        for j in 0..entries.len() {
            if i != j {
                assert!(
                    (entries[i].address.clone(), entries[i].port)
                        != (entries[j].address.clone(), entries[j].port)
                );
            }
        }
    }
}

#[test]
fn scenario_capacity_one_keeps_only_the_first() {
    let mut registry = Registry::new(1);
    let batch = vec![candidate("1.2.3.4", 8080), candidate("5.6.7.8", 9999)];
    let added = registry.admit_batch(&batch);
    assert_eq!(added, 1);
    assert_eq!(registry.len(), 1);
    assert_eq!(registry.entries()[0], candidate("1.2.3.4", 8080));
    // The rejected key was not recorded, and the index is intact: the
    // stored endpoint stays deduplicated and nothing else fits.
    assert_eq!(registry.admit_batch(&batch), 0);
    assert_eq!(registry.len(), 1);
}

#[test]
fn full_registry_rejects_silently_without_recording_the_key() {
    let mut registry = Registry::new(1);
    assert!(registry.admit_one(candidate("1.1.1.1", 1)));
    assert!(!registry.admit_one(candidate("2.2.2.2", 2)));
    assert_eq!(registry.len(), 1);
    assert!(!registry.admit_one(candidate("1.1.1.1", 1)));
}

#[test]
fn retry_against_permanent_failure_uses_every_attempt() {
    let policy = RetryPolicy { max_attempts: 3, timeout_secs: 8 };
    let outcomes: Vec<Option<String>> = vec![None, None, None, None, None];
    let (text, attempts) = run_recorded(&policy, &outcomes);
    assert_eq!(text, "");
    assert_eq!(attempts, 3);
}

#[test]
fn retry_stops_at_the_first_success() {
    let policy = RetryPolicy { max_attempts: 5, timeout_secs: 8 };
    let outcomes: Vec<Option<String>> =
        vec![None, None, Some("body".to_string()), Some("later".to_string())];
    let (text, attempts) = run_recorded(&policy, &outcomes);
    assert_eq!(text, "body");
    assert_eq!(attempts, 3);
}

#[test]
fn retry_session_reports_when_attempts_are_due() {
    let policy = RetryPolicy { max_attempts: 2, timeout_secs: 1 };
    let mut session = RetrySession::new(&policy);
    assert!(session.wants_attempt());
    session.record_attempt(None);
    assert!(session.wants_attempt());
    session.record_attempt(None);
    assert!(!session.wants_attempt());
    assert_eq!(session.attempts_made(), 2);
    assert_eq!(session.into_text(), "");
}

#[test]
fn retry_session_keeps_an_empty_successful_body() {
    let policy = RetryPolicy { max_attempts: 4, timeout_secs: 1 };
    let mut session = RetrySession::new(&policy);
    session.record_attempt(Some(String::new()));
    assert!(!session.wants_attempt());
    assert_eq!(session.attempts_made(), 1);
    assert_eq!(session.into_text(), "");
}

#[test]
fn default_policy_is_three_attempts_of_eight_seconds() {
    let policy = RetryPolicy::default();
    assert_eq!(policy.max_attempts, 3);
    assert_eq!(policy.timeout_secs, 8);
}

#[test]
fn fan_in_keeps_length_and_order_whatever_failed() {
    let results: Vec<Option<String>> =
        vec![Some("alpha".to_string()), None, Some("".to_string()), Some("delta".to_string())];
    let collected = collect_in_order(&results);
    assert_eq!(collected, vec!["alpha", "", "", "delta"]);
}

#[test]
fn fan_in_of_nothing_is_nothing() {
    let results: Vec<Option<String>> = vec![];
    assert_eq!(collect_in_order(&results).len(), 0);
}

#[test]
fn harvest_extracts_and_admits_in_one_step() {
    let mut registry = Registry::new(100);
    let pattern = ExtractionPattern::new(r"(?P<ip>(?:\d+\.?){4})\:(?P<port>\d+)").unwrap();
    let text = "1.2.3.4:8080 noise 5.6.7.8:9999 again 1.2.3.4:8080";
    let (candidates, added) = harvest_text(&mut registry, &pattern, &socks5_labels(), text);
    assert_eq!(candidates.len(), 3);
    assert_eq!(added, 2);
    assert_eq!(registry.len(), 2);
    let (candidates, added) = harvest_text(&mut registry, &pattern, &socks5_labels(), text);
    assert_eq!(candidates.len(), 3);
    assert_eq!(added, 0);
    assert_eq!(registry.len(), 2);
}

#[test]
fn proxyscan_source_is_configured_as_published() {
    let source = proxyscan_io_socks5();
    assert_eq!(source.domain, "proxyscan.io/socks5");
    assert_eq!(source.url, "https://www.proxyscan.io/download?type=socks5");
    assert_eq!(source.pattern, r"(?P<ip>(?:\d+\.?){4})\:(?P<port>\d+)");
    assert_eq!(source.protocols, vec!["SOCKS5".to_string()]);
    assert_eq!(source.policy.max_attempts, 3);
    assert_eq!(source.policy.timeout_secs, 8);
    let pattern = ExtractionPattern::new(source.pattern.as_str());
    assert!(pattern.is_ok());
}

#[test]
fn source_pattern_extracts_its_own_listing_format() {
    let source = proxyscan_io_socks5();
    let pattern = ExtractionPattern::new(source.pattern.as_str()).unwrap();
    let found = pattern.find_proxies("127.0.0.1:1080\n10.0.0.2:9050\n", &source.protocols);
    assert_eq!(found.len(), 2);
    assert_eq!(found[0].address, "127.0.0.1");
    assert_eq!(found[0].port, 1080);
    assert_eq!(found[1].address, "10.0.0.2");
    assert_eq!(found[1].port, 9050);
    assert_eq!(found[0].protocols, vec!["SOCKS5".to_string()]);
}
