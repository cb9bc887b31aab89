//! Verified core of a proxy-endpoint harvester.
//!
//! The library gathers candidate network endpoints (address, port,
//! protocol labels) scraped from web pages: a bounded retry policy for
//! fetching, an in-order fan-in for concurrent fetches, a pattern-based
//! extractor, and a capacity-bounded deduplicating registry.
//! Network I/O itself lives outside the library; the logic that decides,
//! extracts and stores is verified here.

mod endpoint;
mod orchestrate;
mod parse;
mod pattern;
mod registry;
mod retry;
mod source;

pub use endpoint::{CandidateEndpoint, EndpointModel, dec_str, make_key, spec_key};
pub use orchestrate::collect_in_order;
pub use pattern::{
    ExtractionPattern, PatternError, candidates_from_matches, lemma_extract_sound,
    match_candidate, pattern_group_count, pattern_is_valid, pattern_matches, spec_extract,
};
pub use registry::{
    Registry, RegistryModel, lemma_admit_all_accounts_for_batch, lemma_admit_all_idempotent,
    lemma_admit_all_monotone, lemma_admit_all_preserves_wf, lemma_admit_all_snoc,
    lemma_admit_one_preserves_wf,
};
pub use retry::{
    RetryModel, RetryPolicy, RetrySession, lemma_retry_all_fail, lemma_retry_first_success,
    run_recorded, text_or_empty,
};
pub use parse::{parse_port, spec_parse_port};
pub use source::{SourceConfig, harvest_text, proxyscan_io_socks5};
