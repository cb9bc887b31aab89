//! Pattern-based extraction of candidate endpoints from page text.
//!
//! A source supplies a pattern with exactly two capture positions: an
//! address first and a port second. The pattern is compiled and checked
//! once, at setup, where failure is loud; at extraction time every
//! defect — a match without both captures, a port that does not parse —
//! is silently skipped and scanning continues. The regex engine itself
//! is an outside crate: what it matches is taken on trust under the
//! names below, and everything done with the matches is verified.

use vstd::prelude::*;

use crate::endpoint::{CandidateEndpoint, EndpointModel, clone_strings};
use crate::parse::{parse_port, spec_parse_port};

verus! {

#[verifier::external_type_specification]
#[verifier::external_body]
pub struct ExRegex(regex::Regex);

#[verifier::external_type_specification]
#[verifier::external_body]
pub struct ExRegexError(regex::Error);

/// Whether the regex engine accepts this pattern text.
pub uninterp spec fn pattern_is_valid(pattern: Seq<char>) -> bool;

/// How many groups the compiled pattern has, the implicit whole-match
/// group included.
pub uninterp spec fn pattern_group_count(pattern: Seq<char>) -> nat;

/// The successive non-overlapping matches of a pattern on a text: for
/// each match, group by group, the captured text, or nothing where the
/// group did not participate in the match.
pub uninterp spec fn pattern_matches(pattern: Seq<char>, text: Seq<char>) -> Seq<
    Seq<Option<Seq<char>>>,
>;

/// A compiled pattern paired with the text it was compiled from. Only
/// `compile` builds one, so the pair stays in step.
pub struct CompiledPattern {
    re: regex::Regex,
    pattern: String,
}

impl CompiledPattern {
    /// The pattern text this regex was compiled from.
    pub closed spec fn spec_pattern(self) -> Seq<char> {
        self.pattern@
    }
}

/// Relies on regex::Regex::new: compilation succeeds exactly on the
/// pattern texts the engine accepts, and the compiled regex searches
/// for the pattern it was built from.
#[verifier::external_body]
fn compile(pattern: &str) -> (r: Result<CompiledPattern, regex::Error>)
    ensures
        r is Ok <==> pattern_is_valid(pattern@),
        r is Ok ==> r.unwrap().spec_pattern() == pattern@,
{
    match regex::Regex::new(pattern) {
        Ok(re) => Ok(CompiledPattern { re, pattern: pattern.to_owned() }),
        Err(e) => Err(e),
    }
}

/// Relies on regex::Regex::captures_len: the group count, whole-match
/// group included, is a function of the pattern alone, and is at least
/// one.
#[verifier::external_body]
fn group_count(p: &CompiledPattern) -> (n: usize)
    ensures
        n as nat == pattern_group_count(p.spec_pattern()),
        n >= 1,
{
    p.re.captures_len()
}

/// Relies on regex::Regex::captures_iter and Captures::iter: the
/// successive non-overlapping matches in order, each listing one entry
/// per group of the pattern, the whole match first and always present.
#[verifier::external_body]
fn captures(p: &CompiledPattern, text: &str) -> (r: Vec<Vec<Option<String>>>)
    ensures
        r.deep_view() == pattern_matches(p.spec_pattern(), text@),
        forall|i: int|
            0 <= i < r.deep_view().len() ==> (#[trigger] r.deep_view()[i]).len()
                == pattern_group_count(p.spec_pattern()),
        forall|i: int| 0 <= i < r.deep_view().len() ==> (#[trigger] r.deep_view()[i])[0] is Some,
{
    p.re
        .captures_iter(text)
        .map(|caps| caps.iter().map(|g| g.map(|m| m.as_str().to_owned())).collect())
        .collect()
}

/// Why building an extraction pattern failed. Failure is loud here, at
/// setup; everything at extraction time degrades silently instead.
#[derive(Debug, Clone, Copy, PartialEq, Eq, Structural)]
pub enum PatternError {
    /// The pattern text is not a regular expression the engine accepts.
    Malformed,
    /// The pattern does not define exactly two capture positions.
    CaptureCount,
}

/// An extraction pattern as a source supplies it: a compiled regex with
/// exactly two capture positions, the address first, the port second.
pub struct ExtractionPattern {
    compiled: CompiledPattern,
}

/// The candidate one match yields, if any: the match must carry both
/// capture positions, both must have participated, and the port capture
/// must parse as a 16-bit number; otherwise the match is skipped.
pub open spec fn match_candidate(
    groups: Seq<Option<Seq<char>>>,
    protocols: Seq<Seq<char>>,
) -> Option<EndpointModel> {
    if groups.len() >= 3 && groups[1] is Some && groups[2] is Some && spec_parse_port(
        groups[2].unwrap(),
    ) is Some {
        Some(
            EndpointModel {
                address: groups[1].unwrap(),
                port: spec_parse_port(groups[2].unwrap()).unwrap(),
                protocols,
            },
        )
    } else {
        None
    }
}

/// The candidates a sequence of matches yields, in match order, the
/// skipped matches dropped.
pub open spec fn spec_extract(
    ms: Seq<Seq<Option<Seq<char>>>>,
    protocols: Seq<Seq<char>>,
) -> Seq<EndpointModel>
    decreases ms.len(),
{
    if ms.len() == 0 {
        Seq::empty()
    } else {
        let rest = spec_extract(ms.drop_last(), protocols);
        match match_candidate(ms.last(), protocols) {
            Some(c) => rest.push(c),
            None => rest,
        }
    }
}

impl ExtractionPattern {
    /// The pattern text this extractor was built from.
    pub closed spec fn spec_pattern(self) -> Seq<char> {
        self.compiled.spec_pattern()
    }

    /// Compile and validate a pattern: accepted exactly when the engine
    /// accepts the text and it defines exactly two capture positions.
    pub fn new(pattern: &str) -> (r: Result<ExtractionPattern, PatternError>)
        ensures
            r is Ok <==> pattern_is_valid(pattern@) && pattern_group_count(pattern@) == 3,
            r is Ok ==> r.unwrap().spec_pattern() == pattern@,
            !pattern_is_valid(pattern@) ==> r == Err::<ExtractionPattern, PatternError>(
                PatternError::Malformed,
            ),
            pattern_is_valid(pattern@) && pattern_group_count(pattern@) != 3 ==> r == Err::<
                ExtractionPattern,
                PatternError,
            >(PatternError::CaptureCount),
    {
        match compile(pattern) {
            Err(_) => Err(PatternError::Malformed),
            Ok(compiled) => {
                let n = group_count(&compiled);
                if n != 3 {
                    Err(PatternError::CaptureCount)
                } else {
                    Ok(ExtractionPattern { compiled })
                }
            },
        }
    }

    /// Scan a page text: one candidate per usable match, in match
    /// order, the given protocol labels attached to every candidate.
    pub fn find_proxies(&self, text: &str, protocols: &Vec<String>) -> (r: Vec<CandidateEndpoint>)
        ensures
            r.deep_view() == spec_extract(
                pattern_matches(self.spec_pattern(), text@),
                protocols.deep_view(),
            ),
    {
        let ms = captures(&self.compiled, text);
        candidates_from_matches(&ms, protocols)
    }
}

/// Turn raw matches into candidates: one per match that carries both
/// capture positions, both participating, whose port capture parses as
/// a 16-bit number; every other match is silently skipped.
pub fn candidates_from_matches(ms: &Vec<Vec<Option<String>>>, protocols: &Vec<String>) -> (r: Vec<
    CandidateEndpoint,
>)
    ensures
        r.deep_view() == spec_extract(ms.deep_view(), protocols.deep_view()),
{
    let ghost msd = ms.deep_view();
    let mut r: Vec<CandidateEndpoint> = Vec::new();
    let mut i: usize = 0;
    proof {
        assert(msd.take(0) =~= Seq::<Seq<Option<Seq<char>>>>::empty());
    }
    while i < ms.len()
        invariant
            i <= ms.len(),
            msd == ms.deep_view(),
            msd.len() == ms@.len(),
            r.deep_view() == spec_extract(msd.take(i as int), protocols.deep_view()),
        decreases ms.len() - i,
    {
        let ghost prev = r.deep_view();
        proof {
            assert(msd.take(i + 1).drop_last() =~= msd.take(i as int));
            assert(msd.take(i + 1).last() == msd[i as int]);
            assert(ms.deep_view()[i as int] == ms@[i as int].deep_view());
        }
        let row = &ms[i];
        let ghost groups = msd[i as int];
        assert(row.deep_view() == groups);
        if row.len() >= 3 {
            if let Some(address) = &row[1] {
                if let Some(port_text) = &row[2] {
                    proof {
                        assert(row.deep_view()[1] == row@[1].deep_view());
                        assert(row.deep_view()[2] == row@[2].deep_view());
                    }
                    assert(groups[1] == Some(address@));
                    assert(groups[2] == Some(port_text@));
                    if let Some(port) = parse_port(port_text.as_str()) {
                        let c = CandidateEndpoint {
                            address: address.clone(),
                            port,
                            protocols: clone_strings(protocols),
                        };
                        assert(match_candidate(groups, protocols.deep_view()) == Some(c@));
                        r.push(c);
                        proof {
                            assert(r.deep_view() =~= prev.push(c@));
                        }
                    }
                }
            }
        }
        i += 1;
    }
    proof {
        assert(msd.take(ms@.len() as int) =~= msd);
    }
    r
}

/// Every candidate the extractor produces has a port within the 16-bit
/// range, carries exactly the protocol labels of the call, and comes
/// from a match whose port capture parses; a match whose numeric
/// capture is non-numeric or too large yields nothing.
pub proof fn lemma_extract_sound(ms: Seq<Seq<Option<Seq<char>>>>, protocols: Seq<Seq<char>>)
    ensures
        forall|i: int|
            0 <= i < spec_extract(ms, protocols).len() ==> (#[trigger] spec_extract(ms, protocols)[i]).port
                <= 65535,
        forall|i: int|
            0 <= i < spec_extract(ms, protocols).len() ==> (#[trigger] spec_extract(ms, protocols)[i]).protocols
                == protocols,
        forall|i: int|
            0 <= i < spec_extract(ms, protocols).len() ==> exists|j: int|
                0 <= j < ms.len() && #[trigger] match_candidate(ms[j], protocols) == Some(
                    #[trigger] spec_extract(ms, protocols)[i],
                ),
    decreases ms.len(),
{
    if ms.len() > 0 {
        lemma_extract_sound(ms.drop_last(), protocols);
        let rest = spec_extract(ms.drop_last(), protocols);
        let whole = spec_extract(ms, protocols);
        assert forall|i: int| #![trigger whole[i]] 0 <= i < whole.len() implies exists|j: int|
            0 <= j < ms.len() && #[trigger] match_candidate(ms[j], protocols) == Some(whole[i]) by {
            if i < rest.len() {
                let j = choose|j: int|
                    0 <= j < ms.drop_last().len() && match_candidate(ms.drop_last()[j], protocols)
                        == Some(rest[i]);
                assert(ms.drop_last()[j] == ms[j]);
                assert(match_candidate(ms[j], protocols) == Some(whole[i]));
            } else {
                assert(match_candidate(ms[ms.len() - 1], protocols) == Some(whole[i]));
            }
        }
    }
}

} // verus!
