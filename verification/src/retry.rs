//! The bounded-retry engine of the fetcher.
//!
//! A fetch is attempted up to `max_attempts` times, sequentially, each
//! attempt bounded in time by the caller. The first attempt that yields a
//! body ends the session; when every attempt fails the session ends with
//! empty text, indistinguishable by design from a legitimately empty
//! body. The attempts themselves are network I/O and live outside the
//! library: a driver asks the session whether to try again, performs one
//! bounded attempt, and records what came back.

use vstd::prelude::*;

verus! {

/// How a fetcher retries: up to `max_attempts` tries per fetch, each
/// bounded by `timeout_secs`. Attached to a fetcher, not to a request.
pub struct RetryPolicy {
    pub max_attempts: u32,
    pub timeout_secs: u64,
}

impl Default for RetryPolicy {
    /// Three attempts of eight seconds each.
    fn default() -> (r: Self)
        ensures
            r.max_attempts == 3,
            r.timeout_secs == 8,
    {
        RetryPolicy { max_attempts: 3, timeout_secs: 8 }
    }
}

/// The body a finished session yields: the successful text, or empty
/// when there was none.
pub open spec fn text_or_empty(o: Option<Seq<char>>) -> Seq<char> {
    match o {
        Some(t) => t,
        None => Seq::empty(),
    }
}

/// Mathematical image of a retry session in progress.
pub ghost struct RetryModel {
    pub max_attempts: nat,
    pub attempts_made: nat,
    pub outcome: Option<Seq<char>>,
}

impl RetryModel {
    /// A session that has not attempted anything yet.
    pub open spec fn fresh(max_attempts: nat) -> RetryModel {
        RetryModel { max_attempts, attempts_made: 0, outcome: None }
    }

    /// True while another attempt is due: nothing succeeded yet and the
    /// attempt budget is not exhausted.
    pub open spec fn wants_attempt(self) -> bool {
        self.outcome is None && self.attempts_made < self.max_attempts
    }

    /// One attempt recorded: the count rises by one and the attempt's
    /// result, if any, becomes the session's outcome.
    pub open spec fn step(self, r: Option<Seq<char>>) -> RetryModel {
        RetryModel {
            max_attempts: self.max_attempts,
            attempts_made: self.attempts_made + 1,
            outcome: r,
        }
    }

    /// The session driven over a sequence of attempt results, stopping
    /// as soon as no further attempt is due.
    pub open spec fn run(self, rs: Seq<Option<Seq<char>>>) -> RetryModel
        decreases rs.len(),
    {
        if rs.len() == 0 || !self.wants_attempt() {
            self
        } else {
            self.step(rs[0]).run(rs.drop_first())
        }
    }

    /// The text a session yields when it is read out.
    pub open spec fn text(self) -> Seq<char> {
        text_or_empty(self.outcome)
    }
}

/// One fetch being retried: ask `wants_attempt`, perform one bounded
/// attempt outside the library, and `record_attempt` what came back.
pub struct RetrySession {
    max_attempts: u32,
    attempts_made: u32,
    outcome: Option<String>,
}

impl View for RetrySession {
    type V = RetryModel;

    closed spec fn view(&self) -> RetryModel {
        RetryModel {
            max_attempts: self.max_attempts as nat,
            attempts_made: self.attempts_made as nat,
            outcome: self.outcome.deep_view(),
        }
    }
}

impl RetrySession {
    /// Begin a fetch under the given policy.
    pub fn new(policy: &RetryPolicy) -> (s: RetrySession)
        ensures
            s@ == RetryModel::fresh(policy.max_attempts as nat),
    {
        RetrySession { max_attempts: policy.max_attempts, attempts_made: 0, outcome: None }
    }

    /// Whether the driver should perform another attempt.
    pub fn wants_attempt(&self) -> (b: bool)
        ensures
            b == self@.wants_attempt(),
    {
        self.outcome.is_none() && self.attempts_made < self.max_attempts
    }

    /// Record the result of one bounded attempt: the body on success,
    /// nothing on a transport error or a timeout.
    pub fn record_attempt(&mut self, r: Option<String>)
        requires
            old(self)@.wants_attempt(),
        ensures
            final(self)@ == old(self)@.step(r.deep_view()),
    {
        self.attempts_made = self.attempts_made + 1;
        self.outcome = r;
    }

    /// Read the session out: the successful body, or empty text when
    /// every attempt failed.
    pub fn into_text(self) -> (t: String)
        ensures
            t@ == self@.text(),
    {
        match self.outcome {
            Some(t) => t,
            None => String::new(),
        }
    }
}

/// The retry engine replayed over recorded attempt results: what a
/// driver that saw those attempt outcomes, in that order, ends with, and
/// how many attempts it performed.
pub fn run_recorded(policy: &RetryPolicy, outcomes: &Vec<Option<String>>) -> (r: (String, u32))
    ensures
        r.0@ == RetryModel::fresh(policy.max_attempts as nat).run(outcomes.deep_view()).text(),
        r.1 as nat == RetryModel::fresh(policy.max_attempts as nat).run(
            outcomes.deep_view(),
        ).attempts_made,
{
    let ghost rs = outcomes.deep_view();
    let mut session = RetrySession::new(policy);
    let mut i: usize = 0;
    proof {
        assert(rs.skip(0) =~= rs);
    }
    while i < outcomes.len() && session.wants_attempt()
        invariant
            i <= outcomes.len(),
            rs == outcomes.deep_view(),
            rs.len() == outcomes.len(),
            RetryModel::fresh(policy.max_attempts as nat).run(rs) == session@.run(
                rs.skip(i as int),
            ),
            session@.attempts_made <= session@.max_attempts,
        decreases outcomes.len() - i,
    {
        let attempt = clone_outcome(&outcomes[i]);
        assert(attempt.deep_view() == rs[i as int]);
        proof {
            assert(rs.skip(i as int).drop_first() =~= rs.skip(i + 1));
            assert(rs.skip(i as int)[0] == rs[i as int]);
        }
        session.record_attempt(attempt);
        i += 1;
    }
    proof {
        if i == outcomes.len() {
            assert(rs.skip(i as int) =~= Seq::<Option<Seq<char>>>::empty());
        }
    }
    let attempts = session.attempts_made();
    (session.into_text(), attempts)
}

impl RetrySession {
    /// How many attempts the session has performed so far.
    pub fn attempts_made(&self) -> (n: u32)
        ensures
            n as nat == self@.attempts_made,
    {
        self.attempts_made
    }
}

fn clone_outcome(o: &Option<String>) -> (r: Option<String>)
    ensures
        r.deep_view() == o.deep_view(),
{
    match o {
        Some(s) => Some(s.clone()),
        None => None,
    }
}

/// Against a permanently failing source a session performs exactly its
/// attempt budget and ends with empty text.
pub proof fn lemma_retry_all_fail(max_attempts: nat, rs: Seq<Option<Seq<char>>>)
    requires
        rs.len() >= max_attempts,
        forall|i: int| 0 <= i < rs.len() ==> rs[i] is None,
    ensures
        RetryModel::fresh(max_attempts).run(rs).attempts_made == max_attempts,
        RetryModel::fresh(max_attempts).run(rs).text() == Seq::<char>::empty(),
{
    lemma_run_all_fail(RetryModel::fresh(max_attempts), rs);
}

proof fn lemma_run_all_fail(s: RetryModel, rs: Seq<Option<Seq<char>>>)
    requires
        s.outcome is None,
        s.attempts_made <= s.max_attempts,
        rs.len() >= s.max_attempts - s.attempts_made,
        forall|i: int| 0 <= i < rs.len() ==> rs[i] is None,
    ensures
        s.run(rs).attempts_made == s.max_attempts,
        s.run(rs).outcome is None,
    decreases rs.len(),
{
    if rs.len() == 0 || !s.wants_attempt() {
    } else {
        lemma_run_all_fail(s.step(rs[0]), rs.drop_first());
    }
}

/// Against a source that first succeeds on attempt `k + 1` a session
/// performs exactly `k + 1` attempts and yields that attempt's body.
pub proof fn lemma_retry_first_success(max_attempts: nat, rs: Seq<Option<Seq<char>>>, k: int)
    requires
        0 <= k < rs.len(),
        k < max_attempts,
        forall|i: int| 0 <= i < k ==> rs[i] is None,
        rs[k] is Some,
    ensures
        RetryModel::fresh(max_attempts).run(rs).attempts_made == k + 1,
        RetryModel::fresh(max_attempts).run(rs).outcome == rs[k],
{
    lemma_run_first_success(RetryModel::fresh(max_attempts), rs, k);
}

proof fn lemma_run_first_success(s: RetryModel, rs: Seq<Option<Seq<char>>>, k: int)
    requires
        s.outcome is None,
        0 <= k < rs.len(),
        s.attempts_made + k < s.max_attempts,
        forall|i: int| 0 <= i < k ==> rs[i] is None,
        rs[k] is Some,
    ensures
        s.run(rs).attempts_made == s.attempts_made + k + 1,
        s.run(rs).outcome == rs[k],
    decreases rs.len(),
{
    let s1 = s.step(rs[0]);
    if k == 0 {
        assert(s1.outcome is Some);
        assert(!s1.wants_attempt());
        assert(s1.run(rs.drop_first()) == s1);
    } else {
        assert(rs.drop_first()[k - 1] == rs[k]);
        assert(forall|i: int| 0 <= i < k - 1 ==> rs.drop_first()[i] == rs[i + 1]);
        lemma_run_first_success(s1, rs.drop_first(), k - 1);
    }
}

} // verus!
