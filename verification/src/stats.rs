//! Failure-tolerant aggregation of probe samples.
//!
//! A run drives one attempt at a time and records each outcome here: a
//! failed attempt counts toward `attempted` but not `succeeded`, and the
//! run goes on.  The accumulator keeps the recorded durations as a ghost
//! sequence, so the contracts can say that `min`, `max` and `total` are
//! exactly the minimum, maximum and sum of what was recorded.

use vstd::prelude::*;
use vstd::arithmetic::div_mod::{lemma_div_is_ordered, lemma_div_multiples_vanish};
use vstd::arithmetic::mul::lemma_mul_inequality;

use crate::SAMPLES_LIMIT;
use crate::error::Error;

verus! {

/// The outcome of one probe attempt: the measured round trip on
/// success, or the transport error that made the sample count as lost.
pub enum ProbeResult {
    /// The attempt completed; carries the elapsed time in nanoseconds,
    /// from just before the connection was opened until the first read
    /// returned.
    Elapsed(u64),
    /// The attempt failed; carries the error to report for the sample.
    Failed(Error),
}

/// The durations of the successful attempts among `outcomes`, in order.
pub open spec fn successes(outcomes: Seq<ProbeResult>) -> Seq<u64>
    decreases outcomes.len(),
{
    if outcomes.len() == 0 {
        Seq::empty()
    } else {
        let rest = successes(outcomes.drop_first());
        match outcomes[0] {
            ProbeResult::Elapsed(n) => seq![n] + rest,
            ProbeResult::Failed(_) => rest,
        }
    }
}

/// The sum of a sequence of durations.
pub open spec fn seq_sum(s: Seq<u64>) -> int
    decreases s.len(),
{
    if s.len() == 0 {
        0
    } else {
        s[0] + seq_sum(s.drop_first())
    }
}

/// The least duration of a sequence; `u64::MAX` when it is empty.
pub open spec fn seq_min(s: Seq<u64>) -> u64
    decreases s.len(),
{
    if s.len() == 0 {
        u64::MAX
    } else {
        let m = seq_min(s.drop_first());
        if s[0] < m {
            s[0]
        } else {
            m
        }
    }
}

/// The greatest duration of a sequence; `0` when it is empty.
pub open spec fn seq_max(s: Seq<u64>) -> u64
    decreases s.len(),
{
    if s.len() == 0 {
        0u64
    } else {
        let m = seq_max(s.drop_first());
        if s[0] > m {
            s[0]
        } else {
            m
        }
    }
}

pub proof fn lemma_sum_snoc(s: Seq<u64>, x: u64)
    ensures
        seq_sum(s.push(x)) == seq_sum(s) + x,
    decreases s.len(),
{
    if s.len() == 0 {
        assert(s.push(x)[0] == x);
        assert(s.push(x).drop_first() =~= Seq::<u64>::empty());
        assert(seq_sum(Seq::<u64>::empty()) == 0);
    } else {
        lemma_sum_snoc(s.drop_first(), x);
        assert(s.push(x).drop_first() =~= s.drop_first().push(x));
        assert(s.push(x)[0] == s[0]);
    }
}

pub proof fn lemma_min_snoc(s: Seq<u64>, x: u64)
    ensures
        seq_min(s.push(x)) == (if x < seq_min(s) {
            x
        } else {
            seq_min(s)
        }),
    decreases s.len(),
{
    if s.len() == 0 {
        assert(s.push(x)[0] == x);
        assert(s.push(x).drop_first() =~= Seq::<u64>::empty());
        assert(seq_min(Seq::<u64>::empty()) == u64::MAX);
    } else {
        lemma_min_snoc(s.drop_first(), x);
        assert(s.push(x).drop_first() =~= s.drop_first().push(x));
        assert(s.push(x)[0] == s[0]);
    }
}

pub proof fn lemma_max_snoc(s: Seq<u64>, x: u64)
    ensures
        seq_max(s.push(x)) == (if x > seq_max(s) {
            x
        } else {
            seq_max(s)
        }),
    decreases s.len(),
{
    if s.len() == 0 {
        assert(s.push(x)[0] == x);
        assert(s.push(x).drop_first() =~= Seq::<u64>::empty());
        assert(seq_max(Seq::<u64>::empty()) == 0);
    } else {
        lemma_max_snoc(s.drop_first(), x);
        assert(s.push(x).drop_first() =~= s.drop_first().push(x));
        assert(s.push(x)[0] == s[0]);
    }
}

pub proof fn lemma_successes_snoc(outcomes: Seq<ProbeResult>, o: ProbeResult)
    ensures
        o matches ProbeResult::Elapsed(n) ==> successes(outcomes.push(o)) == successes(
            outcomes,
        ).push(n),
        o matches ProbeResult::Failed(_) ==> successes(outcomes.push(o)) == successes(outcomes),
    decreases outcomes.len(),
{
    if outcomes.len() == 0 {
        assert(outcomes.push(o)[0] == o);
        assert(outcomes.push(o).drop_first() =~= Seq::<ProbeResult>::empty());
        assert(successes(Seq::<ProbeResult>::empty()) =~= Seq::<u64>::empty());
        assert(successes(outcomes) =~= Seq::<u64>::empty());
        if let ProbeResult::Elapsed(n) = o {
            assert(successes(outcomes.push(o)) =~= successes(outcomes).push(n));
        }
    } else {
        lemma_successes_snoc(outcomes.drop_first(), o);
        assert(outcomes.push(o).drop_first() =~= outcomes.drop_first().push(o));
        assert(outcomes.push(o)[0] == outcomes[0]);
        if let ProbeResult::Elapsed(n) = o {
            match outcomes[0] {
                ProbeResult::Elapsed(m) => {
                    assert(successes(outcomes.push(o)) =~= successes(outcomes).push(n));
                },
                ProbeResult::Failed(_) => {
                    assert(successes(outcomes.push(o)) =~= successes(outcomes).push(n));
                },
            }
        }
    }
}

/// Over any outcomes there are no more successful samples than
/// attempted ones.
pub proof fn lemma_successes_len(outcomes: Seq<ProbeResult>)
    ensures
        successes(outcomes).len() <= outcomes.len(),
    decreases outcomes.len(),
{
    if outcomes.len() > 0 {
        lemma_successes_len(outcomes.drop_first());
    }
}

/// The sum of a non-empty sequence lies between its length times its
/// minimum and its length times its maximum.
pub proof fn lemma_sum_bounds(s: Seq<u64>)
    ensures
        s.len() * seq_min(s) <= seq_sum(s),
        seq_sum(s) <= s.len() * seq_max(s),
    decreases s.len(),
{
    if s.len() == 0 {
    } else {
        let rest = s.drop_first();
        lemma_sum_bounds(rest);
        let mn = seq_min(s);
        let mx = seq_max(s);
        assert(mn <= s[0] && mn <= seq_min(rest));
        assert(s[0] <= mx && seq_max(rest) <= mx);
        lemma_mul_inequality(mn as int, seq_min(rest) as int, rest.len() as int);
        lemma_mul_inequality(seq_max(rest) as int, mx as int, rest.len() as int);
        let n = s.len() as int;
        let r = rest.len() as int;
        assert(n * mn == mn + r * mn) by (nonlinear_arith)
            requires
                r == n - 1,
        ;
        assert(n * mx == mx + r * mx) by (nonlinear_arith)
            requires
                r == n - 1,
        ;
        assert(rest.len() * mn <= rest.len() * seq_min(rest)) by {
            lemma_mul_inequality(mn as int, seq_min(rest) as int, rest.len() as int);
            assert(mn as int * rest.len() as int == rest.len() as int * mn as int) by (
            nonlinear_arith);
            assert(seq_min(rest) as int * rest.len() as int == rest.len() as int * seq_min(rest) as int)
                by (nonlinear_arith);
        }
        assert(rest.len() * seq_max(rest) <= rest.len() * mx) by {
            lemma_mul_inequality(seq_max(rest) as int, mx as int, rest.len() as int);
            assert(seq_max(rest) as int * rest.len() as int == rest.len() as int * seq_max(rest) as int)
                by (nonlinear_arith);
            assert(mx as int * rest.len() as int == rest.len() as int * mx as int) by (
            nonlinear_arith);
        }
    }
}

/// Over any recorded durations, the minimum is at most the truncating
/// average and the average is at most the maximum.
pub proof fn lemma_avg_bounds(s: Seq<u64>)
    requires
        s.len() > 0,
    ensures
        seq_min(s) <= seq_sum(s) / s.len() as int <= seq_max(s),
{
    let n = s.len() as int;
    lemma_sum_bounds(s);
    lemma_div_is_ordered(n * seq_min(s), seq_sum(s), n);
    lemma_div_is_ordered(seq_sum(s), n * seq_max(s), n);
    lemma_div_multiples_vanish(seq_min(s) as int, n);
    lemma_div_multiples_vanish(seq_max(s) as int, n);
}

/// Running statistics of one sampling run.
///
/// `attempted` counts every completed attempt, `succeeded` only those
/// that returned a duration; the recorded durations themselves are kept
/// as the ghost sequence `samples`, of which `min_nanos`, `max_nanos`
/// and `total_nanos` are exactly the minimum, maximum and sum.
pub struct Stats {
    /// Attempts completed so far, successful or not.
    pub attempted: usize,
    /// Attempts that returned a duration.
    pub succeeded: usize,
    /// The least recorded duration; `u64::MAX` before any success.
    pub min_nanos: u64,
    /// The greatest recorded duration; `0` before any success.
    pub max_nanos: u64,
    /// The sum of all recorded durations.
    pub total_nanos: u128,
    /// The recorded durations, in order.
    pub samples: Ghost<Seq<u64>>,
}

/// The timing aggregates of a run with at least one success.
pub struct Timing {
    /// The least recorded duration.
    pub min_nanos: u64,
    /// The truncating mean of the recorded durations.
    pub avg_nanos: u64,
    /// The greatest recorded duration.
    pub max_nanos: u64,
}

/// The finalized summary of a run.  `timing` is present exactly when at
/// least one sample succeeded; with no success there is no meaningful
/// min/avg/max and only the counts are reported.
pub struct Report {
    /// Samples attempted.
    pub attempted: usize,
    /// Samples that completed with a response.
    pub succeeded: usize,
    /// `100 * (attempted - succeeded) / attempted`, truncating; `0` for
    /// an empty run.
    pub loss_percent: u64,
    /// Min/avg/max of the recorded durations, when any were recorded.
    pub timing: Option<Timing>,
}

impl Stats {
    /// The accumulator invariant: the counters agree with the recorded
    /// durations, and no more was attempted than the run cap allows.
    pub open spec fn wf(&self) -> bool {
        &&& self.succeeded == self.samples@.len()
        &&& self.succeeded <= self.attempted <= SAMPLES_LIMIT
        &&& self.min_nanos == seq_min(self.samples@)
        &&& self.max_nanos == seq_max(self.samples@)
        &&& self.total_nanos as int == seq_sum(self.samples@)
    }

    /// A fresh accumulator with nothing recorded.
    pub fn new() -> (r: Stats)
        ensures
            r.wf(),
            r.attempted == 0,
            r.succeeded == 0,
            r.samples@ == Seq::<u64>::empty(),
    {
        proof {
            assert(seq_min(Seq::<u64>::empty()) == u64::MAX);
            assert(seq_max(Seq::<u64>::empty()) == 0);
            assert(seq_sum(Seq::<u64>::empty()) == 0);
        }
        Stats {
            attempted: 0,
            succeeded: 0,
            min_nanos: u64::MAX,
            max_nanos: 0,
            total_nanos: 0,
            samples: Ghost(Seq::empty()),
        }
    }

    /// Records a successful attempt and its duration.
    pub fn record_success(&mut self, nanos: u64)
        requires
            old(self).wf(),
            old(self).attempted < SAMPLES_LIMIT,
        ensures
            final(self).wf(),
            final(self).attempted == old(self).attempted + 1,
            final(self).succeeded == old(self).succeeded + 1,
            final(self).samples@ == old(self).samples@.push(nanos),
    {
        proof {
            lemma_min_snoc(self.samples@, nanos);
            lemma_max_snoc(self.samples@, nanos);
            lemma_sum_snoc(self.samples@, nanos);
            lemma_sum_bounds(self.samples@);
            assert(seq_sum(self.samples@) + nanos <= u128::MAX) by (nonlinear_arith)
                requires
                    seq_sum(self.samples@) <= self.samples@.len() * seq_max(self.samples@),
                    0 <= seq_sum(self.samples@),
                    self.samples@.len() <= 2000,
                    seq_max(self.samples@) <= u64::MAX,
                    nanos <= u64::MAX,
            ;
        }
        self.attempted = self.attempted + 1;
        self.succeeded = self.succeeded + 1;
        if nanos < self.min_nanos {
            self.min_nanos = nanos;
        }
        if nanos > self.max_nanos {
            self.max_nanos = nanos;
        }
        self.total_nanos = self.total_nanos + nanos as u128;
        self.samples = Ghost(self.samples@.push(nanos));
    }

    /// Records a failed attempt: it counts toward `attempted` only.
    pub fn record_failure(&mut self)
        requires
            old(self).wf(),
            old(self).attempted < SAMPLES_LIMIT,
        ensures
            final(self).wf(),
            final(self).attempted == old(self).attempted + 1,
            final(self).succeeded == old(self).succeeded,
            final(self).samples@ == old(self).samples@,
    {
        self.attempted = self.attempted + 1;
    }

    /// Records one attempt's outcome.
    pub fn record(&mut self, outcome: &ProbeResult)
        requires
            old(self).wf(),
            old(self).attempted < SAMPLES_LIMIT,
        ensures
            final(self).wf(),
            final(self).attempted == old(self).attempted + 1,
            *outcome matches ProbeResult::Elapsed(n) ==> final(self).samples@ == old(
                self,
            ).samples@.push(n) && final(self).succeeded == old(self).succeeded + 1,
            *outcome matches ProbeResult::Failed(_) ==> final(self).samples@ == old(self).samples@
                && final(self).succeeded == old(self).succeeded,
    {
        match outcome {
            ProbeResult::Elapsed(n) => self.record_success(*n),
            ProbeResult::Failed(_) => self.record_failure(),
        }
    }

    /// The share of lost samples, in whole percent, truncating.
    pub fn loss_percent(&self) -> (r: u64)
        requires
            self.wf(),
        ensures
            self.attempted > 0 ==> r == 100 * (self.attempted - self.succeeded)
                / self.attempted as int,
            self.attempted == 0 ==> r == 0,
            r <= 100,
    {
        if self.attempted == 0 {
            return 0;
        }
        let lost = self.attempted - self.succeeded;
        let r = (100u64 * (lost as u64)) / (self.attempted as u64);
        proof {
            let a = self.attempted as int;
            lemma_div_is_ordered(100 * (a - self.succeeded), 100 * a, a);
            lemma_div_multiples_vanish(100, a);
        }
        r
    }

    /// Finalizes the run: the counts and loss always, the timing
    /// aggregates exactly when at least one sample succeeded.
    pub fn finalize(&self) -> (r: Report)
        requires
            self.wf(),
        ensures
            r.attempted == self.attempted,
            r.succeeded == self.succeeded,
            self.attempted > 0 ==> r.loss_percent == 100 * (self.attempted - self.succeeded)
                / self.attempted as int,
            self.attempted == 0 ==> r.loss_percent == 0,
            (r.timing is Some) <==> self.succeeded > 0,
            r.timing matches Some(t) ==> t.min_nanos == seq_min(self.samples@) && t.max_nanos
                == seq_max(self.samples@) && t.avg_nanos == seq_sum(self.samples@)
                / self.samples@.len() as int && t.min_nanos <= t.avg_nanos <= t.max_nanos,
    {
        let loss_percent = self.loss_percent();
        if self.succeeded == 0 {
            Report { attempted: self.attempted, succeeded: self.succeeded, loss_percent, timing: None }
        } else {
            proof {
                lemma_avg_bounds(self.samples@);
            }
            let avg_nanos = (self.total_nanos / (self.succeeded as u128)) as u64;
            Report {
                attempted: self.attempted,
                succeeded: self.succeeded,
                loss_percent,
                timing: Some(
                    Timing { min_nanos: self.min_nanos, avg_nanos, max_nanos: self.max_nanos },
                ),
            }
        }
    }
}

/// Aggregates the outcomes of a whole run, one attempt at a time, in
/// index order: every outcome counts toward `attempted`, only the
/// successful ones contribute their durations.
pub fn aggregate(outcomes: &Vec<ProbeResult>) -> (r: Stats)
    requires
        outcomes@.len() <= SAMPLES_LIMIT,
    ensures
        r.wf(),
        r.attempted == outcomes@.len(),
        r.samples@ == successes(outcomes@),
        r.succeeded == successes(outcomes@).len(),
{
    let mut stats = Stats::new();
    let mut i: usize = 0;
    while i < outcomes.len()
        invariant
            0 <= i <= outcomes@.len(),
            outcomes@.len() <= SAMPLES_LIMIT,
            stats.wf(),
            stats.attempted == i,
            stats.samples@ == successes(outcomes@.subrange(0, i as int)),
            stats.succeeded == stats.samples@.len(),
        decreases outcomes@.len() - i,
    {
        proof {
            lemma_successes_snoc(outcomes@.subrange(0, i as int), outcomes@[i as int]);
            assert(outcomes@.subrange(0, i as int).push(outcomes@[i as int]) =~= outcomes@.subrange(
                0,
                i as int + 1,
            ));
        }
        stats.record(&outcomes[i]);
        i = i + 1;
    }
    proof {
        assert(outcomes@.subrange(0, outcomes@.len() as int) =~= outcomes@);
    }
    stats
}

/// Two runs over the same sample count attempt the same number of
/// probes, whatever each sample's outcome was; within each run no more
/// samples succeed than were attempted.  The reports of such runs have
/// the same shape up to their own success counts: timing is present
/// exactly when the run recorded a success (see `Stats::finalize`).
pub proof fn lemma_rerun_same_attempted(
    s1: Stats,
    s2: Stats,
    o1: Seq<ProbeResult>,
    o2: Seq<ProbeResult>,
)
    requires
        s1.attempted == o1.len(),
        s1.samples@ == successes(o1),
        s2.attempted == o2.len(),
        s2.samples@ == successes(o2),
        o1.len() == o2.len(),
    ensures
        s1.attempted == s2.attempted,
        successes(o1).len() <= s1.attempted,
        successes(o2).len() <= s2.attempted,
{
    lemma_successes_len(o1);
    lemma_successes_len(o2);
}

} // verus!
