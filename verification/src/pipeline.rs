//! The bounded-concurrency pipeline, as a state machine over plain counters.
//!
//! A run spawns one task per identifier. Each task acquires one of `threads`
//! permits, performs its download inside the permitted region, and leaves the
//! region recording a success or a failure. The driver performs the actual
//! network and file I/O; it reports each task's entry and outcome here, and
//! the proofs below establish the accounting, bound, progress and isolation
//! laws of the pipeline.

use vstd::prelude::*;

verus! {

/// How one task's download ended.
#[derive(Clone, Copy, PartialEq, Eq, Structural, Debug)]
pub enum Outcome {
    /// The response was 2xx and the body was written in full.
    Success,
    /// Transport error, non-2xx status, or a file I/O error.
    Failure,
}

/// How many of `outs` are successes.
pub open spec fn count_successes(outs: Seq<Outcome>) -> int
    decreases outs.len(),
{
    if outs.len() == 0 {
        0
    } else {
        count_successes(outs.drop_last()) + if outs.last() == Outcome::Success {
            1int
        } else {
            0int
        }
    }
}

/// How many of `outs` are failures.
pub open spec fn count_failures(outs: Seq<Outcome>) -> int
    decreases outs.len(),
{
    if outs.len() == 0 {
        0
    } else {
        count_failures(outs.drop_last()) + if outs.last() == Outcome::Failure {
            1int
        } else {
            0int
        }
    }
}

/// The shared state of one run: the fixed parameters and the three counters
/// every task moves through — waiting, inside the download region, settled.
pub struct PipelineState {
    /// Total number of tasks, one per identifier.
    pub files: usize,
    /// Capacity of the permit pool.
    pub threads: usize,
    /// Tasks currently inside the download region, each holding one permit.
    pub active: usize,
    /// Tasks that settled with a success; never decremented.
    pub success: usize,
    /// Tasks that settled with a failure; never decremented.
    pub failure: usize,
}

impl PipelineState {
    /// The state invariant: the download region never holds more than
    /// `threads` tasks, and no more than `files` tasks ever entered it.
    pub open spec fn wf(self) -> bool {
        &&& self.active <= self.threads
        &&& self.active + self.success + self.failure <= self.files
    }

    /// Tasks that settled, with either outcome.
    pub open spec fn settled(self) -> int {
        self.success + self.failure
    }

    /// Tasks still waiting at the permit pool.
    pub open spec fn waiting(self) -> int {
        self.files - self.active - self.settled()
    }

    /// Whether every task has settled.
    pub open spec fn terminated(self) -> bool {
        self.active == 0 && self.waiting() == 0
    }

    /// Steps left until termination: every transition decreases this.
    pub open spec fn measure(self) -> int {
        2 * self.waiting() + self.active
    }

    /// The state at fan-out: all tasks waiting, nothing settled.
    pub fn new(files: usize, threads: usize) -> (r: PipelineState)
        ensures
            r.wf(),
            r.files == files,
            r.threads == threads,
            r.active == 0,
            r.success == 0,
            r.failure == 0,
    {
        PipelineState { files, threads, active: 0, success: 0, failure: 0 }
    }

    /// Runtime check of the invariant, for callers outside the proof.
    pub fn is_wf(&self) -> (r: bool)
        ensures
            r == self.wf(),
    {
        self.active <= self.threads && self.success <= self.files
            && self.failure <= self.files - self.success && self.active <= self.files
            - self.success - self.failure
    }

    /// Whether a waiting task may enter the download region now: a task is
    /// waiting and a permit is free.
    pub fn can_enter(&self) -> (r: bool)
        requires
            self.wf(),
        ensures
            r == (self.waiting() > 0 && self.active < self.threads),
    {
        self.active < self.threads && self.active + self.success + self.failure < self.files
    }

    /// A waiting task acquires a permit and enters the download region. Only
    /// `active` changes, and the step brings termination closer.
    pub fn enter(&mut self)
        requires
            old(self).wf(),
            old(self).waiting() > 0,
            old(self).active < old(self).threads,
        ensures
            final(self).wf(),
            final(self).active == old(self).active + 1,
            final(self).files == old(self).files,
            final(self).threads == old(self).threads,
            final(self).success == old(self).success,
            final(self).failure == old(self).failure,
            final(self).measure() == old(self).measure() - 1,
    {
        self.active = self.active + 1;
    }

    /// A task inside the download region settles with `outcome`, releasing
    /// its permit: exactly the counter named by the outcome grows, by one,
    /// both counters stay monotonic, and the step brings termination closer.
    pub fn settle(&mut self, outcome: Outcome)
        requires
            old(self).wf(),
            old(self).active > 0,
        ensures
            final(self).wf(),
            final(self).active == old(self).active - 1,
            final(self).files == old(self).files,
            final(self).threads == old(self).threads,
            final(self).success == old(self).success + if outcome == Outcome::Success {
                1int
            } else {
                0int
            },
            final(self).failure == old(self).failure + if outcome == Outcome::Failure {
                1int
            } else {
                0int
            },
            final(self).waiting() == old(self).waiting(),
            final(self).measure() == old(self).measure() - 1,
    {
        self.active = self.active - 1;
        match outcome {
            Outcome::Success => {
                self.success = self.success + 1;
            },
            Outcome::Failure => {
                self.failure = self.failure + 1;
            },
        }
    }
}

/// Accounting: once the pipeline has terminated — no task active, none
/// waiting — the two counters exactly partition the `files` tasks:
/// `success + failure == files`.
pub proof fn lemma_accounting(st: PipelineState)
    requires
        st.wf(),
        st.terminated(),
    ensures
        st.success + st.failure == st.files,
{
}

/// Concurrency bound: in every reachable state — `wf` holds at fan-out and
/// is preserved by both transitions — the number of tasks inside the
/// download region is at most `threads`.
pub proof fn lemma_concurrency_bound(st: PipelineState)
    requires
        st.wf(),
    ensures
        st.active <= st.threads,
{
}

/// Progress: with at least one permit, a pipeline that has not terminated
/// always has an enabled transition — some task can settle, or a waiting
/// task can enter — and every transition decreases the non-negative
/// `measure`, so the pipeline terminates once every download terminates; in
/// particular no waiting task is stuck behind a free permit.
pub proof fn lemma_progress(st: PipelineState)
    requires
        st.wf(),
        st.threads >= 1,
        !st.terminated(),
    ensures
        st.active > 0 || (st.waiting() > 0 && st.active < st.threads),
        st.measure() > 0,
{
}

/// Failure isolation: changing the outcome of one task changes the success
/// tally only by that task's own contribution; every other task's recorded
/// outcome is untouched.
pub proof fn lemma_failure_isolation(outs: Seq<Outcome>, i: int, oc: Outcome)
    requires
        0 <= i < outs.len(),
    ensures
        forall|j: int| 0 <= j < outs.len() && j != i ==> outs.update(i, oc)[j] == outs[j],
        count_successes(outs.update(i, oc)) == count_successes(outs) - (if outs[i]
            == Outcome::Success {
            1int
        } else {
            0int
        }) + (if oc == Outcome::Success {
            1int
        } else {
            0int
        }),
    decreases outs.len(),
{
    let upd = outs.update(i, oc);
    if i == outs.len() - 1 {
        assert(upd.drop_last() =~= outs.drop_last());
        assert(upd.last() == oc);
    } else {
        assert(upd.drop_last() =~= outs.drop_last().update(i, oc));
        assert(upd.last() == outs.last());
        lemma_failure_isolation(outs.drop_last(), i, oc);
    }
}

/// The sequence-level accounting identity: successes and failures together
/// account for every outcome, with nothing counted twice.
pub proof fn lemma_counts_partition(outs: Seq<Outcome>)
    ensures
        count_successes(outs) + count_failures(outs) == outs.len(),
        count_successes(outs) >= 0,
        count_failures(outs) >= 0,
    decreases outs.len(),
{
    if outs.len() > 0 {
        lemma_counts_partition(outs.drop_last());
    }
}

/// Totals the outcomes of a finished run: `(successes, failures)`.
pub fn tally(outcomes: &Vec<Outcome>) -> (r: (usize, usize))
    ensures
        r.0 == count_successes(outcomes@),
        r.1 == count_failures(outcomes@),
        r.0 + r.1 == outcomes@.len(),
{
    let n = outcomes.len();
    let mut succ: usize = 0;
    let mut fail: usize = 0;
    let mut i: usize = 0;
    proof {
        lemma_counts_partition(outcomes@);
    }
    while i < n
        invariant
            n == outcomes@.len(),
            0 <= i <= n,
            succ == count_successes(outcomes@.subrange(0, i as int)),
            fail == count_failures(outcomes@.subrange(0, i as int)),
            succ + fail == i,
        decreases n - i,
    {
        proof {
            assert(outcomes@.subrange(0, i as int + 1).drop_last() =~= outcomes@.subrange(
                0,
                i as int,
            ));
            assert(outcomes@.subrange(0, i as int + 1).last() == outcomes@[i as int]);
        }
        match outcomes[i] {
            Outcome::Success => {
                succ = succ + 1;
            },
            Outcome::Failure => {
                fail = fail + 1;
            },
        }
        i = i + 1;
    }
    proof {
        assert(outcomes@.subrange(0, n as int) =~= outcomes@);
    }
    (succ, fail)
}

} // verus!
