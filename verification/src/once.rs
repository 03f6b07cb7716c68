//! A shared once-computed value: many concurrent consumers await one
//! expensive computation that runs at most once; every consumer observes the
//! same terminal value or the same error.
//!
//! The state machine here is the verified core; driving the computation on a
//! scheduler and sharing the cell between consumers is the surrounding
//! runtime's job.

use vstd::prelude::*;
use crate::error::ExecError;

verus! {

/// The lifecycle of the shared computation.
#[derive(Debug)]
pub enum OnceState<T> {
    /// No consumer has polled yet; the computation has not been launched.
    NotStarted,
    /// The computation was launched and has not finished.
    InProgress,
    /// The computation finished with this terminal value, shared by every
    /// consumer from now on.
    Ready(Result<T, ExecError>),
}

/// What one poll of the cell tells the consumer to do.
#[derive(Debug)]
pub enum OncePoll {
    /// This consumer is the first to poll: it must launch the computation and
    /// later hand the outcome to [`SharedOnce::complete`].
    Launch,
    /// The computation is running; the consumer suspends.
    Pending,
    /// The terminal value is available through [`SharedOnce::try_get`].
    Resolved,
}

/// A cell holding a computation that runs at most once.
#[derive(Debug)]
pub struct SharedOnce<T> {
    /// The current lifecycle state.
    pub state: OnceState<T>,
}

impl<T> SharedOnce<T> {
    /// Creates a cell whose computation has not been launched.
    pub fn new() -> (c: SharedOnce<T>)
        ensures
            c.state is NotStarted,
    {
        SharedOnce { state: OnceState::NotStarted }
    }

    /// One consumer polls the cell. The first poll — and only the first —
    /// answers `Launch`; a poll of a resolved cell answers `Resolved` and
    /// changes nothing, so the terminal value is stable.
    pub fn poll(&mut self) -> (r: OncePoll)
        ensures
            valid_step(old(self).state, final(self).state),
            r is Launch <==> old(self).state is NotStarted,
            old(self).state is NotStarted ==> final(self).state is InProgress,
            !(old(self).state is NotStarted) ==> final(self).state == old(self).state,
            r is Pending <==> old(self).state is InProgress,
            r is Resolved <==> old(self).state is Ready,
    {
        match &self.state {
            OnceState::NotStarted => {
                self.state = OnceState::InProgress;
                OncePoll::Launch
            },
            OnceState::InProgress => OncePoll::Pending,
            OnceState::Ready(_) => OncePoll::Resolved,
        }
    }

    /// The launching consumer hands the computation's outcome to the cell.
    /// Only the in-progress state accepts an outcome, so a terminal value is
    /// written at most once.
    pub fn complete(&mut self, outcome: Result<T, ExecError>)
        requires
            old(self).state is InProgress,
        ensures
            valid_step(old(self).state, final(self).state),
            final(self).state == OnceState::Ready(outcome),
    {
        self.state = OnceState::Ready(outcome);
    }

    /// The terminal value, if the computation has resolved. The success value
    /// is shared by reference; an error is cloned per consumer by the caller.
    pub fn try_get(&self) -> (r: Option<&Result<T, ExecError>>)
        ensures
            self.state matches OnceState::Ready(v) ==> r == Some(&v),
            !(self.state is Ready) ==> r is None,
    {
        match &self.state {
            OnceState::Ready(v) => Some(v),
            _ => None,
        }
    }
}

/// The transitions the cell can take: polls and completions only stutter or
/// move the state forward, and a terminal value never changes.
pub open spec fn valid_step<T>(pre: OnceState<T>, post: OnceState<T>) -> bool {
    ||| post == pre
    ||| (pre is NotStarted && post is InProgress)
    ||| (pre is InProgress && post is Ready)
}

/// Whether a step launches the computation.
pub open spec fn is_launch_step<T>(pre: OnceState<T>, post: OnceState<T>) -> bool {
    pre is NotStarted && post is InProgress
}

/// A trace: the states the cell goes through under any interleaving of
/// consumers, each adjacent pair a valid step.
pub open spec fn valid_trace<T>(trace: Seq<OnceState<T>>) -> bool {
    forall|i: int| 0 <= i < trace.len() - 1 ==> valid_step(#[trigger] trace[i], trace[i + 1])
}

/// How far along the lifecycle a state is.
pub open spec fn state_rank<T>(s: OnceState<T>) -> int {
    match s {
        OnceState::NotStarted => 0,
        OnceState::InProgress => 1,
        OnceState::Ready(_) => 2,
    }
}

/// Along a valid trace the lifecycle only moves forward.
pub proof fn lemma_rank_monotone<T>(trace: Seq<OnceState<T>>, i: int, j: int)
    requires
        valid_trace(trace),
        0 <= i <= j < trace.len(),
    ensures
        state_rank(trace[i]) <= state_rank(trace[j]),
    decreases j - i,
{
    if i < j {
        lemma_rank_monotone(trace, i, j - 1);
        assert(valid_step(trace[j - 1], trace[j]));
    }
}

/// The factory runs at most once: however many consumers poll concurrently,
/// at most one step of any valid trace launches the computation.
pub proof fn lemma_factory_runs_at_most_once<T>(trace: Seq<OnceState<T>>, i: int, j: int)
    requires
        valid_trace(trace),
        0 <= i < j,
        j + 1 < trace.len(),
        is_launch_step(trace[i], trace[i + 1]),
    ensures
        !is_launch_step(trace[j], trace[j + 1]),
{
    lemma_rank_monotone(trace, i + 1, j);
}

/// Progress requires a launch: a valid trace that starts unlaunched and
/// reaches any later lifecycle stage contains a launch step. With
/// [`lemma_factory_runs_at_most_once`], the factory of a resolved cell ran
/// exactly once.
pub proof fn lemma_progress_requires_launch<T>(trace: Seq<OnceState<T>>, j: int)
    requires
        valid_trace(trace),
        0 <= j < trace.len(),
        trace[0] is NotStarted,
        state_rank(trace[j]) >= 1,
    ensures
        exists|i: int| 0 <= i < j && is_launch_step(#[trigger] trace[i], trace[i + 1]),
    decreases j,
{
    assert(j > 0);
    if state_rank(trace[j - 1]) >= 1 {
        lemma_progress_requires_launch(trace, j - 1);
        let i = choose|i: int| 0 <= i < j - 1 && is_launch_step(#[trigger] trace[i], trace[i + 1]);
        assert(0 <= i < j && is_launch_step(trace[i], trace[i + 1]));
    } else {
        assert(valid_step(trace[j - 1], trace[j]));
        assert(is_launch_step(trace[j - 1], trace[j]));
    }
}

/// All consumers observe the same outcome: once a valid trace reaches a
/// terminal value, every later state holds that same value.
pub proof fn lemma_same_outcome<T>(trace: Seq<OnceState<T>>, i: int, j: int)
    requires
        valid_trace(trace),
        0 <= i <= j < trace.len(),
        trace[i] is Ready,
    ensures
        trace[j] == trace[i],
    decreases j - i,
{
    if i < j {
        lemma_same_outcome(trace, i, j - 1);
        assert(valid_step(trace[j - 1], trace[j]));
    }
}

} // verus!
