use vstd::prelude::*;

verus! {

/// Exit code when an operator interrupt stopped the run.
pub const CANCELLED_EXIT_CODE: i32 = 130;
/// Exit code when the maximum execution time stopped the run.
pub const TIMEOUT_EXIT_CODE: i32 = 124;
/// Exit code when the tool itself failed: no command, a spawn failure, or
/// a failed wait on the child.
pub const FAILURE_EXIT_CODE: i32 = 1;

/// Where a sampling run stands.
#[derive(Clone, Copy, Debug, PartialEq, Eq, Structural)]
pub enum Phase {
    /// No child yet.
    Idle,
    /// The child runs; ticks are sampled.
    Running,
    /// The run was stopped (timeout, interrupt, failed wait); the child is
    /// being killed.
    Stopping,
    /// The child exited on its own.
    Completing,
    /// The final row was emitted; the process exits.
    Terminated,
}

/// What the child was found to be doing after a collection.
#[derive(Clone, Copy, Debug, PartialEq, Eq, Structural)]
pub enum ChildStatus {
    StillRunning,
    Exited(i32),
    WaitFailed,
}

/// What happened, as reported by the loop that drives the sampler.
#[derive(Clone, Copy, Debug, PartialEq, Eq, Structural)]
pub enum Event {
    /// The child process was spawned.
    Spawned,
    /// The child process could not be spawned.
    SpawnFailed,
    /// A tick begins, `elapsed_ms` after the child was spawned; `cancelled`
    /// tells whether an operator interrupt has been observed.
    Tick { elapsed_ms: u64, cancelled: bool },
    /// A fresh snapshot was collected, `spent_ms` after the tick began.
    Collected { child: ChildStatus, spent_ms: u64 },
    /// The child is gone (it exited, or it was killed).
    Finished,
}

/// What the driving loop is to do next.
#[derive(Clone, Copy, Debug, PartialEq, Eq, Structural)]
pub enum Action {
    /// Take the initial snapshot, which fixes the header, and write it.
    CollectInitial,
    /// Emit the previous snapshot as a row, then collect a fresh one.
    EmitAndCollect,
    /// Suspend for this many milliseconds, then start the next tick.
    Sleep(u64),
    /// Kill the child, then report `Finished`.
    KillChild,
    /// Nothing to do but report `Finished`.
    Finish,
    /// Emit the last snapshot as the final row and exit with this code.
    EmitFinalAndExit(i32),
    /// Exit with this code, emitting nothing.
    Exit(i32),
    /// The event does not apply in the current phase.
    Ignore,
}

/// What is left of `interval_ms` once `spent_ms` went to collecting: no
/// sleep at all where collecting took the whole interval or more.
pub open spec fn remaining_ms(interval_ms: u64, spent_ms: u64) -> u64 {
    if spent_ms < interval_ms {
        (interval_ms - spent_ms) as u64
    } else {
        0
    }
}

/// The time to sleep after a collection that took `spent_ms`.
pub fn remaining_sleep(interval_ms: u64, spent_ms: u64) -> (r: u64)
    ensures
        r == remaining_ms(interval_ms, spent_ms),
{
    if spent_ms < interval_ms {
        interval_ms - spent_ms
    } else {
        0
    }
}

/// The interval to sample at, and whether the requested one had to be
/// raised to the host's minimum.
#[derive(Clone, Copy, Debug, PartialEq, Eq, Structural)]
pub struct IntervalCheck {
    pub interval_ms: u64,
    pub below_minimum: bool,
}

/// Enforces the minimum interval needed for a reliable utilization
/// reading; a warning is due where `below_minimum` is set.
pub fn check_interval(requested_ms: u64, minimum_ms: u64) -> (r: IntervalCheck)
    ensures
        r.below_minimum == (requested_ms < minimum_ms),
        r.interval_ms == if requested_ms < minimum_ms {
            minimum_ms
        } else {
            requested_ms
        },
{
    if requested_ms < minimum_ms {
        IntervalCheck { interval_ms: minimum_ms, below_minimum: true }
    } else {
        IntervalCheck { interval_ms: requested_ms, below_minimum: false }
    }
}

/// The scheduler of a sampling run: from its phase and an event, the next
/// phase and the action to perform.
#[derive(Clone, Copy, Debug, PartialEq, Eq, Structural)]
pub struct Sampler {
    pub phase: Phase,
    /// Milliseconds between the starts of two ticks.
    pub interval_ms: u64,
    /// Maximum run time in milliseconds; zero for none.
    pub budget_ms: u64,
    /// The code the process exits with, once the run is stopping or
    /// completing.
    pub exit_code: i32,
}

/// Whether a tick at `elapsed_ms` is past the execution budget.
pub open spec fn over_budget(s: Sampler, elapsed_ms: u64) -> bool {
    s.budget_ms > 0 && elapsed_ms >= s.budget_ms
}

/// One transition of the scheduler.
pub open spec fn step_spec(s: Sampler, e: Event) -> (Sampler, Action) {
    match (s.phase, e) {
        (Phase::Idle, Event::Spawned) => (Sampler { phase: Phase::Running, ..s }, Action::CollectInitial),
        (Phase::Idle, Event::SpawnFailed) => (
            Sampler { phase: Phase::Terminated, exit_code: FAILURE_EXIT_CODE, ..s },
            Action::Exit(FAILURE_EXIT_CODE),
        ),
        (Phase::Running, Event::Tick { elapsed_ms, cancelled }) => if over_budget(s, elapsed_ms) {
            (
                Sampler { phase: Phase::Stopping, exit_code: TIMEOUT_EXIT_CODE, ..s },
                Action::KillChild,
            )
        } else if cancelled {
            (
                Sampler { phase: Phase::Stopping, exit_code: CANCELLED_EXIT_CODE, ..s },
                Action::KillChild,
            )
        } else {
            (s, Action::EmitAndCollect)
        },
        (Phase::Running, Event::Collected { child, spent_ms }) => match child {
            ChildStatus::StillRunning => (s, Action::Sleep(remaining_ms(s.interval_ms, spent_ms))),
            ChildStatus::Exited(code) => (
                Sampler { phase: Phase::Completing, exit_code: code, ..s },
                Action::Finish,
            ),
            ChildStatus::WaitFailed => (
                Sampler { phase: Phase::Stopping, exit_code: FAILURE_EXIT_CODE, ..s },
                Action::KillChild,
            ),
        },
        (Phase::Stopping, Event::Finished) | (Phase::Completing, Event::Finished) => (
            Sampler { phase: Phase::Terminated, ..s },
            Action::EmitFinalAndExit(s.exit_code),
        ),
        _ => (s, Action::Ignore),
    }
}

impl Sampler {
    /// A sampler that has not spawned its child yet.
    pub fn new(interval_ms: u64, budget_ms: u64) -> (r: Sampler)
        ensures
            r == Sampler::initial(interval_ms, budget_ms),
    {
        Sampler { phase: Phase::Idle, interval_ms, budget_ms, exit_code: 0 }
    }

    pub open spec fn initial(interval_ms: u64, budget_ms: u64) -> Sampler {
        Sampler { phase: Phase::Idle, interval_ms, budget_ms, exit_code: 0 }
    }

    /// Takes in one event and says what to do.
    pub fn step(&mut self, e: Event) -> (r: Action)
        ensures
            (*final(self), r) == step_spec(*old(self), e),
    {
        match (self.phase, e) {
            (Phase::Idle, Event::Spawned) => {
                self.phase = Phase::Running;
                Action::CollectInitial
            },
            (Phase::Idle, Event::SpawnFailed) => {
                self.phase = Phase::Terminated;
                self.exit_code = FAILURE_EXIT_CODE;
                Action::Exit(FAILURE_EXIT_CODE)
            },
            (Phase::Running, Event::Tick { elapsed_ms, cancelled }) => {
                if self.budget_ms > 0 && elapsed_ms >= self.budget_ms {
                    self.phase = Phase::Stopping;
                    self.exit_code = TIMEOUT_EXIT_CODE;
                    Action::KillChild
                } else if cancelled {
                    self.phase = Phase::Stopping;
                    self.exit_code = CANCELLED_EXIT_CODE;
                    Action::KillChild
                } else {
                    Action::EmitAndCollect
                }
            },
            (Phase::Running, Event::Collected { child, spent_ms }) => match child {
                ChildStatus::StillRunning => Action::Sleep(remaining_sleep(self.interval_ms, spent_ms)),
                ChildStatus::Exited(code) => {
                    self.phase = Phase::Completing;
                    self.exit_code = code;
                    Action::Finish
                },
                ChildStatus::WaitFailed => {
                    self.phase = Phase::Stopping;
                    self.exit_code = FAILURE_EXIT_CODE;
                    Action::KillChild
                },
            },
            (Phase::Stopping, Event::Finished) | (Phase::Completing, Event::Finished) => {
                self.phase = Phase::Terminated;
                Action::EmitFinalAndExit(self.exit_code)
            },
            _ => Action::Ignore,
        }
    }
}

/// The state after a sequence of events, and the actions they called for.
pub open spec fn run(s: Sampler, events: Seq<Event>) -> (Sampler, Seq<Action>)
    decreases events.len(),
{
    if events.len() == 0 {
        (s, Seq::empty())
    } else {
        let (s1, a) = step_spec(s, events[0]);
        let (sn, acts) = run(s1, events.drop_first());
        (sn, seq![a] + acts)
    }
}

/// Whether an action writes a row of the report.
pub open spec fn emits_row(a: Action) -> bool {
    a is EmitAndCollect || a is EmitFinalAndExit
}

/// The number of rows that a sequence of actions writes.
pub open spec fn rows(actions: Seq<Action>) -> nat
    decreases actions.len(),
{
    if actions.len() == 0 {
        0
    } else {
        (if emits_row(actions[0]) { 1nat } else { 0nat }) + rows(actions.drop_first())
    }
}

/// Whether the ticks of a sequence of events keep pace: the tick that
/// follows `emitted` rows begins no earlier than `emitted` intervals after
/// the spawn, as sleeping for the remainder of each interval ensures.
pub open spec fn paced(s: Sampler, events: Seq<Event>, emitted: nat) -> bool
    decreases events.len(),
{
    if events.len() == 0 {
        true
    } else {
        let (s1, a) = step_spec(s, events[0]);
        &&& (events[0] matches Event::Tick { elapsed_ms, .. } ==> elapsed_ms >= s.interval_ms
            * emitted)
        &&& paced(s1, events.drop_first(), emitted + if emits_row(a) { 1nat } else { 0nat })
    }
}

/// The bound on rows written so far that a budgeted run keeps.
pub open spec fn rows_within_budget(s: Sampler, emitted: nat) -> bool {
    &&& s.phase is Idle ==> emitted == 0
    &&& !(s.phase is Terminated) ==> emitted * s.interval_ms < s.budget_ms + s.interval_ms
    &&& s.phase is Terminated ==> emitted * s.interval_ms < s.budget_ms + 2 * s.interval_ms
}

proof fn lemma_run_budget(s: Sampler, events: Seq<Event>, emitted: nat)
    requires
        s.interval_ms > 0,
        s.budget_ms > 0,
        rows_within_budget(s, emitted),
        paced(s, events, emitted),
    ensures
        rows_within_budget(run(s, events).0, emitted + rows(run(s, events).1)),
        run(s, events).0.interval_ms == s.interval_ms,
        run(s, events).0.budget_ms == s.budget_ms,
    decreases events.len(),
{
    if events.len() > 0 {
        let (s1, a) = step_spec(s, events[0]);
        let k: nat = if emits_row(a) { 1nat } else { 0nat };
        let i = s.interval_ms as int;
        if a is EmitAndCollect {
            assert((emitted + 1) * i == emitted * i + i) by (nonlinear_arith);
        }
        if a is EmitFinalAndExit {
            assert((emitted + 1) * i == emitted * i + i) by (nonlinear_arith);
        }
        assert(rows_within_budget(s1, emitted + k));
        lemma_run_budget(s1, events.drop_first(), emitted + k);
        let (sn, acts) = run(s1, events.drop_first());
        assert(run(s, events).1 == seq![a] + acts);
        assert((seq![a] + acts).drop_first() =~= acts);
    }
}

proof fn lemma_run_reaches_end(s: Sampler, events: Seq<Event>)
    requires
        !(s.phase is Terminated),
        !(s.phase is Idle),
        run(s, events).0.phase is Terminated,
    ensures
        rows(run(s, events).1) >= 1,
    decreases events.len(),
{
    let (s1, a) = step_spec(s, events[0]);
    let (sn, acts) = run(s1, events.drop_first());
    assert((seq![a] + acts).drop_first() =~= acts);
    if !(s1.phase is Terminated) {
        lemma_run_reaches_end(s1, events.drop_first());
    }
}

/// A run with a maximum execution time writes, from spawn to exit, fewer
/// rows than two more than the number of intervals in the budget (at most
/// eleven for a 100 ms interval and a one-second budget); and at least two
/// where its first tick fell within the budget without an interrupt.
pub proof fn tick_count_bounds(interval_ms: u64, budget_ms: u64, events: Seq<Event>)
    requires
        interval_ms > 0,
        budget_ms > 0,
        paced(Sampler::initial(interval_ms, budget_ms), events, 0),
        run(Sampler::initial(interval_ms, budget_ms), events).0.phase is Terminated,
    ensures
        rows(run(Sampler::initial(interval_ms, budget_ms), events).1) * interval_ms < budget_ms + 2
            * interval_ms,
        interval_ms == 100 && budget_ms == 1000 ==> rows(
            run(Sampler::initial(interval_ms, budget_ms), events).1,
        ) <= 11,
        events.len() >= 2 && events[0] == Event::Spawned && (events[1] matches Event::Tick {
            elapsed_ms,
            cancelled,
        } && elapsed_ms < budget_ms && !cancelled) ==> rows(
            run(Sampler::initial(interval_ms, budget_ms), events).1,
        ) >= 2,
{
    let s0 = Sampler::initial(interval_ms, budget_ms);
    lemma_run_budget(s0, events, 0);
    let n = rows(run(s0, events).1);
    if interval_ms == 100 && budget_ms == 1000 {
        assert(n * 100 < 1200 ==> n <= 11) by (nonlinear_arith);
    }
    if events.len() >= 2 && events[0] == Event::Spawned && (events[1] matches Event::Tick {
        elapsed_ms,
        cancelled,
    } && elapsed_ms < budget_ms && !cancelled) {
        let (s1, a1) = step_spec(s0, events[0]);
        let e1 = events.drop_first();
        let (s2, a2) = step_spec(s1, e1[0]);
        let e2 = e1.drop_first();
        assert(a2 is EmitAndCollect);
        assert(run(s0, events).0 == run(s1, e1).0);
        assert(run(s1, e1).0 == run(s2, e2).0);
        lemma_run_reaches_end(s2, e2);
        let (sn, acts) = run(s2, e2);
        assert((seq![a2] + acts).drop_first() =~= acts);
        assert(run(s1, e1).1 == seq![a2] + acts);
        assert(rows(run(s1, e1).1) == 1 + rows(acts));
        let (sm, acts1) = run(s1, e1);
        assert((seq![a1] + acts1).drop_first() =~= acts1);
        assert(run(s0, events).1 == seq![a1] + acts1);
        assert(rows(run(s0, events).1) == rows(acts1));
    }
}

/// Once an operator interrupt stops a running sampler within its budget,
/// the child is killed and whatever follows, the run exits with the
/// cancellation code, never with the child's own.
pub proof fn cancellation_exits_with_cancel_code(s: Sampler, elapsed_ms: u64, rest: Seq<Event>)
    requires
        s.phase is Running,
        !over_budget(s, elapsed_ms),
    ensures
        step_spec(s, Event::Tick { elapsed_ms, cancelled: true }).1 == Action::KillChild,
        ({
            let s1 = step_spec(s, Event::Tick { elapsed_ms, cancelled: true }).0;
            &&& run(s1, rest).0.exit_code == CANCELLED_EXIT_CODE
            &&& forall|i: int|
                0 <= i < run(s1, rest).1.len() ==> (#[trigger] run(s1, rest).1[i] matches Action::EmitFinalAndExit(
                    c,
                ) ==> c == CANCELLED_EXIT_CODE)
            &&& forall|i: int|
                0 <= i < run(s1, rest).1.len() ==> !(#[trigger] run(s1, rest).1[i] is Exit)
        }),
{
    let s1 = step_spec(s, Event::Tick { elapsed_ms, cancelled: true }).0;
    lemma_stopped_keeps_code(s1, rest);
}

proof fn lemma_stopped_keeps_code(s: Sampler, events: Seq<Event>)
    requires
        s.phase is Stopping || s.phase is Terminated,
    ensures
        run(s, events).0.exit_code == s.exit_code,
        run(s, events).0.phase is Stopping || run(s, events).0.phase is Terminated,
        forall|i: int|
            0 <= i < run(s, events).1.len() ==> (#[trigger] run(s, events).1[i] matches Action::EmitFinalAndExit(
                c,
            ) ==> c == s.exit_code),
        forall|i: int| 0 <= i < run(s, events).1.len() ==> !(#[trigger] run(s, events).1[i] is Exit),
    decreases events.len(),
{
    if events.len() > 0 {
        let (s1, a) = step_spec(s, events[0]);
        lemma_stopped_keeps_code(s1, events.drop_first());
        let (sn, acts) = run(s1, events.drop_first());
        let all = seq![a] + acts;
        assert forall|i: int| 0 <= i < all.len() implies (#[trigger] all[i] matches Action::EmitFinalAndExit(
            c,
        ) ==> c == s.exit_code) && !(all[i] is Exit) by {
            if i > 0 {
                assert(all[i] == acts[i - 1]);
            }
        }
    }
}

} // verus!
