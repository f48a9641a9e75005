//! The concurrency scheduler: a fixed budget of execution slots over N
//! tasks. A task is admitted only while fewer than `limit` tasks are
//! running, and settles exactly once.
//!
//! The transition system (`sched_enabled`, `sched_apply`, `sched_run`,
//! `sched_valid`) is the ground truth; the executable [`Scheduler`] steps it,
//! and the proof functions at the end state the scheduling laws.

use vstd::prelude::*;

verus! {

/// Where one task stands in its life.
#[derive(Clone, Copy, PartialEq, Eq, Structural, Debug)]
pub enum Phase {
    /// Created, not yet holding a slot.
    Queued,
    /// Holding a slot, past admission and before its report.
    Running,
    /// Has produced its one report and released its slot.
    Settled,
}

/// One step of the scheduler: a task is admitted to a slot, or settles
/// and releases its slot.
#[derive(Clone, Copy, PartialEq, Eq, Structural, Debug)]
pub enum SchedEvent {
    /// The task acquires a slot and starts running.
    Start {
        /// The task's index.
        task: usize,
    },
    /// The task reports and releases its slot.
    Settle {
        /// The task's index.
        task: usize,
    },
}

/// How many entries of `phases` are in phase `p`.
pub open spec fn count_in(phases: Seq<Phase>, p: Phase) -> nat
    decreases phases.len(),
{
    if phases.len() == 0 {
        0
    } else {
        count_in(phases.drop_last(), p) + if phases.last() == p {
            1nat
        } else {
            0nat
        }
    }
}

/// How many entries of `events` equal `e`.
pub open spec fn count_event(events: Seq<SchedEvent>, e: SchedEvent) -> nat
    decreases events.len(),
{
    if events.len() == 0 {
        0
    } else {
        count_event(events.drop_last(), e) + if events.last() == e {
            1nat
        } else {
            0nat
        }
    }
}

/// The starting state: every one of the `n` tasks is queued.
pub open spec fn init_phases(n: nat) -> Seq<Phase> {
    Seq::new(n, |i: int| Phase::Queued)
}

/// Whether the event may fire in the given state: admission needs a queued
/// task and a free slot, settling needs a running task.
pub open spec fn sched_enabled(limit: nat, phases: Seq<Phase>, e: SchedEvent) -> bool {
    match e {
        SchedEvent::Start { task } => {
            &&& task < phases.len()
            &&& phases[task as int] is Queued
            &&& count_in(phases, Phase::Running) < limit
        },
        SchedEvent::Settle { task } => {
            &&& task < phases.len()
            &&& phases[task as int] is Running
        },
    }
}

/// The state after the event fires.
pub open spec fn sched_apply(phases: Seq<Phase>, e: SchedEvent) -> Seq<Phase> {
    match e {
        SchedEvent::Start { task } => phases.update(task as int, Phase::Running),
        SchedEvent::Settle { task } => phases.update(task as int, Phase::Settled),
    }
}

/// The state after the whole event sequence has fired, in order.
pub open spec fn sched_run(phases: Seq<Phase>, events: Seq<SchedEvent>) -> Seq<Phase>
    decreases events.len(),
{
    if events.len() == 0 {
        phases
    } else {
        sched_apply(sched_run(phases, events.drop_last()), events.last())
    }
}

/// Whether every event of the sequence was enabled when it fired.
pub open spec fn sched_valid(limit: nat, phases: Seq<Phase>, events: Seq<SchedEvent>) -> bool
    decreases events.len(),
{
    if events.len() == 0 {
        true
    } else {
        &&& sched_valid(limit, phases, events.drop_last())
        &&& sched_enabled(limit, sched_run(phases, events.drop_last()), events.last())
    }
}

proof fn lemma_count_le_len(phases: Seq<Phase>, p: Phase)
    ensures
        count_in(phases, p) <= phases.len(),
    decreases phases.len(),
{
    if phases.len() > 0 {
        lemma_count_le_len(phases.drop_last(), p);
    }
}

proof fn lemma_counts_total(phases: Seq<Phase>)
    ensures
        count_in(phases, Phase::Queued) + count_in(phases, Phase::Running) + count_in(
            phases,
            Phase::Settled,
        ) == phases.len(),
    decreases phases.len(),
{
    if phases.len() > 0 {
        lemma_counts_total(phases.drop_last());
    }
}

proof fn lemma_count_init(n: nat, p: Phase)
    ensures
        count_in(init_phases(n), p) == if p is Queued {
            n
        } else {
            0nat
        },
    decreases n,
{
    if n > 0 {
        assert(init_phases(n).drop_last() =~= init_phases((n - 1) as nat));
        lemma_count_init((n - 1) as nat, p);
    }
}

proof fn lemma_count_at_least_one(phases: Seq<Phase>, i: int, p: Phase)
    requires
        0 <= i < phases.len(),
        phases[i] == p,
    ensures
        count_in(phases, p) >= 1,
    decreases phases.len(),
{
    if i < phases.len() - 1 {
        assert(phases.drop_last()[i] == phases[i]);
        lemma_count_at_least_one(phases.drop_last(), i, p);
    }
}

proof fn lemma_count_update(phases: Seq<Phase>, i: int, v: Phase, p: Phase)
    requires
        0 <= i < phases.len(),
    ensures
        count_in(phases.update(i, v), p) == count_in(phases, p) - (if phases[i] == p {
            1int
        } else {
            0int
        }) + (if v == p {
            1int
        } else {
            0int
        }),
    decreases phases.len(),
{
    let updated = phases.update(i, v);
    if i == phases.len() - 1 {
        assert(updated.drop_last() =~= phases.drop_last());
        assert(updated.last() == v);
    } else {
        assert(updated.drop_last() =~= phases.drop_last().update(i, v));
        assert(updated.last() == phases.last());
        lemma_count_update(phases.drop_last(), i, v, p);
    }
}

/// The executable scheduler: the phase of each of the N tasks, with the
/// running and settled counts cached.
pub struct Scheduler {
    /// The concurrency limit C.
    pub limit: usize,
    /// The phase of each task, indexed as the targets were submitted.
    pub phases: Vec<Phase>,
    /// How many tasks hold a slot now.
    pub running: usize,
    /// How many tasks have settled.
    pub settled: usize,
}

impl Scheduler {
    /// The scheduler's invariant: the counts match the phases and at most
    /// `limit` tasks run at once.
    pub open spec fn wf(self) -> bool {
        &&& self.limit >= 1
        &&& self.running == count_in(self.phases@, Phase::Running)
        &&& self.settled == count_in(self.phases@, Phase::Settled)
        &&& self.running <= self.limit
    }

    /// Creates the scheduler for `n` tasks under concurrency limit `limit`.
    pub fn new(n: usize, limit: usize) -> (r: Scheduler)
        requires
            limit >= 1,
        ensures
            r.wf(),
            r.phases@ == init_phases(n as nat),
            r.limit == limit,
            r.running == 0,
            r.settled == 0,
    {
        let mut phases: Vec<Phase> = Vec::new();
        let mut i: usize = 0;
        while i < n
            invariant
                i <= n,
                phases@ =~= init_phases(i as nat),
            decreases n - i,
        {
            phases.push(Phase::Queued);
            proof {
                assert(phases@ =~= init_phases((i + 1) as nat));
            }
            i += 1;
        }
        proof {
            lemma_count_init(n as nat, Phase::Running);
            lemma_count_init(n as nat, Phase::Settled);
        }
        Scheduler { limit, phases, running: 0, settled: 0 }
    }

    /// How many tasks there are in all.
    pub fn total(&self) -> (r: usize)
        ensures
            r == self.phases@.len(),
    {
        self.phases.len()
    }

    /// Whether task `t` can be admitted now: it is queued and a slot is free.
    pub fn can_start(&self, t: usize) -> (r: bool)
        requires
            self.wf(),
        ensures
            r == sched_enabled(
                self.limit as nat,
                self.phases@,
                SchedEvent::Start { task: t },
            ),
    {
        t < self.phases.len() && matches!(self.phases[t], Phase::Queued) && self.running
            < self.limit
    }

    /// Admits task `t` to a slot.
    pub fn start_task(&mut self, t: usize)
        requires
            old(self).wf(),
            sched_enabled(old(self).limit as nat, old(self).phases@, SchedEvent::Start { task: t }),
        ensures
            final(self).wf(),
            final(self).limit == old(self).limit,
            final(self).phases@ == sched_apply(old(self).phases@, SchedEvent::Start { task: t }),
            final(self).running == old(self).running + 1,
            final(self).settled == old(self).settled,
    {
        proof {
            lemma_count_update(self.phases@, t as int, Phase::Running, Phase::Running);
            lemma_count_update(self.phases@, t as int, Phase::Running, Phase::Settled);
        }
        self.phases.set(t, Phase::Running);
        self.running += 1;
    }

    /// Records that task `t` has produced its one report, releasing its slot.
    pub fn settle_task(&mut self, t: usize)
        requires
            old(self).wf(),
            sched_enabled(
                old(self).limit as nat,
                old(self).phases@,
                SchedEvent::Settle { task: t },
            ),
        ensures
            final(self).wf(),
            final(self).limit == old(self).limit,
            final(self).phases@ == sched_apply(old(self).phases@, SchedEvent::Settle { task: t }),
            final(self).running == old(self).running - 1,
            final(self).settled == old(self).settled + 1,
    {
        let n = self.phases.len();
        proof {
            lemma_count_update(self.phases@, t as int, Phase::Settled, Phase::Running);
            lemma_count_update(self.phases@, t as int, Phase::Settled, Phase::Settled);
            lemma_count_at_least_one(self.phases@, t as int, Phase::Running);
            lemma_counts_total(self.phases@);
            assert(self.settled < n);
        }
        self.phases.set(t, Phase::Settled);
        self.running -= 1;
        self.settled += 1;
    }

    /// Whether every task has settled.
    pub fn is_complete(&self) -> (r: bool)
        requires
            self.wf(),
        ensures
            r == (self.settled == self.phases@.len()),
    {
        self.settled == self.phases.len()
    }
}

/// Validity is inherited by every prefix of a valid event sequence.
pub proof fn lemma_valid_prefix(limit: nat, phases: Seq<Phase>, events: Seq<SchedEvent>, k: int)
    requires
        sched_valid(limit, phases, events),
        0 <= k <= events.len(),
    ensures
        sched_valid(limit, phases, events.take(k)),
    decreases events.len(),
{
    if k == events.len() {
        assert(events.take(k) =~= events);
    } else {
        assert(events.drop_last().take(k) =~= events.take(k));
        lemma_valid_prefix(limit, phases, events.drop_last(), k);
    }
}

proof fn lemma_running_bounded_from(limit: nat, phases: Seq<Phase>, events: Seq<SchedEvent>)
    requires
        sched_valid(limit, phases, events),
        count_in(phases, Phase::Running) <= limit,
    ensures
        count_in(sched_run(phases, events), Phase::Running) <= limit,
    decreases events.len(),
{
    if events.len() > 0 {
        lemma_running_bounded_from(limit, phases, events.drop_last());
        let before = sched_run(phases, events.drop_last());
        match events.last() {
            SchedEvent::Start { task } => {
                lemma_count_update(before, task as int, Phase::Running, Phase::Running);
            },
            SchedEvent::Settle { task } => {
                lemma_count_update(before, task as int, Phase::Settled, Phase::Running);
            },
        }
    }
}

/// For all N tasks run under concurrency limit C, at no point of a valid
/// schedule do more than C tasks run at once.
pub proof fn lemma_concurrency_bounded(limit: nat, n: nat, events: Seq<SchedEvent>, k: int)
    requires
        sched_valid(limit, init_phases(n), events),
        0 <= k <= events.len(),
    ensures
        count_in(sched_run(init_phases(n), events.take(k)), Phase::Running) <= limit,
{
    lemma_valid_prefix(limit, init_phases(n), events, k);
    lemma_count_init(n, Phase::Running);
    lemma_running_bounded_from(limit, init_phases(n), events.take(k));
}

proof fn lemma_task_accounting(limit: nat, n: nat, events: Seq<SchedEvent>, t: usize)
    requires
        t < n,
        sched_valid(limit, init_phases(n), events),
    ensures
        sched_run(init_phases(n), events).len() == n,
        ({
            let ph = sched_run(init_phases(n), events)[t as int];
            let starts = count_event(events, SchedEvent::Start { task: t });
            let settles = count_event(events, SchedEvent::Settle { task: t });
            &&& ph is Queued ==> starts == 0 && settles == 0
            &&& ph is Running ==> starts == 1 && settles == 0
            &&& ph is Settled ==> starts == 1 && settles == 1
        }),
    decreases events.len(),
{
    if events.len() > 0 {
        lemma_task_accounting(limit, n, events.drop_last(), t);
    }
}

/// Every task settles at most once in a valid schedule, and exactly once
/// when it has reached the settled phase.
pub proof fn lemma_exactly_one_report(limit: nat, n: nat, events: Seq<SchedEvent>, t: usize)
    requires
        t < n,
        sched_valid(limit, init_phases(n), events),
    ensures
        count_event(events, SchedEvent::Settle { task: t }) <= 1,
        (sched_run(init_phases(n), events)[t as int] is Settled) <==> count_event(
            events,
            SchedEvent::Settle { task: t },
        ) == 1,
{
    lemma_task_accounting(limit, n, events, t);
}

proof fn lemma_all_settled(phases: Seq<Phase>)
    requires
        count_in(phases, Phase::Settled) == phases.len(),
    ensures
        forall|i: int| 0 <= i < phases.len() ==> phases[i] is Settled,
    decreases phases.len(),
{
    if phases.len() > 0 {
        lemma_count_le_len(phases.drop_last(), Phase::Settled);
        lemma_all_settled(phases.drop_last());
        assert forall|i: int| 0 <= i < phases.len() implies phases[i] is Settled by {
            if i < phases.len() - 1 {
                assert(phases.drop_last()[i] == phases[i]);
            }
        }
    }
}

/// When a valid schedule ends with every task settled, each of the N tasks
/// was reported exactly once: never zero, never two.
pub proof fn lemma_complete_schedule_reports_once(limit: nat, n: nat, events: Seq<SchedEvent>)
    requires
        sched_valid(limit, init_phases(n), events),
        count_in(sched_run(init_phases(n), events), Phase::Settled) == n,
    ensures
        forall|t: usize|
            t < n ==> count_event(events, SchedEvent::Settle { task: t }) == 1,
{
    let end = sched_run(init_phases(n), events);
    lemma_run_len(limit, init_phases(n), events);
    lemma_all_settled(end);
    assert forall|t: usize| t < n implies count_event(
        events,
        SchedEvent::Settle { task: t },
    ) == 1 by {
        lemma_exactly_one_report(limit, n, events, t);
    }
}

proof fn lemma_count_pos_exists(phases: Seq<Phase>, p: Phase)
    requires
        count_in(phases, p) > 0,
    ensures
        exists|i: int| 0 <= i < phases.len() && phases[i] == p,
    decreases phases.len(),
{
    if phases.last() != p {
        lemma_count_pos_exists(phases.drop_last(), p);
        let i = choose|i: int|
            0 <= i < phases.drop_last().len() && phases.drop_last()[i] == p;
        assert(phases[i] == p);
    } else {
        assert(phases[phases.len() - 1] == p);
    }
}

/// The scheduler cannot deadlock: in any valid schedule that has not yet
/// settled all N tasks, some event is enabled — a running task can settle,
/// whatever its outcome, and otherwise a queued task fits in a free slot.
pub proof fn lemma_no_deadlock(limit: nat, n: nat, events: Seq<SchedEvent>)
    requires
        1 <= limit,
        n <= usize::MAX,
        sched_valid(limit, init_phases(n), events),
        count_in(sched_run(init_phases(n), events), Phase::Settled) < n,
    ensures
        exists|e: SchedEvent|
            sched_enabled(limit, sched_run(init_phases(n), events), e),
{
    let ph = sched_run(init_phases(n), events);
    lemma_run_len(limit, init_phases(n), events);
    lemma_counts_total(ph);
    if count_in(ph, Phase::Running) > 0 {
        lemma_count_pos_exists(ph, Phase::Running);
        let i = choose|i: int| 0 <= i < ph.len() && ph[i] == Phase::Running;
        assert(sched_enabled(limit, ph, SchedEvent::Settle { task: i as usize }));
    } else {
        lemma_count_pos_exists(ph, Phase::Queued);
        let i = choose|i: int| 0 <= i < ph.len() && ph[i] == Phase::Queued;
        assert(sched_enabled(limit, ph, SchedEvent::Start { task: i as usize }));
    }
}

proof fn lemma_run_len(limit: nat, phases: Seq<Phase>, events: Seq<SchedEvent>)
    requires
        sched_valid(limit, phases, events),
    ensures
        sched_run(phases, events).len() == phases.len(),
    decreases events.len(),
{
    if events.len() > 0 {
        lemma_run_len(limit, phases, events.drop_last());
    }
}

} // verus!
