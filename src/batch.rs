//! The admission gate over a batch of tasks, with the progress of each task
//! and the tally of their outcomes.
use vstd::prelude::*;
use crate::failure::Failure;

verus! {

/// Where a task stands. `Done` and `Failed` are terminal.
#[derive(Debug, Clone, Copy, PartialEq, Eq, Structural)]
pub enum TaskState {
    Queued,
    Running,
    Done,
    Failed,
}

/// How many entries of `s` are `st`.
pub open spec fn count_state(s: Seq<TaskState>, st: TaskState) -> nat
    decreases s.len(),
{
    if s.len() == 0 {
        0
    } else {
        count_state(s.drop_last(), st) + if s.last() == st {
            1nat
        } else {
            0nat
        }
    }
}

/// How many tasks have reached a terminal state.
pub open spec fn count_terminal(s: Seq<TaskState>) -> nat {
    count_state(s, TaskState::Done) + count_state(s, TaskState::Failed)
}

/// The state a running task moves to when it ends with `succeeded`.
pub open spec fn terminal_state(succeeded: bool) -> TaskState {
    if succeeded {
        TaskState::Done
    } else {
        TaskState::Failed
    }
}

/// The states after task `id` ends with `succeeded`.
pub open spec fn completion_step(s: Seq<TaskState>, id: int, succeeded: bool) -> Seq<TaskState> {
    s.update(id, terminal_state(succeeded))
}

proof fn lemma_count_update(s: Seq<TaskState>, i: int, v: TaskState, st: TaskState)
    requires
        0 <= i < s.len(),
    ensures
        count_state(s.update(i, v), st) + (if s[i] == st { 1int } else { 0int })
            == count_state(s, st) + (if v == st { 1int } else { 0int }),
    decreases s.len(),
{
    if i == s.len() - 1 {
        assert(s.update(i, v).drop_last() =~= s.drop_last());
    } else {
        lemma_count_update(s.drop_last(), i, v, st);
        assert(s.update(i, v).drop_last() =~= s.drop_last().update(i, v));
    }
}

proof fn lemma_count_partition(s: Seq<TaskState>)
    ensures
        count_state(s, TaskState::Queued) + count_state(s, TaskState::Running) + count_state(
            s,
            TaskState::Done,
        ) + count_state(s, TaskState::Failed) == s.len(),
    decreases s.len(),
{
    if s.len() > 0 {
        lemma_count_partition(s.drop_last());
    }
}

proof fn lemma_count_absent(s: Seq<TaskState>, st: TaskState)
    requires
        forall|i: int| 0 <= i < s.len() ==> s[i] != st,
    ensures
        count_state(s, st) == 0,
    decreases s.len(),
{
    if s.len() > 0 {
        lemma_count_absent(s.drop_last(), st);
    }
}

proof fn lemma_count_present(s: Seq<TaskState>, st: TaskState) -> (i: int)
    requires
        count_state(s, st) > 0,
    ensures
        0 <= i < s.len(),
        s[i] == st,
    decreases s.len(),
{
    if s.last() == st {
        s.len() - 1
    } else {
        lemma_count_present(s.drop_last(), st)
    }
}

/// The last known position of one task.
#[derive(Debug, Clone, Copy)]
pub struct TaskProgress {
    /// The task's position counter, as last reported.
    pub bytes_written: u64,
    /// The task's announced size, as last reported.
    pub expected_size: Option<u64>,
}

/// A view of the whole batch at one moment.
#[derive(Debug, Clone)]
pub struct ProgressSnapshot {
    /// The number of tasks in a terminal state.
    pub completed_count: usize,
    /// The number of tasks in the batch.
    pub total_count: usize,
    /// The last reported position of each task, by task index.
    pub entries: Vec<TaskProgress>,
}

/// The outcome of a whole batch.
#[derive(Debug, Clone)]
pub struct Tally {
    pub success_count: usize,
    pub failure_count: usize,
    /// Each failed task's index with its cause, in the order they ended.
    pub failures: Vec<(usize, Failure)>,
}

/// The success rate in tenths of a percent, rounded half up; 0 when there
/// are no tasks at all.
pub open spec fn rate_tenths(successes: nat, failures: nat) -> nat {
    let total = successes + failures;
    if total == 0 {
        0
    } else {
        (2000 * successes + total) / (2 * total)
    }
}

/// The success rate of `successes` among `successes + failures` tasks, in
/// tenths of a percent (`1000` is every task); 0 when there are no tasks.
pub fn success_rate_tenths(successes: u64, failures: u64) -> (r: u64)
    ensures
        r == rate_tenths(successes as nat, failures as nat),
        successes + failures == 0 ==> r == 0,
        r <= 1000,
{
    let total: u128 = successes as u128 + failures as u128;
    if total == 0 {
        return 0;
    }
    let num: u128 = 2000 * (successes as u128) + total;
    let den: u128 = 2 * total;
    let q: u128 = num / den;
    assert(q <= 1000) by (nonlinear_arith)
        requires
            q == num / den,
            num == 2000 * successes + total,
            den == 2 * total,
            successes <= total,
            total > 0,
    ;
    q as u64
}

impl Tally {
    /// The success rate of the batch in tenths of a percent.
    pub fn success_rate_tenths(&self) -> (r: u64)
        ensures
            r == rate_tenths(self.success_count as nat, self.failure_count as nat),
    {
        success_rate_tenths(self.success_count as u64, self.failure_count as u64)
    }
}

/// A batch of tasks, indexed from 0, run under a limit on how many are
/// running at once. Tasks are started in index order, each once; a running
/// task ends once, in success or failure, and frees its slot either way.
pub struct Batch {
    limit: usize,
    states: Vec<TaskState>,
    progress: Vec<TaskProgress>,
    failures: Vec<(usize, Failure)>,
    next: usize,
    active: usize,
    completed: usize,
    succeeded: usize,
}

impl Batch {
    pub closed spec fn spec_limit(&self) -> usize {
        self.limit
    }

    /// The state of each task, by index.
    pub closed spec fn states(&self) -> Seq<TaskState> {
        self.states@
    }

    /// The last reported position of each task, by index.
    pub closed spec fn progress(&self) -> Seq<TaskProgress> {
        self.progress@
    }

    /// The failed tasks with their causes, in the order they ended.
    pub closed spec fn failures(&self) -> Seq<(usize, Failure)> {
        self.failures@
    }

    /// The index of the next task to start.
    pub closed spec fn spec_next(&self) -> usize {
        self.next
    }

    pub closed spec fn wf(&self) -> bool {
        &&& self.limit >= 1
        &&& self.progress@.len() == self.states@.len()
        &&& self.next <= self.states@.len()
        &&& forall|i: int|
            0 <= i < self.states@.len() ==> (#[trigger] self.states@[i] == TaskState::Queued <==> i
                >= self.next)
        &&& self.active == count_state(self.states@, TaskState::Running)
        &&& self.active <= self.limit
        &&& self.completed == count_terminal(self.states@)
        &&& self.succeeded == count_state(self.states@, TaskState::Done)
        &&& self.failures@.len() == count_state(self.states@, TaskState::Failed)
    }

    /// Whether another task may start now: a slot is free and a task is queued.
    pub open spec fn can_start(&self) -> bool {
        count_state(self.states(), TaskState::Running) < self.spec_limit() && self.spec_next()
            < self.states().len()
    }

    /// Whether task `id` is running, and so may report progress or end.
    pub open spec fn is_running(&self, id: int) -> bool {
        0 <= id < self.states().len() && self.states()[id] == TaskState::Running
    }

    /// A batch of `total` queued tasks, at most `limit` of them running at once.
    pub fn new(total: usize, limit: usize) -> (r: Batch)
        requires
            limit >= 1,
        ensures
            r.wf(),
            r.spec_limit() == limit,
            r.states().len() == total,
            forall|i: int| 0 <= i < total ==> #[trigger] r.states()[i] == TaskState::Queued,
            r.spec_next() == 0,
            r.failures().len() == 0,
            count_state(r.states(), TaskState::Running) == 0,
            count_terminal(r.states()) == 0,
    {
        let mut states: Vec<TaskState> = Vec::new();
        let mut progress: Vec<TaskProgress> = Vec::new();
        let mut i: usize = 0;
        while i < total
            invariant
                i <= total,
                states@.len() == i,
                progress@.len() == i,
                forall|k: int| 0 <= k < i ==> #[trigger] states@[k] == TaskState::Queued,
            decreases total - i,
        {
            states.push(TaskState::Queued);
            progress.push(TaskProgress { bytes_written: 0, expected_size: None });
            i = i + 1;
        }
        proof {
            lemma_count_absent(states@, TaskState::Running);
            lemma_count_absent(states@, TaskState::Done);
            lemma_count_absent(states@, TaskState::Failed);
        }
        Batch {
            limit,
            states,
            progress,
            failures: Vec::new(),
            next: 0,
            active: 0,
            completed: 0,
            succeeded: 0,
        }
    }

    pub fn total(&self) -> (r: usize)
        ensures
            r == self.states().len(),
    {
        self.states.len()
    }

    pub fn limit(&self) -> (r: usize)
        ensures
            r == self.spec_limit(),
    {
        self.limit
    }

    /// The number of tasks running now.
    pub fn active_count(&self) -> (r: usize)
        requires
            self.wf(),
        ensures
            r == count_state(self.states(), TaskState::Running),
    {
        self.active
    }

    /// The number of tasks in a terminal state.
    pub fn completed_count(&self) -> (r: usize)
        requires
            self.wf(),
        ensures
            r == count_terminal(self.states()),
    {
        self.completed
    }

    /// The state of task `id`.
    pub fn state(&self, id: usize) -> (r: TaskState)
        requires
            id < self.states().len(),
        ensures
            r == self.states()[id as int],
    {
        self.states[id]
    }

    /// Whether every task has reached a terminal state.
    pub fn is_finished(&self) -> (r: bool)
        requires
            self.wf(),
        ensures
            r == (count_terminal(self.states()) == self.states().len()),
    {
        self.completed == self.states.len()
    }

    /// Admits the next queued task when a slot is free, and returns its
    /// index; returns `None`, changing nothing, when every slot is taken or
    /// no task is queued.
    pub fn start_next(&mut self) -> (r: Option<usize>)
        requires
            old(self).wf(),
        ensures
            final(self).wf(),
            r is Some <==> old(self).can_start(),
            r is None ==> *final(self) == *old(self),
            r is Some ==> {
                let i = r.unwrap() as int;
                &&& i == old(self).spec_next()
                &&& old(self).states()[i] == TaskState::Queued
                &&& final(self).states() == old(self).states().update(i, TaskState::Running)
                &&& final(self).spec_next() == old(self).spec_next() + 1
                &&& count_state(final(self).states(), TaskState::Running) == count_state(
                    old(self).states(),
                    TaskState::Running,
                ) + 1
                &&& count_terminal(final(self).states()) == count_terminal(old(self).states())
                &&& final(self).spec_limit() == old(self).spec_limit()
                &&& final(self).progress() == old(self).progress()
                &&& final(self).failures() == old(self).failures()
            },
    {
        if self.active >= self.limit || self.next >= self.states.len() {
            return None;
        }
        let i = self.next;
        let ghost s0 = self.states@;
        proof {
            lemma_count_update(s0, i as int, TaskState::Running, TaskState::Running);
            lemma_count_update(s0, i as int, TaskState::Running, TaskState::Done);
            lemma_count_update(s0, i as int, TaskState::Running, TaskState::Failed);
        }
        self.states.set(i, TaskState::Running);
        self.next = i + 1;
        self.active = self.active + 1;
        Some(i)
    }

    /// Records the progress of running task `id`; returns whether it was
    /// recorded. Only that task's entry changes; a task that is not running
    /// changes nothing.
    pub fn record_progress(&mut self, id: usize, bytes_written: u64, expected_size: Option<u64>) -> (r: bool)
        requires
            old(self).wf(),
        ensures
            final(self).wf(),
            r == old(self).is_running(id as int),
            !r ==> *final(self) == *old(self),
            r ==> final(self).progress() == old(self).progress().update(
                id as int,
                (TaskProgress { bytes_written, expected_size }),
            ),
            final(self).states() == old(self).states(),
            final(self).spec_next() == old(self).spec_next(),
            final(self).spec_limit() == old(self).spec_limit(),
            final(self).failures() == old(self).failures(),
    {
        if id >= self.states.len() || self.states[id] != TaskState::Running {
            return false;
        }
        self.progress.set(id, TaskProgress { bytes_written, expected_size });
        true
    }

    /// Ends running task `id` with `outcome`: it becomes `Done` or `Failed`,
    /// its slot is freed, and a failure's cause is kept for the tally.
    /// Returns whether it ended; a task that is not running changes nothing,
    /// so no task ends twice. No other task's state changes.
    pub fn complete(&mut self, id: usize, outcome: Result<(), Failure>) -> (r: bool)
        requires
            old(self).wf(),
        ensures
            final(self).wf(),
            r == old(self).is_running(id as int),
            !r ==> *final(self) == *old(self),
            r ==> final(self).states() == completion_step(old(self).states(), id as int, outcome is Ok),
            r ==> count_state(final(self).states(), TaskState::Running) + 1 == count_state(
                old(self).states(),
                TaskState::Running,
            ),
            r ==> count_terminal(final(self).states()) == count_terminal(old(self).states()) + 1,
            r ==> forall|j: int|
                0 <= j < old(self).states().len() && j != id ==> #[trigger] final(self).states()[j]
                    == old(self).states()[j],
            r ==> final(self).failures() == match outcome {
                Ok(_) => old(self).failures(),
                Err(e) => old(self).failures().push((id, e)),
            },
            final(self).spec_next() == old(self).spec_next(),
            final(self).spec_limit() == old(self).spec_limit(),
            final(self).progress() == old(self).progress(),
    {
        if id >= self.states.len() || self.states[id] != TaskState::Running {
            return false;
        }
        let ghost s0 = self.states@;
        let v = match outcome {
            Ok(_) => TaskState::Done,
            Err(_) => TaskState::Failed,
        };
        proof {
            lemma_count_update(s0, id as int, v, TaskState::Running);
            lemma_count_update(s0, id as int, v, TaskState::Done);
            lemma_count_update(s0, id as int, v, TaskState::Failed);
            lemma_count_partition(s0.update(id as int, v));
        }
        self.states.set(id, v);
        self.active = self.active - 1;
        self.completed = self.completed + 1;
        match outcome {
            Ok(_) => {
                self.succeeded = self.succeeded + 1;
            },
            Err(e) => {
                self.failures.push((id, e));
            },
        }
        true
    }

    /// The current view of the batch: the completed count is exactly the
    /// number of tasks in a terminal state.
    pub fn snapshot(&self) -> (r: ProgressSnapshot)
        requires
            self.wf(),
        ensures
            r.completed_count == count_terminal(self.states()),
            r.total_count == self.states().len(),
            r.entries@ == self.progress(),
    {
        let mut entries: Vec<TaskProgress> = Vec::new();
        let mut i: usize = 0;
        while i < self.progress.len()
            invariant
                i <= self.progress@.len(),
                entries@ == self.progress@.take(i as int),
            decreases self.progress@.len() - i,
        {
            entries.push(self.progress[i]);
            i = i + 1;
            proof {
                assert(entries@ =~= self.progress@.take(i as int));
            }
        }
        assert(self.progress@.take(i as int) =~= self.progress@);
        ProgressSnapshot { completed_count: self.completed, total_count: self.states.len(), entries }
    }

    /// The tally, once every task has reached a terminal state; otherwise
    /// the batch comes back unchanged.
    pub fn into_tally(self) -> (r: Result<Tally, Batch>)
        requires
            self.wf(),
        ensures
            r is Ok <==> count_terminal(self.states()) == self.states().len(),
            r is Err ==> r->Err_0 == self,
            r is Ok ==> {
                let t = r->Ok_0;
                &&& t.success_count == count_state(self.states(), TaskState::Done)
                &&& t.failure_count == count_state(self.states(), TaskState::Failed)
                &&& t.success_count + t.failure_count == self.states().len()
                &&& t.failures@ == self.failures()
            },
    {
        if self.completed != self.states.len() {
            return Err(self);
        }
        let failure_count = self.failures.len();
        Ok(Tally { success_count: self.succeeded, failure_count, failures: self.failures })
    }
}

/// The admission gate holds: however the batch was driven, no more tasks
/// are running than the limit allows.
pub proof fn lemma_active_within_limit(b: Batch)
    requires
        b.wf(),
    ensures
        count_state(b.states(), TaskState::Running) <= b.spec_limit(),
{
}

/// Each task is started once: the tasks before the next index have all
/// left the queue, those from it on have never been started.
pub proof fn lemma_started_once(b: Batch, i: int)
    requires
        b.wf(),
        0 <= i < b.states().len(),
    ensures
        i < b.spec_next() <==> b.states()[i] != TaskState::Queued,
{
}

/// A terminal state is final: a task that has ended cannot end again nor
/// report progress, and only a queued task can be started.
pub proof fn lemma_terminal_is_final(b: Batch, id: int)
    requires
        b.wf(),
        0 <= id < b.states().len(),
        b.states()[id] == TaskState::Done || b.states()[id] == TaskState::Failed,
    ensures
        !b.is_running(id),
        b.can_start() ==> b.states()[b.spec_next() as int] == TaskState::Queued,
{
}

/// The batch never gets stuck: until every task has ended, either another
/// task can be started or some task is running and will end.
pub proof fn lemma_never_stuck(b: Batch) -> (running: Option<int>)
    requires
        b.wf(),
        count_terminal(b.states()) < b.states().len(),
    ensures
        b.can_start() || running is Some,
        running is Some ==> b.is_running(running.unwrap()),
{
    lemma_count_partition(b.states());
    if count_state(b.states(), TaskState::Running) > 0 {
        Some(lemma_count_present(b.states(), TaskState::Running))
    } else {
        if b.spec_next() >= b.states().len() {
            let q = lemma_count_present(b.states(), TaskState::Queued);
            assert(b.states()[q] == TaskState::Queued);
        }
        None
    }
}

/// Failures are isolated: how one task ends changes no other task's state,
/// and another task's outcome is the same whichever way that one ended.
pub proof fn lemma_failure_isolated(s: Seq<TaskState>, id: int, j: int)
    requires
        0 <= id < s.len(),
        0 <= j < s.len(),
        j != id,
    ensures
        completion_step(s, id, false)[j] == s[j],
        completion_step(s, id, true)[j] == completion_step(s, id, false)[j],
{
}

/// The completed count moves with the tasks: a task that ends adds exactly
/// one to the number of tasks in a terminal state, and a task that starts
/// adds none.
pub proof fn lemma_completion_counts_once(s: Seq<TaskState>, id: int, succeeded: bool)
    requires
        0 <= id < s.len(),
        s[id] == TaskState::Running,
    ensures
        count_terminal(completion_step(s, id, succeeded)) == count_terminal(s) + 1,
        count_terminal(s.update(id, TaskState::Running)) == count_terminal(s),
{
    let v = terminal_state(succeeded);
    lemma_count_update(s, id, v, TaskState::Done);
    lemma_count_update(s, id, v, TaskState::Failed);
    lemma_count_update(s, id, TaskState::Running, TaskState::Done);
    lemma_count_update(s, id, TaskState::Running, TaskState::Failed);
}

} // verus!
