//! The task queue and the worker protocol.
//!
//! [`PythonTaskQueue`] is the shared FIFO of submitted work. Producers append
//! with [`enqueue`](PythonTaskQueue::enqueue) and block on the returned
//! receiver; the single worker empties the queue with
//! [`drain_batch`](PythonTaskQueue::drain_batch), executing strictly in
//! enqueue order and sending each task's outcome on that task's own channel.
//! Each queued task carries a *ticket*, its position in the enqueue order;
//! tickets make the FIFO and exactly-once guarantees statable: they ascend
//! along the queue, never repeat, and the worker's drain log carries each
//! pending ticket exactly once, in order.
//!
//! The embedding application supplies what cannot stand here: the mutex
//! around the shared queue, the worker thread, and the exclusive execution
//! context itself. It drives the worker loop with [`worker_step`] and runs
//! tasks through the closure it hands to `drain_batch` — or, to keep the
//! queue lock free during execution, one task at a time with
//! [`dequeue`](PythonTaskQueue::dequeue) and
//! [`complete_task`](PythonTaskQueue::complete_task) — holding the
//! exclusive context for the whole batch either way.

use vstd::prelude::*;

use crate::python_pool::host::open_result_channel;
use crate::python_pool::host::receive_outcome;
use crate::python_pool::host::send_outcome;
use crate::python_pool::values::MyResult;
use crate::python_pool::values::PythonTaskContext;
use crate::python_pool::values::PythonTaskError;
use crate::python_pool::values::PythonTaskResult;
use crate::python_pool::values::duplicate_outcome;

verus! {

/// How long the worker sleeps, in milliseconds, between polls of an empty
/// queue.
pub const IDLE_POLL_MILLIS: u64 = 100;

/// Exclusive upper bound, in milliseconds, on a producer's randomized
/// backoff when the queue lock is contended.
pub const ENQUEUE_BACKOFF_CAP_MILLIS: u64 = 1000;

/// Exclusive upper bound, in milliseconds, on the worker's randomized
/// backoff when the queue lock is contended.
pub const WORKER_BACKOFF_CAP_MILLIS: u64 = 100;

/// A randomized delay below `cap` milliseconds, for retrying a contended
/// lock without convoying the retriers.
pub fn lock_backoff_millis(cap: u64) -> (delay: u64)
    requires
        cap > 0,
    ensures
        delay < cap,
{
    let draw: u64 = rand::random::<u64>();
    draw % cap
}

/// The behaviours shared by task queues.
pub trait TaskQueue {
}

/// One queued unit of work, paired with the channel its result must travel
/// on and with its place in the enqueue order.
pub struct PendingTask<T> {
    /// The caller-supplied work item, opaque to the queue.
    pub payload: T,
    /// The structured input handed to the work when it runs.
    pub context: PythonTaskContext,
    /// The sending half of the result channel made at enqueue time.
    pub sender: std::sync::mpsc::Sender<MyResult<PythonTaskResult>>,
    /// The slot's position in the enqueue order.
    pub ticket: u64,
}

/// A FIFO of submitted tasks awaiting the worker.
pub struct PythonTaskQueue<T> {
    tasks: std::collections::VecDeque<PendingTask<T>>,
    next_ticket: u64,
}

impl<T> TaskQueue for PythonTaskQueue<T> {
}

/// The worker's record of one executed task.
pub struct TaskCompletion {
    /// The ticket of the task that ran.
    pub ticket: u64,
    /// The outcome, as converted for delivery.
    pub outcome: MyResult<PythonTaskResult>,
    /// Whether the caller's receiver was still there to take the outcome.
    pub delivered: bool,
}

/// The worker's conversion of a raw execution outcome: a failure raised
/// inside the exclusive context becomes `PythonError` carrying its
/// diagnostic, and a produced value passes through untouched.
pub open spec fn converted_outcome(raw: Result<PythonTaskResult, String>) -> MyResult<
    PythonTaskResult,
> {
    match raw {
        Ok(value) => Ok(value),
        Err(message) => Err(PythonTaskError::PythonError(message)),
    }
}

/// Converts a raw execution outcome for delivery, exactly as
/// [`converted_outcome`] says.
pub fn finish_outcome(raw: Result<PythonTaskResult, String>) -> (outcome: MyResult<
    PythonTaskResult,
>)
    ensures
        outcome == converted_outcome(raw),
{
    match raw {
        Ok(value) => Ok(value),
        Err(message) => Err(PythonTaskError::PythonError(message)),
    }
}

impl<T> PythonTaskQueue<T> {
    /// The queued tasks, head — the next to run — first.
    pub closed spec fn pending(self) -> Seq<PendingTask<T>> {
        self.tasks@
    }

    /// How many tickets have ever been issued; equally, how many enqueues
    /// have completed over the queue's lifetime.
    pub closed spec fn issued(self) -> u64 {
        self.next_ticket
    }

    /// The queue's invariant: tickets ascend strictly along the queue, and
    /// every queued ticket was issued.
    pub closed spec fn wf(self) -> bool {
        &&& forall|i: int, j: int|
            0 <= i < j < self.tasks@.len() ==> self.tasks@[i].ticket < self.tasks@[j].ticket
        &&& forall|i: int| 0 <= i < self.tasks@.len() ==> self.tasks@[i].ticket < self.next_ticket
    }

    /// Creates a new empty queue.
    pub fn new() -> (queue: Self)
        ensures
            queue.wf(),
            queue.pending().len() == 0,
            queue.issued() == 0,
    {
        PythonTaskQueue { tasks: std::collections::VecDeque::new(), next_ticket: 0 }
    }

    /// How many tasks are pending.
    pub fn len(&self) -> (count: usize)
        ensures
            count == self.pending().len(),
    {
        self.tasks.len()
    }

    /// How many tickets have been issued so far.
    pub fn tickets_issued(&self) -> (count: u64)
        ensures
            count == self.issued(),
    {
        self.next_ticket
    }

    /// Appends a task to the tail of the queue and returns the receiving
    /// half of its freshly created result channel. The task is recorded
    /// under the next ticket; everything already queued is untouched.
    pub fn enqueue(&mut self, task: T, context: PythonTaskContext) -> (receiver:
        std::sync::mpsc::Receiver<MyResult<PythonTaskResult>>)
        requires
            old(self).wf(),
            old(self).issued() < u64::MAX,
        ensures
            final(self).wf(),
            final(self).issued() == old(self).issued() + 1,
            final(self).pending().len() == old(self).pending().len() + 1,
            forall|i: int|
                0 <= i < old(self).pending().len() ==> final(self).pending()[i] == old(
                    self,
                ).pending()[i],
            final(self).pending().last().payload == task,
            final(self).pending().last().context == context,
            final(self).pending().last().ticket == old(self).issued(),
    {
        let (sender, receiver) = open_result_channel();
        let ticket = self.next_ticket;
        self.next_ticket = self.next_ticket + 1;
        self.tasks.push_back(PendingTask { payload: task, context, sender, ticket });
        receiver
    }

    /// Pops the head task, if any, handing its whole queue slot — payload,
    /// context, result channel and ticket — to the worker. The rest of the
    /// queue is untouched.
    pub fn dequeue(&mut self) -> (head: Option<PendingTask<T>>)
        requires
            old(self).wf(),
        ensures
            final(self).wf(),
            final(self).issued() == old(self).issued(),
            old(self).pending().len() == 0 ==> head is None && final(self).pending() == old(
                self,
            ).pending(),
            old(self).pending().len() > 0 ==> {
                &&& head == Some(old(self).pending()[0])
                &&& final(self).pending() =~= old(self).pending().drop_first()
            },
    {
        self.tasks.pop_front()
    }

    /// Runs one dequeued task: invokes `execute` on the task's payload and
    /// input context, converts the outcome as [`converted_outcome`] says,
    /// sends a copy of it on the task's own result channel — tolerating a
    /// caller that has already dropped its receiver — and reports what
    /// happened under the task's ticket.
    pub fn complete_task<F: Fn(&T, &PythonTaskContext) -> Result<PythonTaskResult, String>>(
        entry: PendingTask<T>,
        execute: &F,
    ) -> (completion: TaskCompletion)
        requires
            call_requires(*execute, (&entry.payload, &entry.context)),
        ensures
            completion.ticket == entry.ticket,
            exists|raw: Result<PythonTaskResult, String>|
                call_ensures(*execute, (&entry.payload, &entry.context), raw)
                    && completion.outcome == converted_outcome(raw),
    {
        let raw = execute(&entry.payload, &entry.context);
        let outcome = finish_outcome(raw);
        let copy = duplicate_outcome(&outcome);
        let delivered = send_outcome(&entry.sender, copy);
        TaskCompletion { ticket: entry.ticket, outcome, delivered }
    }

    /// Pops and runs the head task, if any: one [`dequeue`](Self::dequeue)
    /// followed by one [`complete_task`](Self::complete_task). The rest of
    /// the queue is untouched.
    pub fn execute_head<F: Fn(&T, &PythonTaskContext) -> Result<PythonTaskResult, String>>(
        &mut self,
        execute: &F,
    ) -> (report: Option<TaskCompletion>)
        requires
            old(self).wf(),
            old(self).pending().len() > 0 ==> call_requires(
                *execute,
                (&old(self).pending()[0].payload, &old(self).pending()[0].context),
            ),
        ensures
            final(self).wf(),
            final(self).issued() == old(self).issued(),
            old(self).pending().len() == 0 ==> report is None && final(self).pending() == old(
                self,
            ).pending(),
            old(self).pending().len() > 0 ==> {
                &&& report matches Some(completion)
                &&& final(self).pending() =~= old(self).pending().drop_first()
                &&& completion.ticket == old(self).pending()[0].ticket
                &&& exists|raw: Result<PythonTaskResult, String>|
                    call_ensures(
                        *execute,
                        (&old(self).pending()[0].payload, &old(self).pending()[0].context),
                        raw,
                    ) && completion.outcome == converted_outcome(raw)
            },
    {
        match self.dequeue() {
            None => None,
            Some(entry) => Some(Self::complete_task(entry, execute)),
        }
    }

    /// Empties the queue, running every pending task in FIFO order through
    /// `execute` and sending each task's converted outcome on that task's
    /// own channel. The log pairs every pending ticket, in order, with the
    /// outcome that was delivered for it: no task is lost, duplicated or
    /// reordered, and one task's failure or undeliverable result never
    /// touches another's.
    #[verifier::loop_isolation(false)]
    pub fn drain_batch<F: Fn(&T, &PythonTaskContext) -> Result<PythonTaskResult, String>>(
        &mut self,
        execute: F,
    ) -> (log: Vec<TaskCompletion>)
        requires
            old(self).wf(),
            forall|i: int|
                0 <= i < old(self).pending().len() ==> call_requires(
                    execute,
                    (&old(self).pending()[i].payload, &old(self).pending()[i].context),
                ),
        ensures
            final(self).wf(),
            final(self).issued() == old(self).issued(),
            final(self).pending().len() == 0,
            log@.len() == old(self).pending().len(),
            forall|i: int| 0 <= i < log@.len() ==> log@[i].ticket == old(self).pending()[i].ticket,
            forall|i: int| #![trigger log@[i]]
                0 <= i < log@.len() ==> exists|raw: Result<PythonTaskResult, String>|
                    call_ensures(
                        execute,
                        (&old(self).pending()[i].payload, &old(self).pending()[i].context),
                        raw,
                    ) && log@[i].outcome == converted_outcome(raw),
    {
        let ghost original = self.pending();
        let mut log: Vec<TaskCompletion> = Vec::new();
        while self.len() > 0
            invariant
                self.wf(),
                self.issued() == old(self).issued(),
                log@.len() + self.pending().len() == original.len(),
                forall|k: int|
                    0 <= k < self.pending().len() ==> self.pending()[k] == original[log@.len() + k],
                forall|i: int| 0 <= i < log@.len() ==> log@[i].ticket == original[i].ticket,
                forall|i: int| #![trigger log@[i]]
                    0 <= i < log@.len() ==> exists|raw: Result<PythonTaskResult, String>|
                        call_ensures(
                            execute,
                            (&original[i].payload, &original[i].context),
                            raw,
                        ) && log@[i].outcome == converted_outcome(raw),
            decreases self.pending().len(),
        {
            let report = self.execute_head(&execute);
            if let Some(completion) = report {
                log.push(completion);
            } else {
                proof {
                    assert(false);
                }
            }
        }
        log
    }

    /// Blocks on a task's result channel until the worker's outcome arrives
    /// or the channel disconnects, and resolves the observation as
    /// [`resolved_observation`] says: a disconnection is surfaced as an
    /// `OtherError`, never a hang on a value that cannot come.
    pub fn wait_for_result(receiver: std::sync::mpsc::Receiver<MyResult<PythonTaskResult>>) -> (
        outcome: MyResult<PythonTaskResult>)
        ensures
            exists|observed: Option<MyResult<PythonTaskResult>>|
                resolved_observation(observed, outcome),
    {
        let observed = receive_outcome(&receiver);
        resolve_received(observed)
    }
}

/// What waiting on a result channel yields for each possible observation: a
/// delivered outcome passes through untouched, and a disconnection — every
/// sending half dropped without a send — becomes an `OtherError` naming the
/// failure.
pub open spec fn resolved_observation(
    observed: Option<MyResult<PythonTaskResult>>,
    outcome: MyResult<PythonTaskResult>,
) -> bool {
    match observed {
        Some(delivered) => outcome == delivered,
        None => {
            &&& outcome matches Err(PythonTaskError::OtherError(message))
            &&& message@
                == "Failed to receive result from worker thread due to: receiving on an empty and disconnected channel."@
        },
    }
}

/// Resolves one observation of a result channel, exactly as
/// [`resolved_observation`] says.
pub fn resolve_received(observed: Option<MyResult<PythonTaskResult>>) -> (outcome: MyResult<
    PythonTaskResult,
>)
    ensures
        resolved_observation(observed, outcome),
{
    match observed {
        Some(delivered) => delivered,
        None => Err(
            PythonTaskError::OtherError(
                String::from_str(
                    "Failed to receive result from worker thread due to: receiving on an empty and disconnected channel.",
                ),
            ),
        ),
    }
}

/// The worker's two states: waiting for work, or holding the exclusive
/// context while the queue empties.
#[derive(Clone, Copy, PartialEq, Eq, Structural, Debug)]
pub enum WorkerState {
    /// The queue was last seen empty; the worker is between polls.
    Idle,
    /// The queue was seen non-empty; the worker holds the exclusive context
    /// until it has drained.
    Draining,
}

/// What the worker must do next.
#[derive(Clone, Copy, PartialEq, Eq, Structural, Debug)]
pub enum WorkerAction {
    /// Sleep this many milliseconds, then poll again.
    SleepMillis(u64),
    /// Enter the exclusive context; a drain is beginning.
    AcquireContext,
    /// Run the task at the head of the queue.
    ExecuteHead,
    /// Leave the exclusive context; the drain is over.
    ReleaseContext,
}

/// The worker's transition function: from its state and the pending count it
/// was told, to its next state and the one action to take. Idle with an
/// empty queue polls again after a bounded sleep; work begins a drain; the
/// drain executes head tasks until the queue is seen empty, and only then is
/// the exclusive context released.
pub fn worker_step(state: WorkerState, pending_count: usize) -> (step: (WorkerState, WorkerAction))
    ensures
        state is Idle && pending_count == 0 ==> step == (
            WorkerState::Idle,
            WorkerAction::SleepMillis(IDLE_POLL_MILLIS),
        ),
        state is Idle && pending_count > 0 ==> step == (
            WorkerState::Draining,
            WorkerAction::AcquireContext,
        ),
        state is Draining && pending_count > 0 ==> step == (
            WorkerState::Draining,
            WorkerAction::ExecuteHead,
        ),
        state is Draining && pending_count == 0 ==> step == (
            WorkerState::Idle,
            WorkerAction::ReleaseContext,
        ),
{
    match state {
        WorkerState::Idle => {
            if pending_count == 0 {
                (WorkerState::Idle, WorkerAction::SleepMillis(IDLE_POLL_MILLIS))
            } else {
                (WorkerState::Draining, WorkerAction::AcquireContext)
            }
        },
        WorkerState::Draining => {
            if pending_count > 0 {
                (WorkerState::Draining, WorkerAction::ExecuteHead)
            } else {
                (WorkerState::Idle, WorkerAction::ReleaseContext)
            }
        },
    }
}

/// Tasks enqueued earlier stand earlier in the queue: tickets ascend
/// strictly along it, so the worker, which always takes the head, runs
/// tasks in enqueue order.
pub proof fn lemma_fifo_order<T>(queue: PythonTaskQueue<T>)
    requires
        queue.wf(),
    ensures
        forall|i: int, j: int|
            0 <= i < j < queue.pending().len() ==> queue.pending()[i].ticket
                < queue.pending()[j].ticket,
{
}

/// No queued task is duplicated: no two queue slots carry the same ticket.
pub proof fn lemma_tickets_distinct<T>(queue: PythonTaskQueue<T>)
    requires
        queue.wf(),
    ensures
        forall|i: int, j: int|
            0 <= i < queue.pending().len() && 0 <= j < queue.pending().len() && i != j
                ==> queue.pending()[i].ticket != queue.pending()[j].ticket,
{
}

/// No duplication, no loss: a drain log that pairs the pending tickets in
/// order — as the contract of [`drain_batch`](PythonTaskQueue::drain_batch)
/// guarantees — carries one completion per submitted task and never two for
/// the same ticket, so each caller's channel is sent at most one outcome,
/// namely its own.
pub proof fn lemma_exactly_once_delivery<T>(queue: PythonTaskQueue<T>, log: Seq<TaskCompletion>)
    requires
        queue.wf(),
        log.len() == queue.pending().len(),
        forall|i: int| 0 <= i < log.len() ==> log[i].ticket == queue.pending()[i].ticket,
    ensures
        forall|i: int, j: int|
            0 <= i < log.len() && 0 <= j < log.len() && i != j ==> log[i].ticket != log[j].ticket,
{
    lemma_tickets_distinct(queue);
}

/// Error isolation: in any drain log — anything satisfying the contract of
/// [`drain_batch`](PythonTaskQueue::drain_batch) — a task whose callable can
/// only fail is delivered a `PythonError` carrying the callable's own
/// diagnostic, while every other task is still delivered exactly the
/// conversion of its own callable's outcome: one task's failure never
/// touches another's result.
pub proof fn lemma_error_isolation<
    T,
    F: Fn(&T, &PythonTaskContext) -> Result<PythonTaskResult, String>,
>(
    execute: F,
    pending: Seq<PendingTask<T>>,
    log: Seq<TaskCompletion>,
    i: int,
    j: int,
)
    requires
        0 <= i < log.len(),
        0 <= j < log.len(),
        i != j,
        log.len() == pending.len(),
        forall|k: int| #![trigger log[k]]
            0 <= k < log.len() ==> exists|raw: Result<PythonTaskResult, String>|
                call_ensures(execute, (&pending[k].payload, &pending[k].context), raw)
                    && log[k].outcome == converted_outcome(raw),
        forall|raw: Result<PythonTaskResult, String>|
            call_ensures(execute, (&pending[i].payload, &pending[i].context), raw) ==> raw is Err,
    ensures
        log[i].outcome matches Err(PythonTaskError::PythonError(_)),
        exists|raw: Result<PythonTaskResult, String>|
            call_ensures(execute, (&pending[j].payload, &pending[j].context), raw) && log[j].outcome
                == converted_outcome(raw),
{
    let raw_i = choose|raw: Result<PythonTaskResult, String>|
        call_ensures(execute, (&pending[i].payload, &pending[i].context), raw) && log[i].outcome
            == converted_outcome(raw);
    assert(raw_i is Err);
}

/// Every queued ticket was issued, so the ticket an enqueue is about to
/// issue is fresh: it collides with nothing already queued.
pub proof fn lemma_next_ticket_fresh<T>(queue: PythonTaskQueue<T>)
    requires
        queue.wf(),
    ensures
        forall|i: int|
            0 <= i < queue.pending().len() ==> queue.pending()[i].ticket < queue.issued(),
{
}

} // verus!
