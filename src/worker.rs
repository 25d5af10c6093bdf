use crate::database::{has_issue, issue_index, Database, DatabaseView};
use crate::delivery_queue::{
    has_task, ready, retried, task_index, TaskClaim, TaskView, LATEST_TIME, MAX_RETRIES,
};
use crate::idempotency::kept_at;
use crate::subscriber_email::{email_accepted, SubscriberEmail};
use vstd::prelude::*;

verus! {

broadcast use crate::database::lemma_view_is_tables;

/// Seconds the worker waits before polling again after an empty queue.
pub const EMPTY_QUEUE_DELAY_SECS: u64 = 10;

/// Seconds the worker waits before polling again after an error.
pub const ERROR_DELAY_SECS: u64 = 1;

/// Seconds between two runs of the pruner.
pub const PRUNE_INTERVAL_SECS: u64 = 1000;

/// What one attempt to process a task came to.
#[derive(Debug, Clone, Copy, PartialEq, Eq, Structural)]
pub enum ExecutionOutcome {
    TaskCompleted,
    EmptyQueue,
}

/// An unexpected state met while processing a task; the claim was given
/// up and the task left as it was.
#[derive(Debug)]
pub enum WorkerError {
    IssueNotFound(TaskClaim),
}

/// A claimed task that is ready to be sent: recipient and issue content.
#[derive(Debug)]
pub struct Delivery {
    pub claim: TaskClaim,
    pub recipient: SubscriberEmail,
    pub subject: String,
    pub html_body: String,
    pub text_body: String,
}

/// What the first half of a task's processing came to.
#[derive(Debug)]
pub enum TaskStep {
    /// No task was due.
    Empty,
    /// The task's address is malformed: the task was deleted.
    Dropped(TaskClaim),
    /// The task is claimed; deliver it, then call `finish_task`.
    Deliver(Delivery),
}

impl TaskStep {
    /// The outcome reported for this step once it is carried through.
    pub fn outcome(&self) -> (r: ExecutionOutcome)
        ensures
            r == (match self {
                TaskStep::Empty => ExecutionOutcome::EmptyQueue,
                _ => ExecutionOutcome::TaskCompleted,
            }),
    {
        match self {
            TaskStep::Empty => ExecutionOutcome::EmptyQueue,
            _ => ExecutionOutcome::TaskCompleted,
        }
    }
}

/// How long the worker sleeps after an attempt, in seconds.
pub fn next_poll_delay(r: &Result<ExecutionOutcome, WorkerError>) -> (d: u64)
    ensures
        d == (match r {
            Ok(ExecutionOutcome::TaskCompleted) => 0,
            Ok(ExecutionOutcome::EmptyQueue) => EMPTY_QUEUE_DELAY_SECS,
            Err(_) => ERROR_DELAY_SECS,
        }),
{
    match r {
        Ok(ExecutionOutcome::TaskCompleted) => 0,
        Ok(ExecutionOutcome::EmptyQueue) => EMPTY_QUEUE_DELAY_SECS,
        Err(_) => ERROR_DELAY_SECS,
    }
}

/// Whether some task is due at `now` and unclaimed.
pub open spec fn any_ready(q: Seq<TaskView>, now: u64) -> bool {
    exists|i: int| 0 <= i < q.len() && ready(#[trigger] q[i], now)
}

/// The queue with the task at `i` claimed.
pub open spec fn claim_at(q: Seq<TaskView>, i: int) -> Seq<TaskView> {
    q.update(i, TaskView { claimed: true, ..q[i] })
}

/// `c` names the task at `i` of `q`, which was due at `now`.
pub open spec fn claimed_task(q: Seq<TaskView>, c: TaskClaim, now: u64, i: int) -> bool {
    &&& has_task(q, c.issue_id, c.email@)
    &&& i == task_index(q, c.issue_id, c.email@)
    &&& ready(q[i], now)
    &&& c.n_retries == q[i].n_retries
}

/// The queue after a claimed task's delivery attempt.
pub open spec fn after_attempt(q: Seq<TaskView>, i: int, delivered: bool, now: u64) -> Seq<TaskView> {
    if !delivered && q[i].n_retries <= MAX_RETRIES {
        q.update(i, retried(q[i], now))
    } else {
        q.remove(i)
    }
}

impl Database {
    /// Claims one due task and prepares its delivery. A task whose address
    /// is malformed is deleted at once; a task whose issue is missing is
    /// released and reported as an error.
    pub fn start_task(&mut self, now: u64) -> (r: Result<TaskStep, WorkerError>)
        requires
            old(self).wf(),
        ensures
            final(self).wf(),
            final(self)@.idempotency == old(self)@.idempotency,
            final(self)@.issues == old(self)@.issues,
            r matches Ok(TaskStep::Empty) <==> !any_ready(old(self)@.queue, now),
            r matches Ok(TaskStep::Empty) ==> final(self)@ == old(self)@,
            r matches Ok(TaskStep::Dropped(c)) ==> ({
                let i = task_index(old(self)@.queue, c.issue_id, c.email@);
                &&& claimed_task(old(self)@.queue, c, now, i)
                &&& !email_accepted(c.email@)
                &&& final(self)@.queue == old(self)@.queue.remove(i)
            }),
            r matches Ok(TaskStep::Deliver(dl)) ==> ({
                let c = dl.claim;
                let i = task_index(old(self)@.queue, c.issue_id, c.email@);
                let issue = old(self)@.issues[issue_index(old(self)@.issues, c.issue_id)];
                &&& claimed_task(old(self)@.queue, c, now, i)
                &&& email_accepted(c.email@)
                &&& dl.recipient@ == c.email@
                &&& has_issue(old(self)@.issues, c.issue_id)
                &&& dl.subject@ == issue.title
                &&& dl.html_body@ == issue.html_content
                &&& dl.text_body@ == issue.text_content
                &&& final(self)@.queue == claim_at(old(self)@.queue, i)
            }),
            r matches Err(WorkerError::IssueNotFound(c)) ==> ({
                let i = task_index(old(self)@.queue, c.issue_id, c.email@);
                &&& claimed_task(old(self)@.queue, c, now, i)
                &&& email_accepted(c.email@)
                &&& !has_issue(old(self)@.issues, c.issue_id)
                &&& final(self)@ == old(self)@
            }),
    {
        let ghost q0 = self@.queue;
        let claim = match self.queue.dequeue_task(now) {
            None => {
                return Ok(TaskStep::Empty);
            },
            Some(c) => c,
        };
        let ghost i = task_index(q0, claim.issue_id, claim.email@);
        let recipient = match SubscriberEmail::parse(claim.email.clone()) {
            Ok(e) => e,
            Err(_) => {
                let ghost q1 = self@.queue;
                self.queue.delete_task(&claim);
                proof {
                    crate::delivery_queue::lemma_task_index(q1, i);
                    assert(q1[i] == TaskView { claimed: true, ..q0[i] });
                    assert(self@.queue =~= q0.remove(i));
                }
                return Ok(TaskStep::Dropped(claim));
            },
        };
        let ghost q1 = self@.queue;
        proof {
            crate::delivery_queue::lemma_task_index(q1, i);
        }
        match self.get_issue(claim.issue_id) {
            None => {
                self.queue.release_task(&claim);
                assert(self@.queue =~= q0);
                Err(WorkerError::IssueNotFound(claim))
            },
            Some(issue) => {
                assert(has_issue(self@.issues, claim.issue_id));
                let subject = issue.title().clone();
                let html_body = issue.html_content().clone();
                let text_body = issue.text_content().clone();
                Ok(TaskStep::Deliver(Delivery { claim, recipient, subject, html_body, text_body }))
            },
        }
    }

    /// Records the result of a delivery attempt on a claimed task: deleted
    /// when delivered, otherwise retried with backoff or, once retries are
    /// used up, deleted.
    pub fn finish_task(&mut self, claim: &TaskClaim, delivered: bool, now: u64) -> (r:
        ExecutionOutcome)
        requires
            old(self).wf(),
            now <= LATEST_TIME,
        ensures
            final(self).wf(),
            r == ExecutionOutcome::TaskCompleted,
            final(self)@.idempotency == old(self)@.idempotency,
            final(self)@.issues == old(self)@.issues,
            has_task(old(self)@.queue, claim.issue_id, claim.email@) ==> final(self)@.queue
                == after_attempt(
                old(self)@.queue,
                task_index(old(self)@.queue, claim.issue_id, claim.email@),
                delivered,
                now,
            ),
            !has_task(old(self)@.queue, claim.issue_id, claim.email@) ==> final(self)@ == old(
                self,
            )@,
    {
        if delivered {
            self.queue.delete_task(claim);
        } else {
            self.queue.retry_or_delete_task(claim, now);
        }
        ExecutionOutcome::TaskCompleted
    }

    /// Deletes the idempotency rows whose retention window has passed;
    /// answers how many were deleted.
    pub fn prune_idempotency_table(&mut self, now: u64) -> (r: u64)
        requires
            old(self).wf(),
        ensures
            final(self).wf(),
            final(self)@ == (DatabaseView {
                idempotency: old(self)@.idempotency.filter(kept_at(now)),
                ..old(self)@
            }),
            r == old(self)@.idempotency.len() - final(self)@.idempotency.len(),
    {
        self.idempotency.prune(now)
    }
}

} // verus!
