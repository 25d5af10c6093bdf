use vstd::prelude::*;

verus! {

/// A failed delivery is retried while the task has been retried at most
/// this many times.
pub const MAX_RETRIES: u16 = 3;

/// The longest backoff the retry policy can ask for, in seconds.
pub const MAX_BACKOFF_SECS: u64 = 16;

/// The latest time at which the queue can be worked on, so that every
/// backoff still fits in a timestamp.
pub const LATEST_TIME: u64 = 0xffff_ffff_ffff_ffef;

/// Seconds to wait before the next attempt once a task has failed
/// `n_retries` times: quadratic in the retry count.
pub open spec fn backoff_secs(n_retries: u16) -> int {
    n_retries * n_retries
}

/// One pending delivery of an issue to one subscriber.
pub ghost struct TaskView {
    pub issue_id: u128,
    pub email: Seq<char>,
    pub n_retries: u16,
    pub execute_after: u64,
    pub claimed: bool,
}

pub open spec fn same_task(t: TaskView, issue_id: u128, email: Seq<char>) -> bool {
    t.issue_id == issue_id && t.email == email
}

/// A task that a worker may claim at time `now`.
pub open spec fn ready(t: TaskView, now: u64) -> bool {
    !t.claimed && t.execute_after <= now
}

pub open spec fn tasks_unique(s: Seq<TaskView>) -> bool {
    forall|i: int, j: int|
        0 <= i < s.len() && 0 <= j < s.len() && i != j && #[trigger] same_task(
            s[i],
            s[j].issue_id,
            s[j].email,
        ) ==> false
}

pub open spec fn has_task(s: Seq<TaskView>, issue_id: u128, email: Seq<char>) -> bool {
    exists|i: int| 0 <= i < s.len() && #[trigger] same_task(s[i], issue_id, email)
}

pub open spec fn task_index(s: Seq<TaskView>, issue_id: u128, email: Seq<char>) -> int {
    choose|i: int| 0 <= i < s.len() && #[trigger] same_task(s[i], issue_id, email)
}

pub open spec fn has_issue_task(s: Seq<TaskView>, issue_id: u128) -> bool {
    exists|i: int| 0 <= i < s.len() && (#[trigger] s[i]).issue_id == issue_id
}

/// A fresh task: never retried, due at once.
pub open spec fn fresh_task(issue_id: u128, email: Seq<char>, now: u64) -> TaskView {
    TaskView { issue_id, email, n_retries: 0, execute_after: now, claimed: false }
}

/// The task after a failed attempt that is retried.
pub open spec fn retried(t: TaskView, now: u64) -> TaskView {
    TaskView {
        n_retries: (t.n_retries + 1) as u16,
        execute_after: (now + backoff_secs((t.n_retries + 1) as u16)) as u64,
        claimed: false,
        ..t
    }
}

pub proof fn lemma_task_index(s: Seq<TaskView>, i: int)
    requires
        tasks_unique(s),
        0 <= i < s.len(),
    ensures
        has_task(s, s[i].issue_id, s[i].email),
        task_index(s, s[i].issue_id, s[i].email) == i,
{
    assert(same_task(s[i], s[i].issue_id, s[i].email));
    let j = task_index(s, s[i].issue_id, s[i].email);
    assert(same_task(s[j], s[i].issue_id, s[i].email));
}

pub struct DeliveryTask {
    issue_id: u128,
    email: String,
    n_retries: u16,
    execute_after: u64,
    claimed: bool,
}

impl View for DeliveryTask {
    type V = TaskView;

    closed spec fn view(&self) -> TaskView {
        TaskView {
            issue_id: self.issue_id,
            email: self.email@,
            n_retries: self.n_retries,
            execute_after: self.execute_after,
            claimed: self.claimed,
        }
    }
}

impl DeliveryTask {
    pub fn issue_id(&self) -> (r: u128)
        ensures
            r == self@.issue_id,
    {
        self.issue_id
    }

    pub fn email(&self) -> (r: &String)
        ensures
            r@ == self@.email,
    {
        &self.email
    }

    pub fn n_retries(&self) -> (r: u16)
        ensures
            r == self@.n_retries,
    {
        self.n_retries
    }

    pub fn execute_after(&self) -> (r: u64)
        ensures
            r == self@.execute_after,
    {
        self.execute_after
    }

    pub fn is_claimed(&self) -> (r: bool)
        ensures
            r == self@.claimed,
    {
        self.claimed
    }
}

/// What a worker holds while it works on a claimed task.
#[derive(Debug)]
pub struct TaskClaim {
    pub issue_id: u128,
    pub email: String,
    pub n_retries: u16,
}

/// The queue of pending deliveries, one row per (issue, subscriber).
pub struct DeliveryQueue {
    tasks: Vec<DeliveryTask>,
}

impl View for DeliveryQueue {
    type V = Seq<TaskView>;

    closed spec fn view(&self) -> Seq<TaskView> {
        self.tasks@.map_values(|t: DeliveryTask| t@)
    }
}

pub open spec fn retries_bounded(s: Seq<TaskView>) -> bool {
    forall|i: int| 0 <= i < s.len() ==> (#[trigger] s[i]).n_retries <= MAX_RETRIES + 1
}

pub open spec fn queue_ok(s: Seq<TaskView>) -> bool {
    tasks_unique(s) && retries_bounded(s)
}

proof fn lemma_remove_ok(s: Seq<TaskView>, i: int)
    requires
        queue_ok(s),
        0 <= i < s.len(),
    ensures
        queue_ok(s.remove(i)),
{
    let r = s.remove(i);
    assert forall|a: int, b: int|
        0 <= a < r.len() && 0 <= b < r.len() && a != b && #[trigger] same_task(
            r[a],
            r[b].issue_id,
            r[b].email,
        ) implies false by {
        let a0 = if a < i { a } else { a + 1 };
        let b0 = if b < i { b } else { b + 1 };
        assert(same_task(s[a0], s[b0].issue_id, s[b0].email));
    }
    assert forall|a: int| 0 <= a < r.len() implies (#[trigger] r[a]).n_retries <= MAX_RETRIES
        + 1 by {
        let a0 = if a < i { a } else { a + 1 };
        assert(r[a] == s[a0]);
    }
}

proof fn lemma_update_ok(s: Seq<TaskView>, i: int, t: TaskView)
    requires
        queue_ok(s),
        0 <= i < s.len(),
        same_task(t, s[i].issue_id, s[i].email),
        t.n_retries <= MAX_RETRIES + 1,
    ensures
        queue_ok(s.update(i, t)),
{
    let r = s.update(i, t);
    assert forall|a: int, b: int|
        0 <= a < r.len() && 0 <= b < r.len() && a != b && #[trigger] same_task(
            r[a],
            r[b].issue_id,
            r[b].email,
        ) implies false by {
        assert(same_task(s[a], s[b].issue_id, s[b].email));
    }
}

impl DeliveryQueue {
    pub open spec fn wf(&self) -> bool {
        queue_ok(self@)
    }

    pub fn new() -> (r: DeliveryQueue)
        ensures
            r@ == Seq::<TaskView>::empty(),
            r.wf(),
    {
        let r = DeliveryQueue { tasks: Vec::new() };
        assert(r@ =~= Seq::<TaskView>::empty());
        r
    }

    pub fn len(&self) -> (r: usize)
        ensures
            r == self@.len(),
    {
        self.tasks.len()
    }

    /// The task at position `i`.
    pub fn get(&self, i: usize) -> (r: &DeliveryTask)
        requires
            i < self@.len(),
        ensures
            r@ == self@[i as int],
    {
        &self.tasks[i]
    }

    fn position(&self, issue_id: u128, email: &String) -> (r: Option<usize>)
        requires
            self.wf(),
        ensures
            r is None <==> !has_task(self@, issue_id, email@),
            r is Some ==> r->Some_0 < self@.len() && r->Some_0 == task_index(
                self@,
                issue_id,
                email@,
            ),
    {
        let mut i: usize = 0;
        while i < self.tasks.len()
            invariant
                i <= self.tasks@.len(),
                self.wf(),
                forall|j: int| 0 <= j < i ==> !same_task(#[trigger] self@[j], issue_id, email@),
            decreases self.tasks@.len() - i,
        {
            let t = &self.tasks[i];
            assert(self@[i as int] == t@);
            if t.issue_id == issue_id && t.email.eq(email) {
                proof {
                    lemma_task_index(self@, i as int);
                }
                return Some(i);
            }
            i += 1;
        }
        None
    }

    /// Whether any task of `issue_id` is queued.
    pub fn has_issue(&self, issue_id: u128) -> (r: bool)
        ensures
            r == has_issue_task(self@, issue_id),
    {
        let mut i: usize = 0;
        while i < self.tasks.len()
            invariant
                i <= self.tasks@.len(),
                forall|j: int| 0 <= j < i ==> (#[trigger] self@[j]).issue_id != issue_id,
            decreases self.tasks@.len() - i,
        {
            assert(self@[i as int] == self.tasks@[i as int]@);
            if self.tasks[i].issue_id == issue_id {
                return true;
            }
            i += 1;
        }
        false
    }

    /// Appends a fresh task for (issue, subscriber), which must not be
    /// queued yet.
    pub fn enqueue(&mut self, issue_id: u128, email: String, now: u64)
        requires
            old(self).wf(),
            !has_task(old(self)@, issue_id, email@),
        ensures
            final(self).wf(),
            final(self)@ == old(self)@.push(fresh_task(issue_id, email@, now)),
    {
        let ghost before = self@;
        let task = DeliveryTask { issue_id, email, n_retries: 0, execute_after: now, claimed: false };
        self.tasks.push(task);
        assert(self@ =~= before.push(task@));
        assert forall|a: int, b: int|
            0 <= a < self@.len() && 0 <= b < self@.len() && a != b && #[trigger] same_task(
                self@[a],
                self@[b].issue_id,
                self@[b].email,
            ) implies false by {
            if a == before.len() {
                assert(same_task(before[b], issue_id, email@));
            } else if b == before.len() {
                assert(same_task(before[a], issue_id, email@));
            } else {
                assert(same_task(before[a], before[b].issue_id, before[b].email));
            }
        }
    }

    /// Claims one task that is due and not claimed by another worker;
    /// `None` when there is no such task.
    pub fn dequeue_task(&mut self, now: u64) -> (r: Option<TaskClaim>)
        requires
            old(self).wf(),
        ensures
            final(self).wf(),
            r is None <==> (forall|i: int|
                0 <= i < old(self)@.len() ==> !ready(#[trigger] old(self)@[i], now)),
            r is None ==> final(self)@ == old(self)@,
            r is Some ==> ({
                let c = r->Some_0;
                let i = task_index(old(self)@, c.issue_id, c.email@);
                &&& has_task(old(self)@, c.issue_id, c.email@)
                &&& ready(old(self)@[i], now)
                &&& c.n_retries == old(self)@[i].n_retries
                &&& final(self)@ == old(self)@.update(i, TaskView { claimed: true, ..old(self)@[i] })
            }),
    {
        let mut i: usize = 0;
        while i < self.tasks.len()
            invariant
                i <= self.tasks@.len(),
                self.wf(),
                self == old(self),
                forall|j: int| 0 <= j < i ==> !ready(#[trigger] self@[j], now),
            decreases self.tasks@.len() - i,
        {
            assert(self@[i as int] == self.tasks@[i as int]@);
            if !self.tasks[i].claimed && self.tasks[i].execute_after <= now {
                let ghost before = self@;
                proof {
                    lemma_task_index(before, i as int);
                }
                let mut task = self.tasks.remove(i);
                task.claimed = true;
                let claim = TaskClaim {
                    issue_id: task.issue_id,
                    email: task.email.clone(),
                    n_retries: task.n_retries,
                };
                self.tasks.insert(i, task);
                assert(self@ =~= before.update(i as int, task@));
                proof {
                    lemma_update_ok(before, i as int, task@);
                }
                return Some(claim);
            }
            i += 1;
        }
        None
    }

    /// Deletes the task of `claim`, if it is still queued.
    pub fn delete_task(&mut self, claim: &TaskClaim)
        requires
            old(self).wf(),
        ensures
            final(self).wf(),
            has_task(old(self)@, claim.issue_id, claim.email@) ==> final(self)@ == old(self)@.remove(
                task_index(old(self)@, claim.issue_id, claim.email@),
            ),
            !has_task(old(self)@, claim.issue_id, claim.email@) ==> final(self)@ == old(self)@,
    {
        if let Some(i) = self.position(claim.issue_id, &claim.email) {
            let ghost before = self@;
            let _gone = self.tasks.remove(i);
            assert(self@ =~= before.remove(i as int));
            proof {
                lemma_remove_ok(before, i as int);
            }
        }
    }

    /// Gives up the claim on a task and leaves it as it was.
    pub fn release_task(&mut self, claim: &TaskClaim)
        requires
            old(self).wf(),
        ensures
            final(self).wf(),
            has_task(old(self)@, claim.issue_id, claim.email@) ==> ({
                let i = task_index(old(self)@, claim.issue_id, claim.email@);
                final(self)@ == old(self)@.update(i, TaskView { claimed: false, ..old(self)@[i] })
            }),
            !has_task(old(self)@, claim.issue_id, claim.email@) ==> final(self)@ == old(self)@,
    {
        if let Some(i) = self.position(claim.issue_id, &claim.email) {
            let ghost before = self@;
            let mut task = self.tasks.remove(i);
            task.claimed = false;
            self.tasks.insert(i, task);
            assert(self@ =~= before.update(i as int, task@));
            proof {
                lemma_update_ok(before, i as int, task@);
            }
        }
    }

    /// Counts one more failure on the task of `claim` and makes it due
    /// again after the backoff; the task must have been retried at most
    /// `MAX_RETRIES` times.
    pub fn update_task_retries(&mut self, claim: &TaskClaim, now: u64)
        requires
            old(self).wf(),
            now <= LATEST_TIME,
            has_task(old(self)@, claim.issue_id, claim.email@) ==> old(self)@[task_index(
                old(self)@,
                claim.issue_id,
                claim.email@,
            )].n_retries <= MAX_RETRIES,
        ensures
            final(self).wf(),
            has_task(old(self)@, claim.issue_id, claim.email@) ==> ({
                let i = task_index(old(self)@, claim.issue_id, claim.email@);
                final(self)@ == old(self)@.update(i, retried(old(self)@[i], now))
            }),
            !has_task(old(self)@, claim.issue_id, claim.email@) ==> final(self)@ == old(self)@,
    {
        if let Some(i) = self.position(claim.issue_id, &claim.email) {
            let ghost before = self@;
            let mut task = self.tasks.remove(i);
            assert(task@ == before[i as int]);
            let n: u16 = task.n_retries + 1;
            assert(n * n <= 16) by (nonlinear_arith)
                requires
                    n <= 4,
            ;
            task.n_retries = n;
            task.execute_after = now + n as u64 * n as u64;
            task.claimed = false;
            self.tasks.insert(i, task);
            assert(self@ =~= before.update(i as int, retried(before[i as int], now)));
            proof {
                lemma_update_ok(before, i as int, task@);
            }
        }
    }

    /// Applies the retry policy after a failed delivery: retried with
    /// quadratic backoff while it has been retried at most `MAX_RETRIES`
    /// times, deleted after that.
    pub fn retry_or_delete_task(&mut self, claim: &TaskClaim, now: u64)
        requires
            old(self).wf(),
            now <= LATEST_TIME,
        ensures
            final(self).wf(),
            has_task(old(self)@, claim.issue_id, claim.email@) ==> ({
                let i = task_index(old(self)@, claim.issue_id, claim.email@);
                final(self)@ == if old(self)@[i].n_retries <= MAX_RETRIES {
                    old(self)@.update(i, retried(old(self)@[i], now))
                } else {
                    old(self)@.remove(i)
                }
            }),
            !has_task(old(self)@, claim.issue_id, claim.email@) ==> final(self)@ == old(self)@,
    {
        if let Some(i) = self.position(claim.issue_id, &claim.email) {
            assert(self@[i as int] == self.tasks@[i as int]@);
            if self.tasks[i].n_retries <= MAX_RETRIES {
                self.update_task_retries(claim, now);
            } else {
                self.delete_task(claim);
            }
        }
    }
}

} // verus!
