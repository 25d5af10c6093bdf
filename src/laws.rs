use crate::database::{db_ok, DatabaseView, IssueView};
use crate::delivery_queue::{
    backoff_secs, has_task, queue_ok, ready, retried, same_task, TaskView, LATEST_TIME, MAX_RETRIES,
};
use crate::idempotency::{
    expired, find_row, has_row, kept_at, lemma_row_index, row_index, same_row, RecordView,
};
use crate::newsletter::{
    after_save, fan_out, publish_post, save_possible, PublishError,
    TransactionView,
};
use crate::response::ResponseView;
use crate::worker::{after_attempt, any_ready, claim_at};
use vstd::prelude::*;

verus! {

/// Saving a response and then beginning a request under the same (user,
/// key) finds that response: same status, same headers in the same order
/// with their duplicates, same body.
pub proof fn lemma_round_trip(d: DatabaseView, t: TransactionView, response: ResponseView)
    requires
        db_ok(d),
        save_possible(d, t),
    ensures
        has_row(after_save(d, t, response).idempotency, t.user_id, t.key),
        find_row(after_save(d, t, response).idempotency, t.user_id, t.key)->Some_0.response == Some(
            response,
        ),
{
    let s = d.idempotency;
    let i = row_index(s, t.user_id, t.key);
    let s1 = after_save(d, t, response).idempotency;
    assert(same_row(s[i], t.user_id, t.key));
    assert(same_row(s1[i], t.user_id, t.key));
    assert forall|a: int, b: int|
        0 <= a < s1.len() && 0 <= b < s1.len() && a != b && #[trigger] same_row(
            s1[a],
            s1[b].user_id,
            s1[b].key,
        ) implies false by {
        assert(same_row(s[a], s[b].user_id, s[b].key));
    }
    lemma_row_index(s1, i);
}

/// A publish that commits on a new key queues exactly one fresh task per
/// confirmed subscriber: never retried and due at once.
pub proof fn lemma_fan_out(
    d: DatabaseView,
    user_id: u128,
    key: Seq<char>,
    issue: IssueView,
    emails: Seq<Seq<char>>,
    now: u64,
    response: ResponseView,
    d2: DatabaseView,
    r: Result<ResponseView, PublishError>,
)
    requires
        db_ok(d),
        db_ok(d2),
        !has_row(d.idempotency, user_id, key),
        publish_post(d, user_id, key, issue, emails, now, response, d2, r),
        r is Ok,
    ensures
        d2.queue.len() == d.queue.len() + emails.len(),
        d2.queue.subrange(0, d.queue.len() as int) == d.queue,
        forall|j: int|
            0 <= j < emails.len() ==> {
                let t = #[trigger] d2.queue[d.queue.len() + j];
                &&& t.issue_id == issue.issue_id
                &&& t.email == emails[j]
                &&& t.n_retries == 0
                &&& t.execute_after <= now
                &&& !t.claimed
            },
        forall|e: Seq<char>| #[trigger] emails.contains(e) ==> has_task(d2.queue, issue.issue_id, e),
        forall|i: int|
            0 <= i < d2.queue.len() && (#[trigger] d2.queue[i]).issue_id == issue.issue_id ==> emails.contains(
                d2.queue[i].email,
            ),
{
    let n = d.queue.len();
    let f = fan_out(issue.issue_id, emails, now);
    assert(d2.queue == d.queue + f);
    assert(d2.queue.subrange(0, n as int) =~= d.queue);
    assert forall|j: int| 0 <= j < emails.len() implies {
        let t = #[trigger] d2.queue[n + j];
        &&& t.issue_id == issue.issue_id
        &&& t.email == emails[j]
        &&& t.n_retries == 0
        &&& t.execute_after <= now
        &&& !t.claimed
    } by {
        assert(d2.queue[n + j] == f[j]);
    }
    assert forall|e: Seq<char>| #[trigger] emails.contains(e) implies has_task(d2.queue, issue.issue_id, e) by {
        let j = choose|j: int| 0 <= j < emails.len() && emails[j] == e;
        assert(d2.queue[n + j] == f[j]);
        assert(same_task(d2.queue[n + j], issue.issue_id, e));
    }
    assert forall|i: int|
        0 <= i < d2.queue.len() && (#[trigger] d2.queue[i]).issue_id == issue.issue_id implies emails.contains(
        d2.queue[i].email,
    ) by {
        if i < n {
            assert(d2.queue[i] == d.queue[i]);
            assert(false);
        } else {
            assert(d2.queue[i] == f[i - n]);
            assert(emails[i - n] == d2.queue[i].email);
        }
    }
}

/// The task after failed attempts at the given times, each attempt retried.
pub open spec fn after_failures(t: TaskView, times: Seq<u64>) -> TaskView
    decreases times.len(),
{
    if times.len() == 0 {
        t
    } else {
        retried(after_failures(t, times.drop_last()), times.last())
    }
}

/// A fresh task that fails again and again, each time once it is due,
/// is after the r-th failure retried r times and due r² seconds after that
/// failure, later than it was due before.
pub proof fn lemma_backoff(t: TaskView, times: Seq<u64>)
    requires
        t.n_retries == 0,
        times.len() <= MAX_RETRIES + 1,
        forall|r: int| 0 <= r < times.len() ==> #[trigger] times[r] <= LATEST_TIME,
        forall|r: int|
            0 <= r < times.len() ==> after_failures(t, times.take(r)).execute_after <= #[trigger] times[r],
    ensures
        forall|r: int|
            1 <= r <= times.len() ==> {
                let now = times[r - 1];
                let u = #[trigger] after_failures(t, times.take(r));
                &&& u.n_retries == r
                &&& u.execute_after == now + r * r
                &&& u.execute_after > after_failures(t, times.take(r - 1)).execute_after
            },
    decreases times.len(),
{
    if times.len() > 0 {
        let m = times.len() - 1;
        let prefix = times.drop_last();
        assert forall|r: int| 0 <= r < prefix.len() implies after_failures(t, prefix.take(r)).execute_after <= #[trigger] prefix[r] by {
            assert(prefix.take(r) =~= times.take(r));
        }
        lemma_backoff(t, prefix);
        assert forall|r: int| 1 <= r <= times.len() implies {
            let now = times[r - 1];
            let u = #[trigger] after_failures(t, times.take(r));
            &&& u.n_retries == r
            &&& u.execute_after == now + r * r
            &&& u.execute_after > after_failures(t, times.take(r - 1)).execute_after
        } by {
            if r < times.len() {
                assert(prefix.take(r) =~= times.take(r));
                assert(prefix.take(r - 1) =~= times.take(r - 1));
            } else {
                assert(times.take(r) =~= times);
                assert(times.take(r - 1) =~= prefix);
                let before = after_failures(t, prefix);
                if m == 0 {
                    assert(prefix.take(0) =~= prefix);
                    assert(before == t);
                } else {
                    assert(prefix.take(m) =~= prefix);
                }
                assert(before.n_retries == m);
                assert(after_failures(t, times.take(m)).execute_after <= times[m]);
                assert(times.take(m) =~= prefix);
                assert(before.execute_after <= times[m]);
                assert(r * r > 0 && r * r <= 16) by (nonlinear_arith)
                    requires
                        1 <= r <= 4,
                ;
                assert(after_failures(t, times) == retried(before, times[m]));
                assert(backoff_secs((before.n_retries + 1) as u16) == r * r);
            }
        }
    }
}

/// A task that has already been retried more than `MAX_RETRIES` times is
/// deleted on its next failure, and nothing is left to attempt.
pub proof fn lemma_retry_exhaustion(q: Seq<TaskView>, i: int, now: u64)
    requires
        queue_ok(q),
        0 <= i < q.len(),
        q[i].n_retries > MAX_RETRIES,
    ensures
        after_attempt(q, i, false, now) == q.remove(i),
        !has_task(after_attempt(q, i, false, now), q[i].issue_id, q[i].email),
{
    let r = q.remove(i);
    if has_task(r, q[i].issue_id, q[i].email) {
        let k = choose|k: int| 0 <= k < r.len() && #[trigger] same_task(r[k], q[i].issue_id, q[i].email);
        let k0 = if k < i { k } else { k + 1 };
        assert(r[k] == q[k0]);
        assert(same_task(q[k0], q[i].issue_id, q[i].email));
    }
}

/// With exactly one due task, one worker claims it and a second worker
/// finds nothing to claim, whether the first still holds the task or has
/// deleted it. `start_task` answers `Empty`, changing nothing, exactly when
/// no task is due and unclaimed.
pub proof fn lemma_single_claim(q: Seq<TaskView>, j: int, now: u64)
    requires
        0 <= j < q.len(),
        ready(q[j], now),
        forall|i: int| 0 <= i < q.len() && i != j ==> !ready(#[trigger] q[i], now),
    ensures
        any_ready(q, now),
        forall|i: int| 0 <= i < q.len() && ready(#[trigger] q[i], now) ==> i == j,
        !any_ready(claim_at(q, j), now),
        !any_ready(q.remove(j), now),
{
    let rm = q.remove(j);
    if any_ready(rm, now) {
        let k = choose|k: int| 0 <= k < rm.len() && ready(#[trigger] rm[k], now);
        let k0 = if k < j { k } else { k + 1 };
        assert(rm[k] == q[k0]);
    }
    let c = claim_at(q, j);
    if any_ready(c, now) {
        let k = choose|k: int| 0 <= k < c.len() && ready(#[trigger] c[k], now);
        if k != j {
            assert(c[k] == q[k]);
        }
    }
}


/// The calls of a run of publish requests under one (user, key): call `i`
/// goes from `states[i]` to `states[i + 1]` and answers `results[i]`.
pub open spec fn publish_run(
    states: Seq<DatabaseView>,
    user_id: u128,
    key: Seq<char>,
    issues: Seq<IssueView>,
    emails: Seq<Seq<Seq<char>>>,
    nows: Seq<u64>,
    responses: Seq<ResponseView>,
    results: Seq<Result<ResponseView, PublishError>>,
) -> bool {
    &&& states.len() == results.len() + 1
    &&& issues.len() == results.len()
    &&& emails.len() == results.len()
    &&& nows.len() == results.len()
    &&& responses.len() == results.len()
    &&& forall|i: int| 0 <= i < states.len() ==> db_ok(#[trigger] states[i])
    &&& forall|i: int|
        0 <= i < results.len() ==> publish_post(
            states[i],
            user_id,
            key,
            issues[i],
            emails[i],
            nows[i],
            responses[i],
            states[i + 1],
            #[trigger] results[i],
        )
}

proof fn lemma_first_call_cached(
    states: Seq<DatabaseView>,
    user_id: u128,
    key: Seq<char>,
    issues: Seq<IssueView>,
    emails: Seq<Seq<Seq<char>>>,
    nows: Seq<u64>,
    responses: Seq<ResponseView>,
    results: Seq<Result<ResponseView, PublishError>>,
)
    requires
        publish_run(states, user_id, key, issues, emails, nows, responses, results),
        results.len() >= 1,
        results[0] is Ok,
    ensures
        has_row(states[1].idempotency, user_id, key),
        find_row(states[1].idempotency, user_id, key)->Some_0.response == Some(results[0]->Ok_0),
        states[1].issues.len() <= states[0].issues.len() + 1,
        states[1].queue.len() <= states[0].queue.len() + emails[0].len(),
{
    let d0 = states[0];
    let d1 = states[1];
    assert(db_ok(d0) && db_ok(d1));
    let _ = results[0];
    if !has_row(d0.idempotency, user_id, key) {
        let last = d0.idempotency.len() as int;
        lemma_row_index(d1.idempotency, last);
    }
}

proof fn lemma_replay_steps(
    states: Seq<DatabaseView>,
    user_id: u128,
    key: Seq<char>,
    issues: Seq<IssueView>,
    emails: Seq<Seq<Seq<char>>>,
    nows: Seq<u64>,
    responses: Seq<ResponseView>,
    results: Seq<Result<ResponseView, PublishError>>,
    n: int,
)
    requires
        publish_run(states, user_id, key, issues, emails, nows, responses, results),
        results.len() >= 1,
        results[0] is Ok,
        1 <= n < states.len(),
    ensures
        states[n] == states[1],
        results[n - 1] == results[0],
    decreases n,
{
    if n > 1 {
        lemma_replay_steps(states, user_id, key, issues, emails, nows, responses, results, n - 1);
        lemma_first_call_cached(states, user_id, key, issues, emails, nows, responses, results);
        let _ = results[n - 1];
    }
}

/// Publishing again and again under one (user, key): once the first call
/// has answered with a response, every later call answers with that same
/// response and writes nothing. When the key was new, the whole run stores
/// exactly one issue and one task per confirmed subscriber, and every call
/// answers with the response the first call cached.
pub proof fn lemma_idempotent_replay(
    states: Seq<DatabaseView>,
    user_id: u128,
    key: Seq<char>,
    issues: Seq<IssueView>,
    emails: Seq<Seq<Seq<char>>>,
    nows: Seq<u64>,
    responses: Seq<ResponseView>,
    results: Seq<Result<ResponseView, PublishError>>,
)
    requires
        publish_run(states, user_id, key, issues, emails, nows, responses, results),
        results.len() >= 1,
        results[0] is Ok,
    ensures
        forall|i: int| 0 <= i < results.len() ==> #[trigger] results[i] == results[0],
        forall|i: int| 1 <= i < states.len() ==> #[trigger] states[i] == states[1],
        states.last().issues.len() <= states[0].issues.len() + 1,
        states.last().queue.len() <= states[0].queue.len() + emails[0].len(),
        !has_row(states[0].idempotency, user_id, key) ==> {
            &&& results[0] == Ok::<ResponseView, PublishError>(responses[0])
            &&& states.last().issues == states[0].issues.push(issues[0])
            &&& states.last().queue == states[0].queue + fan_out(
                issues[0].issue_id,
                emails[0],
                nows[0],
            )
        },
{
    assert forall|i: int| 0 <= i < results.len() implies #[trigger] results[i] == results[0] by {
        lemma_replay_steps(states, user_id, key, issues, emails, nows, responses, results, i + 1);
    }
    assert forall|i: int| 1 <= i < states.len() implies #[trigger] states[i] == states[1] by {
        lemma_replay_steps(states, user_id, key, issues, emails, nows, responses, results, i);
    }
    lemma_first_call_cached(states, user_id, key, issues, emails, nows, responses, results);
    lemma_replay_steps(states, user_id, key, issues, emails, nows, responses, results, states.len() - 1);
}


/// The pruner deletes exactly the rows whose retention window has passed
/// and keeps every other row.
pub proof fn lemma_pruning(s: Seq<RecordView>, now: u64)
    ensures
        forall|i: int|
            0 <= i < s.len() && expired((#[trigger] s[i]).created_at, now) ==> !s.filter(
                kept_at(now),
            ).contains(s[i]),
        forall|i: int|
            0 <= i < s.len() && !expired((#[trigger] s[i]).created_at, now) ==> s.filter(
                kept_at(now),
            ).contains(s[i]),
        forall|r: RecordView| #[trigger] s.filter(kept_at(now)).contains(r) ==> s.contains(r)
            && !expired(r.created_at, now),
{
    broadcast use vstd::seq_lib::group_filter_ensures, Seq::lemma_filter_contains_rev;

    assert forall|i: int|
        0 <= i < s.len() && expired((#[trigger] s[i]).created_at, now) implies !s.filter(
        kept_at(now),
    ).contains(s[i]) by {
        if s.filter(kept_at(now)).contains(s[i]) {
            let f = s.filter(kept_at(now));
            let k = choose|k: int| 0 <= k < f.len() && f[k] == s[i];
            assert(kept_at(now)(f[k]));
        }
    }
}

} // verus!
