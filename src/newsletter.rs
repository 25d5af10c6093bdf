use crate::database::{
    db_ok, has_issue, pending_row, Database, DatabaseView, IssueView, NewsletterIssue,
};
use crate::delivery_queue::{fresh_task, has_issue_task, queue_ok, same_task, TaskView};
use crate::idempotency::{
    find_row, has_row, lemma_row_index, row_index, RecordView, SavedResponseError,
};
use crate::idempotency_key::{key_is_valid, IdempotencyKey, KeyError};
use crate::response::{ResponseView, SavedResponse};
use vstd::prelude::*;

verus! {

broadcast use crate::database::lemma_view_is_tables;

/// Relies on `uuid::Uuid::new_v4`: a random identifier, of which nothing
/// is promised.
#[verifier::external_body]
fn new_issue_id() -> (r: u128) {
    uuid::Uuid::new_v4().as_u128()
}

/// The fields of the publish form.
#[derive(Debug)]
pub struct FormData {
    pub title: String,
    pub text_content: String,
    pub html_content: String,
    pub idempotency_key: String,
}

/// Why a publish request failed.
#[derive(Debug, Clone, Copy, PartialEq, Eq, Structural)]
pub enum PublishError {
    /// The idempotency key was refused; nothing was written.
    InvalidKey(KeyError),
    /// A row for this key exists but holds no response: an earlier attempt
    /// stopped before it committed.
    MissingResponse,
    /// The writes could not be committed: the issue id is taken, a
    /// subscriber is listed twice, or the row is no longer pending.
    Conflict,
}

impl PublishError {
    /// The HTTP status the error is reported with.
    pub fn status_code(&self) -> (r: u16)
        ensures
            r == (match self {
                PublishError::InvalidKey(_) => 400u16,
                _ => 500u16,
            }),
    {
        match self {
            PublishError::InvalidKey(_) => 400,
            _ => 500,
        }
    }
}

/// Whether `s` lists no value twice.
pub open spec fn distinct(s: Seq<Seq<char>>) -> bool {
    forall|i: int, j: int| 0 <= i < s.len() && 0 <= j < s.len() && i != j ==> s[i] != s[j]
}

pub open spec fn emails_view(v: Seq<String>) -> Seq<Seq<char>> {
    v.map_values(|s: String| s@)
}

/// One fresh task per recipient, in the order given.
pub open spec fn fan_out(issue_id: u128, emails: Seq<Seq<char>>, now: u64) -> Seq<TaskView> {
    emails.map_values(|e: Seq<char>| fresh_task(issue_id, e, now))
}

/// The writes of a publish request that is being processed: they become
/// visible together when the response is saved.
pub struct Transaction {
    user_id: u128,
    key: IdempotencyKey,
    started_at: u64,
    issue: Option<NewsletterIssue>,
    recipients: Vec<String>,
}

pub ghost struct TransactionView {
    pub user_id: u128,
    pub key: Seq<char>,
    pub started_at: u64,
    pub issue: Option<IssueView>,
    pub recipients: Seq<Seq<char>>,
}

impl View for Transaction {
    type V = TransactionView;

    closed spec fn view(&self) -> TransactionView {
        TransactionView {
            user_id: self.user_id,
            key: self.key@,
            started_at: self.started_at,
            issue: match self.issue {
                Some(i) => Some(i@),
                None => None,
            },
            recipients: emails_view(self.recipients@),
        }
    }
}

impl Transaction {
    /// Deliveries are only queued for an issue of the same transaction.
    pub open spec fn wf(&self) -> bool {
        self@.issue is None ==> self@.recipients.len() == 0
    }
}

/// Stores the issue of this request, published at the transaction's start.
/// Refused with `Conflict`, the transaction unchanged, when `db` already
/// holds an issue with this id.
pub fn insert_newsletter_issue(
    db: &Database,
    txn: &mut Transaction,
    form: &FormData,
    issue_id: u128,
) -> (r: Result<u128, PublishError>)
    requires
        old(txn).wf(),
        old(txn)@.issue is None,
    ensures
        final(txn).wf(),
        r is Err <==> has_issue(db@.issues, issue_id),
        r is Err ==> r == Err::<u128, PublishError>(PublishError::Conflict) && final(txn)@ == old(
            txn,
        )@,
        r is Ok ==> r == Ok::<u128, PublishError>(issue_id) && final(txn)@ == (TransactionView {
            issue: Some(issue_of(issue_id, *form, old(txn)@.started_at)),
            ..old(txn)@
        }),
{
    if db.issue_position(issue_id).is_some() {
        return Err(PublishError::Conflict);
    }
    txn.issue = Some(
        NewsletterIssue::new(
            issue_id,
            form.title.clone(),
            form.text_content.clone(),
            form.html_content.clone(),
            txn.started_at,
        ),
    );
    Ok(issue_id)
}

/// Queues one delivery of the transaction's issue to each confirmed
/// subscriber.
pub fn enqueue_delivery_tasks(txn: &mut Transaction, confirmed: &Vec<String>)
    requires
        old(txn).wf(),
        old(txn)@.issue is Some,
    ensures
        final(txn).wf(),
        final(txn)@ == (TransactionView { recipients: emails_view(confirmed@), ..old(txn)@ }),
{
    txn.recipients = copy_strings(confirmed);
}

/// What `try_processing` decided.
pub enum NextAction {
    StartProcessing(Transaction),
    ReturnSavedResponse(SavedResponse),
}

/// The row of a request that committed with `response`.
pub open spec fn completed_row(user_id: u128, key: Seq<char>, now: u64, response: ResponseView) -> RecordView {
    RecordView { user_id, key, created_at: now, response: Some(response) }
}

/// Whether the writes of a publish with `issue_id` to `emails` can be
/// committed on `d`.
pub open spec fn commit_possible(d: DatabaseView, issue_id: u128, emails: Seq<Seq<char>>) -> bool {
    !has_issue(d.issues, issue_id) && !has_issue_task(d.queue, issue_id) && distinct(emails)
}

/// Whether the writes of `t` can be committed on `d`: its row is still
/// pending, and its issue and deliveries collide with nothing.
pub open spec fn save_possible(d: DatabaseView, t: TransactionView) -> bool {
    &&& has_row(d.idempotency, t.user_id, t.key)
    &&& find_row(d.idempotency, t.user_id, t.key)->Some_0.response is None
    &&& t.issue is Some ==> commit_possible(d, t.issue->Some_0.issue_id, t.recipients)
}

/// The database once the writes of `t` and its response are committed.
pub open spec fn after_save(d: DatabaseView, t: TransactionView, response: ResponseView) -> DatabaseView {
    let i = row_index(d.idempotency, t.user_id, t.key);
    DatabaseView {
        idempotency: d.idempotency.update(i, RecordView { response: Some(response), ..d.idempotency[i] }),
        issues: match t.issue {
            Some(issue) => d.issues.push(issue),
            None => d.issues,
        },
        queue: match t.issue {
            Some(issue) => d.queue + fan_out(issue.issue_id, t.recipients, t.started_at),
            None => d.queue,
        },
    }
}

/// What a publish request does to the database and answers: `old` is the
/// state before, `new` the state after, `r` the answer.
pub open spec fn publish_post(
    old: DatabaseView,
    user_id: u128,
    key: Seq<char>,
    issue: IssueView,
    emails: Seq<Seq<char>>,
    now: u64,
    response: ResponseView,
    new: DatabaseView,
    r: Result<ResponseView, PublishError>,
) -> bool {
    if !key_is_valid(key) {
        &&& new == old
        &&& r == Err::<ResponseView, PublishError>(
            PublishError::InvalidKey(
                if key.len() == 0 {
                    KeyError::Empty
                } else {
                    KeyError::TooLong
                },
            ),
        )
    } else if has_row(old.idempotency, user_id, key) {
        let row = find_row(old.idempotency, user_id, key)->Some_0;
        &&& new == old
        &&& r == match row.response {
            Some(saved) => Ok::<ResponseView, PublishError>(saved),
            None => Err(PublishError::MissingResponse),
        }
    } else if commit_possible(old, issue.issue_id, emails) {
        &&& r == Ok::<ResponseView, PublishError>(response)
        &&& new == DatabaseView {
            idempotency: old.idempotency.push(completed_row(user_id, key, now, response)),
            issues: old.issues.push(issue),
            queue: old.queue + fan_out(issue.issue_id, emails, now),
        }
    } else {
        &&& r == Err::<ResponseView, PublishError>(PublishError::Conflict)
        &&& new == DatabaseView {
            idempotency: old.idempotency.push(pending_row(user_id, key, now)),
            ..old
        }
    }
}

pub open spec fn result_view(r: Result<SavedResponse, PublishError>) -> Result<
    ResponseView,
    PublishError,
> {
    match r {
        Ok(s) => Ok(s@),
        Err(e) => Err(e),
    }
}

/// The issue a publish with these form fields stores.
pub open spec fn issue_of(issue_id: u128, form: FormData, now: u64) -> IssueView {
    IssueView {
        issue_id,
        title: form.title@,
        text_content: form.text_content@,
        html_content: form.html_content@,
        published_at: now,
    }
}

fn copy_strings(v: &Vec<String>) -> (r: Vec<String>)
    ensures
        emails_view(r@) == emails_view(v@),
{
    let mut out: Vec<String> = Vec::new();
    let mut i: usize = 0;
    while i < v.len()
        invariant
            i <= v@.len(),
            out@.len() == i,
            forall|j: int| 0 <= j < i ==> (#[trigger] out@[j])@ == v@[j]@,
        decreases v@.len() - i,
    {
        out.push(v[i].clone());
        i += 1;
    }
    assert(emails_view(out@) =~= emails_view(v@));
    out
}

fn all_distinct(v: &Vec<String>) -> (r: bool)
    ensures
        r == distinct(emails_view(v@)),
{
    let ghost s = emails_view(v@);
    let mut i: usize = 0;
    while i < v.len()
        invariant
            i <= v@.len(),
            s == emails_view(v@),
            forall|a: int, b: int| 0 <= a < i && 0 <= b < s.len() && a != b ==> s[a] != s[b],
        decreases v@.len() - i,
    {
        let mut j: usize = 0;
        while j < v.len()
            invariant
                i < v@.len(),
                j <= v@.len(),
                s == emails_view(v@),
                forall|a: int, b: int| 0 <= a < i && 0 <= b < s.len() && a != b ==> s[a] != s[b],
                forall|b: int| 0 <= b < j && b != i ==> s[i as int] != s[b],
            decreases v@.len() - j,
        {
            if j != i && v[i].eq(&v[j]) {
                assert(s[i as int] == s[j as int]);
                return false;
            }
            j += 1;
        }
        i += 1;
    }
    true
}

impl Database {
    /// Begins a request under (user, key): inserts a pending row and hands
    /// out a transaction when the key is new, hands back the cached
    /// response when the row is completed, and fails when the row is still
    /// pending. The pending row is visible at once: a duplicate request that
    /// begins before `save_response` gets `MissingResponse` instead of
    /// waiting. Callers that hold the store across the whole request, as
    /// `publish_newsletter` does, serialise duplicates so that they replay.
    pub fn try_processing(&mut self, key: &IdempotencyKey, user_id: u128, now: u64) -> (r: Result<
        NextAction,
        PublishError,
    >)
        requires
            old(self).wf(),
        ensures
            final(self).wf(),
            !has_row(old(self)@.idempotency, user_id, key@) ==> ({
                &&& r matches Ok(NextAction::StartProcessing(t)) && t@ == (TransactionView {
                    user_id,
                    key: key@,
                    started_at: now,
                    issue: None,
                    recipients: Seq::empty(),
                })
                &&& final(self)@ == DatabaseView {
                    idempotency: old(self)@.idempotency.push(pending_row(user_id, key@, now)),
                    ..old(self)@
                }
            }),
            has_row(old(self)@.idempotency, user_id, key@) ==> ({
                let row = find_row(old(self)@.idempotency, user_id, key@)->Some_0;
                &&& final(self)@ == old(self)@
                &&& row.response is Some ==> (r matches Ok(NextAction::ReturnSavedResponse(s))
                    && Some(s@) == row.response)
                &&& row.response is None ==> r == Err::<NextAction, PublishError>(
                    PublishError::MissingResponse,
                )
            }),
    {
        if self.idempotency.try_insert(user_id, key, now) {
            let txn = Transaction {
                user_id,
                key: key.duplicate(),
                started_at: now,
                issue: None,
                recipients: Vec::new(),
            };
            assert(txn@.recipients =~= Seq::<Seq<char>>::empty());
            Ok(NextAction::StartProcessing(txn))
        } else {
            proof {
                lemma_row_index(self@.idempotency, row_index(self@.idempotency, user_id, key@));
            }
            match self.idempotency.get_saved_response(user_id, key) {
                Ok(Some(saved)) => Ok(NextAction::ReturnSavedResponse(saved)),
                Ok(None) => Err(PublishError::Conflict),
                Err(SavedResponseError::MissingResponse) => Err(PublishError::MissingResponse),
            }
        }
    }

    /// Commits the writes of `txn` together with the response to cache:
    /// either all of them become visible or none does. Until it runs, the
    /// row of `txn` stays pending (see `try_processing`).
    pub fn save_response(&mut self, txn: Transaction, response: SavedResponse) -> (r: Result<
        SavedResponse,
        PublishError,
    >)
        requires
            old(self).wf(),
            txn.wf(),
            response.wf(),
        ensures
            final(self).wf(),
            save_possible(old(self)@, txn@) ==> r is Ok && r->Ok_0@ == response@ && final(self)@
                == after_save(old(self)@, txn@, response@),
            !save_possible(old(self)@, txn@) ==> r == Err::<SavedResponse, PublishError>(
                PublishError::Conflict,
            ) && final(self)@ == old(self)@,
    {
        if !self.idempotency.is_pending(txn.user_id, &txn.key) {
            return Err(PublishError::Conflict);
        }
        let ghost d = self@;
        let ghost t = txn@;
        let Transaction { user_id, key, started_at, issue, recipients } = txn;
        match issue {
            None => {},
            Some(issue) => {
                let issue_id = issue.issue_id();
                if self.issue_position(issue_id).is_some() || self.queue.has_issue(issue_id)
                    || !all_distinct(&recipients) {
                    return Err(PublishError::Conflict);
                }
                let ghost iv = issue@;
                self.issues.push(issue);
                assert(self@.issues =~= d.issues.push(iv));
                let ghost emails = emails_view(recipients@);
                let mut k: usize = 0;
                while k < recipients.len()
                    invariant
                        k <= recipients@.len(),
                        emails == emails_view(recipients@),
                        distinct(emails),
                        !has_issue_task(d.queue, issue_id),
                        queue_ok(self.queue@),
                        db_ok(d),
                        self@.idempotency == d.idempotency,
                        self@.issues == d.issues.push(iv),
                        self.queue@ == d.queue + fan_out(issue_id, emails.take(k as int), started_at),
                    decreases recipients@.len() - k,
                {
                    let ghost q = self.queue@;
                    let email = recipients[k].clone();
                    proof {
                        assert forall|x: int| 0 <= x < q.len() implies !same_task(#[trigger] q[x], issue_id, email@) by {
                            if x < d.queue.len() {
                                assert(q[x] == d.queue[x]);
                            } else {
                                let y = x - d.queue.len();
                                assert(q[x] == fan_out(issue_id, emails.take(k as int), started_at)[y]);
                                assert(emails[y] != emails[k as int]);
                            }
                        }
                    }
                    self.queue.enqueue(issue_id, email, started_at);
                    assert(emails.take(k + 1 as int) =~= emails.take(k as int).push(emails[k as int]));
                    assert(fan_out(issue_id, emails.take(k + 1 as int), started_at) =~= fan_out(issue_id, emails.take(k as int), started_at).push(fresh_task(issue_id, emails[k as int], started_at)));
                    assert(self.queue@ =~= d.queue + fan_out(issue_id, emails.take(k + 1 as int), started_at));
                    k += 1;
                }
                assert(emails.take(k as int) =~= emails);
            },
        }
        let saved = response.duplicate();
        let completed = self.idempotency.complete(user_id, &key, response);
        assert(completed);
        Ok(saved)
    }

    /// Handles one publish request: validates the key, replays the cached
    /// response of an earlier request with the same (user, key), or stores
    /// the issue, one delivery per confirmed subscriber and the response,
    /// all in one commit.
    pub fn publish_newsletter(
        &mut self,
        user_id: u128,
        form: &FormData,
        confirmed: &Vec<String>,
        issue_id: u128,
        now: u64,
        response: SavedResponse,
    ) -> (r: Result<SavedResponse, PublishError>)
        requires
            old(self).wf(),
            response.wf(),
        ensures
            final(self).wf(),
            publish_post(
                old(self)@,
                user_id,
                form.idempotency_key@,
                issue_of(issue_id, *form, now),
                emails_view(confirmed@),
                now,
                response@,
                final(self)@,
                result_view(r),
            ),
    {
        let ghost d = self@;
        let key = match IdempotencyKey::try_from(form.idempotency_key.clone()) {
            Ok(k) => k,
            Err(e) => return Err(PublishError::InvalidKey(e)),
        };
        let mut txn = match self.try_processing(&key, user_id, now) {
            Err(e) => return Err(e),
            Ok(NextAction::ReturnSavedResponse(saved)) => return Ok(saved),
            Ok(NextAction::StartProcessing(t)) => t,
        };
        let ghost d1 = self@;
        proof {
            lemma_row_index(d1.idempotency, d.idempotency.len() as int);
        }
        if insert_newsletter_issue(self, &mut txn, form, issue_id).is_err() {
            return Err(PublishError::Conflict);
        }
        enqueue_delivery_tasks(&mut txn, confirmed);
        let r = self.save_response(txn, response);
        proof {
            if commit_possible(d, issue_id, emails_view(confirmed@)) {
                assert(self@.idempotency =~= d.idempotency.push(
                    completed_row(user_id, key@, now, response@),
                ));
            }
        }
        r
    }

    /// `publish_newsletter` with a freshly drawn random issue id.
    pub fn publish(
        &mut self,
        user_id: u128,
        form: &FormData,
        confirmed: &Vec<String>,
        now: u64,
        response: SavedResponse,
    ) -> (r: Result<SavedResponse, PublishError>)
        requires
            old(self).wf(),
            response.wf(),
        ensures
            final(self).wf(),
            exists|issue_id: u128|
                publish_post(
                    old(self)@,
                    user_id,
                    form.idempotency_key@,
                    issue_of(issue_id, *form, now),
                    emails_view(confirmed@),
                    now,
                    response@,
                    final(self)@,
                    result_view(r),
                ),
    {
        let issue_id = new_issue_id();
        self.publish_newsletter(user_id, form, confirmed, issue_id, now, response)
    }
}

} // verus!
