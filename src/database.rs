use crate::delivery_queue::{queue_ok, DeliveryQueue, TaskView};
use crate::idempotency::{responses_ok, rows_unique, IdempotencyTable, RecordView};
use vstd::prelude::*;

verus! {

/// A published issue, as stored.
pub ghost struct IssueView {
    pub issue_id: u128,
    pub title: Seq<char>,
    pub text_content: Seq<char>,
    pub html_content: Seq<char>,
    pub published_at: u64,
}

pub struct NewsletterIssue {
    issue_id: u128,
    title: String,
    text_content: String,
    html_content: String,
    published_at: u64,
}

impl View for NewsletterIssue {
    type V = IssueView;

    closed spec fn view(&self) -> IssueView {
        IssueView {
            issue_id: self.issue_id,
            title: self.title@,
            text_content: self.text_content@,
            html_content: self.html_content@,
            published_at: self.published_at,
        }
    }
}

impl NewsletterIssue {
    pub fn new(
        issue_id: u128,
        title: String,
        text_content: String,
        html_content: String,
        published_at: u64,
    ) -> (r: NewsletterIssue)
        ensures
            r@ == (IssueView {
                issue_id,
                title: title@,
                text_content: text_content@,
                html_content: html_content@,
                published_at,
            }),
    {
        NewsletterIssue { issue_id, title, text_content, html_content, published_at }
    }

    pub fn issue_id(&self) -> (r: u128)
        ensures
            r == self@.issue_id,
    {
        self.issue_id
    }

    pub fn title(&self) -> (r: &String)
        ensures
            r@ == self@.title,
    {
        &self.title
    }

    pub fn text_content(&self) -> (r: &String)
        ensures
            r@ == self@.text_content,
    {
        &self.text_content
    }

    pub fn html_content(&self) -> (r: &String)
        ensures
            r@ == self@.html_content,
    {
        &self.html_content
    }
}

/// The three tables of the service.
pub ghost struct DatabaseView {
    pub idempotency: Seq<RecordView>,
    pub issues: Seq<IssueView>,
    pub queue: Seq<TaskView>,
}

/// The service's store. Only the request coordinator writes issues and
/// idempotency rows, and only the delivery worker changes or deletes tasks;
/// everything else reads.
pub struct Database {
    pub(crate) idempotency: IdempotencyTable,
    pub(crate) issues: Vec<NewsletterIssue>,
    pub(crate) queue: DeliveryQueue,
}

impl View for Database {
    type V = DatabaseView;

    closed spec fn view(&self) -> DatabaseView {
        self.tables()
    }
}

pub open spec fn issues_view(v: Seq<NewsletterIssue>) -> Seq<IssueView> {
    v.map_values(|i: NewsletterIssue| i@)
}

impl Database {
    pub(crate) open spec fn tables(&self) -> DatabaseView {
        DatabaseView {
            idempotency: self.idempotency@,
            issues: issues_view(self.issues@),
            queue: self.queue@,
        }
    }
}

pub(crate) broadcast proof fn lemma_view_is_tables(d: Database)
    ensures
        #[trigger] d@ == d.tables(),
{
}

pub open spec fn has_issue(s: Seq<IssueView>, issue_id: u128) -> bool {
    exists|i: int| 0 <= i < s.len() && (#[trigger] s[i]).issue_id == issue_id
}

/// The position of the issue `issue_id`, where there is one.
pub open spec fn issue_index(s: Seq<IssueView>, issue_id: u128) -> int {
    choose|i: int| 0 <= i < s.len() && (#[trigger] s[i]).issue_id == issue_id
}

/// No issue id is used twice.
pub open spec fn issues_unique(s: Seq<IssueView>) -> bool {
    forall|i: int, j: int|
        0 <= i < s.len() && 0 <= j < s.len() && i != j ==> (#[trigger] s[i]).issue_id != (
        #[trigger] s[j]).issue_id
}

pub open spec fn db_ok(d: DatabaseView) -> bool {
    &&& rows_unique(d.idempotency)
    &&& responses_ok(d.idempotency)
    &&& queue_ok(d.queue)
    &&& issues_unique(d.issues)
}

/// A pending row for (user, key) created at `now`.
pub open spec fn pending_row(user_id: u128, key: Seq<char>, now: u64) -> RecordView {
    RecordView { user_id, key, created_at: now, response: None }
}

impl Database {
    pub open spec fn wf(&self) -> bool {
        db_ok(self@)
    }

    pub fn new() -> (r: Database)
        ensures
            r.wf(),
            r@.idempotency.len() == 0,
            r@.issues.len() == 0,
            r@.queue.len() == 0,
    {
        let r = Database {
            idempotency: IdempotencyTable::new(),
            issues: Vec::new(),
            queue: DeliveryQueue::new(),
        };
        assert(r@.issues =~= Seq::<IssueView>::empty());
        r
    }

    /// A store made of the given tables.
    pub fn from_tables(
        idempotency: IdempotencyTable,
        issues: Vec<NewsletterIssue>,
        queue: DeliveryQueue,
    ) -> (r: Database)
        requires
            db_ok(DatabaseView { idempotency: idempotency@, issues: issues_view(issues@), queue: queue@ }),
        ensures
            r.wf(),
            r@ == (DatabaseView {
                idempotency: idempotency@,
                issues: issues_view(issues@),
                queue: queue@,
            }),
    {
        Database { idempotency, issues, queue }
    }

    pub fn idempotency(&self) -> (r: &IdempotencyTable)
        ensures
            r@ == self@.idempotency,
    {
        &self.idempotency
    }

    pub fn issues(&self) -> (r: &Vec<NewsletterIssue>)
        ensures
            issues_view(r@) == self@.issues,
    {
        &self.issues
    }

    pub fn queue(&self) -> (r: &DeliveryQueue)
        ensures
            r@ == self@.queue,
    {
        &self.queue
    }

    /// The first position of issue `issue_id`.
    pub fn issue_position(&self, issue_id: u128) -> (r: Option<usize>)
        ensures
            r is None <==> !has_issue(self@.issues, issue_id),
            r is Some ==> r->Some_0 < self@.issues.len() && self@.issues[r->Some_0 as int].issue_id
                == issue_id,
    {
        let mut i: usize = 0;
        while i < self.issues.len()
            invariant
                i <= self.issues@.len(),
                forall|j: int| 0 <= j < i ==> (#[trigger] self@.issues[j]).issue_id != issue_id,
            decreases self.issues@.len() - i,
        {
            assert(self@.issues[i as int] == self.issues@[i as int]@);
            if self.issues[i].issue_id() == issue_id {
                return Some(i);
            }
            i += 1;
        }
        None
    }

    /// The stored issue `issue_id`.
    pub fn get_issue(&self, issue_id: u128) -> (r: Option<&NewsletterIssue>)
        requires
            self.wf(),
        ensures
            r is None <==> !has_issue(self@.issues, issue_id),
            r is Some ==> r->Some_0@ == self@.issues[issue_index(self@.issues, issue_id)],
    {
        match self.issue_position(issue_id) {
            None => None,
            Some(i) => {
                assert(self@.issues[i as int] == self.issues@[i as int]@);
                let ghost k = issue_index(self@.issues, issue_id);
                assert(self@.issues[k].issue_id == issue_id);
                Some(&self.issues[i])
            },
        }
    }
}

} // verus!
