use crate::idempotency_key::IdempotencyKey;
use crate::response::{response_ok, ResponseView, SavedResponse};
use vstd::prelude::*;

verus! {

/// Records are kept this many seconds after they were created.
pub const RETENTION_SECS: u64 = 86400;

/// One row of the idempotency table: pending while `response` is `None`,
/// completed once it holds the cached response.
pub ghost struct RecordView {
    pub user_id: u128,
    pub key: Seq<char>,
    pub created_at: u64,
    pub response: Option<ResponseView>,
}

pub open spec fn same_row(r: RecordView, user_id: u128, key: Seq<char>) -> bool {
    r.user_id == user_id && r.key == key
}

/// At most one row for each (user, key).
pub open spec fn rows_unique(s: Seq<RecordView>) -> bool {
    forall|i: int, j: int|
        0 <= i < s.len() && 0 <= j < s.len() && i != j && #[trigger] same_row(
            s[i],
            s[j].user_id,
            s[j].key,
        ) ==> false
}

pub open spec fn has_row(s: Seq<RecordView>, user_id: u128, key: Seq<char>) -> bool {
    exists|i: int| 0 <= i < s.len() && #[trigger] same_row(s[i], user_id, key)
}

/// The position of the row for (user, key), where there is one.
pub open spec fn row_index(s: Seq<RecordView>, user_id: u128, key: Seq<char>) -> int {
    choose|i: int| 0 <= i < s.len() && #[trigger] same_row(s[i], user_id, key)
}

/// The row for (user, key), if the table holds one.
pub open spec fn find_row(s: Seq<RecordView>, user_id: u128, key: Seq<char>) -> Option<RecordView> {
    if has_row(s, user_id, key) {
        Some(s[row_index(s, user_id, key)])
    } else {
        None
    }
}

/// A record is expired once its retention window has passed.
pub open spec fn expired(created_at: u64, now: u64) -> bool {
    created_at + RETENTION_SECS < now
}

pub open spec fn kept_at(now: u64) -> spec_fn(RecordView) -> bool {
    |r: RecordView| !expired(r.created_at, now)
}

pub proof fn lemma_row_index(s: Seq<RecordView>, i: int)
    requires
        rows_unique(s),
        0 <= i < s.len(),
    ensures
        has_row(s, s[i].user_id, s[i].key),
        row_index(s, s[i].user_id, s[i].key) == i,
        find_row(s, s[i].user_id, s[i].key) == Some(s[i]),
{
    assert(same_row(s[i], s[i].user_id, s[i].key));
    let j = row_index(s, s[i].user_id, s[i].key);
    assert(same_row(s[j], s[i].user_id, s[i].key));
}

pub struct IdempotencyRecord {
    user_id: u128,
    key: String,
    created_at: u64,
    response: Option<SavedResponse>,
}

pub open spec fn response_view(r: Option<SavedResponse>) -> Option<ResponseView> {
    match r {
        Some(s) => Some(s@),
        None => None,
    }
}

impl View for IdempotencyRecord {
    type V = RecordView;

    closed spec fn view(&self) -> RecordView {
        RecordView {
            user_id: self.user_id,
            key: self.key@,
            created_at: self.created_at,
            response: response_view(self.response),
        }
    }
}

/// Why no cached response could be handed back.
#[derive(Debug, Clone, Copy, PartialEq, Eq, Structural)]
pub enum SavedResponseError {
    /// The row exists but holds no response: the request that created it
    /// has not committed, or stopped before it did.
    MissingResponse,
}

/// The idempotency table: one row per (user, client key).
pub struct IdempotencyTable {
    records: Vec<IdempotencyRecord>,
}

impl View for IdempotencyTable {
    type V = Seq<RecordView>;

    closed spec fn view(&self) -> Seq<RecordView> {
        self.records@.map_values(|r: IdempotencyRecord| r@)
    }
}

/// Every completed row holds a response that can be replayed.
pub open spec fn responses_ok(s: Seq<RecordView>) -> bool {
    forall|i: int|
        0 <= i < s.len() && (#[trigger] s[i]).response is Some ==> response_ok(
            s[i].response->Some_0,
        )
}

impl IdempotencyTable {
    pub open spec fn wf(&self) -> bool {
        rows_unique(self@) && responses_ok(self@)
    }

    pub fn new() -> (r: IdempotencyTable)
        ensures
            r@ == Seq::<RecordView>::empty(),
            r.wf(),
    {
        let r = IdempotencyTable { records: Vec::new() };
        assert(r@ =~= Seq::<RecordView>::empty());
        r
    }

    pub fn len(&self) -> (r: usize)
        ensures
            r == self@.len(),
    {
        self.records.len()
    }

    fn position(&self, user_id: u128, key: &String) -> (r: Option<usize>)
        requires
            self.wf(),
        ensures
            r is None <==> !has_row(self@, user_id, key@),
            r is Some ==> r->Some_0 < self@.len() && r->Some_0 == row_index(
                self@,
                user_id,
                key@,
            ),
    {
        let mut i: usize = 0;
        while i < self.records.len()
            invariant
                i <= self.records@.len(),
                self.wf(),
                forall|j: int| 0 <= j < i ==> !same_row(#[trigger] self@[j], user_id, key@),
            decreases self.records@.len() - i,
        {
            let rec = &self.records[i];
            assert(self@[i as int] == rec@);
            if rec.user_id == user_id && rec.key.eq(key) {
                proof {
                    lemma_row_index(self@, i as int);
                }
                return Some(i);
            }
            i += 1;
        }
        None
    }

    /// Inserts a pending row for (user, key) unless one exists; answers
    /// whether it inserted.
    pub fn try_insert(&mut self, user_id: u128, key: &IdempotencyKey, now: u64) -> (r: bool)
        requires
            old(self).wf(),
        ensures
            final(self).wf(),
            r == !has_row(old(self)@, user_id, key@),
            r ==> final(self)@ == old(self)@.push(
                RecordView { user_id, key: key@, created_at: now, response: None },
            ),
            !r ==> final(self)@ == old(self)@,
    {
        match self.position(user_id, key.as_string()) {
            Some(_) => false,
            None => {
                let ghost before = self@;
                let rec = IdempotencyRecord {
                    user_id,
                    key: key.as_string().clone(),
                    created_at: now,
                    response: None,
                };
                self.records.push(rec);
                assert(self@ =~= before.push(rec@));
                assert(forall|j: int| 0 <= j < before.len() ==> !same_row(#[trigger] before[j], user_id, key@));
                true
            },
        }
    }

    /// Whether (user, key) has a row that is still pending.
    pub fn is_pending(&self, user_id: u128, key: &IdempotencyKey) -> (r: bool)
        requires
            self.wf(),
        ensures
            r == (has_row(self@, user_id, key@) && find_row(self@, user_id, key@)->Some_0.response is None),
    {
        match self.position(user_id, key.as_string()) {
            None => false,
            Some(i) => {
                assert(self@[i as int] == self.records@[i as int]@);
                self.records[i].response.is_none()
            },
        }
    }

    /// The cached response of (user, key): `Ok(None)` when there is no row,
    /// the response once the row is completed, and `MissingResponse` while
    /// the row is still pending.
    pub fn get_saved_response(&self, user_id: u128, key: &IdempotencyKey) -> (r: Result<
        Option<SavedResponse>,
        SavedResponseError,
    >)
        requires
            self.wf(),
        ensures
            !has_row(self@, user_id, key@) ==> r matches Ok(None),
            has_row(self@, user_id, key@) && find_row(self@, user_id, key@)->Some_0.response is None
                ==> r == Err::<Option<SavedResponse>, SavedResponseError>(
                SavedResponseError::MissingResponse,
            ),
            has_row(self@, user_id, key@) && find_row(self@, user_id, key@)->Some_0.response is Some
                ==> (r matches Ok(Some(s)) && Some(s@) == find_row(self@, user_id, key@)->Some_0.response
                && s.wf()),
    {
        match self.position(user_id, key.as_string()) {
            None => Ok(None),
            Some(i) => {
                let rec = &self.records[i];
                assert(self@[i as int] == rec@);
                match &rec.response {
                    Some(saved) => Ok(Some(saved.duplicate())),
                    None => Err(SavedResponseError::MissingResponse),
                }
            },
        }
    }

    /// Completes the pending row of (user, key) with `response`; refused
    /// when there is no such pending row.
    pub fn complete(&mut self, user_id: u128, key: &IdempotencyKey, response: SavedResponse) -> (r:
        bool)
        requires
            old(self).wf(),
            response.wf(),
        ensures
            final(self).wf(),
            r == (has_row(old(self)@, user_id, key@) && find_row(
                old(self)@,
                user_id,
                key@,
            )->Some_0.response is None),
            r ==> final(self)@ == old(self)@.update(
                row_index(old(self)@, user_id, key@),
                RecordView { response: Some(response@), ..find_row(old(self)@, user_id, key@)->Some_0 },
            ),
            !r ==> final(self)@ == old(self)@,
    {
        match self.position(user_id, key.as_string()) {
            None => false,
            Some(i) => {
                let ghost before = self@;
                assert(before[i as int] == self.records@[i as int]@);
                if self.records[i].response.is_some() {
                    return false;
                }
                let mut rec = self.records.remove(i);
                rec.response = Some(response);
                self.records.insert(i, rec);
                assert(self@ =~= before.update(i as int, rec@));
                proof {
                    assert forall|a: int, b: int|
                        0 <= a < self@.len() && 0 <= b < self@.len() && a != b
                            && #[trigger] same_row(self@[a], self@[b].user_id, self@[b].key) implies false by {
                        assert(same_row(before[a], before[b].user_id, before[b].key));
                    }
                }
                true
            },
        }
    }

    /// Deletes every expired row and keeps the others in order; answers how
    /// many were deleted.
    pub fn prune(&mut self, now: u64) -> (r: u64)
        requires
            old(self).wf(),
        ensures
            final(self).wf(),
            final(self)@ == old(self)@.filter(kept_at(now)),
            r == old(self)@.len() - final(self)@.len(),
    {
        let ghost s0 = self@;
        let len = self.records.len();
        let ghost n = s0.len();
        let mut i: usize = 0;
        let mut removed: u64 = 0;
        let mut j: usize = 0;
        proof {
            assert(s0.subrange(0, 0).filter(kept_at(now)) =~= Seq::<RecordView>::empty());
            assert(self@ =~= s0.subrange(0, 0).filter(kept_at(now)) + s0.subrange(0, n as int));
        }
        while i < self.records.len()
            invariant
                0 <= j <= n,
                n == s0.len(),
                i <= self.records@.len(),
                self@ == s0.subrange(0, j as int).filter(kept_at(now)) + s0.subrange(j as int, n as int),
                i == s0.subrange(0, j as int).filter(kept_at(now)).len(),
                removed == j - i,
                j - i <= n,
                rows_unique(self@),
                responses_ok(self@),
                n == len,
            decreases self.records@.len() - i,
        {
            let ghost before = self@;
            let ghost pre = s0.subrange(0, j as int);
            proof {
                assert(s0.subrange(0, j + 1 as int) =~= pre.push(s0[j as int]));
                pre.lemma_filter_push(s0[j as int], kept_at(now));
                assert(before[i as int] == s0[j as int]);
            }
            assert(self.records@[i as int]@ == before[i as int]);
            if (self.records[i].created_at as u128) + (RETENTION_SECS as u128) < (now as u128) {
                let _dead = self.records.remove(i);
                removed += 1;
                proof {
                    assert(s0.subrange(0, j + 1 as int).filter(kept_at(now)) == pre.filter(kept_at(now)));
                    assert(self@ =~= before.remove(i as int));
                    assert forall|a: int, b: int|
                        0 <= a < self@.len() && 0 <= b < self@.len() && a != b
                            && #[trigger] same_row(self@[a], self@[b].user_id, self@[b].key) implies false by {
                        let a0 = if a < i { a } else { a + 1 };
                        let b0 = if b < i { b } else { b + 1 };
                        assert(same_row(before[a0], before[b0].user_id, before[b0].key));
                    }
                    assert forall|a: int| 0 <= a < self@.len() && (#[trigger] self@[a]).response is Some implies response_ok(self@[a].response->Some_0) by {
                        let a0 = if a < i { a } else { a + 1 };
                        assert(before[a0] == self@[a]);
                    }
                    assert(self@ =~= s0.subrange(0, j + 1 as int).filter(kept_at(now)) + s0.subrange(j + 1 as int, n as int));
                }
            } else {
                proof {
                    assert(s0.subrange(0, j + 1 as int).filter(kept_at(now)) == pre.filter(kept_at(now)).push(s0[j as int]));
                    assert(self@ =~= s0.subrange(0, j + 1 as int).filter(kept_at(now)) + s0.subrange(j + 1 as int, n as int));
                }
                i += 1;
            }
            j += 1;
        }
        proof {
            assert(s0.subrange(0, n as int) =~= s0);
            assert(self@ =~= s0.filter(kept_at(now)));
        }
        removed
    }
}

} // verus!
