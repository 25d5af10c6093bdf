use vstd::prelude::*;
use vstd::string::StrSliceExecFns;

verus! {

/// Keys must be shorter than this many characters.
pub const MAX_KEY_LENGTH: usize = 50;

/// Why a client-supplied idempotency key was refused.
#[derive(Debug, Clone, Copy, PartialEq, Eq, Structural)]
pub enum KeyError {
    Empty,
    TooLong,
}

/// A client-supplied token that scopes deduplication of one request.
#[derive(Debug)]
pub struct IdempotencyKey {
    key: String,
}

impl View for IdempotencyKey {
    type V = Seq<char>;

    closed spec fn view(&self) -> Seq<char> {
        self.key@
    }
}

/// The keys that are accepted: non-empty and under the length bound.
pub open spec fn key_is_valid(s: Seq<char>) -> bool {
    0 < s.len() < MAX_KEY_LENGTH
}

impl IdempotencyKey {
    pub open spec fn wf(&self) -> bool {
        key_is_valid(self@)
    }

    /// Validates a key: empty and overlong keys are refused.
    pub fn try_from(s: String) -> (r: Result<IdempotencyKey, KeyError>)
        ensures
            s@.len() == 0 ==> r == Err::<IdempotencyKey, KeyError>(KeyError::Empty),
            s@.len() >= MAX_KEY_LENGTH ==> r == Err::<IdempotencyKey, KeyError>(KeyError::TooLong),
            key_is_valid(s@) ==> r is Ok && r->Ok_0@ == s@,
            r is Ok ==> r->Ok_0.wf(),
    {
        let n = s.as_str().unicode_len();
        if n == 0 {
            return Err(KeyError::Empty);
        }
        if n >= MAX_KEY_LENGTH {
            return Err(KeyError::TooLong);
        }
        Ok(IdempotencyKey { key: s })
    }

    pub fn as_str(&self) -> (r: &str)
        ensures
            r@ == self@,
    {
        self.key.as_str()
    }

    pub fn as_string(&self) -> (r: &String)
        ensures
            r@ == self@,
    {
        &self.key
    }

    pub fn duplicate(&self) -> (r: IdempotencyKey)
        ensures
            r@ == self@,
    {
        IdempotencyKey { key: self.key.clone() }
    }

    /// Gives the key back as a string.
    pub fn into_string(self) -> (r: String)
        ensures
            r@ == self@,
    {
        self.key
    }
}

} // verus!
