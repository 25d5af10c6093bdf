use vstd::prelude::*;
use vstd::string::StringExecFns;

verus! {

/// What `validator::validate_email` answers for a string: true when the
/// string is an e-mail address in the HTML5 sense.
pub uninterp spec fn email_accepted(s: Seq<char>) -> bool;

/// Whether `s` has an `@` after its first character.
pub open spec fn has_user_part(s: Seq<char>) -> bool {
    exists|i: int| 0 < i < s.len() && s[i] == '@'
}

/// Relies on `validator::validate_email`: the answer depends on the string
/// alone; a string without an `@` after a non-empty user part is refused.
#[verifier::external_body]
fn validate_email(s: &String) -> (r: bool)
    ensures
        r == email_accepted(s@),
        r ==> has_user_part(s@),
{
    validator::validate_email(s.as_str())
}

/// A recipient address that passed validation.
#[derive(Debug)]
pub struct SubscriberEmail {
    address: String,
}

impl View for SubscriberEmail {
    type V = Seq<char>;

    closed spec fn view(&self) -> Seq<char> {
        self.address@
    }
}

impl SubscriberEmail {
    /// Accepts `s` exactly when the e-mail validator does; the error names
    /// the rejected string.
    pub fn parse(s: String) -> (r: Result<SubscriberEmail, String>)
        ensures
            r is Ok <==> email_accepted(s@),
            r is Ok ==> r->Ok_0@ == s@ && has_user_part(s@),
            r is Err ==> r->Err_0@ == s@ + " is not a valid subscriber email"@,
    {
        if validate_email(&s) {
            Ok(SubscriberEmail { address: s })
        } else {
            Err(s.concat(" is not a valid subscriber email"))
        }
    }

    pub fn as_str(&self) -> (r: &str)
        ensures
            r@ == self@,
    {
        self.address.as_str()
    }
}

} // verus!
