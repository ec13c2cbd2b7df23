use vstd::prelude::*;
use vstd::string::*;

verus! {

/// Whether `validator`'s email check accepts `address`. The check follows the
/// HTML5 definition of a valid address, with a fallback for
/// internationalised domains; it looks at the text alone, so the same text
/// always gets the same answer.
pub uninterp spec fn email_syntax_accepted(address: Seq<char>) -> bool;

/// The longest local part that an accepted address can have.
pub const MAX_LOCAL_PART_LENGTH: usize = 64;

/// The last `@` of `address` stands at position `at`: what is before it is
/// the local part, what is after it the domain.
pub open spec fn is_last_at(address: Seq<char>, at: int) -> bool {
    &&& 0 <= at < address.len()
    &&& address[at] == '@'
    &&& forall|j: int| at < j < address.len() ==> address[j] != '@'
}

/// The outline that every accepted address has: an `@`, and before the
/// last one a local part of 1 to 64 characters.
pub open spec fn has_mailbox_outline(address: Seq<char>) -> bool {
    exists|at: int| #[trigger] is_last_at(address, at) && 1 <= at <= MAX_LOCAL_PART_LENGTH
}

/// Calls `validator::ValidateEmail::validate_email` on `address`.
///
/// Believed, not proved: the answer depends on the text of `address` only.
/// An accepted address holds an `@`, and what stands before its last `@`
/// has at least 1 and at most 64 characters: the function turns down a
/// text without `@`, splits at the last `@`, turns down a local part of
/// more than 64 characters, and matches the local part against a pattern
/// that asks for one character or more.
#[verifier::external_body]
fn validate_email(address: &str) -> (accepted: bool)
    ensures
        accepted == email_syntax_accepted(address@),
        accepted ==> has_mailbox_outline(address@),
{
    validator::ValidateEmail::validate_email(&address)
}

/// An address with the outline holds an `@`; one that begins with its only
/// `@`, or holds none, does not have the outline.
pub proof fn lemma_mailbox_outline(address: Seq<char>)
    ensures
        has_mailbox_outline(address) ==> address.contains('@') && address.len() >= 2,
        !address.contains('@') ==> !has_mailbox_outline(address),
        address.len() > 0 && address[0] == '@' && !address.subrange(
            1,
            address.len() as int,
        ).contains('@') ==> !has_mailbox_outline(address),
{
    if has_mailbox_outline(address) {
        let at = choose|at: int| #[trigger]
            is_last_at(address, at) && 1 <= at <= MAX_LOCAL_PART_LENGTH;
        assert(address[at] == '@');
        if address[0] == '@' && !address.subrange(1, address.len() as int).contains('@') {
            assert(address.subrange(1, address.len() as int)[at - 1] == '@');
        }
    }
}

/// The message with which `raw` is turned down.
pub open spec fn email_rejection(raw: Seq<char>) -> Seq<char> {
    raw + " is not a valid subscriber email."@
}

/// What parsing makes of `raw`, given the syntax check's answer: the address
/// unchanged, or the message that turns it down.
pub open spec fn parsed_email(raw: Seq<char>, accepted: bool) -> Result<Seq<char>, Seq<char>> {
    if accepted {
        Ok(raw)
    } else {
        Err(email_rejection(raw))
    }
}

/// Turns the syntax check's answer on `value` into the address itself or
/// into the rejection message. The answer is taken as given here;
/// [`SubscriberEmail::parse`] is what asks for it.
pub fn accept_or_reject(value: String, accepted: bool) -> (r: Result<String, String>)
    ensures
        match r {
            Ok(address) => parsed_email(value@, accepted) == Ok::<Seq<char>, Seq<char>>(address@),
            Err(message) => parsed_email(value@, accepted) == Err::<Seq<char>, Seq<char>>(
                message@,
            ),
        },
{
    if accepted {
        Ok(value)
    } else {
        Err(value.concat(" is not a valid subscriber email."))
    }
}

/// An email address that passed the syntax check. The only way to one is
/// [`SubscriberEmail::parse`].
#[derive(Debug)]
pub struct SubscriberEmail(String);

impl View for SubscriberEmail {
    type V = Seq<char>;

    closed spec fn view(&self) -> Seq<char> {
        self.0@
    }
}

impl SubscriberEmail {
    #[verifier::type_invariant]
    spec fn well_formed(self) -> bool {
        email_syntax_accepted(self.0@) && has_mailbox_outline(self.0@)
    }

    /// Accepts `value` exactly when the syntax check does, and keeps it
    /// unchanged. A rejected input comes back inside the error message.
    pub fn parse(value: String) -> (r: Result<SubscriberEmail, String>)
        ensures
            r is Ok <==> email_syntax_accepted(value@),
            r is Ok ==> has_mailbox_outline(value@),
            match r {
                Ok(email) => parsed_email(value@, email_syntax_accepted(value@)) == Ok::<
                    Seq<char>,
                    Seq<char>,
                >(email@),
                Err(message) => parsed_email(value@, email_syntax_accepted(value@)) == Err::<
                    Seq<char>,
                    Seq<char>,
                >(message@),
            },
    {
        let accepted = validate_email(value.as_str());
        match accept_or_reject(value, accepted) {
            Ok(address) => Ok(SubscriberEmail(address)),
            Err(message) => Err(message),
        }
    }

    /// The address as text.
    pub fn as_ref(&self) -> (text: &str)
        ensures
            text@ == self@,
            email_syntax_accepted(text@),
            has_mailbox_outline(text@),
    {
        proof {
            use_type_invariant(self);
        }
        self.0.as_str()
    }
}

} // verus!
