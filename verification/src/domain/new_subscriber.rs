use vstd::prelude::*;

use crate::domain::subscriber_email::{email_rejection, email_syntax_accepted, SubscriberEmail};
use crate::domain::subscriber_name::{parsed_name, SubscriberName};

verus! {

/// A name and an address that both passed validation. It can only be put
/// together from validated parts.
#[derive(Debug)]
pub struct NewSubscriber {
    pub email: SubscriberEmail,
    pub name: SubscriberName,
}

/// The validated pair that a form gives, as (name, email), or the message of
/// the first check that failed. The name is checked first.
pub open spec fn validated_form(name: Seq<char>, email: Seq<char>) -> Result<
    (Seq<char>, Seq<char>),
    Seq<char>,
> {
    match parsed_name(name) {
        Err(message) => Err(message),
        Ok(clean_name) => if email_syntax_accepted(email) {
            Ok((clean_name, email))
        } else {
            Err(email_rejection(email))
        },
    }
}

} // verus!
