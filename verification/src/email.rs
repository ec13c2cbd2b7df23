//! The confirmation email: what it says, and the outbox that stands for the
//! service delivering it.

use vstd::prelude::*;
use vstd::string::*;

use crate::domain::NewSubscriber;
use crate::text::occurs_in;

verus! {

/// An email ready to be handed to the delivery service.
#[derive(Debug)]
pub struct ConfirmationEmail {
    pub recipient: String,
    pub subject: String,
    pub html_body: String,
    pub text_body: String,
}

/// What a [`ConfirmationEmail`] says, with its texts as character sequences.
pub struct EmailText {
    pub recipient: Seq<char>,
    pub subject: Seq<char>,
    pub html_body: Seq<char>,
    pub text_body: Seq<char>,
}

impl View for ConfirmationEmail {
    type V = EmailText;

    open spec fn view(&self) -> EmailText {
        EmailText {
            recipient: self.recipient@,
            subject: self.subject@,
            html_body: self.html_body@,
            text_body: self.text_body@,
        }
    }
}

/// The link that confirms the subscription behind `token`.
pub open spec fn confirmation_link_text(base_url: Seq<char>, token: Seq<char>) -> Seq<char> {
    base_url + "/subscriptions/confirm?subscription_token="@ + token
}

/// The plain-text body around `link`.
pub open spec fn text_body_around(link: Seq<char>) -> Seq<char> {
    "Welcome to our newsletter!\n Visit "@ + link + " to confirm your subscription."@
}

/// The HTML body around `link`.
pub open spec fn html_body_around(link: Seq<char>) -> Seq<char> {
    "Welcome to our newsletter!<br />Click <a href=\""@ + link
        + "\">here</a> to confirm your subscription."@
}

/// The confirmation email for `recipient`.
pub open spec fn confirmation_email_text(
    recipient: Seq<char>,
    base_url: Seq<char>,
    token: Seq<char>,
) -> EmailText {
    let link = confirmation_link_text(base_url, token);
    EmailText {
        recipient,
        subject: "Welcome!"@,
        html_body: html_body_around(link),
        text_body: text_body_around(link),
    }
}

/// Both bodies of the confirmation email hold the confirmation link, and
/// the link ends with the token.
pub proof fn lemma_email_holds_link(recipient: Seq<char>, base_url: Seq<char>, token: Seq<char>)
    ensures
        occurs_in(
            confirmation_link_text(base_url, token),
            confirmation_email_text(recipient, base_url, token).html_body,
        ),
        occurs_in(
            confirmation_link_text(base_url, token),
            confirmation_email_text(recipient, base_url, token).text_body,
        ),
        occurs_in(token, confirmation_link_text(base_url, token)),
{
    let link = confirmation_link_text(base_url, token);
    let html_lead = "Welcome to our newsletter!<br />Click <a href=\""@;
    let text_lead = "Welcome to our newsletter!\n Visit "@;
    let html = html_body_around(link);
    let text = text_body_around(link);
    let h = html_lead.len() as int;
    let t = text_lead.len() as int;
    let l = link.len() - token.len();
    assert(html.subrange(h, h + link.len()) == link);
    assert(text.subrange(t, t + link.len()) == link);
    assert(link.subrange(l, l + token.len()) == token);
}

/// The confirmation link for `token` under `base_url`.
pub fn confirmation_link(base_url: &str, token: &str) -> (link: String)
    ensures
        link@ == confirmation_link_text(base_url@, token@),
{
    String::from_str(base_url).concat("/subscriptions/confirm?subscription_token=").concat(token)
}

/// Writes the confirmation email for `new_subscriber`: subject "Welcome!",
/// and an HTML and a plain-text body around the confirmation link.
pub fn compose_confirmation_email(
    new_subscriber: &NewSubscriber,
    base_url: &str,
    token: &str,
) -> (email: ConfirmationEmail)
    ensures
        email@ == confirmation_email_text(new_subscriber.email@, base_url@, token@),
{
    let link = confirmation_link(base_url, token);
    let html_body = String::from_str("Welcome to our newsletter!<br />Click <a href=\"").concat(
        link.as_str(),
    ).concat("\">here</a> to confirm your subscription.");
    let text_body = String::from_str("Welcome to our newsletter!\n Visit ").concat(
        link.as_str(),
    ).concat(" to confirm your subscription.");
    ConfirmationEmail {
        recipient: String::from_str(new_subscriber.email.as_ref()),
        subject: String::from_str("Welcome!"),
        html_body,
        text_body,
    }
}

/// Why an email was not delivered.
#[derive(Clone, Copy, PartialEq, Eq, Structural, Debug)]
pub enum SendError {
    /// The delivery service could not be reached in time.
    Unreachable,
    /// The delivery service answered and turned the email down.
    Rejected,
}

/// The failure in words.
pub open spec fn send_error_text(error: SendError) -> Seq<char> {
    match error {
        SendError::Unreachable => "The email service could not be reached in time."@,
        SendError::Rejected => "The email service turned the email down."@,
    }
}

impl SendError {
    /// The failure in words.
    pub fn message(&self) -> (text: String)
        ensures
            text@ == send_error_text(*self),
    {
        match self {
            SendError::Unreachable => String::from_str(
                "The email service could not be reached in time.",
            ),
            SendError::Rejected => String::from_str("The email service turned the email down."),
        }
    }
}

/// What the service answers when a failure is marked by these two signs:
/// a request that timed out or never got connected did not reach the
/// service; any other failure is the service turning the email down.
pub open spec fn send_error_for(timed_out: bool, connection_failed: bool) -> SendError {
    if timed_out || connection_failed {
        SendError::Unreachable
    } else {
        SendError::Rejected
    }
}

/// Names the failure of a request to the delivery service from the two
/// signs that its transport gives.
pub fn classify_send_failure(timed_out: bool, connection_failed: bool) -> (error: SendError)
    ensures
        error == send_error_for(timed_out, connection_failed),
{
    if timed_out || connection_failed {
        SendError::Unreachable
    } else {
        SendError::Rejected
    }
}

/// The state of an outbox: every email that was handed to it, in order,
/// delivered or not; those of them that it delivered; and the failure with
/// which it answers every email, if it is set to fail.
#[verifier::ext_equal]
pub struct OutboxState {
    pub attempts: Seq<EmailText>,
    pub sent: Seq<EmailText>,
    pub failure: Option<SendError>,
}

impl OutboxState {
    /// An outbox to which nothing was handed yet.
    pub open spec fn fresh(failure: Option<SendError>) -> OutboxState {
        OutboxState { attempts: Seq::empty(), sent: Seq::empty(), failure }
    }
}

/// The delivery service, as far as the workflows are concerned: it takes
/// an email and delivers it or fails. It keeps a record of every email it
/// was handed and of those it delivered.
#[derive(Debug)]
pub struct Outbox {
    attempts: Vec<ConfirmationEmail>,
    sent: Vec<ConfirmationEmail>,
    failure: Option<SendError>,
}

/// What a vector of emails says.
pub open spec fn email_texts(emails: Seq<ConfirmationEmail>) -> Seq<EmailText> {
    emails.map_values(|email: ConfirmationEmail| email@)
}

impl View for Outbox {
    type V = OutboxState;

    closed spec fn view(&self) -> OutboxState {
        OutboxState {
            attempts: email_texts(self.attempts@),
            sent: email_texts(self.sent@),
            failure: self.failure,
        }
    }
}

impl ConfirmationEmail {
    /// The same email once more.
    pub fn duplicate(&self) -> (copy: ConfirmationEmail)
        ensures
            copy@ == self@,
    {
        ConfirmationEmail {
            recipient: self.recipient.clone(),
            subject: self.subject.clone(),
            html_body: self.html_body.clone(),
            text_body: self.text_body.clone(),
        }
    }
}

impl Outbox {
    /// An empty outbox that delivers.
    pub fn new() -> (outbox: Outbox)
        ensures
            outbox@ == OutboxState::fresh(None),
    {
        Outbox { attempts: Vec::new(), sent: Vec::new(), failure: None }
    }

    /// An empty outbox that answers every email with `failure`.
    pub fn failing(failure: SendError) -> (outbox: Outbox)
        ensures
            outbox@ == OutboxState::fresh(Some(failure)),
    {
        Outbox { attempts: Vec::new(), sent: Vec::new(), failure: Some(failure) }
    }

    /// Takes `email` and records the attempt; then delivers it, or fails
    /// with the failure the outbox is set to.
    pub fn send_email(&mut self, email: ConfirmationEmail) -> (r: Result<(), SendError>)
        ensures
            (final(self)@, r) == dispatch(old(self)@, email@),
    {
        let ghost before = self@;
        match self.failure {
            Some(failure) => {
                self.attempts.push(email);
                assert(self@.attempts =~= before.attempts.push(email@));
                Err(failure)
            },
            None => {
                self.attempts.push(email.duplicate());
                self.sent.push(email);
                assert(self@.attempts =~= before.attempts.push(email@));
                assert(self@.sent =~= before.sent.push(email@));
                Ok(())
            },
        }
    }

    /// The number of emails handed to the outbox, delivered or not.
    pub fn attempt_count(&self) -> (n: usize)
        ensures
            n == self@.attempts.len(),
    {
        self.attempts.len()
    }

    /// The `index`-th email handed to the outbox, counted from 0.
    pub fn attempted_email(&self, index: usize) -> (email: Option<&ConfirmationEmail>)
        ensures
            match email {
                Some(email) => index < self@.attempts.len() && email@
                    == self@.attempts[index as int],
                None => index >= self@.attempts.len(),
            },
    {
        if index < self.attempts.len() {
            Some(&self.attempts[index])
        } else {
            None
        }
    }

    /// The number of emails delivered.
    pub fn sent_count(&self) -> (n: usize)
        ensures
            n == self@.sent.len(),
    {
        self.sent.len()
    }

    /// The `index`-th email delivered, counted from 0.
    pub fn sent_email(&self, index: usize) -> (email: Option<&ConfirmationEmail>)
        ensures
            match email {
                Some(email) => index < self@.sent.len() && email@ == self@.sent[index as int],
                None => index >= self@.sent.len(),
            },
    {
        if index < self.sent.len() {
            Some(&self.sent[index])
        } else {
            None
        }
    }
}

/// What handing `email` to an outbox in state `state` does, and what comes
/// back. The attempt is recorded in either case; the email is delivered
/// unless the outbox is set to fail, and then its failure is passed on as
/// it is.
pub open spec fn dispatch(state: OutboxState, email: EmailText) -> (OutboxState, Result<
    (),
    SendError,
>) {
    let attempts = state.attempts.push(email);
    match state.failure {
        Some(failure) => (
            OutboxState { attempts, sent: state.sent, failure: state.failure },
            Err(failure),
        ),
        None => (
            OutboxState { attempts, sent: state.sent.push(email), failure: state.failure },
            Ok(()),
        ),
    }
}

/// Writes the confirmation email for `new_subscriber` and hands it to the
/// outbox exactly once: one attempt is recorded, with the email as it was
/// written, whether it is delivered or not. A failure of the outbox is
/// returned unchanged and is not followed by another attempt.
pub fn send_confirmation_email(
    outbox: &mut Outbox,
    new_subscriber: &NewSubscriber,
    base_url: &str,
    subscription_token: &str,
) -> (r: Result<(), SendError>)
    ensures
        (final(outbox)@, r) == dispatch(
            old(outbox)@,
            confirmation_email_text(new_subscriber.email@, base_url@, subscription_token@),
        ),
{
    let email = compose_confirmation_email(new_subscriber, base_url, subscription_token);
    outbox.send_email(email)
}

} // verus!
