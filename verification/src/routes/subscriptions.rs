use vstd::prelude::*;
use vstd::std_specs::convert::TryFromSpecImpl;
use vstd::string::*;

use crate::domain::new_subscriber::validated_form;
use crate::domain::{NewSubscriber, SubscriberEmail, SubscriberName};
use crate::email::{
    confirmation_email_text, dispatch, lemma_email_holds_link, send_confirmation_email, Outbox,
    OutboxState, SendError,
};
use crate::email::send_error_text;
use crate::repository::{
    current_time, fresh_subscriber_id, is_random_uuid, lemma_registration_success, pending_row,
    register_as, registration, step_context, store_token_error_text, FailedStep, PersistenceError,
    StoreTokenError,
};
use crate::store::{cause_text, StoreState, SubscriptionStatus, SubscriptionStore};
use crate::text::{
    error_chain_fmt, error_chain_text, lemma_occurs_in_transitive, occurs_in, texts,
};
use crate::token::{generate_subscription_token, is_subscription_token};
use crate::workflow::{
    all_succeeding, failing_at, lemma_registration_paths, position, registration_after,
    RegistrationState, STATUS_BAD_REQUEST, STATUS_INTERNAL_SERVER_ERROR, STATUS_OK,
};

verus! {

/// What a visitor submits, as it arrived: nothing in it has been checked.
#[derive(Debug)]
pub struct FormData {
    pub email: String,
    pub name: String,
}

impl TryFrom<FormData> for NewSubscriber {
    type Error = String;

    /// Validates both fields of the form, the name first.
    fn try_from(value: FormData) -> (r: Result<NewSubscriber, String>)
        ensures
            match r {
                Ok(subscriber) => validated_form(value.name@, value.email@) == Ok::<
                    (Seq<char>, Seq<char>),
                    Seq<char>,
                >((subscriber.name@, subscriber.email@)),
                Err(message) => validated_form(value.name@, value.email@) == Err::<
                    (Seq<char>, Seq<char>),
                    Seq<char>,
                >(message@),
            },
    {
        let name = match SubscriberName::parse(value.name) {
            Ok(name) => name,
            Err(message) => return Err(message),
        };
        let email = match SubscriberEmail::parse(value.email) {
            Ok(email) => email,
            Err(message) => return Err(message),
        };
        Ok(NewSubscriber { email, name })
    }
}

impl TryFromSpecImpl<FormData> for NewSubscriber {
    open spec fn obeys_try_from_spec() -> bool {
        false
    }

    open spec fn try_from_spec(v: FormData) -> Result<NewSubscriber, String> {
        arbitrary()
    }
}

/// Why a subscription request failed.
#[derive(Debug)]
pub enum SubscribeError {
    /// The name or the address is not valid; the message says which.
    ValidationError(String),
    /// The store failed while the subscriber was registered.
    PersistenceError(PersistenceError),
    /// The subscriber is registered, but the confirmation email could not
    /// be sent.
    SendError(SendError),
}

/// What a [`SubscribeError`] says, with its text as a character sequence.
pub enum SubscribeFailure {
    ValidationError(Seq<char>),
    PersistenceError(PersistenceError),
    SendError(SendError),
}

impl View for SubscribeError {
    type V = SubscribeFailure;

    open spec fn view(&self) -> SubscribeFailure {
        match self {
            SubscribeError::ValidationError(message) => SubscribeFailure::ValidationError(
                message@,
            ),
            SubscribeError::PersistenceError(error) => SubscribeFailure::PersistenceError(*error),
            SubscribeError::SendError(error) => SubscribeFailure::SendError(*error),
        }
    }
}

impl SubscribeFailure {
    /// The HTTP status for this failure: 400 for a validation error, which
    /// the client can mend; 500 for the others.
    pub open spec fn status(self) -> u16 {
        match self {
            SubscribeFailure::ValidationError(_) => STATUS_BAD_REQUEST,
            SubscribeFailure::PersistenceError(_) => STATUS_INTERNAL_SERVER_ERROR,
            SubscribeFailure::SendError(_) => STATUS_INTERNAL_SERVER_ERROR,
        }
    }

    /// The step that failed.
    pub open spec fn step(self) -> FailedStep {
        match self {
            SubscribeFailure::ValidationError(_) => FailedStep::Validate,
            SubscribeFailure::PersistenceError(error) => error.step,
            SubscribeFailure::SendError(_) => FailedStep::SendEmail,
        }
    }
}

impl SubscribeFailure {
    /// The message of the failure: the validation message itself, or the
    /// step that failed put in words.
    pub open spec fn message(self) -> Seq<char> {
        match self {
            SubscribeFailure::ValidationError(message) => message,
            SubscribeFailure::PersistenceError(error) => step_context(error.step),
            SubscribeFailure::SendError(_) => step_context(FailedStep::SendEmail),
        }
    }

    /// The causes below the message, the nearest first. A token that could
    /// not be stored has two: the failure to store it, and the store's
    /// reason.
    pub open spec fn causes(self) -> Seq<Seq<char>> {
        match self {
            SubscribeFailure::ValidationError(_) => Seq::empty(),
            SubscribeFailure::PersistenceError(error) => if error.step == FailedStep::StoreToken {
                seq![store_token_error_text(), cause_text(error.cause)]
            } else {
                seq![cause_text(error.cause)]
            },
            SubscribeFailure::SendError(error) => seq![send_error_text(error)],
        }
    }
}

impl SubscribeError {
    /// The message of the error.
    pub fn message(&self) -> (text: String)
        ensures
            text@ == self@.message(),
    {
        match self {
            SubscribeError::ValidationError(message) => message.clone(),
            SubscribeError::PersistenceError(error) => error.step.context(),
            SubscribeError::SendError(_) => FailedStep::SendEmail.context(),
        }
    }

    /// The causes below the message, the nearest first.
    pub fn causes(&self) -> (causes: Vec<String>)
        ensures
            texts(causes@) == self@.causes(),
    {
        let mut causes: Vec<String> = Vec::new();
        match self {
            SubscribeError::ValidationError(_) => {},
            SubscribeError::PersistenceError(error) => {
                match error.step {
                    FailedStep::StoreToken => {
                        causes.push(StoreTokenError(error.cause).message());
                    },
                    _ => {},
                }
                causes.push(error.cause.message());
            },
            SubscribeError::SendError(error) => {
                causes.push(error.message());
            },
        }
        assert(texts(causes@) =~= self@.causes());
        causes
    }

    /// The error written out with the chain of its causes.
    pub fn report(&self) -> (text: String)
        ensures
            text@ == error_chain_text(self@.message(), self@.causes()),
    {
        let message = self.message();
        let causes = self.causes();
        error_chain_fmt(message.as_str(), &causes)
    }

    /// The HTTP status that answers the request.
    pub fn status_code(&self) -> (status: u16)
        ensures
            status == self@.status(),
    {
        match self {
            SubscribeError::ValidationError(_) => STATUS_BAD_REQUEST,
            SubscribeError::PersistenceError(_) => STATUS_INTERNAL_SERVER_ERROR,
            SubscribeError::SendError(_) => STATUS_INTERNAL_SERVER_ERROR,
        }
    }

    /// The step that failed.
    pub fn failed_step(&self) -> (step: FailedStep)
        ensures
            step == self@.step(),
    {
        match self {
            SubscribeError::ValidationError(_) => FailedStep::Validate,
            SubscribeError::PersistenceError(error) => error.step,
            SubscribeError::SendError(_) => FailedStep::SendEmail,
        }
    }
}

/// The result of a subscription request with its error as a view.
pub open spec fn outcome_view(r: Result<(), SubscribeError>) -> Result<(), SubscribeFailure> {
    match r {
        Ok(()) => Ok(()),
        Err(error) => Err(error@),
    }
}

/// The HTTP status that answers a subscription request with this result.
pub open spec fn subscription_status(r: Result<(), SubscribeFailure>) -> u16 {
    match r {
        Ok(()) => STATUS_OK,
        Err(failure) => failure.status(),
    }
}

/// What registering the validated pair (`name`, `email`) and sending the
/// confirmation email does to the store and to the outbox, and how it
/// ends. The email is attempted only after the registration is committed,
/// and a failure to send takes nothing back.
pub open spec fn enrolment(
    store: StoreState,
    outbox: OutboxState,
    name: Seq<char>,
    email: Seq<char>,
    base_url: Seq<char>,
    id: u128,
    subscribed_at: i64,
    token: Seq<char>,
) -> (StoreState, OutboxState, Result<(), SubscribeFailure>) {
    let (stored, registered) = registration(
        store,
        pending_row(id, name, email, subscribed_at),
        token,
    );
    match registered {
        Err(error) => (stored, outbox, Err(SubscribeFailure::PersistenceError(error))),
        Ok(_) => {
            let (delivered, sent) = dispatch(
                outbox,
                confirmation_email_text(email, base_url, token),
            );
            match sent {
                Err(error) => (stored, delivered, Err(SubscribeFailure::SendError(error))),
                Ok(()) => (stored, delivered, Ok(())),
            }
        },
    }
}

/// What a subscription request with the raw fields `name` and `email`
/// does, and how it ends: validation first, and nothing else happens if it
/// fails; then the enrolment.
pub open spec fn subscription(
    store: StoreState,
    outbox: OutboxState,
    name: Seq<char>,
    email: Seq<char>,
    base_url: Seq<char>,
    id: u128,
    subscribed_at: i64,
    token: Seq<char>,
) -> (StoreState, OutboxState, Result<(), SubscribeFailure>) {
    match validated_form(name, email) {
        Err(message) => (store, outbox, Err(SubscribeFailure::ValidationError(message))),
        Ok((clean_name, address)) => enrolment(
            store,
            outbox,
            clean_name,
            address,
            base_url,
            id,
            subscribed_at,
            token,
        ),
    }
}

/// Registers an already validated subscriber under the given identifier,
/// time and token, and sends the confirmation email.
pub fn enrol(
    new_subscriber: &NewSubscriber,
    store: &mut SubscriptionStore,
    outbox: &mut Outbox,
    base_url: &str,
    id: u128,
    subscribed_at: i64,
    token: &str,
) -> (r: Result<(), SubscribeError>)
    ensures
        (final(store)@, final(outbox)@, outcome_view(r)) == enrolment(
            old(store)@,
            old(outbox)@,
            new_subscriber.name@,
            new_subscriber.email@,
            base_url@,
            id,
            subscribed_at,
            token@,
        ),
{
    match register_as(store, new_subscriber, token, id, subscribed_at) {
        Ok(_) => {},
        Err(error) => {
            return Err(SubscribeError::PersistenceError(error));
        },
    }
    match send_confirmation_email(outbox, new_subscriber, base_url, token) {
        Ok(()) => Ok(()),
        Err(error) => Err(SubscribeError::SendError(error)),
    }
}

/// Answers a subscription request under the given identifier, time and
/// token: validates the form, registers the subscriber, sends the
/// confirmation email.
pub fn subscribe_with(
    form: FormData,
    store: &mut SubscriptionStore,
    outbox: &mut Outbox,
    base_url: &str,
    id: u128,
    subscribed_at: i64,
    token: &str,
) -> (r: Result<(), SubscribeError>)
    ensures
        (final(store)@, final(outbox)@, outcome_view(r)) == subscription(
            old(store)@,
            old(outbox)@,
            form.name@,
            form.email@,
            base_url@,
            id,
            subscribed_at,
            token@,
        ),
{
    let new_subscriber = match NewSubscriber::try_from(form) {
        Ok(new_subscriber) => new_subscriber,
        Err(message) => {
            return Err(SubscribeError::ValidationError(message));
        },
    };
    enrol(&new_subscriber, store, outbox, base_url, id, subscribed_at, token)
}

/// Answers a subscription request. A form that fails validation is turned
/// down before anything else happens. Otherwise the subscriber is
/// registered under a fresh random identifier, with the current time and
/// a fresh random token, and the confirmation email is sent.
pub fn subscribe(
    form: FormData,
    store: &mut SubscriptionStore,
    outbox: &mut Outbox,
    base_url: &str,
) -> (r: Result<(), SubscribeError>)
    ensures
        validated_form(form.name@, form.email@) is Err ==> final(store)@ == old(store)@
            && final(outbox)@ == old(outbox)@ && outcome_view(r) == Err::<(), SubscribeFailure>(
            SubscribeFailure::ValidationError(validated_form(form.name@, form.email@)->Err_0),
        ),
        validated_form(form.name@, form.email@) is Ok ==> exists|
            id: u128,
            subscribed_at: i64,
            token: Seq<char>,
        |
            is_random_uuid(id) && is_subscription_token(token) && (
                final(store)@,
                final(outbox)@,
                outcome_view(r),
            ) == #[trigger] enrolment(
                old(store)@,
                old(outbox)@,
                validated_form(form.name@, form.email@)->Ok_0.0,
                validated_form(form.name@, form.email@)->Ok_0.1,
                base_url@,
                id,
                subscribed_at,
                token,
            ),
{
    let ghost checked = validated_form(form.name@, form.email@);
    let new_subscriber = match NewSubscriber::try_from(form) {
        Ok(new_subscriber) => new_subscriber,
        Err(message) => {
            return Err(SubscribeError::ValidationError(message));
        },
    };
    let id = fresh_subscriber_id();
    let subscribed_at = current_time();
    let token = generate_subscription_token();
    let r = enrol(&new_subscriber, store, outbox, base_url, id, subscribed_at, token.as_str());
    proof {
        assert(checked->Ok_0.0 == new_subscriber.name@);
        assert(checked->Ok_0.1 == new_subscriber.email@);
        assert((store@, outbox@, outcome_view(r)) == enrolment(
            old(store)@,
            old(outbox)@,
            checked->Ok_0.0,
            checked->Ok_0.1,
            base_url@,
            id,
            subscribed_at,
            token@,
        ));
    }
    r
}

/// The HTTP status that answers a subscription request which ended as
/// `result`: 200 on success, else the status of the error.
pub fn response_status(result: &Result<(), SubscribeError>) -> (status: u16)
    ensures
        status == subscription_status(outcome_view(*result)),
{
    match result {
        Ok(()) => STATUS_OK,
        Err(error) => error.status_code(),
    }
}

/// A request that fails validation is answered 400 and leaves no trace:
/// no row is written and no email is sent.
pub proof fn lemma_invalid_form_leaves_no_trace(
    store: StoreState,
    outbox: OutboxState,
    name: Seq<char>,
    email: Seq<char>,
    base_url: Seq<char>,
    id: u128,
    subscribed_at: i64,
    token: Seq<char>,
)
    requires
        validated_form(name, email) is Err,
    ensures
        ({
            let (stored, delivered, r) = subscription(
                store,
                outbox,
                name,
                email,
                base_url,
                id,
                subscribed_at,
                token,
            );
            stored == store && delivered == outbox && r is Err && subscription_status(r)
                == STATUS_BAD_REQUEST
        }),
{
}

/// How an enrolment can end, and what is then true of the store and the
/// outbox.
///
/// On success (200) the subscriber is there, pending, the token is live
/// and belongs to the subscriber, and exactly one more email was handed to
/// the outbox and delivered: the confirmation email, whose two bodies hold
/// the link with the token. If the store fails (500) no row has changed
/// and no email was attempted. If only the email fails (500) it was
/// attempted exactly once, and the subscriber stays registered and
/// pending, with the token live: nothing is rolled back. In every case
/// the email is attempted at most once, and only after the registration
/// was committed.
pub proof fn lemma_enrolment_outcomes(
    store: StoreState,
    outbox: OutboxState,
    name: Seq<char>,
    email: Seq<char>,
    base_url: Seq<char>,
    id: u128,
    subscribed_at: i64,
    token: Seq<char>,
)
    requires
        store.tables.consistent(),
    ensures
        ({
            let (stored, delivered, r) = enrolment(
                store,
                outbox,
                name,
                email,
                base_url,
                id,
                subscribed_at,
                token,
            );
            let sent = confirmation_email_text(email, base_url, token);
            &&& r is Ok ==> {
                &&& subscription_status(r) == STATUS_OK
                &&& stored.tables.status_of(id) == Some(SubscriptionStatus::PendingConfirmation)
                &&& stored.tables.owner_of(token) == Some(id)
                &&& stored.tables.subscribers.len() == store.tables.subscribers.len() + 1
                &&& stored.tables.tokens.len() == store.tables.tokens.len() + 1
                &&& delivered.sent == outbox.sent.push(sent)
                &&& delivered.attempts == outbox.attempts.push(sent)
                &&& sent.recipient == email
                &&& occurs_in(token, sent.html_body)
                &&& occurs_in(token, sent.text_body)
            }
            &&& r is Err ==> subscription_status(r) == STATUS_INTERNAL_SERVER_ERROR
                && delivered.sent == outbox.sent
            &&& r is Err && r->Err_0 is PersistenceError ==> stored.tables == store.tables
                && delivered.attempts == outbox.attempts
            &&& r is Err && r->Err_0 is SendError ==> {
                &&& delivered.attempts == outbox.attempts.push(sent)
                &&& stored.tables.status_of(id) == Some(SubscriptionStatus::PendingConfirmation)
                &&& stored.tables.owner_of(token) == Some(id)
            }
            &&& stored.tables.consistent()
            &&& delivered.attempts.len() <= outbox.attempts.len() + 1
            &&& delivered.attempts != outbox.attempts ==> registration(
                store,
                pending_row(id, name, email, subscribed_at),
                token,
            ).1 is Ok
        }),
{
    let row = pending_row(id, name, email, subscribed_at);
    lemma_registration_success(store, row, token);
    lemma_email_holds_link(email, base_url, token);
    lemma_occurs_in_transitive(
        token,
        crate::email::confirmation_link_text(base_url, token),
        confirmation_email_text(email, base_url, token).html_body,
    );
    lemma_occurs_in_transitive(
        token,
        crate::email::confirmation_link_text(base_url, token),
        confirmation_email_text(email, base_url, token).text_body,
    );
}

/// The state machine and the workflow agree. However a subscription
/// request ends, the machine, told of the same successes and the same
/// failure, ends in a state that carries the same HTTP status; and a
/// request only ever fails at one of the five steps of a registration.
pub proof fn lemma_subscription_ends_as_the_machine_does(
    store: StoreState,
    outbox: OutboxState,
    name: Seq<char>,
    email: Seq<char>,
    base_url: Seq<char>,
    id: u128,
    subscribed_at: i64,
    token: Seq<char>,
)
    ensures
        ({
            let r = subscription(store, outbox, name, email, base_url, id, subscribed_at, token).2;
            let ended = match r {
                Ok(()) => registration_after(RegistrationState::Received, all_succeeding()),
                Err(failure) => registration_after(
                    RegistrationState::Received,
                    failing_at(failure.step()),
                ),
            };
            &&& ended.status() == Some(subscription_status(r))
            &&& r is Ok ==> ended == RegistrationState::Succeeded
            &&& r is Err ==> ended == RegistrationState::Failed(r->Err_0.step()) && position(
                r->Err_0.step(),
            ) < 5
        }),
{
    let r = subscription(store, outbox, name, email, base_url, id, subscribed_at, token).2;
    match r {
        Ok(()) => {
            lemma_registration_paths(FailedStep::Validate);
        },
        Err(failure) => {
            lemma_registration_paths(failure.step());
        },
    }
}

} // verus!
