//! The two operations on the store that need atomicity: registering a new
//! subscriber together with the confirmation token, and consuming a token
//! to confirm the subscriber.

use vstd::prelude::*;
use vstd::string::*;

use crate::domain::NewSubscriber;
use crate::store::{
    commit_refusal, lemma_join_consistent, lemma_plus_has, lemma_positions, lemma_with_confirmed,
    lemma_without_token, mark_confirmed_step, subscriber_refusal, take_token_step, token_refusal,
    ConfirmationToken, PersistenceCause, StoreState, Subscriber, SubscriberRow,
    SubscriptionStatus, SubscriptionStore, Tables, TokenRow, Transaction,
};

verus! {

/// The steps of the two workflows that can fail.
#[derive(Clone, Copy, PartialEq, Eq, Structural, Debug)]
pub enum FailedStep {
    Validate,
    InsertSubscriber,
    StoreToken,
    Commit,
    SendEmail,
    ConsumeToken,
    UpdateStatus,
}

/// What it means that the step failed, in words.
pub open spec fn step_context(step: FailedStep) -> Seq<char> {
    match step {
        FailedStep::Validate => "Failed to validate the submitted form."@,
        FailedStep::InsertSubscriber => "Failed to insert new subscriber in the database."@,
        FailedStep::StoreToken => "Failed to store the confirmation token for a new subscriber."@,
        FailedStep::Commit => "Failed to commit SQL transaction to store a new subscriber."@,
        FailedStep::SendEmail => "Failed to send a confirmation email."@,
        FailedStep::ConsumeToken => "Failed to consume the subscription token."@,
        FailedStep::UpdateStatus => "Failed to mark the subscriber as confirmed."@,
    }
}

impl FailedStep {
    /// What it means that this step failed, in words.
    pub fn context(&self) -> (text: String)
        ensures
            text@ == step_context(*self),
    {
        match self {
            FailedStep::Validate => String::from_str("Failed to validate the submitted form."),
            FailedStep::InsertSubscriber => String::from_str(
                "Failed to insert new subscriber in the database.",
            ),
            FailedStep::StoreToken => String::from_str(
                "Failed to store the confirmation token for a new subscriber.",
            ),
            FailedStep::Commit => String::from_str(
                "Failed to commit SQL transaction to store a new subscriber.",
            ),
            FailedStep::SendEmail => String::from_str("Failed to send a confirmation email."),
            FailedStep::ConsumeToken => String::from_str(
                "Failed to consume the subscription token.",
            ),
            FailedStep::UpdateStatus => String::from_str(
                "Failed to mark the subscriber as confirmed.",
            ),
        }
    }
}

/// A failure of the store, with the step during which it happened.
#[derive(Clone, Copy, PartialEq, Eq, Structural, Debug)]
pub struct PersistenceError {
    pub step: FailedStep,
    pub cause: PersistenceCause,
}

/// The failure to store a confirmation token; the store's own reason is
/// kept as its source.
#[derive(Clone, Copy, PartialEq, Eq, Structural, Debug)]
pub struct StoreTokenError(pub PersistenceCause);

/// What a [`StoreTokenError`] says.
pub open spec fn store_token_error_text() -> Seq<char> {
    "A database error was encountered while trying to store a subscription token."@
}

impl StoreTokenError {
    /// What went wrong, for a reader.
    pub fn message(&self) -> (text: String)
        ensures
            text@ == store_token_error_text(),
    {
        String::from_str(
            "A database error was encountered while trying to store a subscription token.",
        )
    }

    /// The store's reason.
    pub fn source(&self) -> (cause: PersistenceCause)
        ensures
            cause == self.0,
    {
        self.0
    }
}

/// How an attempt to confirm ended.
#[derive(Clone, Copy, PartialEq, Eq, Structural, Debug)]
pub enum ConfirmationOutcome {
    /// The token was live; it is gone now and its subscriber is confirmed.
    Confirmed(u128),
    /// No such token is live: it never was, or it was used before.
    TokenNotFound,
    /// The store failed. If it failed while updating the status, the token
    /// is gone although the subscriber is still pending.
    PersistenceError(PersistenceError),
}

/// What marks a version 4 (random) UUID of the RFC variant: the version
/// nibble is 4 and the two variant bits are `10`.
pub open spec fn is_random_uuid(id: u128) -> bool {
    id & 0x0000_0000_0000_f000_c000_0000_0000_0000u128
        == 0x0000_0000_0000_4000_8000_0000_0000_0000u128
}

/// Calls `uuid::Uuid::new_v4` and gives the identifier as a number.
///
/// Believed, not proved: the identifier carries the version and variant
/// bits of a random UUID. The other 122 bits are left to chance. The call
/// does not return if the operating system gives no entropy.
#[verifier::external_body]
pub(crate) fn fresh_subscriber_id() -> (id: u128)
    ensures
        is_random_uuid(id),
{
    uuid::Uuid::new_v4().as_u128()
}

/// Calls `chrono::Utc::now` and gives the instant in microseconds since the
/// Unix epoch.
///
/// Nothing is claimed of the result. The call does not return if the system
/// clock stands before the epoch.
#[verifier::external_body]
pub(crate) fn current_time() -> (microseconds: i64) {
    chrono::Utc::now().timestamp_micros()
}

/// The row with which a subscriber starts: pending confirmation.
pub open spec fn pending_row(id: u128, name: Seq<char>, email: Seq<char>, subscribed_at: i64)
    -> SubscriberRow {
    SubscriberRow {
        id,
        email,
        name,
        subscribed_at,
        status: SubscriptionStatus::PendingConfirmation,
    }
}

/// The store serves at least `statements` more statements.
pub open spec fn serves_next(state: StoreState, statements: nat) -> bool {
    match state.statements_left {
        None => true,
        Some(left) => left >= statements,
    }
}

/// What registering `row` with `token` does to a store in state `state`,
/// and what it returns. Three statements are made in turn: insert the
/// subscriber, insert the token, commit; the first refusal ends the attempt
/// and leaves the committed rows as they were.
pub open spec fn registration(state: StoreState, row: SubscriberRow, token: Seq<char>) -> (
    StoreState,
    Result<u128, PersistenceError>,
) {
    let token_row = TokenRow { subscriber_id: row.id, token };
    let first = state.after_statement();
    let second = first.after_statement();
    let third = second.after_statement();
    let staged_subscriber = Tables::empty().with_subscriber(row);
    let staged = staged_subscriber.with_token(token_row);
    match subscriber_refusal(state, Tables::empty(), row) {
        Some(cause) => (
            first,
            Err(PersistenceError { step: FailedStep::InsertSubscriber, cause }),
        ),
        None => match token_refusal(first, staged_subscriber, token_row) {
            Some(cause) => (
                second,
                Err(PersistenceError { step: FailedStep::StoreToken, cause }),
            ),
            None => match commit_refusal(second, staged) {
                Some(cause) => (
                    third,
                    Err(PersistenceError { step: FailedStep::Commit, cause }),
                ),
                None => (third.with_tables(state.tables.plus(staged)), Ok(row.id)),
            },
        },
    }
}

/// What consuming `token` does to a store in state `state`, and how it
/// ends. Two statements are made: delete the token and return its owner,
/// then mark the owner confirmed. The second is made only if the first
/// found the token.
pub open spec fn consumption(state: StoreState, token: Seq<char>) -> (
    StoreState,
    ConfirmationOutcome,
) {
    let (taken, owner) = take_token_step(state, token);
    match owner {
        Err(cause) => (
            taken,
            ConfirmationOutcome::PersistenceError(
                PersistenceError { step: FailedStep::ConsumeToken, cause },
            ),
        ),
        Ok(None) => (taken, ConfirmationOutcome::TokenNotFound),
        Ok(Some(id)) => {
            let (marked, updated) = mark_confirmed_step(taken, id);
            match updated {
                Err(cause) => (
                    marked,
                    ConfirmationOutcome::PersistenceError(
                        PersistenceError { step: FailedStep::UpdateStatus, cause },
                    ),
                ),
                Ok(()) => (marked, ConfirmationOutcome::Confirmed(id)),
            }
        },
    }
}

/// The row for `new_subscriber` under the given identifier and time of
/// subscription: pending confirmation.
pub fn pending_subscriber(new_subscriber: &NewSubscriber, id: u128, subscribed_at: i64) -> (row:
    Subscriber)
    ensures
        row@ == pending_row(id, new_subscriber.name@, new_subscriber.email@, subscribed_at),
{
    Subscriber {
        id,
        email: String::from_str(new_subscriber.email.as_ref()),
        name: String::from_str(new_subscriber.name.as_ref()),
        subscribed_at,
        status: SubscriptionStatus::PendingConfirmation,
    }
}

/// The row for `new_subscriber` under a fresh random identifier, with the
/// current time as the time of subscription.
pub fn new_pending_subscriber(new_subscriber: &NewSubscriber) -> (row: Subscriber)
    ensures
        is_random_uuid(row.id),
        row@ == pending_row(
            row.id,
            new_subscriber.name@,
            new_subscriber.email@,
            row.subscribed_at,
        ),
{
    let id = fresh_subscriber_id();
    let subscribed_at = current_time();
    pending_subscriber(new_subscriber, id, subscribed_at)
}

/// Inserts the subscriber with the given identifier and time of
/// subscription, pending confirmation, inside `transaction`.
pub fn insert_subscriber_as(
    store: &mut SubscriptionStore,
    transaction: &mut Transaction,
    new_subscriber: &NewSubscriber,
    id: u128,
    subscribed_at: i64,
) -> (r: Result<u128, PersistenceCause>)
    ensures
        final(store)@ == old(store)@.after_statement(),
        r == match subscriber_refusal(
            old(store)@,
            old(transaction)@,
            pending_row(id, new_subscriber.name@, new_subscriber.email@, subscribed_at),
        ) {
            Some(cause) => Err::<u128, PersistenceCause>(cause),
            None => Ok::<u128, PersistenceCause>(id),
        },
        final(transaction)@ == if r is Ok {
            old(transaction)@.with_subscriber(
                pending_row(id, new_subscriber.name@, new_subscriber.email@, subscribed_at),
            )
        } else {
            old(transaction)@
        },
{
    let row = pending_subscriber(new_subscriber, id, subscribed_at);
    match store.stage_subscriber(transaction, row) {
        Ok(()) => Ok(id),
        Err(cause) => Err(cause),
    }
}

/// Inserts the subscriber under a fresh random identifier, with the current
/// time as the time of subscription, and returns the identifier.
pub fn insert_subscriber(
    store: &mut SubscriptionStore,
    transaction: &mut Transaction,
    new_subscriber: &NewSubscriber,
) -> (r: Result<u128, PersistenceCause>)
    ensures
        final(store)@ == old(store)@.after_statement(),
        exists|id: u128, subscribed_at: i64|
            {
                &&& is_random_uuid(id)
                &&& r == match subscriber_refusal(
                    old(store)@,
                    old(transaction)@,
                    #[trigger] pending_row(
                        id,
                        new_subscriber.name@,
                        new_subscriber.email@,
                        subscribed_at,
                    ),
                ) {
                    Some(cause) => Err::<u128, PersistenceCause>(cause),
                    None => Ok::<u128, PersistenceCause>(id),
                }
                &&& final(transaction)@ == if r is Ok {
                    old(transaction)@.with_subscriber(
                        pending_row(
                            id,
                            new_subscriber.name@,
                            new_subscriber.email@,
                            subscribed_at,
                        ),
                    )
                } else {
                    old(transaction)@
                }
            },
{
    let row = new_pending_subscriber(new_subscriber);
    let id = row.id;
    let ghost subscribed_at = row.subscribed_at;
    let r = match store.stage_subscriber(transaction, row) {
        Ok(()) => Ok(id),
        Err(cause) => Err(cause),
    };
    proof {
        let row = pending_row(id, new_subscriber.name@, new_subscriber.email@, subscribed_at);
        assert(r == match subscriber_refusal(old(store)@, old(transaction)@, row) {
            Some(cause) => Err::<u128, PersistenceCause>(cause),
            None => Ok::<u128, PersistenceCause>(id),
        });
    }
    r
}

/// Inserts the confirmation token of subscriber `subscriber_id` inside
/// `transaction`.
pub fn store_token(
    store: &mut SubscriptionStore,
    transaction: &mut Transaction,
    subscriber_id: u128,
    subscription_token: &str,
) -> (r: Result<(), StoreTokenError>)
    ensures
        final(store)@ == old(store)@.after_statement(),
        r == match token_refusal(
            old(store)@,
            old(transaction)@,
            TokenRow { subscriber_id, token: subscription_token@ },
        ) {
            Some(cause) => Err::<(), StoreTokenError>(StoreTokenError(cause)),
            None => Ok::<(), StoreTokenError>(()),
        },
        final(transaction)@ == if r is Ok {
            old(transaction)@.with_token(TokenRow { subscriber_id, token: subscription_token@ })
        } else {
            old(transaction)@
        },
{
    let row = ConfirmationToken { subscriber_id, token: String::from_str(subscription_token) };
    match store.stage_token(transaction, row) {
        Ok(()) => Ok(()),
        Err(cause) => Err(StoreTokenError(cause)),
    }
}

/// Registers the subscriber under the given identifier and time of
/// subscription: the subscriber row and the token row are committed
/// together, or neither is.
pub fn register_as(
    store: &mut SubscriptionStore,
    new_subscriber: &NewSubscriber,
    token: &str,
    id: u128,
    subscribed_at: i64,
) -> (r: Result<u128, PersistenceError>)
    ensures
        (final(store)@, r) == registration(
            old(store)@,
            pending_row(id, new_subscriber.name@, new_subscriber.email@, subscribed_at),
            token@,
        ),
{
    let mut transaction = store.begin();
    match insert_subscriber_as(store, &mut transaction, new_subscriber, id, subscribed_at) {
        Ok(_) => {},
        Err(cause) => {
            return Err(PersistenceError { step: FailedStep::InsertSubscriber, cause });
        },
    }
    match store_token(store, &mut transaction, id, token) {
        Ok(()) => {},
        Err(error) => {
            return Err(PersistenceError { step: FailedStep::StoreToken, cause: error.source() });
        },
    }
    match store.commit(transaction) {
        Ok(()) => Ok(id),
        Err(cause) => Err(PersistenceError { step: FailedStep::Commit, cause }),
    }
}

/// Registers the subscriber under a fresh random identifier, with the
/// current time as the time of subscription, and returns the identifier.
pub fn register(store: &mut SubscriptionStore, new_subscriber: &NewSubscriber, token: &str) -> (r:
    Result<u128, PersistenceError>)
    ensures
        exists|id: u128, subscribed_at: i64|
            is_random_uuid(id) && (final(store)@, r) == registration(
                old(store)@,
                #[trigger] pending_row(
                    id,
                    new_subscriber.name@,
                    new_subscriber.email@,
                    subscribed_at,
                ),
                token@,
            ),
{
    let id = fresh_subscriber_id();
    let subscribed_at = current_time();
    let r = register_as(store, new_subscriber, token, id, subscribed_at);
    proof {
        let row = pending_row(id, new_subscriber.name@, new_subscriber.email@, subscribed_at);
        assert((store@, r) == registration(old(store)@, row, token@));
    }
    r
}

/// Deletes the token and returns the subscriber it belonged to, as one
/// statement.
pub fn fetch_subscriber_id_from_token(store: &mut SubscriptionStore, token: &str) -> (r: Result<
    Option<u128>,
    PersistenceCause,
>)
    ensures
        (final(store)@, r) == take_token_step(old(store)@, token@),
{
    store.take_token(token)
}

/// Marks the subscriber as confirmed.
pub fn confirm_subscriber(store: &mut SubscriptionStore, subscriber_id: u128) -> (r: Result<
    (),
    PersistenceCause,
>)
    ensures
        (final(store)@, r) == mark_confirmed_step(old(store)@, subscriber_id),
{
    store.mark_confirmed(subscriber_id)
}

/// Consumes the token and confirms its subscriber. The token is deleted by
/// the statement that looks it up, so of any number of attempts with one
/// token at most one is answered `Confirmed`.
pub fn consume_token_and_confirm(store: &mut SubscriptionStore, token: &str) -> (outcome:
    ConfirmationOutcome)
    ensures
        (final(store)@, outcome) == consumption(old(store)@, token@),
{
    let subscriber_id = match fetch_subscriber_id_from_token(store, token) {
        Err(cause) => {
            return ConfirmationOutcome::PersistenceError(
                PersistenceError { step: FailedStep::ConsumeToken, cause },
            );
        },
        Ok(None) => {
            return ConfirmationOutcome::TokenNotFound;
        },
        Ok(Some(subscriber_id)) => subscriber_id,
    };
    match confirm_subscriber(store, subscriber_id) {
        Ok(()) => ConfirmationOutcome::Confirmed(subscriber_id),
        Err(cause) => ConfirmationOutcome::PersistenceError(
            PersistenceError { step: FailedStep::UpdateStatus, cause },
        ),
    }
}

/// When registration succeeds: exactly when the store serves three more
/// statements and neither the identifier, nor the address, nor the token is
/// in use. The two rows are then the only change, the subscriber is pending,
/// and the token is live and belongs to the subscriber.
pub proof fn lemma_registration_success(state: StoreState, row: SubscriberRow, token: Seq<char>)
    requires
        state.tables.consistent(),
    ensures
        registration(state, row, token).1 is Ok <==> serves_next(state, 3)
            && !state.tables.has_subscriber(row.id) && !state.tables.has_email(row.email)
            && !state.tables.has_token(token),
        registration(state, row, token).1 is Ok ==> {
            let after = registration(state, row, token).0.tables;
            &&& registration(state, row, token).1 == Ok::<u128, PersistenceError>(row.id)
            &&& after == state.tables.with_subscriber(row).with_token(
                TokenRow { subscriber_id: row.id, token },
            )
            &&& after.consistent()
            &&& after.status_of(row.id) == Some(row.status)
            &&& after.owner_of(token) == Some(row.id)
        },
{
    let token_row = TokenRow { subscriber_id: row.id, token };
    let staged_subscriber = Tables::empty().with_subscriber(row);
    let staged = staged_subscriber.with_token(token_row);
    let joined = state.tables.plus(staged);
    lemma_plus_has(state.tables, Tables::empty());
    lemma_plus_has(state.tables, staged_subscriber);
    lemma_plus_has(state.tables, staged);
    assert(staged_subscriber.subscribers[0] == row);
    assert(staged.subscribers[0] == row);
    assert(staged.tokens[0] == token_row);
    assert(joined =~= state.tables.with_subscriber(row).with_token(token_row));
    if !state.tables.has_subscriber(row.id) && !state.tables.has_email(row.email)
        && !state.tables.has_token(token) {
        lemma_join_consistent(state.tables, staged);
        lemma_positions(joined);
        assert(joined.subscribers[state.tables.subscribers.len() as int] == row);
        assert(joined.tokens[state.tables.tokens.len() as int] == token_row);
    }
}

/// A registration that fails, at whichever step and for whatever reason,
/// leaves the committed rows exactly as they were.
pub proof fn lemma_failed_registration_changes_nothing(
    state: StoreState,
    row: SubscriberRow,
    token: Seq<char>,
)
    ensures
        registration(state, row, token).1 is Err ==> registration(state, row, token).0.tables
            == state.tables,
{
}

/// If storing the token fails after the subscriber was inserted, the
/// registration fails at that step and the subscriber is nowhere to be
/// seen afterwards.
pub proof fn lemma_token_failure_undoes_insert(
    state: StoreState,
    row: SubscriberRow,
    token: Seq<char>,
)
    requires
        subscriber_refusal(state, Tables::empty(), row) is None,
        token_refusal(
            state.after_statement(),
            Tables::empty().with_subscriber(row),
            TokenRow { subscriber_id: row.id, token },
        ) is Some,
    ensures
        registration(state, row, token).1 is Err,
        registration(state, row, token).1->Err_0.step == FailedStep::StoreToken,
        registration(state, row, token).0.tables == state.tables,
        !registration(state, row, token).0.tables.has_subscriber(row.id),
        !registration(state, row, token).0.tables.has_email(row.email),
{
    lemma_plus_has(state.tables, Tables::empty());
}

/// A token confirms at most once. Of two attempts in a row with one token
/// the second is never answered `Confirmed`; and while the store is
/// reachable, a live token is answered `Confirmed` with its owner the first
/// time and `TokenNotFound` the second.
pub proof fn lemma_token_confirms_once(state: StoreState, token: Seq<char>)
    requires
        state.tables.consistent(),
    ensures
        ({
            let (between, first) = consumption(state, token);
            let (after, second) = consumption(between, token);
            &&& !(second is Confirmed)
            &&& between.tables.consistent()
            &&& first is Confirmed ==> !between.tables.has_token(token)
            &&& serves_next(state, 3) && state.tables.has_token(token) ==> first
                == ConfirmationOutcome::Confirmed(state.tables.owner_of(token)->Some_0) && second
                == ConfirmationOutcome::TokenNotFound && after.tables == between.tables
            &&& serves_next(state, 2) && !state.tables.has_token(token) ==> first
                == ConfirmationOutcome::TokenNotFound && second
                == ConfirmationOutcome::TokenNotFound && after.tables == state.tables
        }),
{
    lemma_without_token(state.tables, token);
    match state.tables.owner_of(token) {
        Some(id) => {
            lemma_with_confirmed(state.tables.without_token(token), id);
        },
        None => {},
    }
}

/// Two requests that race with one live token end as if one had come
/// after the other: exactly one is answered `Confirmed` and the other
/// `TokenNotFound`. The statement that hands out the owner also deletes the
/// token, so when both requests look the token up before either updates the
/// status, the second lookup finds nothing; the one update then leaves the
/// store as two requests in a row would.
pub proof fn lemma_racing_confirmations(state: StoreState, token: Seq<char>)
    requires
        state.tables.consistent(),
        state.tables.has_token(token),
        state.statements_left is None,
    ensures
        ({
            let id = state.tables.owner_of(token)->Some_0;
            let (after_first_lookup, first) = take_token_step(state, token);
            let (after_second_lookup, second) = take_token_step(after_first_lookup, token);
            let (after_update, updated) = mark_confirmed_step(after_second_lookup, id);
            let in_a_row = consumption(consumption(state, token).0, token);
            &&& first == Ok::<Option<u128>, PersistenceCause>(Some(id))
            &&& second == Ok::<Option<u128>, PersistenceCause>(None)
            &&& updated == Ok::<(), PersistenceCause>(())
            &&& after_update == in_a_row.0
            &&& consumption(state, token).1 == ConfirmationOutcome::Confirmed(id)
            &&& in_a_row.1 == ConfirmationOutcome::TokenNotFound
        }),
{
    lemma_without_token(state.tables, token);
    let id = state.tables.owner_of(token)->Some_0;
    let taken = state.tables.without_token(token);
    lemma_with_confirmed(taken, id);
    assert(taken.without_token(token) == taken);
    assert(taken.with_confirmed(id).without_token(token) == taken.with_confirmed(id));
}

/// What confirming does to a live token's subscriber while the store is
/// reachable: the subscriber is confirmed, the token is gone, and every
/// other subscriber and token is as before.
pub proof fn lemma_confirmation_effect(state: StoreState, token: Seq<char>)
    requires
        state.tables.consistent(),
        state.tables.has_token(token),
        serves_next(state, 2),
    ensures
        ({
            let (after, outcome) = consumption(state, token);
            let id = state.tables.owner_of(token)->Some_0;
            &&& outcome == ConfirmationOutcome::Confirmed(id)
            &&& state.tables.has_subscriber(id)
            &&& after.tables.status_of(id) == Some(SubscriptionStatus::Confirmed)
            &&& !after.tables.has_token(token)
            &&& forall|other: u128|
                other != id ==> #[trigger] after.tables.status_of(other) == state.tables.status_of(
                    other,
                )
            &&& forall|other: Seq<char>|
                other != token ==> #[trigger] after.tables.owner_of(other)
                    == state.tables.owner_of(other)
        }),
{
    let id = state.tables.owner_of(token)->Some_0;
    lemma_without_token(state.tables, token);
    lemma_with_confirmed(state.tables.without_token(token), id);
    lemma_positions(state.tables);
    let taken = state.tables.without_token(token);
    assert(forall|other: u128| #[trigger] taken.status_of(other) == state.tables.status_of(other));
    assert(forall|other: Seq<char>| #[trigger]
        taken.with_confirmed(id).owner_of(other) == taken.owner_of(other));
}

/// The one gap between the two statements of a confirmation: if the store
/// becomes unreachable right after it handed out the owner of a live
/// token, the token is gone for good although the subscriber is still as
/// unconfirmed as before. Nothing else can go half-way.
pub proof fn lemma_confirmation_gap(state: StoreState, token: Seq<char>)
    requires
        state.tables.consistent(),
        state.tables.has_token(token),
        state.statements_left == Some(1nat),
    ensures
        ({
            let (after, outcome) = consumption(state, token);
            let id = state.tables.owner_of(token)->Some_0;
            &&& outcome == ConfirmationOutcome::PersistenceError(
                PersistenceError {
                    step: FailedStep::UpdateStatus,
                    cause: PersistenceCause::Unreachable,
                },
            )
            &&& !after.tables.has_token(token)
            &&& after.tables.subscribers == state.tables.subscribers
            &&& after.tables.status_of(id) == state.tables.status_of(id)
        }),
{
    lemma_without_token(state.tables, token);
}

/// Confirmed is final: neither a registration nor an attempt to confirm,
/// however it ends, takes a subscriber out of the confirmed state.
pub proof fn lemma_confirmed_is_final(
    state: StoreState,
    row: SubscriberRow,
    token: Seq<char>,
    id: u128,
)
    requires
        state.tables.consistent(),
        state.tables.status_of(id) == Some(SubscriptionStatus::Confirmed),
    ensures
        registration(state, row, token).0.tables.status_of(id) == Some(
            SubscriptionStatus::Confirmed,
        ),
        consumption(state, token).0.tables.status_of(id) == Some(SubscriptionStatus::Confirmed),
{
    lemma_registration_success(state, row, token);
    if registration(state, row, token).1 is Ok {
        let after = registration(state, row, token).0.tables;
        lemma_positions(state.tables);
        lemma_positions(after);
        let p = state.tables.subscriber_position(id);
        assert(after.subscribers[p] == state.tables.subscribers[p]);
    }
    lemma_without_token(state.tables, token);
    let taken = state.tables.without_token(token);
    assert(taken.status_of(id) == state.tables.status_of(id));
    match state.tables.owner_of(token) {
        Some(owner) => {
            lemma_with_confirmed(taken, owner);
        },
        None => {},
    }
}

} // verus!
