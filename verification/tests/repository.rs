use zero2prod::domain::NewSubscriber;
use zero2prod::repository::{
    confirm_subscriber, consume_token_and_confirm, fetch_subscriber_id_from_token,
    insert_subscriber, insert_subscriber_as, register, register_as, store_token,
    ConfirmationOutcome, FailedStep, PersistenceError, StoreTokenError,
};
use zero2prod::routes::FormData;
use zero2prod::store::{
    cause_of_violation, ConfirmationToken, PersistenceCause, Subscriber, SubscriptionStatus,
    SubscriptionStore,
};

fn subscriber(name: &str, email: &str) -> NewSubscriber {
    NewSubscriber::try_from(FormData { email: email.to_string(), name: name.to_string() }).unwrap()
}

fn ursula() -> NewSubscriber {
    subscriber("Ursula Le Guin", "ursula@example.com")
}

fn row(id: u128, email: &str) -> Subscriber {
    Subscriber {
        id,
        email: email.to_string(),
        name: "Somebody".to_string(),
        subscribed_at: 0,
        status: SubscriptionStatus::PendingConfirmation,
    }
}

#[test]
fn a_new_store_is_empty() {
    let store = SubscriptionStore::new();
    assert_eq!(store.subscriber_count(), 0);
    assert_eq!(store.token_count(), 0);
    assert_eq!(store.status_of(1), None);
    assert_eq!(store.owner_of("anything"), None);
    assert_eq!(store.id_of_email("ursula@example.com"), None);
    assert!(store.subscriber(1).is_none());
}

#[test]
fn registering_commits_a_pending_subscriber_and_its_token_together() {
    let mut store = SubscriptionStore::new();
    let id = register_as(&mut store, &ursula(), "token-1", 7, 1_700_000_000_000_000).unwrap();
    assert_eq!(id, 7);
    assert_eq!(store.subscriber_count(), 1);
    assert_eq!(store.token_count(), 1);
    assert_eq!(store.status_of(7), Some(SubscriptionStatus::PendingConfirmation));
    assert_eq!(store.owner_of("token-1"), Some(7));
    assert_eq!(store.id_of_email("ursula@example.com"), Some(7));
    let stored = store.subscriber(7).unwrap();
    assert_eq!(stored.id, 7);
    assert_eq!(stored.name, "Ursula Le Guin");
    assert_eq!(stored.email, "ursula@example.com");
    assert_eq!(stored.subscribed_at, 1_700_000_000_000_000);
    assert_eq!(stored.status, SubscriptionStatus::PendingConfirmation);
}

#[test]
fn registering_draws_a_random_version_4_identifier() {
    let mut store = SubscriptionStore::new();
    let first = register(&mut store, &ursula(), "token-1").unwrap();
    let second = register(&mut store, &subscriber("Le Guin", "leguin@example.com"), "token-2").unwrap();
    assert_ne!(first, second);
    for id in [first, second] {
        assert_eq!((id >> 76) & 0xf, 4);
        assert_eq!((id >> 62) & 0x3, 2);
        assert_eq!(uuid::Uuid::from_u128(id).get_version_num(), 4);
        assert_eq!(store.status_of(id), Some(SubscriptionStatus::PendingConfirmation));
    }
    assert_eq!(store.owner_of("token-1"), Some(first));
    assert_eq!(store.owner_of("token-2"), Some(second));
}

#[test]
fn registering_stamps_the_current_time() {
    let before = chrono::Utc::now().timestamp_micros();
    let mut store = SubscriptionStore::new();
    let id = register(&mut store, &ursula(), "token-1").unwrap();
    let after = chrono::Utc::now().timestamp_micros();
    let at = store.subscriber(id).unwrap().subscribed_at;
    assert!(before <= at && at <= after);
}

#[test]
fn a_duplicate_email_fails_the_insert_and_changes_nothing() {
    let mut store = SubscriptionStore::new();
    register_as(&mut store, &ursula(), "token-1", 7, 0).unwrap();
    let error = register_as(&mut store, &ursula(), "token-2", 8, 0).unwrap_err();
    assert_eq!(
        error,
        PersistenceError {
            step: FailedStep::InsertSubscriber,
            cause: PersistenceCause::DuplicateEmail
        }
    );
    assert_eq!(store.subscriber_count(), 1);
    assert_eq!(store.token_count(), 1);
    assert_eq!(store.status_of(8), None);
    assert_eq!(store.owner_of("token-2"), None);
    assert!(register(&mut store, &ursula(), "token-3").is_err());
}

#[test]
fn a_duplicate_identifier_fails_the_insert() {
    let mut store = SubscriptionStore::new();
    register_as(&mut store, &ursula(), "token-1", 7, 0).unwrap();
    let error =
        register_as(&mut store, &subscriber("Other", "other@example.com"), "token-2", 7, 0)
            .unwrap_err();
    assert_eq!(
        error,
        PersistenceError {
            step: FailedStep::InsertSubscriber,
            cause: PersistenceCause::DuplicateSubscriber
        }
    );
    assert_eq!(store.id_of_email("other@example.com"), None);
}

#[test]
fn a_failing_token_step_leaves_no_subscriber_behind() {
    let mut store = SubscriptionStore::new();
    register_as(&mut store, &ursula(), "taken", 7, 0).unwrap();
    let error = register_as(&mut store, &subscriber("Other", "other@example.com"), "taken", 8, 0)
        .unwrap_err();
    assert_eq!(
        error,
        PersistenceError { step: FailedStep::StoreToken, cause: PersistenceCause::DuplicateToken }
    );
    assert_eq!(store.subscriber_count(), 1);
    assert_eq!(store.token_count(), 1);
    assert_eq!(store.status_of(8), None);
    assert!(store.subscriber(8).is_none());
    assert_eq!(store.id_of_email("other@example.com"), None);
    assert_eq!(store.owner_of("taken"), Some(7));
}

#[test]
fn an_outage_at_any_step_of_a_registration_leaves_no_trace() {
    let steps = [FailedStep::InsertSubscriber, FailedStep::StoreToken, FailedStep::Commit];
    for (served, step) in steps.into_iter().enumerate() {
        let mut store = SubscriptionStore::new();
        register_as(&mut store, &subscriber("First", "first@example.com"), "first", 1, 0).unwrap();
        store.fail_after(served as u64);
        let error = register_as(&mut store, &ursula(), "token-1", 7, 0).unwrap_err();
        assert_eq!(error, PersistenceError { step, cause: PersistenceCause::Unreachable });
        store.restore();
        assert_eq!(store.subscriber_count(), 1);
        assert_eq!(store.token_count(), 1);
        assert_eq!(store.status_of(7), None);
        assert_eq!(store.id_of_email("ursula@example.com"), None);
        assert_eq!(store.owner_of("token-1"), None);
        assert_eq!(register_as(&mut store, &ursula(), "token-1", 7, 0), Ok(7));
    }
}

#[test]
fn three_statements_are_enough_for_a_registration() {
    let mut store = SubscriptionStore::new();
    store.fail_after(3);
    assert_eq!(register_as(&mut store, &ursula(), "token-1", 7, 0), Ok(7));
    assert_eq!(
        consume_token_and_confirm(&mut store, "token-1"),
        ConfirmationOutcome::PersistenceError(PersistenceError {
            step: FailedStep::ConsumeToken,
            cause: PersistenceCause::Unreachable
        })
    );
    store.restore();
    assert_eq!(store.owner_of("token-1"), Some(7));
}

#[test]
fn staged_rows_are_invisible_until_committed_and_gone_when_dropped() {
    let mut store = SubscriptionStore::new();
    let mut transaction = store.begin();
    assert_eq!(insert_subscriber_as(&mut store, &mut transaction, &ursula(), 7, 0), Ok(7));
    assert_eq!(store_token(&mut store, &mut transaction, 7, "token-1"), Ok(()));
    assert_eq!(store.subscriber_count(), 0);
    assert_eq!(store.token_count(), 0);
    assert_eq!(store.owner_of("token-1"), None);
    assert_eq!(consume_token_and_confirm(&mut store, "token-1"), ConfirmationOutcome::TokenNotFound);
    drop(transaction);
    assert_eq!(store.subscriber_count(), 0);

    let mut transaction = store.begin();
    let id = insert_subscriber(&mut store, &mut transaction, &ursula()).unwrap();
    assert_eq!(store_token(&mut store, &mut transaction, id, "token-1"), Ok(()));
    assert_eq!(store.commit(transaction), Ok(()));
    assert_eq!(store.status_of(id), Some(SubscriptionStatus::PendingConfirmation));
    assert_eq!(store.owner_of("token-1"), Some(id));
}

#[test]
fn a_transaction_sees_its_own_rows() {
    let mut store = SubscriptionStore::new();
    let mut transaction = store.begin();
    assert_eq!(store.stage_subscriber(&mut transaction, row(1, "a@example.com")), Ok(()));
    assert_eq!(
        store.stage_subscriber(&mut transaction, row(1, "b@example.com")),
        Err(PersistenceCause::DuplicateSubscriber)
    );
    assert_eq!(
        store.stage_subscriber(&mut transaction, row(2, "a@example.com")),
        Err(PersistenceCause::DuplicateEmail)
    );
    assert_eq!(store_token(&mut store, &mut transaction, 1, "t"), Ok(()));
    assert_eq!(
        store_token(&mut store, &mut transaction, 1, "t"),
        Err(StoreTokenError(PersistenceCause::DuplicateToken))
    );
    assert_eq!(
        store_token(&mut store, &mut transaction, 9, "u"),
        Err(StoreTokenError(PersistenceCause::UnknownSubscriber))
    );
    assert_eq!(store_token(&mut store, &mut transaction, 1, "u"), Ok(()));
    assert_eq!(store.commit(transaction), Ok(()));
    assert_eq!(store.subscriber_count(), 1);
    assert_eq!(store.token_count(), 2);
    assert_eq!(store.owner_of("t"), Some(1));
    assert_eq!(store.owner_of("u"), Some(1));
}

#[test]
fn a_transaction_that_no_longer_fits_is_refused_whole() {
    let mut store = SubscriptionStore::new();
    let mut first = store.begin();
    let mut second = store.begin();
    assert_eq!(store.stage_subscriber(&mut first, row(1, "a@example.com")), Ok(()));
    assert_eq!(
        store.stage_token(&mut first, ConfirmationToken { subscriber_id: 1, token: "t".into() }),
        Ok(())
    );
    assert_eq!(store.stage_subscriber(&mut second, row(2, "b@example.com")), Ok(()));
    assert_eq!(
        store.stage_token(&mut second, ConfirmationToken { subscriber_id: 2, token: "t".into() }),
        Ok(())
    );
    assert_eq!(store.commit(first), Ok(()));
    assert_eq!(store.commit(second), Err(PersistenceCause::Conflict));
    assert_eq!(store.subscriber_count(), 1);
    assert_eq!(store.token_count(), 1);
    assert_eq!(store.status_of(2), None);
    assert_eq!(store.owner_of("t"), Some(1));
}

#[test]
fn a_token_confirms_once_and_only_once() {
    let mut store = SubscriptionStore::new();
    register_as(&mut store, &ursula(), "token-1", 7, 0).unwrap();
    assert_eq!(consume_token_and_confirm(&mut store, "token-1"), ConfirmationOutcome::Confirmed(7));
    assert_eq!(store.status_of(7), Some(SubscriptionStatus::Confirmed));
    assert_eq!(store.token_count(), 0);
    assert_eq!(store.owner_of("token-1"), None);
    assert_eq!(consume_token_and_confirm(&mut store, "token-1"), ConfirmationOutcome::TokenNotFound);
    assert_eq!(consume_token_and_confirm(&mut store, "token-1"), ConfirmationOutcome::TokenNotFound);
    assert_eq!(store.status_of(7), Some(SubscriptionStatus::Confirmed));
    assert_eq!(store.subscriber_count(), 1);
}

#[test]
fn an_unknown_token_confirms_nobody() {
    let mut store = SubscriptionStore::new();
    register_as(&mut store, &ursula(), "token-1", 7, 0).unwrap();
    for token in ["does-not-exist", "", "token-", "token-11", "TOKEN-1"] {
        assert_eq!(consume_token_and_confirm(&mut store, token), ConfirmationOutcome::TokenNotFound);
    }
    assert_eq!(store.status_of(7), Some(SubscriptionStatus::PendingConfirmation));
    assert_eq!(store.owner_of("token-1"), Some(7));
    assert_eq!(store.token_count(), 1);
}

#[test]
fn confirming_one_subscriber_leaves_the_others_alone() {
    let mut store = SubscriptionStore::new();
    register_as(&mut store, &subscriber("A", "a@example.com"), "ta", 1, 0).unwrap();
    register_as(&mut store, &subscriber("B", "b@example.com"), "tb", 2, 0).unwrap();
    register_as(&mut store, &subscriber("C", "c@example.com"), "tc", 3, 0).unwrap();
    assert_eq!(consume_token_and_confirm(&mut store, "tb"), ConfirmationOutcome::Confirmed(2));
    assert_eq!(store.status_of(1), Some(SubscriptionStatus::PendingConfirmation));
    assert_eq!(store.status_of(2), Some(SubscriptionStatus::Confirmed));
    assert_eq!(store.status_of(3), Some(SubscriptionStatus::PendingConfirmation));
    assert_eq!(store.owner_of("ta"), Some(1));
    assert_eq!(store.owner_of("tb"), None);
    assert_eq!(store.owner_of("tc"), Some(3));
    let b = store.subscriber(2).unwrap();
    assert_eq!((b.name.as_str(), b.email.as_str()), ("B", "b@example.com"));
    assert_eq!(consume_token_and_confirm(&mut store, "ta"), ConfirmationOutcome::Confirmed(1));
    assert_eq!(consume_token_and_confirm(&mut store, "tc"), ConfirmationOutcome::Confirmed(3));
    assert_eq!(store.token_count(), 0);
    assert_eq!(store.subscriber_count(), 3);
}

#[test]
fn an_outage_before_the_lookup_keeps_the_token_live() {
    let mut store = SubscriptionStore::new();
    register_as(&mut store, &ursula(), "token-1", 7, 0).unwrap();
    store.fail_after(0);
    assert_eq!(
        consume_token_and_confirm(&mut store, "token-1"),
        ConfirmationOutcome::PersistenceError(PersistenceError {
            step: FailedStep::ConsumeToken,
            cause: PersistenceCause::Unreachable
        })
    );
    store.restore();
    assert_eq!(store.owner_of("token-1"), Some(7));
    assert_eq!(consume_token_and_confirm(&mut store, "token-1"), ConfirmationOutcome::Confirmed(7));
}

#[test]
fn an_outage_between_lookup_and_update_consumes_the_token_without_confirming() {
    let mut store = SubscriptionStore::new();
    register_as(&mut store, &ursula(), "token-1", 7, 0).unwrap();
    store.fail_after(1);
    assert_eq!(
        consume_token_and_confirm(&mut store, "token-1"),
        ConfirmationOutcome::PersistenceError(PersistenceError {
            step: FailedStep::UpdateStatus,
            cause: PersistenceCause::Unreachable
        })
    );
    store.restore();
    assert_eq!(store.owner_of("token-1"), None);
    assert_eq!(store.status_of(7), Some(SubscriptionStatus::PendingConfirmation));
    assert_eq!(consume_token_and_confirm(&mut store, "token-1"), ConfirmationOutcome::TokenNotFound);
}

#[test]
fn the_two_statements_of_a_confirmation_can_be_made_apart() {
    let mut store = SubscriptionStore::new();
    register_as(&mut store, &ursula(), "token-1", 7, 0).unwrap();
    assert_eq!(fetch_subscriber_id_from_token(&mut store, "nope"), Ok(None));
    assert_eq!(fetch_subscriber_id_from_token(&mut store, "token-1"), Ok(Some(7)));
    assert_eq!(fetch_subscriber_id_from_token(&mut store, "token-1"), Ok(None));
    assert_eq!(store.status_of(7), Some(SubscriptionStatus::PendingConfirmation));
    assert_eq!(confirm_subscriber(&mut store, 7), Ok(()));
    assert_eq!(store.status_of(7), Some(SubscriptionStatus::Confirmed));
    assert_eq!(confirm_subscriber(&mut store, 7), Ok(()));
    assert_eq!(store.status_of(7), Some(SubscriptionStatus::Confirmed));
    assert_eq!(confirm_subscriber(&mut store, 99), Ok(()));
    assert_eq!(store.subscriber_count(), 1);
    store.fail_after(0);
    assert_eq!(confirm_subscriber(&mut store, 7), Err(PersistenceCause::Unreachable));
    assert_eq!(fetch_subscriber_id_from_token(&mut store, "x"), Err(PersistenceCause::Unreachable));
}

#[test]
fn a_confirmed_subscriber_stays_confirmed_through_later_registrations() {
    let mut store = SubscriptionStore::new();
    register_as(&mut store, &ursula(), "token-1", 7, 0).unwrap();
    assert_eq!(consume_token_and_confirm(&mut store, "token-1"), ConfirmationOutcome::Confirmed(7));
    register_as(&mut store, &subscriber("B", "b@example.com"), "token-1", 8, 0).unwrap();
    assert!(register_as(&mut store, &ursula(), "token-2", 9, 0).is_err());
    assert_eq!(store.status_of(7), Some(SubscriptionStatus::Confirmed));
    assert_eq!(consume_token_and_confirm(&mut store, "token-1"), ConfirmationOutcome::Confirmed(8));
    assert_eq!(store.status_of(7), Some(SubscriptionStatus::Confirmed));
}

#[test]
fn errors_of_the_store_have_messages() {
    assert_eq!(
        StoreTokenError(PersistenceCause::DuplicateToken).message(),
        "A database error was encountered while trying to store a subscription token."
    );
    assert_eq!(
        StoreTokenError(PersistenceCause::DuplicateToken).source(),
        PersistenceCause::DuplicateToken
    );
    assert_eq!(PersistenceCause::Unreachable.message(), "The store could not be reached.");
    assert_eq!(
        PersistenceCause::DuplicateEmail.message(),
        "A subscriber with this email address exists already."
    );
    assert_eq!(
        FailedStep::Commit.context(),
        "Failed to commit SQL transaction to store a new subscriber."
    );
    assert_eq!(
        FailedStep::InsertSubscriber.context(),
        "Failed to insert new subscriber in the database."
    );
}

#[test]
fn every_cause_and_every_step_is_put_in_words() {
    let causes = [
        (PersistenceCause::Unreachable, "The store could not be reached."),
        (PersistenceCause::DuplicateSubscriber, "A subscriber with this identifier exists already."),
        (PersistenceCause::DuplicateEmail, "A subscriber with this email address exists already."),
        (PersistenceCause::DuplicateToken, "The subscription token is in use already."),
        (
            PersistenceCause::UnknownSubscriber,
            "The subscription token names a subscriber that does not exist.",
        ),
        (PersistenceCause::Conflict, "The transaction no longer fits the committed rows."),
    ];
    for (cause, text) in causes {
        assert_eq!(cause.message(), text);
    }
    let steps = [
        (FailedStep::Validate, "Failed to validate the submitted form."),
        (FailedStep::InsertSubscriber, "Failed to insert new subscriber in the database."),
        (FailedStep::StoreToken, "Failed to store the confirmation token for a new subscriber."),
        (FailedStep::Commit, "Failed to commit SQL transaction to store a new subscriber."),
        (FailedStep::SendEmail, "Failed to send a confirmation email."),
        (FailedStep::ConsumeToken, "Failed to consume the subscription token."),
        (FailedStep::UpdateStatus, "Failed to mark the subscriber as confirmed."),
    ];
    for (step, text) in steps {
        assert_eq!(step.context(), text);
    }
    assert_eq!(SubscriptionStatus::PendingConfirmation.as_str(), "pending_confirmation");
    assert_eq!(SubscriptionStatus::Confirmed.as_str(), "confirmed");
}

#[test]
fn what_a_database_reports_is_given_its_cause() {
    assert_eq!(cause_of_violation(false, false, false, None), PersistenceCause::Unreachable);
    assert_eq!(
        cause_of_violation(false, true, true, Some("subscriptions_email_key")),
        PersistenceCause::Unreachable
    );
    assert_eq!(
        cause_of_violation(true, true, false, Some("subscription_tokens_subscriber_id_fkey")),
        PersistenceCause::UnknownSubscriber
    );
    assert_eq!(cause_of_violation(true, false, false, None), PersistenceCause::Conflict);
    assert_eq!(
        cause_of_violation(true, false, false, Some("subscriptions_email_key")),
        PersistenceCause::Conflict
    );
    assert_eq!(
        cause_of_violation(true, false, true, Some("subscriptions_email_key")),
        PersistenceCause::DuplicateEmail
    );
    assert_eq!(
        cause_of_violation(true, false, true, Some("subscription_tokens_pkey")),
        PersistenceCause::DuplicateToken
    );
    assert_eq!(
        cause_of_violation(true, false, true, Some("subscriptions_pkey")),
        PersistenceCause::DuplicateSubscriber
    );
    assert_eq!(cause_of_violation(true, false, true, None), PersistenceCause::DuplicateSubscriber);
    assert_eq!(
        cause_of_violation(true, false, true, Some("email")),
        PersistenceCause::DuplicateEmail
    );
    assert_eq!(
        cause_of_violation(true, false, true, Some("emai")),
        PersistenceCause::DuplicateSubscriber
    );
}
