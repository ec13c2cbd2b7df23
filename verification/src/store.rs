//! The persisted data and the store that holds it.
//!
//! Two tables make up the state: `subscriptions(id, email, name,
//! subscribed_at, status)` and `subscription_tokens(subscriber_id,
//! subscription_token)`. [`Tables`] is their mathematical model, a pair of
//! row sequences with the integrity constraints as a predicate.
//! [`SubscriptionStore`] is an executable store with exactly that state. It
//! runs one statement at a time, takes writes inside a [`Transaction`] that
//! becomes visible only when it is committed, and can be told to become
//! unreachable after a number of statements, so that every failure path of
//! the workflows can be exercised.

pub mod memory;
pub mod tables;

pub use memory::{SubscriptionStore, Transaction};
pub use tables::{
    cause_of_violation, cause_text, commit_refusal, constraint_text,
    lemma_consistent_join_has_no_clash, lemma_join_consistent, lemma_plus_has, lemma_positions,
    lemma_token_survives, lemma_with_confirmed, lemma_without_token, mark_confirmed_step,
    refusal_to_result, status_text, subscriber_refusal, subscriber_rows, take_token_step,
    token_refusal, token_rows, violation_cause, ConfirmationToken, PersistenceCause, StoreState,
    Subscriber, SubscriberRow, SubscriptionStatus, Tables, TokenRow,
};
