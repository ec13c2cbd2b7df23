use vstd::prelude::*;

use crate::repository::{
    consume_token_and_confirm, consumption, lemma_token_confirms_once, ConfirmationOutcome,
};
use crate::store::{StoreState, SubscriptionStore};
use crate::workflow::{STATUS_INTERNAL_SERVER_ERROR, STATUS_OK, STATUS_UNAUTHORIZED};

verus! {

/// The query of a confirmation request.
#[derive(Debug)]
pub struct Parameters {
    pub subscription_token: String,
}

/// The HTTP status that answers a confirmation request with this outcome.
pub open spec fn confirmation_status(outcome: ConfirmationOutcome) -> u16 {
    match outcome {
        ConfirmationOutcome::Confirmed(_) => STATUS_OK,
        ConfirmationOutcome::TokenNotFound => STATUS_UNAUTHORIZED,
        ConfirmationOutcome::PersistenceError(_) => STATUS_INTERNAL_SERVER_ERROR,
    }
}

/// Maps the outcome of a confirmation to the HTTP status: 200 when
/// confirmed, 401 when the token is not live, 500 when the store failed.
pub fn status_of_outcome(outcome: &ConfirmationOutcome) -> (status: u16)
    ensures
        status == confirmation_status(*outcome),
{
    match outcome {
        ConfirmationOutcome::Confirmed(_) => STATUS_OK,
        ConfirmationOutcome::TokenNotFound => STATUS_UNAUTHORIZED,
        ConfirmationOutcome::PersistenceError(_) => STATUS_INTERNAL_SERVER_ERROR,
    }
}

/// Answers a confirmation request: consumes the token, confirms its
/// subscriber, and returns the HTTP status.
pub fn confirm(parameters: &Parameters, store: &mut SubscriptionStore) -> (status: u16)
    ensures
        final(store)@ == consumption(old(store)@, parameters.subscription_token@).0,
        status == confirmation_status(
            consumption(old(store)@, parameters.subscription_token@).1,
        ),
{
    let outcome = consume_token_and_confirm(store, parameters.subscription_token.as_str());
    status_of_outcome(&outcome)
}

/// A request with a token that is not live is answered 401 and changes no
/// row, as long as the store can be reached; and whatever the first
/// request with a token got, a second one with the same token is never
/// answered 200.
pub proof fn lemma_dead_token_is_unauthorized(state: StoreState, token: Seq<char>)
    requires
        state.tables.consistent(),
    ensures
        state.serves() && !state.tables.has_token(token) ==> confirmation_status(
            consumption(state, token).1,
        ) == STATUS_UNAUTHORIZED && consumption(state, token).0.tables == state.tables,
        confirmation_status(consumption(consumption(state, token).0, token).1) != STATUS_OK,
{
    lemma_token_confirms_once(state, token);
}

} // verus!
