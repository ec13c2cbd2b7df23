use zero2prod::repository::FailedStep;
use zero2prod::workflow::{ConfirmationState, RegistrationState, StoreAnswer};

#[test]
fn a_registration_passes_through_every_state_in_order() {
    let mut state = RegistrationState::start();
    let expected = [
        (RegistrationState::Received, Some(FailedStep::Validate)),
        (RegistrationState::Validated, Some(FailedStep::InsertSubscriber)),
        (RegistrationState::Persisted, Some(FailedStep::StoreToken)),
        (RegistrationState::TokenStored, Some(FailedStep::Commit)),
        (RegistrationState::Committed, Some(FailedStep::SendEmail)),
        (RegistrationState::NotificationSent, None),
    ];
    for (at, due) in expected {
        assert_eq!(state, at);
        assert_eq!(state.due_step(), due);
        assert_eq!(state.response_status(), None);
        state = state.advance(true);
    }
    assert_eq!(state, RegistrationState::Succeeded);
    assert_eq!(state.response_status(), Some(200));
    assert_eq!(state.due_step(), None);
    assert_eq!(state.advance(false), RegistrationState::Succeeded);
}

#[test]
fn a_registration_can_fail_at_every_step() {
    let steps = [
        (FailedStep::Validate, 400),
        (FailedStep::InsertSubscriber, 500),
        (FailedStep::StoreToken, 500),
        (FailedStep::Commit, 500),
        (FailedStep::SendEmail, 500),
    ];
    for (successes, (step, status)) in steps.into_iter().enumerate() {
        let mut state = RegistrationState::start();
        for _ in 0..successes {
            state = state.advance(true);
        }
        state = state.advance(false);
        assert_eq!(state, RegistrationState::Failed(step));
        assert_eq!(state.response_status(), Some(status));
        assert_eq!(state.due_step(), None);
        assert_eq!(state.advance(true), state);
        assert_eq!(state.advance(false), state);
    }
}

#[test]
fn a_confirmation_succeeds_when_the_token_is_found_and_the_status_updated() {
    let state = ConfirmationState::start();
    assert_eq!(state.due_step(), Some(FailedStep::ConsumeToken));
    assert_eq!(state.response_status(), None);
    let state = state.advance(StoreAnswer::Done);
    assert_eq!(state, ConfirmationState::TokenConsumed);
    assert_eq!(state.due_step(), Some(FailedStep::UpdateStatus));
    assert_eq!(state.response_status(), None);
    let state = state.advance(StoreAnswer::Done);
    assert_eq!(state, ConfirmationState::Succeeded);
    assert_eq!(state.response_status(), Some(200));
    assert_eq!(state.advance(StoreAnswer::Failed), ConfirmationState::Succeeded);
}

#[test]
fn a_confirmation_without_a_live_token_is_unauthorized() {
    let state = ConfirmationState::start().advance(StoreAnswer::Missing);
    assert_eq!(state, ConfirmationState::NotFound);
    assert_eq!(state.response_status(), Some(401));
    assert_eq!(state.due_step(), None);
    assert_eq!(state.advance(StoreAnswer::Done), ConfirmationState::NotFound);
}

#[test]
fn a_confirmation_fails_when_the_store_does() {
    let state = ConfirmationState::start().advance(StoreAnswer::Failed);
    assert_eq!(state, ConfirmationState::Failed(FailedStep::ConsumeToken));
    assert_eq!(state.response_status(), Some(500));
    let state = ConfirmationState::start().advance(StoreAnswer::Done).advance(StoreAnswer::Failed);
    assert_eq!(state, ConfirmationState::Failed(FailedStep::UpdateStatus));
    assert_eq!(state.response_status(), Some(500));
    assert_eq!(state.advance(StoreAnswer::Done), state);
}
