//! The two workflows as state machines. A caller that does the outside
//! work itself (a database, an email service) asks the machine which step
//! is due, performs it, and reports whether it succeeded; the machine says
//! where that leads and, at the end, which HTTP status answers the request.

use vstd::prelude::*;

use crate::repository::FailedStep;

verus! {

pub const STATUS_OK: u16 = 200;

pub const STATUS_BAD_REQUEST: u16 = 400;

pub const STATUS_UNAUTHORIZED: u16 = 401;

pub const STATUS_INTERNAL_SERVER_ERROR: u16 = 500;

/// Where a registration stands.
#[derive(Clone, Copy, PartialEq, Eq, Structural, Debug)]
pub enum RegistrationState {
    /// The form has arrived.
    Received,
    /// Name and address passed validation.
    Validated,
    /// The subscriber row is inserted, inside the open transaction.
    Persisted,
    /// The token row is inserted, inside the same transaction.
    TokenStored,
    /// The transaction is committed: the subscriber is durable.
    Committed,
    /// The confirmation email is on its way.
    NotificationSent,
    /// The request is answered with success.
    Succeeded,
    /// The step named here failed, and the request with it.
    Failed(FailedStep),
}

impl RegistrationState {
    /// The step that is due in this state; none once the registration has
    /// ended, and none in `NotificationSent`, where only the answer is
    /// left to give.
    pub open spec fn due(self) -> Option<FailedStep> {
        match self {
            RegistrationState::Received => Some(FailedStep::Validate),
            RegistrationState::Validated => Some(FailedStep::InsertSubscriber),
            RegistrationState::Persisted => Some(FailedStep::StoreToken),
            RegistrationState::TokenStored => Some(FailedStep::Commit),
            RegistrationState::Committed => Some(FailedStep::SendEmail),
            RegistrationState::NotificationSent => None,
            RegistrationState::Succeeded => None,
            RegistrationState::Failed(_) => None,
        }
    }

    /// The registration has ended, well or badly.
    pub open spec fn is_terminal(self) -> bool {
        self is Succeeded || self is Failed
    }

    /// The state that follows when the step that is due has succeeded or
    /// failed. A registration that has ended stays where it is.
    pub open spec fn next(self, succeeded: bool) -> RegistrationState {
        match self {
            RegistrationState::Received => if succeeded {
                RegistrationState::Validated
            } else {
                RegistrationState::Failed(FailedStep::Validate)
            },
            RegistrationState::Validated => if succeeded {
                RegistrationState::Persisted
            } else {
                RegistrationState::Failed(FailedStep::InsertSubscriber)
            },
            RegistrationState::Persisted => if succeeded {
                RegistrationState::TokenStored
            } else {
                RegistrationState::Failed(FailedStep::StoreToken)
            },
            RegistrationState::TokenStored => if succeeded {
                RegistrationState::Committed
            } else {
                RegistrationState::Failed(FailedStep::Commit)
            },
            RegistrationState::Committed => if succeeded {
                RegistrationState::NotificationSent
            } else {
                RegistrationState::Failed(FailedStep::SendEmail)
            },
            RegistrationState::NotificationSent => RegistrationState::Succeeded,
            RegistrationState::Succeeded => RegistrationState::Succeeded,
            RegistrationState::Failed(step) => RegistrationState::Failed(step),
        }
    }

    /// The HTTP status that answers the request, once the registration has
    /// ended: 200 on success, 400 when validation failed, 500 when the
    /// store or the email service failed.
    pub open spec fn status(self) -> Option<u16> {
        match self {
            RegistrationState::Succeeded => Some(STATUS_OK),
            RegistrationState::Failed(FailedStep::Validate) => Some(STATUS_BAD_REQUEST),
            RegistrationState::Failed(_) => Some(STATUS_INTERNAL_SERVER_ERROR),
            _ => None,
        }
    }

    /// The state in which every registration starts.
    pub fn start() -> (state: RegistrationState)
        ensures
            state == RegistrationState::Received,
    {
        RegistrationState::Received
    }

    /// The step to perform now, if any.
    pub fn due_step(&self) -> (step: Option<FailedStep>)
        ensures
            step == self.due(),
    {
        match self {
            RegistrationState::Received => Some(FailedStep::Validate),
            RegistrationState::Validated => Some(FailedStep::InsertSubscriber),
            RegistrationState::Persisted => Some(FailedStep::StoreToken),
            RegistrationState::TokenStored => Some(FailedStep::Commit),
            RegistrationState::Committed => Some(FailedStep::SendEmail),
            RegistrationState::NotificationSent => None,
            RegistrationState::Succeeded => None,
            RegistrationState::Failed(_) => None,
        }
    }

    /// Moves on after the step that was due has succeeded or failed.
    pub fn advance(self, succeeded: bool) -> (state: RegistrationState)
        ensures
            state == self.next(succeeded),
    {
        match self {
            RegistrationState::Received => if succeeded {
                RegistrationState::Validated
            } else {
                RegistrationState::Failed(FailedStep::Validate)
            },
            RegistrationState::Validated => if succeeded {
                RegistrationState::Persisted
            } else {
                RegistrationState::Failed(FailedStep::InsertSubscriber)
            },
            RegistrationState::Persisted => if succeeded {
                RegistrationState::TokenStored
            } else {
                RegistrationState::Failed(FailedStep::StoreToken)
            },
            RegistrationState::TokenStored => if succeeded {
                RegistrationState::Committed
            } else {
                RegistrationState::Failed(FailedStep::Commit)
            },
            RegistrationState::Committed => if succeeded {
                RegistrationState::NotificationSent
            } else {
                RegistrationState::Failed(FailedStep::SendEmail)
            },
            RegistrationState::NotificationSent => RegistrationState::Succeeded,
            RegistrationState::Succeeded => RegistrationState::Succeeded,
            RegistrationState::Failed(step) => RegistrationState::Failed(step),
        }
    }

    /// The status to answer with; `None` while the registration is still
    /// under way.
    pub fn response_status(&self) -> (status: Option<u16>)
        ensures
            status == self.status(),
    {
        match self {
            RegistrationState::Succeeded => Some(STATUS_OK),
            RegistrationState::Failed(FailedStep::Validate) => Some(STATUS_BAD_REQUEST),
            RegistrationState::Failed(_) => Some(STATUS_INTERNAL_SERVER_ERROR),
            _ => None,
        }
    }
}

/// The state reached from `state` when the steps that come due succeed or
/// fail as `outcomes` says, one entry for each step in turn.
pub open spec fn registration_after(state: RegistrationState, outcomes: Seq<bool>)
    -> RegistrationState
    decreases outcomes.len(),
{
    if outcomes.len() == 0 {
        state
    } else {
        registration_after(state.next(outcomes[0]), outcomes.drop_first())
    }
}

/// A registration that has ended stays as it ended, whatever is reported
/// to it afterwards.
pub proof fn lemma_registration_end_is_final(state: RegistrationState, outcomes: Seq<bool>)
    requires
        state.is_terminal(),
    ensures
        registration_after(state, outcomes) == state,
    decreases outcomes.len(),
{
    if outcomes.len() > 0 {
        lemma_registration_end_is_final(state.next(outcomes[0]), outcomes.drop_first());
    }
}

/// The state after the outcomes from position `from` on.
spec fn steps(state: RegistrationState, outcomes: Seq<bool>, from: int) -> RegistrationState
    decreases outcomes.len() - from,
{
    if 0 <= from < outcomes.len() {
        steps(state.next(outcomes[from]), outcomes, from + 1)
    } else {
        state
    }
}

/// Taking the outcomes one by one from position `from` is running the
/// machine over what is left of them there.
proof fn lemma_steps(state: RegistrationState, outcomes: Seq<bool>, from: int)
    requires
        0 <= from <= outcomes.len(),
    ensures
        registration_after(state, outcomes.skip(from)) == steps(state, outcomes, from),
    decreases outcomes.len() - from,
{
    let rest = outcomes.skip(from);
    if from < outcomes.len() {
        assert(rest[0] == outcomes[from]);
        assert(rest.drop_first() =~= outcomes.skip(from + 1));
        lemma_steps(state.next(outcomes[from]), outcomes, from + 1);
    }
}

/// Further outcomes move nothing once the registration has ended.
proof fn lemma_steps_stay_at_end(state: RegistrationState, outcomes: Seq<bool>, from: int)
    requires
        0 <= from <= outcomes.len(),
    ensures
        state.is_terminal() ==> steps(state, outcomes, from) == state,
    decreases outcomes.len() - from,
{
    if from < outcomes.len() {
        lemma_steps_stay_at_end(state.next(outcomes[from]), outcomes, from + 1);
    }
}

/// A status is given exactly in the states in which the registration has
/// ended, and no step is due there.
pub proof fn lemma_registration_status_at_end(state: RegistrationState)
    ensures
        state.status() is Some <==> state.is_terminal(),
        state.is_terminal() ==> state.due() is None,
{
}

/// A registration that succeeds went through every step, in order, and
/// each of them succeeded; one that fails at a step saw every step before
/// it succeed. In particular the email is attempted only once the
/// transaction is committed.
pub proof fn lemma_registration_order(outcomes: Seq<bool>)
    ensures
        registration_after(RegistrationState::Received, outcomes) == RegistrationState::Succeeded
            ==> outcomes.len() >= 6 && outcomes[0] && outcomes[1] && outcomes[2] && outcomes[3]
            && outcomes[4],
        registration_after(RegistrationState::Received, outcomes) == RegistrationState::Failed(
            FailedStep::SendEmail,
        ) ==> outcomes.len() >= 5 && outcomes[0] && outcomes[1] && outcomes[2] && outcomes[3]
            && !outcomes[4],
        registration_after(RegistrationState::Received, outcomes) == RegistrationState::Failed(
            FailedStep::Validate,
        ) ==> outcomes.len() >= 1 && !outcomes[0],
{
    let s0 = RegistrationState::Received;
    let n = outcomes.len();
    lemma_steps(s0, outcomes, 0);
    assert(outcomes.skip(0) =~= outcomes);
    reveal_with_fuel(steps, 8);
    if n >= 1 {
        let s1 = s0.next(outcomes[0]);
        lemma_steps_stay_at_end(s1, outcomes, 1);
        if n >= 2 {
            let s2 = s1.next(outcomes[1]);
            lemma_steps_stay_at_end(s2, outcomes, 2);
            if n >= 3 {
                let s3 = s2.next(outcomes[2]);
                lemma_steps_stay_at_end(s3, outcomes, 3);
                if n >= 4 {
                    let s4 = s3.next(outcomes[3]);
                    lemma_steps_stay_at_end(s4, outcomes, 4);
                    if n >= 5 {
                        let s5 = s4.next(outcomes[4]);
                        lemma_steps_stay_at_end(s5, outcomes, 5);
                        if n >= 6 {
                            lemma_steps_stay_at_end(s5.next(outcomes[5]), outcomes, 6);
                        }
                    }
                }
            }
        }
    }
}

/// The place of a step in a registration, counted from 0; 5 for the steps
/// that belong to a confirmation.
pub open spec fn position(step: FailedStep) -> nat {
    match step {
        FailedStep::Validate => 0,
        FailedStep::InsertSubscriber => 1,
        FailedStep::StoreToken => 2,
        FailedStep::Commit => 3,
        FailedStep::SendEmail => 4,
        _ => 5,
    }
}

/// The outcomes of a registration in which every step before `step`
/// succeeds and `step` fails.
pub open spec fn failing_at(step: FailedStep) -> Seq<bool> {
    Seq::new(position(step) + 1, |i: int| i < position(step))
}

/// The outcomes of a registration in which every step succeeds.
pub open spec fn all_succeeding() -> Seq<bool> {
    Seq::new(6, |i: int| true)
}

/// Six successes in a row lead from `Received` to `Succeeded`, and a
/// failure at a step of the registration, after successes at all steps
/// before it, leads to `Failed` with that step.
pub proof fn lemma_registration_paths(step: FailedStep)
    ensures
        registration_after(RegistrationState::Received, all_succeeding())
            == RegistrationState::Succeeded,
        position(step) < 5 ==> registration_after(RegistrationState::Received, failing_at(step))
            == RegistrationState::Failed(step),
{
    reveal_with_fuel(steps, 8);
    lemma_steps(RegistrationState::Received, all_succeeding(), 0);
    assert(all_succeeding().skip(0) =~= all_succeeding());
    lemma_steps(RegistrationState::Received, failing_at(step), 0);
    assert(failing_at(step).skip(0) =~= failing_at(step));
}

/// Where a confirmation stands.
#[derive(Clone, Copy, PartialEq, Eq, Structural, Debug)]
pub enum ConfirmationState {
    /// The request has arrived.
    Received,
    /// The token was live and is deleted now; the status update is due.
    TokenConsumed,
    /// The subscriber is confirmed.
    Succeeded,
    /// No such token is live.
    NotFound,
    /// The store failed at the step named here.
    Failed(FailedStep),
}

/// What the store answered to the step that was due.
#[derive(Clone, Copy, PartialEq, Eq, Structural, Debug)]
pub enum StoreAnswer {
    /// The statement was carried out and found its row.
    Done,
    /// The statement was carried out and found no row.
    Missing,
    /// The statement failed.
    Failed,
}

impl ConfirmationState {
    /// The step that is due in this state; none once the confirmation has
    /// ended.
    pub open spec fn due(self) -> Option<FailedStep> {
        match self {
            ConfirmationState::Received => Some(FailedStep::ConsumeToken),
            ConfirmationState::TokenConsumed => Some(FailedStep::UpdateStatus),
            _ => None,
        }
    }

    /// The confirmation has ended.
    pub open spec fn is_terminal(self) -> bool {
        self is Succeeded || self is NotFound || self is Failed
    }

    /// The state that follows the store's answer to the step that is due.
    /// Only the lookup of the token can come back empty-handed; an update
    /// that was carried out counts as done.
    pub open spec fn next(self, answer: StoreAnswer) -> ConfirmationState {
        match self {
            ConfirmationState::Received => match answer {
                StoreAnswer::Done => ConfirmationState::TokenConsumed,
                StoreAnswer::Missing => ConfirmationState::NotFound,
                StoreAnswer::Failed => ConfirmationState::Failed(FailedStep::ConsumeToken),
            },
            ConfirmationState::TokenConsumed => match answer {
                StoreAnswer::Failed => ConfirmationState::Failed(FailedStep::UpdateStatus),
                _ => ConfirmationState::Succeeded,
            },
            ended => ended,
        }
    }

    /// The HTTP status that answers the request, once the confirmation has
    /// ended: 200 when confirmed, 401 when the token is not live, 500 when
    /// the store failed.
    pub open spec fn status(self) -> Option<u16> {
        match self {
            ConfirmationState::Succeeded => Some(STATUS_OK),
            ConfirmationState::NotFound => Some(STATUS_UNAUTHORIZED),
            ConfirmationState::Failed(_) => Some(STATUS_INTERNAL_SERVER_ERROR),
            _ => None,
        }
    }

    /// The state in which every confirmation starts.
    pub fn start() -> (state: ConfirmationState)
        ensures
            state == ConfirmationState::Received,
    {
        ConfirmationState::Received
    }

    /// The step to perform now, if any.
    pub fn due_step(&self) -> (step: Option<FailedStep>)
        ensures
            step == self.due(),
    {
        match self {
            ConfirmationState::Received => Some(FailedStep::ConsumeToken),
            ConfirmationState::TokenConsumed => Some(FailedStep::UpdateStatus),
            _ => None,
        }
    }

    /// Moves on after the store has answered the step that was due.
    pub fn advance(self, answer: StoreAnswer) -> (state: ConfirmationState)
        ensures
            state == self.next(answer),
    {
        match self {
            ConfirmationState::Received => match answer {
                StoreAnswer::Done => ConfirmationState::TokenConsumed,
                StoreAnswer::Missing => ConfirmationState::NotFound,
                StoreAnswer::Failed => ConfirmationState::Failed(FailedStep::ConsumeToken),
            },
            ConfirmationState::TokenConsumed => match answer {
                StoreAnswer::Failed => ConfirmationState::Failed(FailedStep::UpdateStatus),
                _ => ConfirmationState::Succeeded,
            },
            ended => ended,
        }
    }

    /// The status to answer with; `None` while the confirmation is still
    /// under way.
    pub fn response_status(&self) -> (status: Option<u16>)
        ensures
            status == self.status(),
    {
        match self {
            ConfirmationState::Succeeded => Some(STATUS_OK),
            ConfirmationState::NotFound => Some(STATUS_UNAUTHORIZED),
            ConfirmationState::Failed(_) => Some(STATUS_INTERNAL_SERVER_ERROR),
            _ => None,
        }
    }
}

/// A confirmation ends after at most two answers, and it succeeds only if
/// the token was found first and the status updated after that.
pub proof fn lemma_confirmation_order(first: StoreAnswer, second: StoreAnswer)
    ensures
        ConfirmationState::Received.next(first).next(second).is_terminal(),
        ConfirmationState::Received.next(first).next(second) == ConfirmationState::Succeeded
            <==> first == StoreAnswer::Done && second != StoreAnswer::Failed,
        ConfirmationState::Received.next(first).next(second) == ConfirmationState::NotFound
            <==> first == StoreAnswer::Missing,
        forall|state: ConfirmationState, answer: StoreAnswer|
            state.is_terminal() ==> #[trigger] state.next(answer) == state,
        forall|state: ConfirmationState| #[trigger]
            state.status() is Some <==> state.is_terminal(),
{
}

} // verus!
