//! The persisted data as mathematics: rows, tables, the integrity
//! constraints, and what each statement of the store does to them.

use vstd::prelude::*;
use vstd::string::*;

use crate::text::{contains_text, occurs_in};

verus! {

/// Where a subscriber stands: created pending, confirmed once, never back.
#[derive(Clone, Copy, PartialEq, Eq, Structural, Debug)]
pub enum SubscriptionStatus {
    PendingConfirmation,
    Confirmed,
}

/// The status as it is written in the `status` column.
pub open spec fn status_text(status: SubscriptionStatus) -> Seq<char> {
    match status {
        SubscriptionStatus::PendingConfirmation => "pending_confirmation"@,
        SubscriptionStatus::Confirmed => "confirmed"@,
    }
}

impl SubscriptionStatus {
    /// The status as it is written in the `status` column.
    pub fn as_str(&self) -> (text: &'static str)
        ensures
            text@ == status_text(*self),
    {
        match self {
            SubscriptionStatus::PendingConfirmation => "pending_confirmation",
            SubscriptionStatus::Confirmed => "confirmed",
        }
    }
}

/// A row of the `subscriptions` table.
#[derive(Debug)]
pub struct Subscriber {
    pub id: u128,
    pub email: String,
    pub name: String,
    /// Microseconds since the Unix epoch, UTC.
    pub subscribed_at: i64,
    pub status: SubscriptionStatus,
}

/// What a [`Subscriber`] row says, with its texts as character sequences.
pub struct SubscriberRow {
    pub id: u128,
    pub email: Seq<char>,
    pub name: Seq<char>,
    pub subscribed_at: i64,
    pub status: SubscriptionStatus,
}

impl View for Subscriber {
    type V = SubscriberRow;

    open spec fn view(&self) -> SubscriberRow {
        SubscriberRow {
            id: self.id,
            email: self.email@,
            name: self.name@,
            subscribed_at: self.subscribed_at,
            status: self.status,
        }
    }
}

/// A row of the `subscription_tokens` table.
#[derive(Debug)]
pub struct ConfirmationToken {
    pub subscriber_id: u128,
    pub token: String,
}

/// What a [`ConfirmationToken`] row says.
pub struct TokenRow {
    pub subscriber_id: u128,
    pub token: Seq<char>,
}

impl View for ConfirmationToken {
    type V = TokenRow;

    open spec fn view(&self) -> TokenRow {
        TokenRow { subscriber_id: self.subscriber_id, token: self.token@ }
    }
}

/// The rows of both tables, in the order in which they were inserted.
#[verifier::ext_equal]
pub struct Tables {
    pub subscribers: Seq<SubscriberRow>,
    pub tokens: Seq<TokenRow>,
}

impl Tables {
    pub open spec fn empty() -> Tables {
        Tables { subscribers: Seq::empty(), tokens: Seq::empty() }
    }

    /// Some subscriber has this identifier.
    pub open spec fn has_subscriber(self, id: u128) -> bool {
        exists|i: int| 0 <= i < self.subscribers.len() && (#[trigger] self.subscribers[i]).id == id
    }

    /// Some subscriber has this address.
    pub open spec fn has_email(self, email: Seq<char>) -> bool {
        exists|i: int|
            0 <= i < self.subscribers.len() && (#[trigger] self.subscribers[i]).email == email
    }

    /// The token is live: some row holds it.
    pub open spec fn has_token(self, token: Seq<char>) -> bool {
        exists|i: int| 0 <= i < self.tokens.len() && (#[trigger] self.tokens[i]).token == token
    }

    /// Identifiers, addresses and tokens are each unique.
    pub open spec fn distinct(self) -> bool {
        &&& forall|i: int, j: int|
            0 <= i < j < self.subscribers.len() ==> (#[trigger] self.subscribers[i]).id != (
            #[trigger] self.subscribers[j]).id
        &&& forall|i: int, j: int|
            0 <= i < j < self.subscribers.len() ==> (#[trigger] self.subscribers[i]).email != (
            #[trigger] self.subscribers[j]).email
        &&& forall|i: int, j: int|
            0 <= i < j < self.tokens.len() ==> (#[trigger] self.tokens[i]).token != (
            #[trigger] self.tokens[j]).token
    }

    /// Every token belongs to a subscriber that exists.
    pub open spec fn tokens_owned(self) -> bool {
        forall|i: int|
            0 <= i < self.tokens.len() ==> self.has_subscriber(
                (#[trigger] self.tokens[i]).subscriber_id,
            )
    }

    /// The integrity constraints of the two tables together.
    pub open spec fn consistent(self) -> bool {
        self.distinct() && self.tokens_owned()
    }

    /// The position of the row that holds `token`, where there is one.
    pub open spec fn token_position(self, token: Seq<char>) -> int {
        choose|i: int| 0 <= i < self.tokens.len() && (#[trigger] self.tokens[i]).token == token
    }

    /// The position of the row of subscriber `id`, where there is one.
    pub open spec fn subscriber_position(self, id: u128) -> int {
        choose|i: int| 0 <= i < self.subscribers.len() && (#[trigger] self.subscribers[i]).id == id
    }

    /// These tables followed by the rows of `other`.
    pub open spec fn plus(self, other: Tables) -> Tables {
        Tables {
            subscribers: self.subscribers + other.subscribers,
            tokens: self.tokens + other.tokens,
        }
    }

    /// The status of subscriber `id`, if there is such a subscriber.
    pub open spec fn status_of(self, id: u128) -> Option<SubscriptionStatus> {
        if self.has_subscriber(id) {
            Some(self.subscribers[self.subscriber_position(id)].status)
        } else {
            None
        }
    }

    /// The subscriber to whom `token` belongs, if the token is live.
    pub open spec fn owner_of(self, token: Seq<char>) -> Option<u128> {
        if self.has_token(token) {
            Some(self.tokens[self.token_position(token)].subscriber_id)
        } else {
            None
        }
    }

    /// The tables with the row of `token` deleted, where there is one.
    pub open spec fn without_token(self, token: Seq<char>) -> Tables {
        if self.has_token(token) {
            Tables {
                subscribers: self.subscribers,
                tokens: self.tokens.remove(self.token_position(token)),
            }
        } else {
            self
        }
    }

    /// The tables with one more subscriber.
    pub open spec fn with_subscriber(self, row: SubscriberRow) -> Tables {
        Tables { subscribers: self.subscribers.push(row), tokens: self.tokens }
    }

    /// The tables with one more token.
    pub open spec fn with_token(self, row: TokenRow) -> Tables {
        Tables { subscribers: self.subscribers, tokens: self.tokens.push(row) }
    }

    /// The tables with subscriber `id` marked as confirmed.
    pub open spec fn with_confirmed(self, id: u128) -> Tables {
        Tables {
            subscribers: self.subscribers.map_values(
                |row: SubscriberRow|
                    if row.id == id {
                        SubscriberRow { status: SubscriptionStatus::Confirmed, ..row }
                    } else {
                        row
                    },
            ),
            tokens: self.tokens,
        }
    }
}

/// The rows that a vector of subscribers stands for.
pub open spec fn subscriber_rows(subscribers: Seq<Subscriber>) -> Seq<SubscriberRow> {
    subscribers.map_values(|s: Subscriber| s@)
}

/// The rows that a vector of tokens stands for.
pub open spec fn token_rows(tokens: Seq<ConfirmationToken>) -> Seq<TokenRow> {
    tokens.map_values(|t: ConfirmationToken| t@)
}

/// Why the store turned a statement down.
#[derive(Clone, Copy, PartialEq, Eq, Structural, Debug)]
pub enum PersistenceCause {
    /// The store could not be reached.
    Unreachable,
    /// A subscriber with this identifier exists already.
    DuplicateSubscriber,
    /// A subscriber with this address exists already.
    DuplicateEmail,
    /// The token is in use already.
    DuplicateToken,
    /// The token names a subscriber that does not exist.
    UnknownSubscriber,
    /// The rows of the transaction no longer fit the committed rows.
    Conflict,
}

/// The cause in words.
pub open spec fn cause_text(cause: PersistenceCause) -> Seq<char> {
    match cause {
        PersistenceCause::Unreachable => "The store could not be reached."@,
        PersistenceCause::DuplicateSubscriber => {
            "A subscriber with this identifier exists already."@
        },
        PersistenceCause::DuplicateEmail => {
            "A subscriber with this email address exists already."@
        },
        PersistenceCause::DuplicateToken => "The subscription token is in use already."@,
        PersistenceCause::UnknownSubscriber => {
            "The subscription token names a subscriber that does not exist."@
        },
        PersistenceCause::Conflict => "The transaction no longer fits the committed rows."@,
    }
}

impl PersistenceCause {
    /// The cause in words.
    pub fn message(&self) -> (text: String)
        ensures
            text@ == cause_text(*self),
    {
        match self {
            PersistenceCause::Unreachable => String::from_str("The store could not be reached."),
            PersistenceCause::DuplicateSubscriber => String::from_str(
                "A subscriber with this identifier exists already.",
            ),
            PersistenceCause::DuplicateEmail => String::from_str(
                "A subscriber with this email address exists already.",
            ),
            PersistenceCause::DuplicateToken => String::from_str(
                "The subscription token is in use already.",
            ),
            PersistenceCause::UnknownSubscriber => String::from_str(
                "The subscription token names a subscriber that does not exist.",
            ),
            PersistenceCause::Conflict => String::from_str(
                "The transaction no longer fits the committed rows.",
            ),
        }
    }
}

/// The cause behind what a database reports of a failed statement. No
/// report from the database at all means that it was not reached. A
/// violated foreign key means an unknown subscriber. A violated uniqueness
/// constraint is told apart by the constraint's name: one that holds
/// "email" guards the addresses, one that holds "token" the tokens, and any
/// other the identifiers. Whatever else the database objects to is a
/// conflict.
pub open spec fn violation_cause(
    database_error: bool,
    foreign_key: bool,
    unique: bool,
    constraint: Option<Seq<char>>,
) -> PersistenceCause {
    if !database_error {
        PersistenceCause::Unreachable
    } else if foreign_key {
        PersistenceCause::UnknownSubscriber
    } else if !unique {
        PersistenceCause::Conflict
    } else {
        match constraint {
            Some(name) => if occurs_in("email"@, name) {
                PersistenceCause::DuplicateEmail
            } else if occurs_in("token"@, name) {
                PersistenceCause::DuplicateToken
            } else {
                PersistenceCause::DuplicateSubscriber
            },
            None => PersistenceCause::DuplicateSubscriber,
        }
    }
}

/// The constraint's name as text, where there is one.
pub open spec fn constraint_text(constraint: Option<&str>) -> Option<Seq<char>> {
    match constraint {
        Some(name) => Some(name@),
        None => None,
    }
}

/// Names the cause of a failed statement from what a database reports of
/// it: whether it reported an error at all, whether that error is a
/// violated foreign key or a violated uniqueness constraint, and the name
/// of the constraint.
pub fn cause_of_violation(
    database_error: bool,
    foreign_key: bool,
    unique: bool,
    constraint: Option<&str>,
) -> (cause: PersistenceCause)
    ensures
        cause == violation_cause(database_error, foreign_key, unique, constraint_text(constraint)),
{
    if !database_error {
        PersistenceCause::Unreachable
    } else if foreign_key {
        PersistenceCause::UnknownSubscriber
    } else if !unique {
        PersistenceCause::Conflict
    } else {
        match constraint {
            Some(name) => if contains_text(name, "email") {
                PersistenceCause::DuplicateEmail
            } else if contains_text(name, "token") {
                PersistenceCause::DuplicateToken
            } else {
                PersistenceCause::DuplicateSubscriber
            },
            None => PersistenceCause::DuplicateSubscriber,
        }
    }
}

/// The state of a store: the committed rows, and how many statements it
/// will still serve before it becomes unreachable (`None`: it never does).
#[verifier::ext_equal]
pub struct StoreState {
    pub tables: Tables,
    pub statements_left: Option<nat>,
}

impl StoreState {
    /// The store serves the next statement.
    pub open spec fn serves(self) -> bool {
        self.statements_left != Some(0nat)
    }

    /// The state after one statement was asked for, served or not, that did
    /// not change a row.
    pub open spec fn after_statement(self) -> StoreState {
        StoreState {
            tables: self.tables,
            statements_left: match self.statements_left {
                Some(n) => if n > 0 {
                    Some((n - 1) as nat)
                } else {
                    Some(0nat)
                },
                None => None,
            },
        }
    }

    /// The same state over other rows.
    pub open spec fn with_tables(self, tables: Tables) -> StoreState {
        StoreState { tables, statements_left: self.statements_left }
    }
}

/// `Ok` where nothing stands against a statement, else the cause as `Err`.
pub open spec fn refusal_to_result(refusal: Option<PersistenceCause>) -> Result<
    (),
    PersistenceCause,
> {
    match refusal {
        Some(cause) => Err(cause),
        None => Ok(()),
    }
}

/// What stands against inserting `row` inside a transaction that has staged
/// `staged`: the insert sees the committed rows and the staged ones.
pub open spec fn subscriber_refusal(
    state: StoreState,
    staged: Tables,
    row: SubscriberRow,
) -> Option<PersistenceCause> {
    let seen = state.tables.plus(staged);
    if !state.serves() {
        Some(PersistenceCause::Unreachable)
    } else if seen.has_subscriber(row.id) {
        Some(PersistenceCause::DuplicateSubscriber)
    } else if seen.has_email(row.email) {
        Some(PersistenceCause::DuplicateEmail)
    } else {
        None
    }
}

/// What stands against inserting the token `row` inside a transaction that
/// has staged `staged`.
pub open spec fn token_refusal(state: StoreState, staged: Tables, row: TokenRow) -> Option<
    PersistenceCause,
> {
    let seen = state.tables.plus(staged);
    if !state.serves() {
        Some(PersistenceCause::Unreachable)
    } else if seen.has_token(row.token) {
        Some(PersistenceCause::DuplicateToken)
    } else if !seen.has_subscriber(row.subscriber_id) {
        Some(PersistenceCause::UnknownSubscriber)
    } else {
        None
    }
}

/// What stands against committing a transaction that has staged `staged`.
pub open spec fn commit_refusal(state: StoreState, staged: Tables) -> Option<PersistenceCause> {
    if !state.serves() {
        Some(PersistenceCause::Unreachable)
    } else if !state.tables.plus(staged).consistent() {
        Some(PersistenceCause::Conflict)
    } else {
        None
    }
}

/// What the statement that deletes `token` and returns its owner does to a
/// store in state `state`, and what it returns. Looking the token up and
/// deleting it is one step: no other statement comes in between.
pub open spec fn take_token_step(state: StoreState, token: Seq<char>) -> (
    StoreState,
    Result<Option<u128>, PersistenceCause>,
) {
    if state.serves() {
        (
            state.after_statement().with_tables(state.tables.without_token(token)),
            Ok(state.tables.owner_of(token)),
        )
    } else {
        (state.after_statement(), Err(PersistenceCause::Unreachable))
    }
}

/// What the statement that marks subscriber `id` confirmed does to a store
/// in state `state`, and what it returns. Where there is no such subscriber
/// the statement succeeds and changes nothing.
pub open spec fn mark_confirmed_step(state: StoreState, id: u128) -> (
    StoreState,
    Result<(), PersistenceCause>,
) {
    if state.serves() {
        (state.after_statement().with_tables(state.tables.with_confirmed(id)), Ok(()))
    } else {
        (state.after_statement(), Err(PersistenceCause::Unreachable))
    }
}

/// A subscriber, an address or a token is in the joined tables exactly when
/// it is in one of the two.
pub proof fn lemma_plus_has(a: Tables, b: Tables)
    ensures
        forall|id: u128| #[trigger]
            a.plus(b).has_subscriber(id) <==> a.has_subscriber(id) || b.has_subscriber(id),
        forall|email: Seq<char>| #[trigger]
            a.plus(b).has_email(email) <==> a.has_email(email) || b.has_email(email),
        forall|token: Seq<char>| #[trigger]
            a.plus(b).has_token(token) <==> a.has_token(token) || b.has_token(token),
{
    let joined = a.plus(b);
    assert forall|id: u128| #[trigger]
        joined.has_subscriber(id) <==> a.has_subscriber(id) || b.has_subscriber(id) by {
        if a.has_subscriber(id) {
            let i = a.subscriber_position(id);
            assert(joined.subscribers[i].id == id);
        }
        if b.has_subscriber(id) {
            let i = b.subscriber_position(id);
            assert(joined.subscribers[a.subscribers.len() + i].id == id);
        }
        if joined.has_subscriber(id) {
            let i = joined.subscriber_position(id);
            if i < a.subscribers.len() {
                assert(a.subscribers[i].id == id);
            } else {
                assert(b.subscribers[i - a.subscribers.len()].id == id);
            }
        }
    }
    assert forall|email: Seq<char>| #[trigger]
        joined.has_email(email) <==> a.has_email(email) || b.has_email(email) by {
        if a.has_email(email) {
            let i = choose|i: int|
                0 <= i < a.subscribers.len() && (#[trigger] a.subscribers[i]).email == email;
            assert(joined.subscribers[i].email == email);
        }
        if b.has_email(email) {
            let i = choose|i: int|
                0 <= i < b.subscribers.len() && (#[trigger] b.subscribers[i]).email == email;
            assert(joined.subscribers[a.subscribers.len() + i].email == email);
        }
        if joined.has_email(email) {
            let i = choose|i: int|
                0 <= i < joined.subscribers.len() && (#[trigger] joined.subscribers[i]).email
                    == email;
            if i < a.subscribers.len() {
                assert(a.subscribers[i].email == email);
            } else {
                assert(b.subscribers[i - a.subscribers.len()].email == email);
            }
        }
    }
    assert forall|token: Seq<char>| #[trigger]
        joined.has_token(token) <==> a.has_token(token) || b.has_token(token) by {
        if a.has_token(token) {
            let i = a.token_position(token);
            assert(joined.tokens[i].token == token);
        }
        if b.has_token(token) {
            let i = b.token_position(token);
            assert(joined.tokens[a.tokens.len() + i].token == token);
        }
        if joined.has_token(token) {
            let i = joined.token_position(token);
            if i < a.tokens.len() {
                assert(a.tokens[i].token == token);
            } else {
                assert(b.tokens[i - a.tokens.len()].token == token);
            }
        }
    }
}

/// In tables with unique keys the row of a key is where it was found.
pub proof fn lemma_positions(tables: Tables)
    requires
        tables.distinct(),
    ensures
        forall|i: int|
            0 <= i < tables.subscribers.len() ==> tables.subscriber_position(
                (#[trigger] tables.subscribers[i]).id,
            ) == i,
        forall|i: int|
            0 <= i < tables.tokens.len() ==> tables.token_position(
                (#[trigger] tables.tokens[i]).token,
            ) == i,
{
    assert forall|i: int| 0 <= i < tables.subscribers.len() implies tables.subscriber_position(
        (#[trigger] tables.subscribers[i]).id,
    ) == i by {
        let p = tables.subscriber_position(tables.subscribers[i].id);
        assert(tables.subscribers[p].id == tables.subscribers[i].id);
    }
    assert forall|i: int| 0 <= i < tables.tokens.len() implies tables.token_position(
        (#[trigger] tables.tokens[i]).token,
    ) == i by {
        let p = tables.token_position(tables.tokens[i].token);
        assert(tables.tokens[p].token == tables.tokens[i].token);
    }
}

/// Staged rows that are unique among themselves, clash with no committed
/// row, and whose tokens have an owner fit the committed rows.
pub proof fn lemma_join_consistent(a: Tables, b: Tables)
    requires
        a.consistent(),
        b.distinct(),
        forall|k: int|
            0 <= k < b.subscribers.len() ==> !a.has_subscriber((#[trigger] b.subscribers[k]).id)
                && !a.has_email(b.subscribers[k].email),
        forall|k: int|
            0 <= k < b.tokens.len() ==> !a.has_token((#[trigger] b.tokens[k]).token) && a.plus(
                b,
            ).has_subscriber(b.tokens[k].subscriber_id),
    ensures
        a.plus(b).consistent(),
{
    let joined = a.plus(b);
    let n = a.subscribers.len() as int;
    let m = a.tokens.len() as int;
    lemma_plus_has(a, b);
    assert forall|i: int, j: int| 0 <= i < j < joined.subscribers.len() implies (
    #[trigger] joined.subscribers[i]).id != (#[trigger] joined.subscribers[j]).id
        && joined.subscribers[i].email != joined.subscribers[j].email by {
        if j < n {
            assert(joined.subscribers[i] == a.subscribers[i]);
            assert(joined.subscribers[j] == a.subscribers[j]);
        } else if i < n {
            assert(joined.subscribers[i] == a.subscribers[i]);
            assert(joined.subscribers[j] == b.subscribers[j - n]);
        } else {
            assert(joined.subscribers[i] == b.subscribers[i - n]);
            assert(joined.subscribers[j] == b.subscribers[j - n]);
        }
    }
    assert forall|i: int, j: int| 0 <= i < j < joined.tokens.len() implies (
    #[trigger] joined.tokens[i]).token != (#[trigger] joined.tokens[j]).token by {
        if j < m {
            assert(joined.tokens[i] == a.tokens[i]);
            assert(joined.tokens[j] == a.tokens[j]);
        } else if i < m {
            assert(joined.tokens[i] == a.tokens[i]);
            assert(joined.tokens[j] == b.tokens[j - m]);
        } else {
            assert(joined.tokens[i] == b.tokens[i - m]);
            assert(joined.tokens[j] == b.tokens[j - m]);
        }
    }
    assert forall|i: int| 0 <= i < joined.tokens.len() implies joined.has_subscriber(
        (#[trigger] joined.tokens[i]).subscriber_id,
    ) by {
        if i < m {
            assert(joined.tokens[i] == a.tokens[i]);
        } else {
            assert(joined.tokens[i] == b.tokens[i - m]);
        }
    }
}

/// Rows that fit the committed rows clash with none of them, and each of
/// their tokens has an owner.
pub proof fn lemma_consistent_join_has_no_clash(a: Tables, b: Tables)
    requires
        a.plus(b).consistent(),
    ensures
        forall|k: int|
            0 <= k < b.subscribers.len() ==> !a.has_subscriber((#[trigger] b.subscribers[k]).id)
                && !a.has_email(b.subscribers[k].email),
        forall|k: int|
            0 <= k < b.tokens.len() ==> !a.has_token((#[trigger] b.tokens[k]).token) && a.plus(
                b,
            ).has_subscriber(b.tokens[k].subscriber_id),
{
    let joined = a.plus(b);
    let n = a.subscribers.len() as int;
    let m = a.tokens.len() as int;
    assert forall|k: int| 0 <= k < b.subscribers.len() implies !a.has_subscriber(
        (#[trigger] b.subscribers[k]).id,
    ) && !a.has_email(b.subscribers[k].email) by {
        assert(joined.subscribers[n + k] == b.subscribers[k]);
        if a.has_subscriber(b.subscribers[k].id) {
            let i = a.subscriber_position(b.subscribers[k].id);
            assert(joined.subscribers[i] == a.subscribers[i]);
        }
        if a.has_email(b.subscribers[k].email) {
            let i = choose|i: int|
                0 <= i < a.subscribers.len() && (#[trigger] a.subscribers[i]).email
                    == b.subscribers[k].email;
            assert(joined.subscribers[i] == a.subscribers[i]);
        }
    }
    assert forall|k: int| 0 <= k < b.tokens.len() implies !a.has_token(
        (#[trigger] b.tokens[k]).token,
    ) && joined.has_subscriber(b.tokens[k].subscriber_id) by {
        assert(joined.tokens[m + k] == b.tokens[k]);
        if a.has_token(b.tokens[k].token) {
            let i = a.token_position(b.tokens[k].token);
            assert(joined.tokens[i] == a.tokens[i]);
        }
    }
}

/// Once the row of a token is deleted the token is no longer live, the
/// other tokens are, and the constraints still hold.
pub proof fn lemma_without_token(tables: Tables, token: Seq<char>)
    requires
        tables.consistent(),
    ensures
        !tables.without_token(token).has_token(token),
        tables.without_token(token).consistent(),
        forall|other: Seq<char>|
            other != token ==> (#[trigger] tables.without_token(other).has_token(token)
                <==> tables.has_token(token)),
        forall|other: Seq<char>|
            other != token ==> #[trigger] tables.without_token(token).owner_of(other)
                == tables.owner_of(other),
{
    lemma_positions(tables);
    assert forall|other: Seq<char>| other != token implies (#[trigger] tables.without_token(
        other,
    ).has_token(token) <==> tables.has_token(token)) by {
        lemma_token_survives(tables, other, token);
    }
    assert forall|other: Seq<char>| other != token implies #[trigger] tables.without_token(
        token,
    ).owner_of(other) == tables.owner_of(other) by {
        lemma_token_survives(tables, token, other);
    }
    if tables.has_token(token) {
        let p = tables.token_position(token);
        let rest = tables.without_token(token);
        assert forall|a: int| 0 <= a < rest.tokens.len() implies (#[trigger] rest.tokens[a]).token
            != token && rest.has_subscriber(rest.tokens[a].subscriber_id) by {
            let a0 = if a < p { a } else { a + 1 };
            assert(rest.tokens[a] == tables.tokens[a0]);
        }
        assert forall|a: int, b: int| 0 <= a < b < rest.tokens.len() implies (
        #[trigger] rest.tokens[a]).token != (#[trigger] rest.tokens[b]).token by {
            let a0 = if a < p { a } else { a + 1 };
            let b0 = if b < p { b } else { b + 1 };
            assert(rest.tokens[a] == tables.tokens[a0]);
            assert(rest.tokens[b] == tables.tokens[b0]);
        }
    }
}

/// Deleting one token leaves every other token live, with its owner.
pub proof fn lemma_token_survives(tables: Tables, deleted: Seq<char>, other: Seq<char>)
    requires
        tables.distinct(),
        deleted != other,
    ensures
        tables.without_token(deleted).has_token(other) <==> tables.has_token(other),
        tables.without_token(deleted).owner_of(other) == tables.owner_of(other),
{
    lemma_positions(tables);
    if tables.has_token(deleted) {
        let p = tables.token_position(deleted);
        let rest = tables.without_token(deleted);
        assert forall|a: int, b: int| 0 <= a < b < rest.tokens.len() implies (
        #[trigger] rest.tokens[a]).token != (#[trigger] rest.tokens[b]).token by {
            let a0 = if a < p { a } else { a + 1 };
            let b0 = if b < p { b } else { b + 1 };
            assert(rest.tokens[a] == tables.tokens[a0]);
            assert(rest.tokens[b] == tables.tokens[b0]);
        }
        lemma_positions(rest);
        if tables.has_token(other) {
            let q = tables.token_position(other);
            let q1 = if q < p { q } else { q - 1 };
            assert(rest.tokens[q1] == tables.tokens[q]);
        }
        if rest.has_token(other) {
            let q1 = rest.token_position(other);
            let q = if q1 < p { q1 } else { q1 + 1 };
            assert(rest.tokens[q1] == tables.tokens[q]);
        }
    }
}

/// Marking a subscriber confirmed changes that subscriber's status and
/// nothing else: the same subscribers and tokens exist, under the same
/// constraints, and nobody else's status moves.
pub proof fn lemma_with_confirmed(tables: Tables, id: u128)
    requires
        tables.consistent(),
    ensures
        tables.with_confirmed(id).consistent(),
        tables.with_confirmed(id).tokens == tables.tokens,
        forall|other: u128| #[trigger]
            tables.with_confirmed(id).has_subscriber(other) <==> tables.has_subscriber(other),
        forall|email: Seq<char>| #[trigger]
            tables.with_confirmed(id).has_email(email) <==> tables.has_email(email),
        forall|other: u128| #[trigger]
            tables.with_confirmed(id).status_of(other) == if other == id && tables.has_subscriber(
                id,
            ) {
                Some(SubscriptionStatus::Confirmed)
            } else {
                tables.status_of(other)
            },
{
    let after = tables.with_confirmed(id);
    assert forall|i: int| 0 <= i < after.subscribers.len() implies (
    #[trigger] after.subscribers[i]).id == tables.subscribers[i].id
        && after.subscribers[i].email == tables.subscribers[i].email by {}
    assert forall|other: u128| #[trigger]
        after.has_subscriber(other) <==> tables.has_subscriber(other) by {
        if tables.has_subscriber(other) {
            let p = tables.subscriber_position(other);
            assert(after.subscribers[p].id == other);
        }
        if after.has_subscriber(other) {
            let p = after.subscriber_position(other);
            assert(tables.subscribers[p].id == other);
        }
    }
    assert forall|email: Seq<char>| #[trigger]
        after.has_email(email) <==> tables.has_email(email) by {
        if tables.has_email(email) {
            let p = choose|i: int|
                0 <= i < tables.subscribers.len() && (#[trigger] tables.subscribers[i]).email
                    == email;
            assert(after.subscribers[p].email == email);
        }
        if after.has_email(email) {
            let p = choose|i: int|
                0 <= i < after.subscribers.len() && (#[trigger] after.subscribers[i]).email
                    == email;
            assert(tables.subscribers[p].email == email);
        }
    }
    assert(after.distinct());
    assert(after.tokens_owned());
    lemma_positions(tables);
    lemma_positions(after);
    assert forall|other: u128| #[trigger]
        after.status_of(other) == if other == id && tables.has_subscriber(id) {
            Some(SubscriptionStatus::Confirmed)
        } else {
            tables.status_of(other)
        } by {
        if tables.has_subscriber(other) {
            let p = tables.subscriber_position(other);
            assert(after.subscribers[p].id == other);
            assert(after.subscriber_position(other) == p);
        }
    }
}

} // verus!
