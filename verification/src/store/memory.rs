//! The store itself: an executable keeper of the two tables whose every
//! statement does to them exactly what the model says.

use vstd::prelude::*;
use vstd::string::*;

use crate::store::tables::{
    commit_refusal, lemma_consistent_join_has_no_clash, lemma_join_consistent, lemma_plus_has,
    lemma_positions, mark_confirmed_step, refusal_to_result, subscriber_refusal, subscriber_rows,
    take_token_step, token_refusal, token_rows, ConfirmationToken, PersistenceCause, StoreState,
    Subscriber, SubscriptionStatus, Tables,
};

verus! {

/// The first row with identifier `id`.
fn position_of_id(rows: &Vec<Subscriber>, id: u128) -> (found: Option<usize>)
    ensures
        match found {
            Some(i) => i < rows.len() && subscriber_rows(rows@)[i as int].id == id,
            None => forall|j: int|
                0 <= j < rows.len() ==> (#[trigger] subscriber_rows(rows@)[j]).id != id,
        },
{
    let mut i: usize = 0;
    while i < rows.len()
        invariant
            i <= rows.len(),
            forall|j: int| 0 <= j < i ==> (#[trigger] subscriber_rows(rows@)[j]).id != id,
        decreases rows.len() - i,
    {
        if rows[i].id == id {
            return Some(i);
        }
        i += 1;
    }
    None
}

/// The first row with address `email`.
fn position_of_email(rows: &Vec<Subscriber>, email: &String) -> (found: Option<usize>)
    ensures
        match found {
            Some(i) => i < rows.len() && subscriber_rows(rows@)[i as int].email == email@,
            None => forall|j: int|
                0 <= j < rows.len() ==> (#[trigger] subscriber_rows(rows@)[j]).email != email@,
        },
{
    let mut i: usize = 0;
    while i < rows.len()
        invariant
            i <= rows.len(),
            forall|j: int| 0 <= j < i ==> (#[trigger] subscriber_rows(rows@)[j]).email != email@,
        decreases rows.len() - i,
    {
        if rows[i].email == *email {
            return Some(i);
        }
        i += 1;
    }
    None
}

/// The first row that holds `token`.
fn position_of_token(rows: &Vec<ConfirmationToken>, token: &String) -> (found: Option<usize>)
    ensures
        match found {
            Some(i) => i < rows.len() && token_rows(rows@)[i as int].token == token@,
            None => forall|j: int|
                0 <= j < rows.len() ==> (#[trigger] token_rows(rows@)[j]).token != token@,
        },
{
    let mut i: usize = 0;
    while i < rows.len()
        invariant
            i <= rows.len(),
            forall|j: int| 0 <= j < i ==> (#[trigger] token_rows(rows@)[j]).token != token@,
        decreases rows.len() - i,
    {
        if rows[i].token == *token {
            return Some(i);
        }
        i += 1;
    }
    None
}

/// The writes of one registration, held back until they are committed.
/// Until then no reader of the store sees them; dropping the transaction
/// discards them.
#[derive(Debug)]
pub struct Transaction {
    subscribers: Vec<Subscriber>,
    tokens: Vec<ConfirmationToken>,
}

impl View for Transaction {
    type V = Tables;

    closed spec fn view(&self) -> Tables {
        Tables { subscribers: subscriber_rows(self.subscribers@), tokens: token_rows(self.tokens@) }
    }
}

impl Transaction {
    #[verifier::type_invariant]
    spec fn well_formed(self) -> bool {
        self@.distinct()
    }
}

/// A store for the two tables. Its committed rows always meet the integrity
/// constraints.
#[derive(Debug)]
pub struct SubscriptionStore {
    subscribers: Vec<Subscriber>,
    tokens: Vec<ConfirmationToken>,
    statements_left: Option<u64>,
}

impl View for SubscriptionStore {
    type V = StoreState;

    closed spec fn view(&self) -> StoreState {
        StoreState {
            tables: Tables {
                subscribers: subscriber_rows(self.subscribers@),
                tokens: token_rows(self.tokens@),
            },
            statements_left: match self.statements_left {
                Some(n) => Some(n as nat),
                None => None,
            },
        }
    }
}

impl SubscriptionStore {
    #[verifier::type_invariant]
    spec fn well_formed(self) -> bool {
        self@.tables.consistent()
    }

    /// An empty store that is always reachable.
    pub fn new() -> (store: SubscriptionStore)
        ensures
            store@ == (StoreState { tables: Tables::empty(), statements_left: None }),
    {
        let store = SubscriptionStore {
            subscribers: Vec::new(),
            tokens: Vec::new(),
            statements_left: None,
        };
        assert(store@.tables =~= Tables::empty());
        store
    }

    /// From now on the store serves `statements` more statements and then
    /// becomes unreachable for good.
    pub fn fail_after(&mut self, statements: u64)
        ensures
            final(self)@ == (StoreState {
                tables: old(self)@.tables,
                statements_left: Some(statements as nat),
            }),
    {
        proof {
            use_type_invariant(&*self);
        }
        self.statements_left = Some(statements);
    }

    /// From now on the store is always reachable.
    pub fn restore(&mut self)
        ensures
            final(self)@ == (StoreState { tables: old(self)@.tables, statements_left: None }),
    {
        proof {
            use_type_invariant(&*self);
        }
        self.statements_left = None;
    }

    /// Does nothing when run; to a verified caller it brings the fact that
    /// the committed rows meet the integrity constraints.
    pub fn integrity(&self)
        ensures
            self@.tables.consistent(),
    {
        proof {
            use_type_invariant(self);
        }
    }

    /// Opens a transaction. Nothing is staged in it yet.
    pub fn begin(&self) -> (transaction: Transaction)
        ensures
            transaction@ == Tables::empty(),
    {
        let transaction = Transaction { subscribers: Vec::new(), tokens: Vec::new() };
        assert(transaction@ =~= Tables::empty());
        transaction
    }

    /// Counts one statement and says whether the store serves it.
    fn count_statement(&mut self) -> (served: bool)
        ensures
            served == old(self)@.serves(),
            final(self)@ == old(self)@.after_statement(),
            final(self).subscribers == old(self).subscribers,
            final(self).tokens == old(self).tokens,
    {
        proof {
            use_type_invariant(&*self);
        }
        match self.statements_left {
            None => true,
            Some(n) => if n == 0 {
                false
            } else {
                self.statements_left = Some(n - 1);
                true
            },
        }
    }

    /// Inserts `row` into the `subscriptions` table, inside `transaction`.
    /// The row is checked against the committed rows and against those the
    /// transaction has staged; on any refusal nothing is staged.
    pub fn stage_subscriber(&mut self, transaction: &mut Transaction, row: Subscriber) -> (r:
        Result<(), PersistenceCause>)
        ensures
            r == refusal_to_result(subscriber_refusal(old(self)@, old(transaction)@, row@)),
            final(self)@ == old(self)@.after_statement(),
            final(transaction)@ == if r is Ok {
                old(transaction)@.with_subscriber(row@)
            } else {
                old(transaction)@
            },
    {
        if !self.count_statement() {
            return Err(PersistenceCause::Unreachable);
        }
        proof {
            use_type_invariant(&*transaction);
            lemma_plus_has(self@.tables, transaction@);
        }
        if position_of_id(&self.subscribers, row.id).is_some() || position_of_id(
            &transaction.subscribers,
            row.id,
        ).is_some() {
            return Err(PersistenceCause::DuplicateSubscriber);
        }
        if position_of_email(&self.subscribers, &row.email).is_some() || position_of_email(
            &transaction.subscribers,
            &row.email,
        ).is_some() {
            return Err(PersistenceCause::DuplicateEmail);
        }
        let ghost staged = transaction@;
        let mut rows: Vec<Subscriber> = Vec::new();
        core::mem::swap(&mut transaction.subscribers, &mut rows);
        rows.push(row);
        assert(subscriber_rows(rows@) =~= staged.subscribers.push(row@));
        core::mem::swap(&mut transaction.subscribers, &mut rows);
        Ok(())
    }

    /// Inserts `row` into the `subscription_tokens` table, inside
    /// `transaction`. Its subscriber may be a committed row or one that the
    /// transaction has staged; on any refusal nothing is staged.
    pub fn stage_token(&mut self, transaction: &mut Transaction, row: ConfirmationToken) -> (r:
        Result<(), PersistenceCause>)
        ensures
            r == refusal_to_result(token_refusal(old(self)@, old(transaction)@, row@)),
            final(self)@ == old(self)@.after_statement(),
            final(transaction)@ == if r is Ok {
                old(transaction)@.with_token(row@)
            } else {
                old(transaction)@
            },
    {
        if !self.count_statement() {
            return Err(PersistenceCause::Unreachable);
        }
        proof {
            use_type_invariant(&*transaction);
            lemma_plus_has(self@.tables, transaction@);
        }
        if position_of_token(&self.tokens, &row.token).is_some() || position_of_token(
            &transaction.tokens,
            &row.token,
        ).is_some() {
            return Err(PersistenceCause::DuplicateToken);
        }
        if position_of_id(&self.subscribers, row.subscriber_id).is_none() && position_of_id(
            &transaction.subscribers,
            row.subscriber_id,
        ).is_none() {
            return Err(PersistenceCause::UnknownSubscriber);
        }
        let ghost staged = transaction@;
        let mut rows: Vec<ConfirmationToken> = Vec::new();
        core::mem::swap(&mut transaction.tokens, &mut rows);
        rows.push(row);
        assert(token_rows(rows@) =~= staged.tokens.push(row@));
        core::mem::swap(&mut transaction.tokens, &mut rows);
        Ok(())
    }

    /// Whether the rows staged in `transaction` still fit the committed
    /// rows.
    fn fits(&self, transaction: &Transaction) -> (fits: bool)
        ensures
            fits == self@.tables.plus(transaction@).consistent(),
    {
        proof {
            use_type_invariant(self);
            use_type_invariant(transaction);
            lemma_plus_has(self@.tables, transaction@);
            if self@.tables.plus(transaction@).consistent() {
                lemma_consistent_join_has_no_clash(self@.tables, transaction@);
            }
        }
        let mut i: usize = 0;
        while i < transaction.subscribers.len()
            invariant
                i <= transaction.subscribers.len(),
                self@.tables.plus(transaction@).consistent() ==> forall|k: int|
                    0 <= k < transaction@.subscribers.len() ==> !self@.tables.has_subscriber(
                        (#[trigger] transaction@.subscribers[k]).id,
                    ) && !self@.tables.has_email(transaction@.subscribers[k].email),
                forall|k: int|
                    0 <= k < i ==> !self@.tables.has_subscriber(
                        (#[trigger] transaction@.subscribers[k]).id,
                    ) && !self@.tables.has_email(transaction@.subscribers[k].email),
            decreases transaction.subscribers.len() - i,
        {
            let row = &transaction.subscribers[i];
            assert(row@ == transaction@.subscribers[i as int]);
            if position_of_id(&self.subscribers, row.id).is_some() || position_of_email(
                &self.subscribers,
                &row.email,
            ).is_some() {
                return false;
            }
            i += 1;
        }
        let mut k: usize = 0;
        while k < transaction.tokens.len()
            invariant
                k <= transaction.tokens.len(),
                forall|id: u128| #[trigger]
                    self@.tables.plus(transaction@).has_subscriber(id)
                        <==> self@.tables.has_subscriber(id) || transaction@.has_subscriber(id),
                self@.tables.plus(transaction@).consistent() ==> forall|j: int|
                    0 <= j < transaction@.tokens.len() ==> !self@.tables.has_token(
                        (#[trigger] transaction@.tokens[j]).token,
                    ) && self@.tables.plus(transaction@).has_subscriber(
                        transaction@.tokens[j].subscriber_id,
                    ),
                forall|j: int|
                    0 <= j < k ==> !self@.tables.has_token(
                        (#[trigger] transaction@.tokens[j]).token,
                    ) && self@.tables.plus(transaction@).has_subscriber(
                        transaction@.tokens[j].subscriber_id,
                    ),
            decreases transaction.tokens.len() - k,
        {
            let row = &transaction.tokens[k];
            assert(row@ == transaction@.tokens[k as int]);
            if position_of_token(&self.tokens, &row.token).is_some() {
                return false;
            }
            if position_of_id(&self.subscribers, row.subscriber_id).is_none() && position_of_id(
                &transaction.subscribers,
                row.subscriber_id,
            ).is_none() {
                return false;
            }
            k += 1;
        }
        proof {
            lemma_join_consistent(self@.tables, transaction@);
        }
        true
    }

    /// Commits `transaction`: all of its rows become visible at once, or,
    /// on any refusal, none of them does.
    pub fn commit(&mut self, transaction: Transaction) -> (r: Result<(), PersistenceCause>)
        ensures
            r == refusal_to_result(commit_refusal(old(self)@, transaction@)),
            final(self)@ == if r is Ok {
                old(self)@.after_statement().with_tables(old(self)@.tables.plus(transaction@))
            } else {
                old(self)@.after_statement()
            },
    {
        if !self.count_statement() {
            return Err(PersistenceCause::Unreachable);
        }
        if !self.fits(&transaction) {
            return Err(PersistenceCause::Conflict);
        }
        let ghost committed = self@.tables;
        let ghost staged = transaction@;
        proof {
            use_type_invariant(&transaction);
            use_type_invariant(&*self);
        }
        let Transaction { subscribers: mut new_subscribers, tokens: mut new_tokens } = transaction;
        let mut subscribers: Vec<Subscriber> = Vec::new();
        let mut tokens: Vec<ConfirmationToken> = Vec::new();
        core::mem::swap(&mut self.tokens, &mut tokens);
        core::mem::swap(&mut self.subscribers, &mut subscribers);
        subscribers.append(&mut new_subscribers);
        tokens.append(&mut new_tokens);
        proof {
            assert(subscriber_rows(subscribers@) =~= committed.subscribers + staged.subscribers);
            assert(token_rows(tokens@) =~= committed.tokens + staged.tokens);
            let joined = committed.plus(staged);
            let first = Tables { subscribers: joined.subscribers, tokens: Seq::empty() };
            assert(first.consistent());
        }
        core::mem::swap(&mut self.subscribers, &mut subscribers);
        proof {
            let last = Tables {
                subscribers: subscriber_rows(self.subscribers@),
                tokens: token_rows(tokens@),
            };
            assert(last =~= committed.plus(staged));
        }
        core::mem::swap(&mut self.tokens, &mut tokens);
        Ok(())
    }

    /// Deletes the row of `token` and returns the subscriber it belonged
    /// to, in one statement: whoever gets `Some` from it is the only one
    /// who ever will for this token. Without such a row nothing changes and
    /// the answer is `None`.
    pub fn take_token(&mut self, token: &str) -> (r: Result<Option<u128>, PersistenceCause>)
        ensures
            (final(self)@, r) == take_token_step(old(self)@, token@),
    {
        if !self.count_statement() {
            return Err(PersistenceCause::Unreachable);
        }
        proof {
            use_type_invariant(&*self);
            lemma_positions(self@.tables);
        }
        let ghost before = self@.tables;
        let key = String::from_str(token);
        match position_of_token(&self.tokens, &key) {
            None => Ok(None),
            Some(i) => {
                assert(before.tokens[i as int].token == token@);
                let mut tokens: Vec<ConfirmationToken> = Vec::new();
                core::mem::swap(&mut self.tokens, &mut tokens);
                let row = tokens.remove(i);
                proof {
                    let rest = token_rows(tokens@);
                    assert(rest =~= before.tokens.remove(i as int));
                    assert forall|a: int, b: int| 0 <= a < b < rest.len() implies (
                    #[trigger] rest[a]).token != (#[trigger] rest[b]).token by {
                        let a0 = if a < i { a } else { a + 1 };
                        let b0 = if b < i { b } else { b + 1 };
                        assert(rest[a] == before.tokens[a0]);
                        assert(rest[b] == before.tokens[b0]);
                    }
                    assert forall|a: int| 0 <= a < rest.len() implies before.has_subscriber(
                        (#[trigger] rest[a]).subscriber_id,
                    ) by {
                        let a0 = if a < i { a } else { a + 1 };
                        assert(rest[a] == before.tokens[a0]);
                    }
                }
                core::mem::swap(&mut self.tokens, &mut tokens);
                Ok(Some(row.subscriber_id))
            },
        }
    }

    /// Sets the status of subscriber `id` to confirmed. Where there is no
    /// such subscriber the statement succeeds and changes nothing.
    pub fn mark_confirmed(&mut self, id: u128) -> (r: Result<(), PersistenceCause>)
        ensures
            (final(self)@, r) == mark_confirmed_step(old(self)@, id),
    {
        if !self.count_statement() {
            return Err(PersistenceCause::Unreachable);
        }
        proof {
            use_type_invariant(&*self);
        }
        let ghost before = self@.tables;
        match position_of_id(&self.subscribers, id) {
            None => {
                assert(before.with_confirmed(id).subscribers =~= before.subscribers);
            },
            Some(i) => {
                let mut tokens: Vec<ConfirmationToken> = Vec::new();
                let mut subscribers: Vec<Subscriber> = Vec::new();
                core::mem::swap(&mut self.tokens, &mut tokens);
                core::mem::swap(&mut self.subscribers, &mut subscribers);
                let confirmed = Subscriber {
                    id: subscribers[i].id,
                    email: subscribers[i].email.clone(),
                    name: subscribers[i].name.clone(),
                    subscribed_at: subscribers[i].subscribed_at,
                    status: SubscriptionStatus::Confirmed,
                };
                subscribers.set(i, confirmed);
                proof {
                    let after = subscriber_rows(subscribers@);
                    assert(after =~= before.with_confirmed(id).subscribers) by {
                        assert forall|j: int| 0 <= j < after.len() implies after[j]
                            == before.with_confirmed(id).subscribers[j] by {
                            if j != i {
                                assert(before.subscribers[j].id != before.subscribers[i as int].id);
                            }
                        }
                    }
                    assert forall|j: int| 0 <= j < after.len() implies (#[trigger] after[j]).id
                        == before.subscribers[j].id && after[j].email
                        == before.subscribers[j].email by {}
                }
                core::mem::swap(&mut self.subscribers, &mut subscribers);
                proof {
                    let now = subscriber_rows(self.subscribers@);
                    let last = Tables { subscribers: now, tokens: token_rows(tokens@) };
                    assert forall|a: int| 0 <= a < last.tokens.len() implies last.has_subscriber(
                        (#[trigger] last.tokens[a]).subscriber_id,
                    ) by {
                        let p = before.subscriber_position(before.tokens[a].subscriber_id);
                        assert(now[p].id == before.subscribers[p].id);
                    }
                }
                core::mem::swap(&mut self.tokens, &mut tokens);
            },
        }
        Ok(())
    }

    /// The number of committed subscribers.
    pub fn subscriber_count(&self) -> (n: usize)
        ensures
            n == self@.tables.subscribers.len(),
    {
        self.subscribers.len()
    }

    /// The number of live tokens.
    pub fn token_count(&self) -> (n: usize)
        ensures
            n == self@.tables.tokens.len(),
    {
        self.tokens.len()
    }

    /// The status of subscriber `id` among the committed rows.
    pub fn status_of(&self, id: u128) -> (status: Option<SubscriptionStatus>)
        ensures
            status == self@.tables.status_of(id),
    {
        proof {
            use_type_invariant(self);
            lemma_positions(self@.tables);
        }
        match position_of_id(&self.subscribers, id) {
            None => None,
            Some(i) => {
                assert(self@.tables.subscribers[i as int].id == id);
                Some(self.subscribers[i].status)
            },
        }
    }

    /// The committed row of subscriber `id`.
    pub fn subscriber(&self, id: u128) -> (row: Option<&Subscriber>)
        ensures
            match row {
                Some(row) => self@.tables.has_subscriber(id) && row@
                    == self@.tables.subscribers[self@.tables.subscriber_position(id)],
                None => !self@.tables.has_subscriber(id),
            },
    {
        proof {
            use_type_invariant(self);
            lemma_positions(self@.tables);
        }
        match position_of_id(&self.subscribers, id) {
            None => None,
            Some(i) => {
                assert(self@.tables.subscribers[i as int].id == id);
                Some(&self.subscribers[i])
            },
        }
    }

    /// The subscriber to whom the live token `token` belongs. The token
    /// stays where it is.
    pub fn owner_of(&self, token: &str) -> (owner: Option<u128>)
        ensures
            owner == self@.tables.owner_of(token@),
    {
        proof {
            use_type_invariant(self);
            lemma_positions(self@.tables);
        }
        let key = String::from_str(token);
        match position_of_token(&self.tokens, &key) {
            None => None,
            Some(i) => {
                assert(self@.tables.tokens[i as int].token == token@);
                Some(self.tokens[i].subscriber_id)
            },
        }
    }

    /// The identifier of the committed subscriber with address `email`.
    pub fn id_of_email(&self, email: &str) -> (id: Option<u128>)
        ensures
            match id {
                Some(id) => exists|i: int|
                    0 <= i < self@.tables.subscribers.len() && (
                    #[trigger] self@.tables.subscribers[i]).email == email@
                        && self@.tables.subscribers[i].id == id,
                None => !self@.tables.has_email(email@),
            },
    {
        let key = String::from_str(email);
        match position_of_email(&self.subscribers, &key) {
            None => None,
            Some(i) => {
                assert(self@.tables.subscribers[i as int].email == email@);
                Some(self.subscribers[i].id)
            },
        }
    }
}

} // verus!
