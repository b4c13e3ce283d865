//! The ledger store and engine: registered account holders, their
//! balances, and the append-only transaction log, together with the
//! atomic `apply` operation and the history reader.
//!
//! The ghost model is a [`StoreView`]: the account holders in
//! registration order and the committed transactions in commit order.
//! Well-formedness ([`StoreView::wf`]) pins the central invariants:
//! every balance is non-negative and equals the net sum of the
//! account's recorded transactions, ids are sequential, and emails are
//! unique. Every operation of [`Store`] preserves well-formedness.

use vstd::prelude::*;

use crate::guard;
use crate::types::{
    Amount, Balance, Constraint, LedgerError, Transaction, TransactionId, TransactionRecord,
    TransactionResponse, TransactionType, User, UserCreds, UserId,
};

verus! {

/// Ghost model of one registered account holder.
pub struct UserView {
    pub id: int,
    pub email: Seq<char>,
    pub password: Seq<char>,
    pub balance: int,
}

/// Ghost model of one committed transaction.
pub struct TxView {
    pub id: int,
    pub ttype: TransactionType,
    pub amount: int,
    pub user: int,
}

/// Ghost model of the whole store.
#[verifier::ext_equal]
pub struct StoreView {
    pub users: Seq<UserView>,
    pub log: Seq<TxView>,
}

/// The signed contribution of one transaction to the balance of
/// account `u`: its amount for a credit, its negation for a debit,
/// nothing for another account's transaction.
pub open spec fn tx_delta(t: TxView, u: int) -> int {
    if t.user == u {
        if t.ttype is Debit {
            -t.amount
        } else {
            t.amount
        }
    } else {
        0
    }
}

/// Net sum of the log's contributions to account `u`.
pub open spec fn net_for(log: Seq<TxView>, u: int) -> int
    decreases log.len(),
{
    if log.len() == 0 {
        0
    } else {
        net_for(log.drop_last(), u) + tx_delta(log.last(), u)
    }
}

/// Sum of the credit amounts recorded for account `u`.
pub open spec fn credits_for(log: Seq<TxView>, u: int) -> int
    decreases log.len(),
{
    if log.len() == 0 {
        0
    } else {
        credits_for(log.drop_last(), u) + if log.last().user == u && log.last().ttype is Credit {
            log.last().amount
        } else {
            0
        }
    }
}

/// Sum of the debit amounts recorded for account `u`.
pub open spec fn debits_for(log: Seq<TxView>, u: int) -> int
    decreases log.len(),
{
    if log.len() == 0 {
        0
    } else {
        debits_for(log.drop_last(), u) + if log.last().user == u && log.last().ttype is Debit {
            log.last().amount
        } else {
            0
        }
    }
}

/// Whether an account holder with id `u` is registered. Ids are
/// assigned sequentially from 1.
pub open spec fn contains_user(s: StoreView, u: int) -> bool {
    1 <= u <= s.users.len()
}

/// The balance of account `u`, or 0 for an unregistered id.
pub open spec fn balance_of(s: StoreView, u: int) -> int {
    if contains_user(s, u) {
        s.users[u - 1].balance
    } else {
        0
    }
}

/// Whether some registered account holder has the given email.
pub open spec fn email_taken(s: StoreView, email: Seq<char>) -> bool {
    exists|i: int| 0 <= i < s.users.len() && #[trigger] s.users[i].email == email
}

impl StoreView {
    /// Well-formedness: ids sequential from 1, emails unique, every
    /// balance non-negative and equal to the net sum of the account's
    /// recorded transactions, and every log entry carries a sequential
    /// id, a positive amount, and a registered owner.
    pub open spec fn wf(self) -> bool {
        &&& forall|i: int|
            0 <= i < self.users.len() ==> (#[trigger] self.users[i]).id == i + 1
        &&& forall|i: int, j: int|
            0 <= i < self.users.len() && 0 <= j < self.users.len() && i != j ==> (
            #[trigger] self.users[i].email) != (#[trigger] self.users[j].email)
        &&& forall|i: int|
            0 <= i < self.users.len() ==> (#[trigger] self.users[i]).balance == net_for(
                self.log,
                i + 1,
            )
        &&& forall|i: int| 0 <= i < self.users.len() ==> (#[trigger] self.users[i]).balance >= 0
        &&& forall|k: int| 0 <= k < self.log.len() ==> (#[trigger] self.log[k]).id == k + 1
        &&& forall|k: int| 0 <= k < self.log.len() ==> (#[trigger] self.log[k]).amount > 0
        &&& forall|k: int|
            0 <= k < self.log.len() ==> contains_user(self, (#[trigger] self.log[k]).user)
    }
}

/// The transaction that a committed operation appends: the next
/// sequential id, the operation's kind and amount, and the account.
pub open spec fn new_tx(s: StoreView, u: int, op: TransactionType, amount: int) -> TxView {
    TxView { id: s.log.len() as int + 1, ttype: op, amount: amount, user: u }
}

/// Whether `apply` commits: the account is registered and the balance
/// guard admits the operation against its balance.
pub open spec fn step_ok(s: StoreView, u: int, op: TransactionType, amount: int) -> bool {
    contains_user(s, u) && guard::guard_admits(balance_of(s, u), op, amount)
}

/// The error a refused operation reports: a non-positive amount is
/// rejected before anything else is looked at, then an unregistered
/// account, then a debit beyond the balance.
pub open spec fn step_err(s: StoreView, u: int, op: TransactionType, amount: int) -> LedgerError {
    if amount <= 0 {
        LedgerError::InvalidAmount
    } else if !contains_user(s, u) {
        LedgerError::NotFound
    } else {
        LedgerError::InsufficientFunds {
            requested: amount as i64,
            available: balance_of(s, u) as i64,
        }
    }
}

/// The store after one `apply`: on commit the one balance moves by the
/// operation's signed amount and the log grows by the new transaction,
/// as a single unit; on refusal the store is untouched.
pub open spec fn step(s: StoreView, u: int, op: TransactionType, amount: int) -> StoreView {
    if step_ok(s, u, op, amount) {
        StoreView {
            users: s.users.update(
                u - 1,
                UserView {
                    id: u,
                    email: s.users[u - 1].email,
                    password: s.users[u - 1].password,
                    balance: guard::guarded_balance(balance_of(s, u), op, amount),
                },
            ),
            log: s.log.push(new_tx(s, u, op, amount)),
        }
    } else {
        s
    }
}

/// The at most `k` most recent committed transactions of account `u`,
/// newest first.
pub open spec fn recent_of(log: Seq<TxView>, u: int, k: nat) -> Seq<TxView>
    decreases log.len(),
{
    if log.len() == 0 || k == 0 {
        Seq::empty()
    } else if log.last().user == u {
        seq![log.last()] + recent_of(log.drop_last(), u, (k - 1) as nat)
    } else {
        recent_of(log.drop_last(), u, k)
    }
}

/// Appending one transaction moves an account's net sum by exactly
/// that transaction's signed contribution.
pub proof fn lemma_net_for_push(log: Seq<TxView>, t: TxView, u: int)
    ensures
        net_for(log.push(t), u) == net_for(log, u) + tx_delta(t, u),
{
    assert(log.push(t).drop_last() =~= log);
    assert(log.push(t).last() == t);
}

/// An account none of the log's transactions belong to has net sum 0.
pub proof fn lemma_net_for_absent(log: Seq<TxView>, u: int)
    requires
        forall|k: int| 0 <= k < log.len() ==> (#[trigger] log[k]).user != u,
    ensures
        net_for(log, u) == 0,
    decreases log.len(),
{
    if log.len() > 0 {
        lemma_net_for_absent(log.drop_last(), u);
        assert(tx_delta(log.last(), u) == 0);
    }
}

/// The net sum splits into the credit sum minus the debit sum.
pub proof fn lemma_net_split(log: Seq<TxView>, u: int)
    ensures
        net_for(log, u) == credits_for(log, u) - debits_for(log, u),
    decreases log.len(),
{
    if log.len() > 0 {
        lemma_net_split(log.drop_last(), u);
    }
}

/// One `apply` preserves well-formedness, whether it commits or is
/// refused: balances stay the net sums of the log and stay
/// non-negative.
pub proof fn lemma_step_preserves_wf(s: StoreView, u: int, op: TransactionType, amount: int)
    requires
        s.wf(),
    ensures
        step(s, u, op, amount).wf(),
{
    if step_ok(s, u, op, amount) {
        let s2 = step(s, u, op, amount);
        let t = new_tx(s, u, op, amount);
        assert forall|i: int|
            0 <= i < s2.users.len() implies (#[trigger] s2.users[i]).balance == net_for(
            s2.log,
            i + 1,
        ) by {
            lemma_net_for_push(s.log, t, i + 1);
        }
        assert forall|i: int| 0 <= i < s2.users.len() implies (#[trigger] s2.users[i]).balance
            >= 0 by {
            if i + 1 == u {
                assert(guard::guard_admits(balance_of(s, u), op, amount));
            }
        }
    }
}

/// Ghost projection of one stored account holder.
pub open spec fn user_view(u: User) -> UserView {
    UserView {
        id: match u.id {
            Some(i) => i.0 as int,
            None => 0,
        },
        email: u.email@,
        password: u.password@,
        balance: u.balance as int,
    }
}

/// Ghost projection of one stored transaction record.
pub open spec fn tx_view(t: TransactionRecord) -> TxView {
    TxView {
        id: match t.id {
            Some(i) => i.0 as int,
            None => 0,
        },
        ttype: t.ttype,
        amount: t.amt as int,
        user: t.user_id.0 as int,
    }
}

/// Whether a history entry reports the given committed transaction:
/// same kind and amount, and the transaction's id under `Some`.
pub open spec fn resp_matches(t: TransactionResponse, x: TxView) -> bool {
    &&& t.ttype == x.ttype
    &&& t.amt as int == x.amount
    &&& t.id matches Some(id) && id.0 as int == x.id
}

/// Ghost projection of one history entry, read as a transaction of
/// account `u`.
pub open spec fn resp_tx_view(t: TransactionResponse, u: int) -> TxView {
    TxView {
        id: match t.id {
            Some(i) => i.0 as int,
            None => 0,
        },
        ttype: t.ttype,
        amount: t.amt as int,
        user: u,
    }
}

/// The ledger store: account holders and the append-only transaction
/// log, held together so that a balance write and the matching log
/// append are one unit.
pub struct Store {
    users: Vec<User>,
    log: Vec<TransactionRecord>,
}

impl View for Store {
    type V = StoreView;

    closed spec fn view(&self) -> StoreView {
        StoreView {
            users: self.users@.map_values(|u: User| user_view(u)),
            log: self.log@.map_values(|t: TransactionRecord| tx_view(t)),
        }
    }
}

impl Store {
    /// Well-formedness of the store, as seen through its ghost model.
    pub open spec fn wf(&self) -> bool {
        self@.wf()
    }

    /// A fresh store: no account holders, no transactions.
    pub fn new() -> (s: Store)
        ensures
            s.wf(),
            s@.users.len() == 0,
            s@.log.len() == 0,
    {
        let s = Store { users: Vec::new(), log: Vec::new() };
        s
    }

    /// Number of registered account holders.
    pub fn user_count(&self) -> (n: usize)
        ensures
            n == self@.users.len(),
    {
        self.users.len()
    }

    /// Number of committed transactions.
    pub fn transaction_count(&self) -> (n: usize)
        ensures
            n == self@.log.len(),
    {
        self.log.len()
    }

    /// Whether some registered account holder has the given email.
    fn email_exists(&self, email: &String) -> (b: bool)
        ensures
            b == email_taken(self@, email@),
    {
        let n = self.users.len();
        let mut i: usize = 0;
        while i < n
            invariant
                n == self.users.len(),
                i <= n,
                forall|j: int| 0 <= j < i ==> (#[trigger] self@.users[j].email) != email@,
            decreases n - i,
        {
            if self.users[i].email == *email {
                assert(self@.users[i as int].email == email@);
                return true;
            }
            i += 1;
        }
        false
    }

    /// Register a new account holder with the given credentials and
    /// balance 0, under the next sequential id. Fails, changing
    /// nothing, when the email is already registered: the unique-email
    /// constraint surfaces as a `StoreError`.
    pub fn add_user(&mut self, new_user: UserCreds) -> (r: Result<bool, LedgerError>)
        requires
            old(self).wf(),
            old(self)@.users.len() < i32::MAX,
        ensures
            final(self).wf(),
            r is Ok <==> !email_taken(old(self)@, new_user.email@),
            r is Ok ==> final(self)@.log == old(self)@.log && final(self)@.users == old(self)@.users.push(
                (UserView {
                    id: old(self)@.users.len() as int + 1,
                    email: new_user.email@,
                    password: new_user.password@,
                    balance: 0,
                }),
            ),
            r matches Ok(b) ==> b,
            r is Err ==> final(self)@ == old(self)@ && r == Err::<bool, LedgerError>(
                LedgerError::StoreError { constraint: Constraint::UniqueEmail },
            ),
    {
        if self.email_exists(&new_user.email) {
            return Err(LedgerError::StoreError { constraint: Constraint::UniqueEmail });
        }
        let n = self.users.len();
        let id = UserId((n + 1) as i32);
        let u = User {
            id: Some(id),
            email: new_user.email,
            password: new_user.password,
            balance: 0,
        };
        let ghost gu = user_view(u);
        let ghost s0 = self@;
        self.users.push(u);
        proof {
            assert(self@.users =~= s0.users.push(gu));
            assert(self@.log =~= s0.log);
            let s2 = self@;
            assert forall|i: int|
                0 <= i < s2.users.len() implies (#[trigger] s2.users[i]).balance == net_for(
                s2.log,
                i + 1,
            ) by {
                if i == s2.users.len() - 1 {
                    assert forall|k: int|
                        0 <= k < s2.log.len() implies (#[trigger] s2.log[k]).user != i + 1 by {
                        assert(contains_user(s0, s2.log[k].user));
                    }
                    lemma_net_for_absent(s2.log, i + 1);
                }
            }
        }
        Ok(true)
    }

    /// Look up a registered account holder by email; `NotFound` when
    /// no account holder has it.
    pub fn get_user(&self, email: String) -> (r: Result<User, LedgerError>)
        ensures
            r is Ok <==> email_taken(self@, email@),
            r matches Ok(u) ==> exists|i: int|
                0 <= i < self@.users.len() && #[trigger] self@.users[i] == user_view(u)
                    && user_view(u).email == email@,
            r is Err ==> r == Err::<User, LedgerError>(LedgerError::NotFound),
    {
        let n = self.users.len();
        let mut i: usize = 0;
        while i < n
            invariant
                n == self.users.len(),
                i <= n,
                forall|j: int| 0 <= j < i ==> (#[trigger] self@.users[j].email) != email@,
            decreases n - i,
        {
            if self.users[i].email == email {
                let found = self.users[i].clone();
                assert(self@.users[i as int].email == email@);
                assert(self@.users[i as int] == user_view(found));
                return Ok(found);
            }
            i += 1;
        }
        Err(LedgerError::NotFound)
    }

    /// Read the balance of the given account; `NotFound` for an
    /// unregistered id.
    pub fn get_user_balance(&self, user_id: &UserId) -> (r: Result<Balance, LedgerError>)
        ensures
            r is Ok <==> contains_user(self@, user_id.0 as int),
            r matches Ok(b) ==> b.0 as int == balance_of(self@, user_id.0 as int),
            r is Err ==> r == Err::<Balance, LedgerError>(LedgerError::NotFound),
    {
        let uid = user_id.0;
        if uid < 1 || (uid as usize) > self.users.len() {
            return Err(LedgerError::NotFound);
        }
        let idx = (uid - 1) as usize;
        Ok(Balance(self.users[idx].balance))
    }

    /// The account's balance as a wire amount: the compute part of
    /// the balance query, `NotFound` for an unregistered id.
    pub fn get_balance(&self, user_id: &UserId) -> (r: Result<Amount, LedgerError>)
        ensures
            r is Ok <==> contains_user(self@, user_id.0 as int),
            r matches Ok(a) ==> a.amount as int == balance_of(self@, user_id.0 as int),
            r is Err ==> r == Err::<Amount, LedgerError>(LedgerError::NotFound),
    {
        match self.get_user_balance(user_id) {
            Ok(b) => Ok(Amount { amount: b.0 }),
            Err(e) => Err(e),
        }
    }

    /// Apply one operation to one account as a single atomic unit:
    /// read the balance, validate through the balance guard, write the
    /// new balance and append the transaction record together, or
    /// refuse and change nothing. Exactly the transitions of [`step`].
    pub fn apply(&mut self, user_id: UserId, op: TransactionType, amount: i64) -> (r: Result<
        TransactionRecord,
        LedgerError,
    >)
        requires
            old(self).wf(),
            old(self)@.log.len() < i32::MAX,
            op is Credit ==> balance_of(old(self)@, user_id.0 as int) + amount <= i64::MAX,
        ensures
            final(self).wf(),
            final(self)@ == step(old(self)@, user_id.0 as int, op, amount as int),
            r is Ok <==> step_ok(old(self)@, user_id.0 as int, op, amount as int),
            r matches Ok(t) ==> tx_view(t) == new_tx(old(self)@, user_id.0 as int, op, amount as int)
                && t.id == Some(TransactionId((old(self)@.log.len() + 1) as i32)) && t.ttype == op
                && t.amt == amount && t.user_id == user_id,
            r matches Err(e) ==> e == step_err(old(self)@, user_id.0 as int, op, amount as int),
    {
        let ghost s0 = self@;
        let ghost ug = user_id.0 as int;
        if amount <= 0 {
            return Err(LedgerError::InvalidAmount);
        }
        let uid = user_id.0;
        if uid < 1 || (uid as usize) > self.users.len() {
            return Err(LedgerError::NotFound);
        }
        let idx = (uid - 1) as usize;
        let current = self.users[idx].balance;
        assert(current as int == balance_of(s0, ug));
        let nb = match guard::validate(current, op, amount) {
            Ok(nb) => nb,
            Err(e) => {
                return Err(e);
            },
        };
        // Commit point: the balance write and the log append below are
        // one unit; no caller observes the state in between.
        let updated = User {
            id: self.users[idx].id,
            email: self.users[idx].email.clone(),
            password: self.users[idx].password.clone(),
            balance: nb,
        };
        self.users[idx] = updated;
        let tid = TransactionId((self.log.len() + 1) as i32);
        let rec = TransactionRecord { id: Some(tid), ttype: op, amt: amount, user_id: user_id };
        self.log.push(rec);
        proof {
            assert(self@.log =~= s0.log.push(new_tx(s0, ug, op, amount as int)));
            assert(self@.users =~= step(s0, ug, op, amount as int).users);
            assert(self@ =~= step(s0, ug, op, amount as int));
            lemma_step_preserves_wf(s0, ug, op, amount as int);
        }
        Ok(rec)
    }

    /// Debit the given amount from the account: `apply` with a debit
    /// operation, returning the committed transaction's kind and
    /// amount.
    pub fn debit(&mut self, user_id: UserId, amt: Amount) -> (r: Result<
        Transaction,
        LedgerError,
    >)
        requires
            old(self).wf(),
            old(self)@.log.len() < i32::MAX,
        ensures
            final(self).wf(),
            final(self)@ == step(old(self)@, user_id.0 as int, TransactionType::Debit, amt.amount as int),
            r is Ok <==> step_ok(old(self)@, user_id.0 as int, TransactionType::Debit, amt.amount as int),
            r matches Ok(t) ==> t.ttype == TransactionType::Debit && t.amt == amt.amount,
            r matches Err(e) ==> e == step_err(
                old(self)@,
                user_id.0 as int,
                TransactionType::Debit,
                amt.amount as int,
            ),
    {
        match self.apply(user_id, TransactionType::Debit, amt.amount) {
            Ok(rec) => Ok(Transaction { ttype: rec.ttype, amt: rec.amt }),
            Err(e) => Err(e),
        }
    }

    /// Credit the given amount to the account: `apply` with a credit
    /// operation, returning the committed transaction's kind and
    /// amount.
    pub fn credit(&mut self, user_id: UserId, amt: Amount) -> (r: Result<
        Transaction,
        LedgerError,
    >)
        requires
            old(self).wf(),
            old(self)@.log.len() < i32::MAX,
            balance_of(old(self)@, user_id.0 as int) + amt.amount <= i64::MAX,
        ensures
            final(self).wf(),
            final(self)@ == step(old(self)@, user_id.0 as int, TransactionType::Credit, amt.amount as int),
            r is Ok <==> step_ok(
                old(self)@,
                user_id.0 as int,
                TransactionType::Credit,
                amt.amount as int,
            ),
            r matches Ok(t) ==> t.ttype == TransactionType::Credit && t.amt == amt.amount,
            r matches Err(e) ==> e == step_err(
                old(self)@,
                user_id.0 as int,
                TransactionType::Credit,
                amt.amount as int,
            ),
    {
        match self.apply(user_id, TransactionType::Credit, amt.amount) {
            Ok(rec) => Ok(Transaction { ttype: rec.ttype, amt: rec.amt }),
            Err(e) => Err(e),
        }
    }

    /// The at most 5 most recent committed transactions of the
    /// account, newest first; `NotFound` for an unregistered id, an
    /// empty sequence for a registered account with no transactions.
    pub fn get_transactions(&self, user_id: UserId) -> (r: Result<
        Vec<TransactionResponse>,
        LedgerError,
    >)
        requires
            self.wf(),
        ensures
            r is Ok <==> contains_user(self@, user_id.0 as int),
            r matches Ok(v) ==> v@.len() == recent_of(self@.log, user_id.0 as int, 5).len()
                && forall|i: int|
                    0 <= i < v@.len() ==> resp_matches(
                        #[trigger] v@[i],
                        recent_of(self@.log, user_id.0 as int, 5)[i],
                    ),
            r is Err ==> r == Err::<Vec<TransactionResponse>, LedgerError>(LedgerError::NotFound),
    {
        let uid = user_id.0;
        if uid < 1 || (uid as usize) > self.users.len() {
            return Err(LedgerError::NotFound);
        }
        let ghost ug = uid as int;
        let mut out: Vec<TransactionResponse> = Vec::new();
        let mut j: usize = self.log.len();
        proof {
            assert(self@.log.take(j as int) =~= self@.log);
            assert(out@.map_values(|t: TransactionResponse| resp_tx_view(t, ug)) =~= Seq::<
                TxView,
            >::empty());
            assert(Seq::<TxView>::empty() + recent_of(self@.log, ug, 5) =~= recent_of(
                self@.log,
                ug,
                5,
            ));
        }
        while j > 0 && out.len() < 5
            invariant
                self.wf(),
                uid == user_id.0,
                ug == uid as int,
                j <= self.log.len(),
                out@.len() <= 5,
                forall|i: int| 0 <= i < out@.len() ==> (#[trigger] out@[i]).id is Some,
                out@.map_values(|t: TransactionResponse| resp_tx_view(t, ug)) + recent_of(
                    self@.log.take(j as int),
                    ug,
                    (5 - out@.len()) as nat,
                ) == recent_of(self@.log, ug, 5),
            decreases j,
        {
            let jj = j - 1;
            let t = self.log[jj];
            let ghost pre = self@.log.take(j as int);
            proof {
                assert(pre.drop_last() =~= self@.log.take(jj as int));
                assert(pre.last() == self@.log[jj as int]);
                assert(self@.log[jj as int] == tx_view(self.log@[jj as int]));
            }
            if t.user_id.0 == uid {
                let resp = TransactionResponse { id: t.id, ttype: t.ttype, amt: t.amt };
                let ghost outg = out@;
                out.push(resp);
                proof {
                    assert(tx_view(t).id == jj + 1);
                    assert(t.id is Some);
                    assert(resp_tx_view(resp, ug) == tx_view(t));
                    assert(out@.map_values(|x: TransactionResponse| resp_tx_view(x, ug)) =~= outg
                        .map_values(|x: TransactionResponse| resp_tx_view(x, ug)).push(
                        resp_tx_view(resp, ug),
                    ));
                    assert(outg.map_values(|x: TransactionResponse| resp_tx_view(x, ug)).push(
                        tx_view(t),
                    ) + recent_of(self@.log.take(jj as int), ug, (5 - out@.len()) as nat) =~= outg
                        .map_values(|x: TransactionResponse| resp_tx_view(x, ug)) + (seq![
                        tx_view(t),
                    ] + recent_of(self@.log.take(jj as int), ug, (5 - out@.len()) as nat)));
                }
            }
            j = jj;
        }
        proof {
            if out@.len() < 5 {
                assert(j == 0);
                assert(self@.log.take(0) =~= Seq::<TxView>::empty());
            }
            let mapped = out@.map_values(|t: TransactionResponse| resp_tx_view(t, ug));
            assert(mapped + Seq::<TxView>::empty() =~= mapped);
            assert(mapped == recent_of(self@.log, ug, 5));
            assert forall|i: int|
                0 <= i < out@.len() implies resp_matches(
                #[trigger] out@[i],
                recent_of(self@.log, ug, 5)[i],
            ) by {
                assert(mapped[i] == resp_tx_view(out@[i], ug));
            }
        }
        Ok(out)
    }
}

} // verus!
