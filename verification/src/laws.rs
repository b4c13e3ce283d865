//! Proved laws of the ledger, stated over the ghost model that the
//! store's contracts use.
//!
//! Together with [`crate::store::lemma_step_preserves_wf`] (every
//! operation keeps the store well-formed) and `Store::new` (a fresh
//! store is well-formed and empty), the first two laws hold after any
//! sequence of committed operations.

use vstd::prelude::*;

use crate::store::{
    balance_of, contains_user, credits_for, debits_for, lemma_net_split,
    lemma_step_preserves_wf, new_tx, recent_of, step, step_err, step_ok, StoreView,
};
use crate::types::{LedgerError, TransactionType};

verus! {

/// The store after a whole sequence of operations, each a requested
/// `(account, kind, amount)` triple, applied oldest first; refused
/// operations leave the store untouched, as `step` says.
pub open spec fn run_ops(s: StoreView, ops: Seq<(int, TransactionType, int)>) -> StoreView
    decreases ops.len(),
{
    if ops.len() == 0 {
        s
    } else {
        run_ops(step(s, ops[0].0, ops[0].1, ops[0].2), ops.drop_first())
    }
}

/// For every sequence of operations on a well-formed store the store
/// stays well-formed: each balance still equals the net sum of the
/// account's recorded transactions and is still non-negative.
pub proof fn lemma_any_sequence_preserves_invariants(s: StoreView, ops: Seq<(int, TransactionType, int)>)
    requires
        s.wf(),
    ensures
        run_ops(s, ops).wf(),
    decreases ops.len(),
{
    if ops.len() > 0 {
        lemma_step_preserves_wf(s, ops[0].0, ops[0].1, ops[0].2);
        lemma_any_sequence_preserves_invariants(step(s, ops[0].0, ops[0].1, ops[0].2), ops.drop_first());
    }
}

/// A committed balance is the net of the account's recorded
/// transactions: the sum of its credits minus the sum of its debits.
pub proof fn lemma_balance_is_net_of_log(s: StoreView, u: int)
    requires
        s.wf(),
        contains_user(s, u),
    ensures
        balance_of(s, u) == credits_for(s.log, u) - debits_for(s.log, u),
{
    lemma_net_split(s.log, u);
}

/// A balance is never observed negative, whichever account is asked
/// for.
pub proof fn lemma_balance_never_negative(s: StoreView, u: int)
    requires
        s.wf(),
    ensures
        balance_of(s, u) >= 0,
{
}

/// Isolation of racing debits: when two debits of the same amount are
/// serialized against a balance that covers the amount once but not
/// twice, the first commits and leaves the balance short of the
/// amount, and the second is refused with `InsufficientFunds` and
/// changes nothing. However the two calls interleave, exactly one
/// transaction is recorded and the final balance reflects exactly one
/// debit.
pub proof fn lemma_debit_isolation(s: StoreView, u: int, a: int)
    requires
        s.wf(),
        contains_user(s, u),
        0 < a,
        a <= balance_of(s, u),
        balance_of(s, u) < 2 * a,
    ensures
        step_ok(s, u, TransactionType::Debit, a),
        balance_of(step(s, u, TransactionType::Debit, a), u) == balance_of(s, u) - a,
        step(s, u, TransactionType::Debit, a).log.len() == s.log.len() + 1,
        !step_ok(step(s, u, TransactionType::Debit, a), u, TransactionType::Debit, a),
        step(step(s, u, TransactionType::Debit, a), u, TransactionType::Debit, a) == step(
            s,
            u,
            TransactionType::Debit,
            a,
        ),
        step_err(step(s, u, TransactionType::Debit, a), u, TransactionType::Debit, a) == (
        LedgerError::InsufficientFunds {
            requested: a as i64,
            available: (balance_of(s, u) - a) as i64,
        }),
{
}

/// Round trip from an operation to the history: after a committed
/// operation, the account's most recent transaction is exactly the one
/// that operation appended.
pub proof fn lemma_apply_then_recent(s: StoreView, u: int, op: TransactionType, a: int)
    requires
        s.wf(),
        step_ok(s, u, op, a),
    ensures
        recent_of(step(s, u, op, a).log, u, 5).len() >= 1,
        recent_of(step(s, u, op, a).log, u, 5)[0] == new_tx(s, u, op, a),
{
    let t = new_tx(s, u, op, a);
    let log2 = step(s, u, op, a).log;
    assert(log2 =~= s.log.push(t));
    assert(log2.last() == t);
    assert(recent_of(log2, u, 5) == seq![t] + recent_of(log2.drop_last(), u, 4));
    assert((seq![t] + recent_of(log2.drop_last(), u, 4))[0] == t);
}

/// A debit of the whole balance is admitted and leaves balance 0.
pub proof fn lemma_debit_to_zero(s: StoreView, u: int)
    requires
        s.wf(),
        contains_user(s, u),
        balance_of(s, u) > 0,
    ensures
        step_ok(s, u, TransactionType::Debit, balance_of(s, u)),
        balance_of(step(s, u, TransactionType::Debit, balance_of(s, u)), u) == 0,
{
}

} // verus!
