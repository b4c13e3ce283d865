//! Balance guard: validates a requested operation against a current
//! balance and computes the balance that would result.
//!
//! This is a pure function with no access to storage; the ledger engine
//! runs it between reading and writing a balance.

use vstd::prelude::*;

use crate::types::{LedgerError, TransactionType};

verus! {

/// True when the guard admits the operation: the amount is strictly
/// positive and, for a debit, covered by the current balance. A credit
/// has no upper bound here.
pub open spec fn guard_admits(current: int, op: TransactionType, amount: int) -> bool {
    &&& amount > 0
    &&& (op is Credit || current >= amount)
}

/// The balance that results from an admitted operation.
pub open spec fn guarded_balance(current: int, op: TransactionType, amount: int) -> int {
    if op is Debit {
        current - amount
    } else {
        current + amount
    }
}

/// Validate a requested operation against the current balance.
///
/// Returns the new balance, or `InvalidAmount` for a non-positive
/// amount (checked before the balance), or `InsufficientFunds` for a
/// debit that exceeds the balance.
pub fn validate(current: i64, op: TransactionType, amount: i64) -> (r: Result<i64, LedgerError>)
    requires
        current >= 0,
        op is Credit ==> current + amount <= i64::MAX,
    ensures
        r is Ok <==> guard_admits(current as int, op, amount as int),
        r matches Ok(nb) ==> nb == guarded_balance(current as int, op, amount as int),
        amount <= 0 ==> r == Err::<i64, LedgerError>(LedgerError::InvalidAmount),
        amount > 0 && op is Debit && current < amount ==> r == Err::<i64, LedgerError>(
            LedgerError::InsufficientFunds { requested: amount, available: current },
        ),
{
    if amount <= 0 {
        Err(LedgerError::InvalidAmount)
    } else {
        match op {
            TransactionType::Debit => {
                if current < amount {
                    Err(LedgerError::InsufficientFunds { requested: amount, available: current })
                } else {
                    Ok(current - amount)
                }
            },
            TransactionType::Credit => Ok(current + amount),
        }
    }
}

} // verus!
