//! Data model of the ledger: account holders, monetary amounts, committed
//! transactions, and the failure taxonomy.
//!
//! Monetary values are fixed-point integers in minor currency units; the
//! ledger never represents money as floating point.

use vstd::prelude::*;

verus! {

/// The kind of a requested operation and of a recorded transaction.
#[derive(Clone, Copy, Debug, PartialEq, Eq, Hash, Structural)]
pub enum TransactionType {
    Debit,
    Credit,
}

/// System-assigned sequential id of a committed transaction.
#[derive(Clone, Copy, Debug, PartialEq, Eq, Hash, Structural)]
pub struct TransactionId(pub i32);

/// Id of a registered account holder, assigned at registration.
#[derive(Clone, Copy, Debug, PartialEq, Eq, Hash, Structural)]
pub struct UserId(pub i32);

/// Credentials presented at registration.
#[derive(Debug)]
pub struct UserCreds {
    pub email: String,
    pub password: String,
}

/// A registered account holder. The balance is in minor currency units.
#[derive(Debug)]
pub struct User {
    pub id: Option<UserId>,
    pub email: String,
    pub password: String,
    pub balance: i64,
}

/// A monetary amount in minor currency units, as a caller submits it.
/// Negative values can be written down, so that a non-positive request
/// can be rejected rather than be unrepresentable.
#[derive(Clone, Copy, Debug, PartialEq, Eq, Structural)]
pub struct Amount {
    pub amount: i64,
}

/// An account balance in minor currency units.
#[derive(Clone, Copy, Debug, PartialEq, Eq, Structural)]
pub struct Balance(pub i64);

/// A committed transaction as the log stores it.
#[derive(Clone, Copy, Debug, PartialEq, Eq)]
pub struct TransactionRecord {
    pub id: Option<TransactionId>,
    pub ttype: TransactionType,
    pub amt: i64,
    pub user_id: UserId,
}

/// The slice of a committed transaction that the operation's caller
/// receives back.
#[derive(Clone, Copy, Debug, PartialEq, Eq)]
pub struct Transaction {
    pub ttype: TransactionType,
    pub amt: i64,
}

/// The slice of a committed transaction that the history reader returns.
#[derive(Clone, Copy, Debug, PartialEq, Eq)]
pub struct TransactionResponse {
    pub id: Option<TransactionId>,
    pub ttype: TransactionType,
    pub amt: i64,
}

/// A store constraint whose violation a `LedgerError::StoreError` reports.
#[derive(Clone, Copy, Debug, PartialEq, Eq, Structural)]
pub enum Constraint {
    /// Two account holders may not register the same email address.
    UniqueEmail,
}

/// Failure taxonomy of the ledger.
///
/// `StoreConflict` classifies a lost lock or failed commit at a
/// persistence boundary; the in-memory store never produces it, but
/// callers that drive a remote store map such failures to it.
#[derive(Clone, Copy, Debug, PartialEq, Eq)]
pub enum LedgerError {
    /// The requested amount was zero or negative; rejected before any
    /// state is touched.
    InvalidAmount,
    /// A debit exceeded the current balance; carries the requested
    /// amount and the balance that was available.
    InsufficientFunds { requested: i64, available: i64 },
    /// No account holder with the given id or email is registered.
    NotFound,
    /// A lock or commit was lost; the whole operation is safe to retry.
    StoreConflict,
    /// A store constraint was violated.
    StoreError { constraint: Constraint },
}

impl Clone for UserCreds {
    fn clone(&self) -> (res: Self)
        ensures
            res.email == self.email,
            res.password == self.password,
    {
        UserCreds { email: self.email.clone(), password: self.password.clone() }
    }
}

impl Clone for User {
    fn clone(&self) -> (res: Self)
        ensures
            res == *self,
    {
        User {
            id: self.id,
            email: self.email.clone(),
            password: self.password.clone(),
            balance: self.balance,
        }
    }
}

} // verus!
