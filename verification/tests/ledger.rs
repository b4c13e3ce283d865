use dodo_payments::guard::validate;
use dodo_payments::store::Store;
use dodo_payments::types::{
    Amount, Constraint, LedgerError, TransactionType, UserCreds, UserId,
};

fn creds(email: &str) -> UserCreds {
    UserCreds { email: email.to_string(), password: "hunter2".to_string() }
}

fn store_with_user(email: &str) -> Store {
    let mut s = Store::new();
    let r = s.add_user(creds(email));
    assert!(r.is_ok());
    s
}

#[test]
fn validate_debit_within_balance() {
    assert_eq!(validate(100, TransactionType::Debit, 60), Ok(40));
}

#[test]
fn validate_credit_has_no_upper_bound_in_scope() {
    assert_eq!(validate(5, TransactionType::Credit, 7), Ok(12));
}

#[test]
fn validate_debit_beyond_balance() {
    assert_eq!(
        validate(5, TransactionType::Debit, 7),
        Err(LedgerError::InsufficientFunds { requested: 7, available: 5 })
    );
}

#[test]
fn validate_rejects_zero_and_negative_amounts() {
    assert_eq!(validate(5, TransactionType::Debit, 0), Err(LedgerError::InvalidAmount));
    assert_eq!(validate(5, TransactionType::Debit, -5), Err(LedgerError::InvalidAmount));
    assert_eq!(validate(5, TransactionType::Credit, 0), Err(LedgerError::InvalidAmount));
    assert_eq!(validate(5, TransactionType::Credit, -3), Err(LedgerError::InvalidAmount));
}

#[test]
fn fresh_store_is_empty() {
    let s = Store::new();
    assert_eq!(s.user_count(), 0);
    assert_eq!(s.transaction_count(), 0);
}

#[test]
fn registration_assigns_sequential_ids_and_balance_zero() {
    let mut s = Store::new();
    assert_eq!(s.add_user(creds("a@example.com")), Ok(true));
    assert_eq!(s.add_user(creds("b@example.com")), Ok(true));
    assert_eq!(s.user_count(), 2);
    let b1 = s.get_user_balance(&UserId(1)).unwrap();
    let b2 = s.get_user_balance(&UserId(2)).unwrap();
    assert_eq!(b1.0, 0);
    assert_eq!(b2.0, 0);
}

#[test]
fn duplicate_email_is_a_store_constraint_violation() {
    let mut s = store_with_user("a@example.com");
    assert_eq!(
        s.add_user(creds("a@example.com")),
        Err(LedgerError::StoreError { constraint: Constraint::UniqueEmail })
    );
    assert_eq!(s.user_count(), 1);
}

#[test]
fn get_user_returns_the_registered_record() {
    let s = store_with_user("a@example.com");
    let u = s.get_user("a@example.com".to_string()).unwrap();
    assert_eq!(u.id, Some(UserId(1)));
    assert_eq!(u.email, "a@example.com");
    assert_eq!(u.balance, 0);
}

#[test]
fn get_user_unknown_email_is_not_found() {
    let s = store_with_user("a@example.com");
    assert!(matches!(s.get_user("b@example.com".to_string()), Err(LedgerError::NotFound)));
}

#[test]
fn balance_of_unknown_user_is_not_found() {
    let s = store_with_user("a@example.com");
    assert_eq!(s.get_user_balance(&UserId(2)), Err(LedgerError::NotFound));
    assert_eq!(s.get_user_balance(&UserId(0)), Err(LedgerError::NotFound));
    assert_eq!(s.get_user_balance(&UserId(-3)), Err(LedgerError::NotFound));
}

#[test]
fn apply_on_unknown_user_is_not_found_and_changes_nothing() {
    let mut s = store_with_user("a@example.com");
    let r = s.apply(UserId(9), TransactionType::Credit, 10);
    assert!(matches!(r, Err(LedgerError::NotFound)));
    assert_eq!(s.transaction_count(), 0);
}

#[test]
fn debit_of_zero_and_of_negative_fail_with_invalid_amount() {
    let mut s = store_with_user("a@example.com");
    s.credit(UserId(1), Amount { amount: 100 }).unwrap();
    assert_eq!(s.debit(UserId(1), Amount { amount: 0 }), Err(LedgerError::InvalidAmount));
    assert_eq!(s.debit(UserId(1), Amount { amount: -5 }), Err(LedgerError::InvalidAmount));
    assert_eq!(s.get_user_balance(&UserId(1)).unwrap().0, 100);
    assert_eq!(s.transaction_count(), 1);
}

#[test]
fn debit_of_the_whole_balance_leaves_zero() {
    let mut s = store_with_user("a@example.com");
    s.credit(UserId(1), Amount { amount: 75 }).unwrap();
    let t = s.debit(UserId(1), Amount { amount: 75 }).unwrap();
    assert_eq!(t.ttype, TransactionType::Debit);
    assert_eq!(t.amt, 75);
    assert_eq!(s.get_user_balance(&UserId(1)).unwrap().0, 0);
}

#[test]
fn debit_on_fresh_account_fails_and_leaves_log_unchanged() {
    let mut s = store_with_user("a@example.com");
    let r = s.debit(UserId(1), Amount { amount: 1 });
    assert_eq!(r, Err(LedgerError::InsufficientFunds { requested: 1, available: 0 }));
    assert_eq!(s.get_user_balance(&UserId(1)).unwrap().0, 0);
    assert_eq!(s.transaction_count(), 0);
    assert_eq!(s.get_transactions(UserId(1)).unwrap().len(), 0);
}

#[test]
fn credit_raises_the_balance_and_is_recorded() {
    let mut s = store_with_user("a@example.com");
    s.credit(UserId(1), Amount { amount: 100 }).unwrap();
    let t = s.credit(UserId(1), Amount { amount: 25 }).unwrap();
    assert_eq!(t.ttype, TransactionType::Credit);
    assert_eq!(t.amt, 25);
    assert_eq!(s.get_user_balance(&UserId(1)).unwrap().0, 125);
    let h = s.get_transactions(UserId(1)).unwrap();
    assert_eq!(h.len(), 2);
    assert_eq!(h[0].ttype, TransactionType::Credit);
    assert_eq!(h[0].amt, 25);
}

#[test]
fn serialized_racing_debits_commit_exactly_once() {
    let mut s = store_with_user("a@example.com");
    s.credit(UserId(1), Amount { amount: 100 }).unwrap();
    let first = s.debit(UserId(1), Amount { amount: 60 });
    let second = s.debit(UserId(1), Amount { amount: 60 });
    assert!(first.is_ok());
    assert_eq!(
        second,
        Err(LedgerError::InsufficientFunds { requested: 60, available: 40 })
    );
    assert_eq!(s.get_user_balance(&UserId(1)).unwrap().0, 40);
    // one credit plus exactly one debit recorded
    assert_eq!(s.transaction_count(), 2);
}

#[test]
fn credit_then_history_has_it_as_the_newest_entry() {
    let mut s = store_with_user("a@example.com");
    s.credit(UserId(1), Amount { amount: 10 }).unwrap();
    s.credit(UserId(1), Amount { amount: 50 }).unwrap();
    let h = s.get_transactions(UserId(1)).unwrap();
    assert_eq!(h[0].ttype, TransactionType::Credit);
    assert_eq!(h[0].amt, 50);
}

#[test]
fn balance_is_net_of_recorded_transactions() {
    let mut s = store_with_user("a@example.com");
    s.credit(UserId(1), Amount { amount: 100 }).unwrap();
    s.debit(UserId(1), Amount { amount: 30 }).unwrap();
    s.credit(UserId(1), Amount { amount: 7 }).unwrap();
    s.debit(UserId(1), Amount { amount: 2 }).unwrap();
    // credits 107, debits 32
    assert_eq!(s.get_user_balance(&UserId(1)).unwrap().0, 75);
    assert_eq!(s.transaction_count(), 4);
}

#[test]
fn history_is_bounded_to_five_newest_first() {
    let mut s = store_with_user("a@example.com");
    for amount in 1i64..=7 {
        s.credit(UserId(1), Amount { amount }).unwrap();
    }
    let h = s.get_transactions(UserId(1)).unwrap();
    assert_eq!(h.len(), 5);
    let amounts: Vec<i64> = h.iter().map(|t| t.amt).collect();
    assert_eq!(amounts, vec![7, 6, 5, 4, 3]);
    // ids are sequential in commit order, so newest-first they descend
    let ids: Vec<i32> = h.iter().map(|t| t.id.unwrap().0).collect();
    assert_eq!(ids, vec![7, 6, 5, 4, 3]);
}

#[test]
fn history_of_unknown_user_is_not_found() {
    let s = store_with_user("a@example.com");
    assert!(matches!(s.get_transactions(UserId(2)), Err(LedgerError::NotFound)));
}

#[test]
fn history_only_lists_the_accounts_own_transactions() {
    let mut s = store_with_user("a@example.com");
    s.add_user(creds("b@example.com")).unwrap();
    s.credit(UserId(1), Amount { amount: 11 }).unwrap();
    s.credit(UserId(2), Amount { amount: 22 }).unwrap();
    s.credit(UserId(1), Amount { amount: 33 }).unwrap();
    let h1 = s.get_transactions(UserId(1)).unwrap();
    let h2 = s.get_transactions(UserId(2)).unwrap();
    assert_eq!(h1.len(), 2);
    assert_eq!(h1[0].amt, 33);
    assert_eq!(h1[1].amt, 11);
    assert_eq!(h2.len(), 1);
    assert_eq!(h2[0].amt, 22);
    assert_eq!(s.get_user_balance(&UserId(1)).unwrap().0, 44);
    assert_eq!(s.get_user_balance(&UserId(2)).unwrap().0, 22);
}

#[test]
fn apply_returns_the_full_committed_record() {
    let mut s = store_with_user("a@example.com");
    let rec = s.apply(UserId(1), TransactionType::Credit, 40).unwrap();
    assert_eq!(rec.id.unwrap().0, 1);
    assert_eq!(rec.ttype, TransactionType::Credit);
    assert_eq!(rec.amt, 40);
    assert_eq!(rec.user_id, UserId(1));
}

#[test]
fn get_balance_wraps_the_stored_balance() {
    let mut s = store_with_user("a@example.com");
    s.credit(UserId(1), Amount { amount: 42 }).unwrap();
    assert_eq!(s.get_balance(&UserId(1)), Ok(Amount { amount: 42 }));
    assert_eq!(s.get_balance(&UserId(2)), Err(LedgerError::NotFound));
}
