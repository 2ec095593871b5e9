use csv_ledger::account::Account;
use csv_ledger::{Amount, DepositData, Error, LedgerItem};

#[test]
fn test_deposit_on_an_new_account() {
    let mut account = Account::new(1);
    let amount = Amount::new(200, 2);
    let _ = account.deposit(1, amount);
    assert_eq!(account.available(), 20000);
    assert_eq!(account.total(), 20000);
}

#[test]
fn test_double_deposit_should_double_total_and_availability() {
    let mut account = Account::new(1);
    let amount = Amount::new(200, 2);
    let _ = account.deposit(1, amount);
    let _ = account.deposit(2, amount);
    assert_eq!(account.available(), 20000 + 20000);
    assert_eq!(account.total(), 20000 + 20000);
}

#[test]
fn test_a_deposit_should_be_rounded_to_4_decimal_digits() {
    let mut account = Account::new(1);
    let amount = Amount::new(2000001, 6);
    let actual_amount: i128 = 20000;
    let _ = account.deposit(1, amount);
    assert_eq!(account.available(), actual_amount);
    assert_eq!(account.total(), actual_amount);
}

#[test]
fn test_withdraw_funds() {
    let mut account = Account::new(1);
    let amount = Amount::new(200, 2);
    let _ = account.deposit(1, amount);
    assert_eq!(account.available(), 20000);
    assert_eq!(account.total(), 20000);
    let withdraw = account.withdrawal(amount);
    assert!(withdraw.is_ok());
    assert_eq!(account.available(), 0);
    assert_eq!(account.total(), 0);
}

#[test]
fn test_withdraw_funds_without_availability() {
    let mut account = Account::new(1);
    let amount = Amount::new(200, 2);
    let withdraw = account.withdrawal(amount);
    assert!(withdraw.is_err());
    assert_eq!(withdraw, Err(Error::InsufficientFunds));
}

#[test]
fn test_dispute() {
    let mut account = Account::new(1);
    let amount = Amount::new(200, 2);
    let _ = account.deposit(1, amount);
    let dispute = account.dispute(1);
    assert!(dispute.is_ok());
    assert_eq!(account.held(), 20000);
    assert_eq!(account.total(), 20000);
    assert_eq!(account.available(), 0);
}

#[test]
fn test_dispute_for_non_existent_transaction() {
    let mut account = Account::new(1);
    let amount = Amount::new(200, 2);
    let _ = account.deposit(1, amount);
    let dispute = account.dispute(2);
    assert!(dispute.is_err());
    assert_eq!(dispute, Err(Error::InvalidDispute));
}

#[test]
fn test_resolve_a_previous_dispute() {
    let mut account = Account::new(1);
    let amount = Amount::new(200, 2);
    let _ = account.deposit(1, amount);
    let dispute = account.dispute(1);
    assert!(dispute.is_ok());
    let resolve = account.resolve(1);
    assert!(resolve.is_ok());
    assert_eq!(account.available(), 20000);
    assert_eq!(account.total(), 20000);
}

#[test]
fn test_chargeback() {
    let mut account = Account::new(1);
    let amount = Amount::new(200, 2);
    let _ = account.deposit(1, amount);
    let dispute = account.dispute(1);
    assert!(dispute.is_ok());
    let chargeback = account.chargeback(1);
    assert!(chargeback.is_ok());
    assert_eq!(account.available(), 0);
    assert_eq!(account.total(), 0);
    assert_eq!(account.held(), 0);
    assert!(account.frozen());
}

#[test]
fn test_a_chargeback_lock_successive_operations() {
    let mut account = Account::new(1);
    let amount = Amount::new(200, 2);
    let _ = account.deposit(1, amount);
    let dispute = account.dispute(1);
    assert!(dispute.is_ok());
    let chargeback = account.chargeback(1);
    assert!(chargeback.is_ok());

    let deposit = account.handle_ledger_item(LedgerItem::Deposit(DepositData {
        client: 1,
        tx: 2,
        amount: Amount::new(200, 1),
    }));

    assert!(deposit.is_err());
    assert_eq!(deposit, Err(Error::LockedAccount));
}
