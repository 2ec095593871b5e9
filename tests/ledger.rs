use csv_ledger::account::Account;
use csv_ledger::bank::Bank;
use csv_ledger::exchange::Exchange;
use csv_ledger::money::MANTISSA_LIMIT;
use csv_ledger::{Amount, DepositData, DisputeData, Error, LedgerItem};

fn deposit(client: u16, tx: u32, mantissa: u128, scale: u32) -> LedgerItem {
    LedgerItem::Deposit(DepositData { client, tx, amount: Amount::new(mantissa, scale) })
}

fn withdrawal(client: u16, tx: u32, mantissa: u128, scale: u32) -> LedgerItem {
    LedgerItem::Withdrawal(DepositData { client, tx, amount: Amount::new(mantissa, scale) })
}

fn row(fields: &[&str]) -> Vec<String> {
    fields.iter().map(|f| f.to_string()).collect()
}

fn balances(account: &Account) -> (i128, i128, i128, bool) {
    (account.available(), account.held(), account.total(), account.frozen())
}

#[test]
fn deposit_dispute_chargeback_then_locked() {
    let mut account = Account::new(1);
    assert_eq!(account.handle_ledger_item(deposit(1, 1, 200, 2)), Ok(()));
    assert_eq!(balances(&account), (20000, 0, 20000, false));
    let dispute = LedgerItem::Dispute(DisputeData { client: 1, tx: 1 });
    assert_eq!(account.handle_ledger_item(dispute), Ok(()));
    assert_eq!(balances(&account), (0, 20000, 20000, false));
    let chargeback = LedgerItem::Chargeback(DisputeData { client: 1, tx: 1 });
    assert_eq!(account.handle_ledger_item(chargeback), Ok(()));
    assert_eq!(balances(&account), (0, 0, 0, true));
    assert_eq!(account.handle_ledger_item(deposit(1, 2, 500, 2)), Err(Error::LockedAccount));
    assert_eq!(balances(&account), (0, 0, 0, true));
}

#[test]
fn deposit_rounds_half_away_from_zero() {
    let mut account = Account::new(7);
    assert_eq!(account.handle_ledger_item(deposit(7, 10, 10000005, 5)), Ok(()));
    assert_eq!(account.available(), 1000001);
    assert_eq!(account.total(), account.available());
}

#[test]
fn deposit_rounding_below_half_goes_down() {
    let mut account = Account::new(7);
    assert_eq!(account.deposit(1, Amount::new(123454999, 8)), Ok(()));
    assert_eq!(account.available(), 12345);
    assert_eq!(account.deposit(2, Amount::new(3, 0)), Ok(()));
    assert_eq!(account.available(), 12345 + 30000);
}

#[test]
fn overdraft_leaves_balances_unchanged() {
    let mut account = Account::new(3);
    let _ = account.handle_ledger_item(deposit(3, 1, 15, 1));
    let before = balances(&account);
    assert_eq!(
        account.handle_ledger_item(withdrawal(3, 2, 151, 2)),
        Err(Error::InsufficientFunds)
    );
    assert_eq!(balances(&account), before);
    assert_eq!(account.handle_ledger_item(withdrawal(3, 2, 15, 1)), Ok(()));
    assert_eq!(balances(&account), (0, 0, 0, false));
}

#[test]
fn dispute_without_funds_is_refused_but_marks_the_deposit() {
    let mut account = Account::new(4);
    let _ = account.deposit(1, Amount::new(10, 0));
    let _ = account.withdrawal(Amount::new(5, 0));
    assert_eq!(account.dispute(1), Err(Error::InsufficientFundsForDispute));
    assert_eq!(balances(&account), (50000, 0, 50000, false));
    // the deposit is marked, so it cannot be disputed again
    let _ = account.deposit(2, Amount::new(10, 0));
    assert_eq!(account.dispute(1), Err(Error::InvalidDispute));
    // and nothing is held for it, so it cannot be resolved or charged back
    assert_eq!(account.resolve(1), Err(Error::InvalidResolve));
    assert_eq!(account.chargeback(1), Err(Error::InvalidChargeback));
    assert_eq!(balances(&account), (150000, 0, 150000, false));
}

#[test]
fn second_dispute_of_a_deposit_is_refused() {
    let mut account = Account::new(1);
    let _ = account.deposit(1, Amount::new(200, 2));
    let _ = account.deposit(2, Amount::new(200, 2));
    assert_eq!(account.dispute(1), Ok(()));
    assert_eq!(account.dispute(1), Err(Error::InvalidDispute));
    assert_eq!(balances(&account), (20000, 20000, 40000, false));
}

#[test]
fn resolve_or_chargeback_without_held_funds_is_refused() {
    let mut account = Account::new(1);
    let _ = account.deposit(1, Amount::new(200, 2));
    assert_eq!(account.dispute(1), Ok(()));
    assert_eq!(account.resolve(1), Ok(()));
    assert_eq!(balances(&account), (20000, 0, 20000, false));
    assert_eq!(account.resolve(1), Err(Error::InvalidResolve));
    assert_eq!(account.chargeback(1), Err(Error::InvalidChargeback));
    assert_eq!(balances(&account), (20000, 0, 20000, false));
}

#[test]
fn resolve_and_chargeback_need_a_disputed_deposit() {
    let mut account = Account::new(5);
    let _ = account.deposit(1, Amount::new(1, 0));
    assert_eq!(account.resolve(1), Err(Error::InvalidResolve));
    assert_eq!(account.resolve(9), Err(Error::InvalidResolve));
    assert_eq!(account.chargeback(1), Err(Error::InvalidChargeback));
    assert_eq!(account.chargeback(9), Err(Error::InvalidChargeback));
    assert_eq!(balances(&account), (10000, 0, 10000, false));
}

#[test]
fn resolve_returns_held_funds() {
    let mut account = Account::new(5);
    let _ = account.deposit(1, Amount::new(25, 1));
    let _ = account.deposit(2, Amount::new(1, 0));
    assert_eq!(account.dispute(2), Ok(()));
    assert_eq!(balances(&account), (25000, 10000, 35000, false));
    assert_eq!(account.resolve(2), Ok(()));
    assert_eq!(balances(&account), (35000, 0, 35000, false));
}

#[test]
fn balances_past_the_i128_range_are_refused() {
    let mut account = Account::new(6);
    let big = Amount::new(MANTISSA_LIMIT - 1, 0);
    let mut refused = false;
    for tx in 0..400_000u32 {
        let before = balances(&account);
        match account.deposit(tx, big) {
            Ok(()) => {}
            Err(e) => {
                assert_eq!(e, Error::BalanceOverflow);
                assert_eq!(balances(&account), before);
                refused = true;
                break;
            }
        }
    }
    assert!(refused);
}

#[test]
fn exchange_opens_accounts_on_first_sight() {
    let mut exchange = Exchange::new();
    assert_eq!(
        exchange.handle_ledger_item(withdrawal(9, 1, 1, 0)),
        Err(Error::InsufficientFunds)
    );
    assert_eq!(exchange.handle_ledger_item(deposit(2, 2, 1, 0)), Ok(()));
    assert_eq!(exchange.handle_ledger_item(deposit(9, 3, 2, 0)), Ok(()));
    let accounts = exchange.accounts();
    assert_eq!(accounts.len(), 2);
    assert_eq!(accounts[0].client(), 2);
    assert_eq!(accounts[0].available(), 10000);
    assert_eq!(accounts[1].client(), 9);
    assert_eq!(accounts[1].available(), 20000);
}

#[test]
fn events_for_one_client_leave_others_alone() {
    let mut exchange = Exchange::new();
    let _ = exchange.handle_ledger_item(deposit(1, 1, 2, 0));
    let _ = exchange.handle_ledger_item(deposit(2, 2, 3, 0));
    let dispute = LedgerItem::Dispute(DisputeData { client: 2, tx: 1 });
    assert_eq!(exchange.handle_ledger_item(dispute), Err(Error::InvalidDispute));
    let accounts = exchange.accounts();
    assert_eq!(balances(accounts[0]), (20000, 0, 20000, false));
    assert_eq!(balances(accounts[1]), (30000, 0, 30000, false));
}

#[test]
fn rows_are_read_as_events() {
    assert_eq!(
        LedgerItem::from_fields(&row(&["deposit", "1", "1", "1.5"])),
        Ok(deposit(1, 1, 15, 1))
    );
    assert_eq!(
        LedgerItem::from_fields(&row(&["withdrawal", "+2", "007", "100.00005"])),
        Ok(withdrawal(2, 7, 10000005, 5))
    );
    assert_eq!(
        LedgerItem::from_fields(&row(&["dispute", "3", "4", ""])),
        Ok(LedgerItem::Dispute(DisputeData { client: 3, tx: 4 }))
    );
    assert_eq!(
        LedgerItem::from_fields(&row(&["resolve", "3", "4"])),
        Ok(LedgerItem::Resolve(DisputeData { client: 3, tx: 4 }))
    );
    assert_eq!(
        LedgerItem::from_fields(&row(&["chargeback", "65535", "4294967295"])),
        Ok(LedgerItem::Chargeback(DisputeData { client: 65535, tx: 4294967295 }))
    );
}

#[test]
fn malformed_rows_are_refused() {
    let bad = [
        row(&[]),
        row(&["transfer", "1", "1", "1.0"]),
        row(&["deposit", "1", "1"]),
        row(&["deposit", "65536", "1", "1.0"]),
        row(&["deposit", "-1", "1", "1.0"]),
        row(&["deposit", " 1", "1", "1.0"]),
        row(&["deposit", "1", "1", "-1.0"]),
        row(&["deposit", "1", "1", "abc"]),
        row(&["dispute", "1", "4294967296"]),
        row(&["dispute", "1"]),
    ];
    for fields in bad.iter() {
        assert_eq!(LedgerItem::from_fields(fields), Err(Error::InvalidRecord));
    }
}

#[test]
fn bank_applies_rows_in_order_past_refused_events() {
    let records = vec![
        row(&["deposit", "1", "1", "1.0"]),
        row(&["withdrawal", "1", "2", "5.0"]),
        row(&["deposit", "2", "3", "2.0"]),
        row(&["withdrawal", "1", "4", "0.25"]),
    ];
    let bank = Bank::from_records(&records).unwrap();
    let accounts = bank.accounts();
    assert_eq!(accounts.len(), 2);
    assert_eq!(balances(accounts[0]), (7500, 0, 7500, false));
    assert_eq!(balances(accounts[1]), (20000, 0, 20000, false));
}

#[test]
fn bank_stops_at_a_malformed_row() {
    let records = vec![row(&["deposit", "1", "1", "1.0"]), row(&["deposit", "x", "2", "1.0"])];
    assert!(matches!(Bank::from_records(&records), Err(Error::InvalidRecord)));
}

#[test]
fn amounts_from_decimal_parts() {
    assert_eq!(Amount::from_parts(15, 1), Some(Amount::new(15, 1)));
    assert_eq!(Amount::from_parts(0, 28), Some(Amount::new(0, 28)));
    assert_eq!(Amount::from_parts(-15, 1), None);
    assert_eq!(Amount::from_parts(1, 29), None);
    assert_eq!(Amount::from_parts(MANTISSA_LIMIT as i128, 0), None);
}

#[test]
fn rounding_goes_through_the_whole_pipeline() {
    let records = vec![row(&["deposit", "7", "10", "100.00005"])];
    let bank = Bank::from_records(&records).unwrap();
    let accounts = bank.accounts();
    assert_eq!(accounts.len(), 1);
    assert_eq!(accounts[0].client(), 7);
    assert_eq!(balances(accounts[0]), (1000001, 0, 1000001, false));
}

#[test]
fn total_is_available_plus_held_after_each_event() {
    let mut account = Account::new(1);
    let events = [
        deposit(1, 1, 3, 0),
        deposit(1, 2, 125, 2),
        LedgerItem::Dispute(DisputeData { client: 1, tx: 2 }),
        withdrawal(1, 3, 1, 0),
        deposit(1, 4, 7, 3),
        LedgerItem::Resolve(DisputeData { client: 1, tx: 2 }),
        LedgerItem::Dispute(DisputeData { client: 1, tx: 1 }),
    ];
    for event in events.iter() {
        let _ = account.handle_ledger_item(*event);
        assert_eq!(account.total(), account.available() + account.held());
    }
    assert_eq!(balances(&account), (2570, 30000, 32570, false));
}

#[test]
fn frozen_account_refuses_every_kind_of_event() {
    let mut account = Account::new(1);
    let _ = account.handle_ledger_item(deposit(1, 1, 2, 0));
    let _ = account.handle_ledger_item(deposit(1, 2, 3, 0));
    let _ = account.handle_ledger_item(LedgerItem::Dispute(DisputeData { client: 1, tx: 1 }));
    let _ = account.handle_ledger_item(LedgerItem::Chargeback(DisputeData { client: 1, tx: 1 }));
    let frozen = balances(&account);
    assert_eq!(frozen, (30000, 0, 30000, true));
    let events = [
        deposit(1, 3, 1, 0),
        withdrawal(1, 4, 1, 0),
        LedgerItem::Dispute(DisputeData { client: 1, tx: 2 }),
        LedgerItem::Resolve(DisputeData { client: 1, tx: 1 }),
        LedgerItem::Chargeback(DisputeData { client: 1, tx: 1 }),
    ];
    for event in events.iter() {
        assert_eq!(account.handle_ledger_item(*event), Err(Error::LockedAccount));
        assert_eq!(balances(&account), frozen);
    }
}
