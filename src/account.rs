//! An account is a single client of the bank.
//!
//! It holds the client's balances and the deposits that can still be disputed,
//! and applies one ledger event at a time.

use crate::errors::Error;
use crate::input::LedgerItem;
use crate::money::Amount;
use crate::{ClientId, TransactionId};
use vstd::prelude::*;

verus! {

/// A deposit kept in an account's history, so that it can be disputed.
#[derive(Clone, Copy, Debug, PartialEq, Eq, Structural)]
pub struct Transaction {
    pub id: TransactionId,
    /// The deposited amount, in ten-thousandths.
    pub amount: i128,
    pub dispute: bool,
}

/// What an account holds; balances are counts of ten-thousandths.
pub struct AccountView {
    pub client: ClientId,
    pub available: int,
    pub held: int,
    pub total: int,
    pub frozen: bool,
    pub transactions: Seq<Transaction>,
}

pub open spec fn in_i128(v: int) -> bool {
    i128::MIN <= v <= i128::MAX
}

impl AccountView {
    /// The accounting invariant: the total is what is available plus what is
    /// held, neither of these is negative, and no deposit is negative.
    pub open spec fn wf(self) -> bool {
        &&& self.total == self.available + self.held
        &&& self.available >= 0
        &&& self.held >= 0
        &&& forall|i: int|
            0 <= i < self.transactions.len() ==> #[trigger] self.transactions[i].amount >= 0
    }

    /// Every balance is an `i128`.
    pub open spec fn fits(self) -> bool {
        in_i128(self.available) && in_i128(self.held) && in_i128(self.total)
    }
}

/// A fresh account: no funds, not frozen, no history.
pub open spec fn new_account(client: ClientId) -> AccountView {
    AccountView {
        client,
        available: 0,
        held: 0,
        total: 0,
        frozen: false,
        transactions: Seq::empty(),
    }
}

/// `i` is the position of the first deposit with id `tx`.
pub open spec fn is_first_match(txs: Seq<Transaction>, tx: TransactionId, i: int) -> bool {
    &&& 0 <= i < txs.len()
    &&& txs[i].id == tx
    &&& forall|j: int| 0 <= j < i ==> #[trigger] txs[j].id != tx
}

/// The position of the first deposit with id `tx`, if there is one.
pub open spec fn find_deposit(txs: Seq<Transaction>, tx: TransactionId) -> Option<int> {
    if exists|i: int| is_first_match(txs, tx, i) {
        Some(choose|i: int| is_first_match(txs, tx, i))
    } else {
        None
    }
}

/// An outcome whose balances leave the `i128` range is refused instead, with
/// the account as it was.
pub open spec fn guarded(
    a: AccountView,
    outcome: (AccountView, Result<(), Error>),
) -> (AccountView, Result<(), Error>) {
    if outcome.0.fits() {
        outcome
    } else {
        (a, Err(Error::BalanceOverflow))
    }
}

/// A deposit adds the amount to the available funds and to the total, and is
/// recorded as not disputed.
pub open spec fn deposit_outcome(a: AccountView, tx: TransactionId, amount: int) -> (
    AccountView,
    Result<(), Error>,
) {
    guarded(
        a,
        (
            AccountView {
                available: a.available + amount,
                total: a.total + amount,
                transactions: a.transactions.push(
                    Transaction { id: tx, amount: amount as i128, dispute: false },
                ),
                ..a
            },
            Ok(()),
        ),
    )
}

/// A withdrawal takes the amount from the available funds and from the
/// total, if that much is available.
pub open spec fn withdrawal_outcome(a: AccountView, amount: int) -> (
    AccountView,
    Result<(), Error>,
) {
    if a.available < amount {
        (a, Err(Error::InsufficientFunds))
    } else {
        guarded(
            a,
            (AccountView { available: a.available - amount, total: a.total - amount, ..a }, Ok(())),
        )
    }
}

/// A dispute marks the deposit as disputed, and moves its amount from the
/// available funds to the held ones if that much is available. A deposit
/// that is already marked cannot be disputed again; this holds also of one
/// marked by a dispute that was refused for want of available funds.
pub open spec fn dispute_outcome(a: AccountView, tx: TransactionId) -> (
    AccountView,
    Result<(), Error>,
) {
    match find_deposit(a.transactions, tx) {
        None => (a, Err(Error::InvalidDispute)),
        Some(i) => {
            let t = a.transactions[i];
            let marked = AccountView {
                transactions: a.transactions.update(i, Transaction { dispute: true, ..t }),
                ..a
            };
            if t.dispute {
                (a, Err(Error::InvalidDispute))
            } else if a.available < t.amount {
                (marked, Err(Error::InsufficientFundsForDispute))
            } else {
                guarded(
                    a,
                    (
                        AccountView {
                            available: a.available - t.amount,
                            held: a.held + t.amount,
                            ..marked
                        },
                        Ok(()),
                    ),
                )
            }
        },
    }
}

/// A resolve moves a disputed deposit's amount from the held funds back to
/// the available ones; the deposit stays marked as disputed. It is refused
/// where less than that amount is held, so that the held funds never turn
/// negative.
pub open spec fn resolve_outcome(a: AccountView, tx: TransactionId) -> (
    AccountView,
    Result<(), Error>,
) {
    match find_deposit(a.transactions, tx) {
        None => (a, Err(Error::InvalidResolve)),
        Some(i) => {
            let t = a.transactions[i];
            if !t.dispute || a.held < t.amount {
                (a, Err(Error::InvalidResolve))
            } else {
                guarded(
                    a,
                    (
                        AccountView {
                            available: a.available + t.amount,
                            held: a.held - t.amount,
                            ..a
                        },
                        Ok(()),
                    ),
                )
            }
        },
    }
}

/// A chargeback takes a disputed deposit's amount from the held funds and
/// from the total, and freezes the account. It is refused where less than
/// that amount is held.
pub open spec fn chargeback_outcome(a: AccountView, tx: TransactionId) -> (
    AccountView,
    Result<(), Error>,
) {
    match find_deposit(a.transactions, tx) {
        None => (a, Err(Error::InvalidChargeback)),
        Some(i) => {
            let t = a.transactions[i];
            if !t.dispute || a.held < t.amount {
                (a, Err(Error::InvalidChargeback))
            } else {
                guarded(
                    a,
                    (
                        AccountView {
                            held: a.held - t.amount,
                            total: a.total - t.amount,
                            frozen: true,
                            ..a
                        },
                        Ok(()),
                    ),
                )
            }
        },
    }
}

/// The account after one event, and how the event ended. A frozen account
/// refuses every event.
pub open spec fn step(a: AccountView, item: LedgerItem) -> (AccountView, Result<(), Error>) {
    if a.frozen {
        (a, Err(Error::LockedAccount))
    } else {
        match item {
            LedgerItem::Deposit(d) => deposit_outcome(a, d.tx, d.amount.units()),
            LedgerItem::Withdrawal(d) => withdrawal_outcome(a, d.amount.units()),
            LedgerItem::Dispute(d) => dispute_outcome(a, d.tx),
            LedgerItem::Resolve(d) => resolve_outcome(a, d.tx),
            LedgerItem::Chargeback(d) => chargeback_outcome(a, d.tx),
        }
    }
}

pub proof fn lemma_first_match(txs: Seq<Transaction>, tx: TransactionId, i: int)
    requires
        is_first_match(txs, tx, i),
    ensures
        find_deposit(txs, tx) == Some(i),
{
    let k = choose|k: int| is_first_match(txs, tx, k);
    assert(is_first_match(txs, tx, k));
    if k < i {
        assert(txs[k].id != tx);
    } else if k > i {
        assert(txs[i].id != tx);
    }
}

/// Every event keeps the accounting invariant: the total stays the sum of
/// the available and the held funds, and the available funds stay
/// non-negative.
pub proof fn lemma_step_preserves_wf(a: AccountView, item: LedgerItem)
    requires
        a.wf(),
    ensures
        step(a, item).0.wf(),
        step(a, item).0.client == a.client,
{
    match find_deposit(a.transactions, item_tx(item)) {
        Some(i) => {
            assert(is_first_match(a.transactions, item_tx(item), i));
        },
        None => {},
    }
}

/// The transaction id that an event names.
pub open spec fn item_tx(item: LedgerItem) -> TransactionId {
    match item {
        LedgerItem::Deposit(d) => d.tx,
        LedgerItem::Withdrawal(d) => d.tx,
        LedgerItem::Dispute(d) => d.tx,
        LedgerItem::Resolve(d) => d.tx,
        LedgerItem::Chargeback(d) => d.tx,
    }
}

/// The account after the events `items`, applied in order.
pub open spec fn run(a: AccountView, items: Seq<LedgerItem>) -> AccountView
    decreases items.len(),
{
    if items.len() == 0 {
        a
    } else {
        step(run(a, items.drop_last()), items.last()).0
    }
}

/// Any sequence of events keeps the accounting invariant.
pub proof fn lemma_run_preserves_wf(a: AccountView, items: Seq<LedgerItem>)
    requires
        a.wf(),
    ensures
        run(a, items).wf(),
    decreases items.len(),
{
    if items.len() > 0 {
        lemma_run_preserves_wf(a, items.drop_last());
        lemma_step_preserves_wf(run(a, items.drop_last()), items.last());
    }
}

/// From a fresh account, after every event of any sequence of events, the
/// total is the available funds plus the held funds.
pub proof fn lemma_total_is_available_plus_held(client: ClientId, items: Seq<LedgerItem>)
    ensures
        forall|n: int|
            0 <= n <= items.len() ==> #[trigger] run(new_account(client), items.take(n)).total
                == run(new_account(client), items.take(n)).available + run(
                new_account(client),
                items.take(n),
            ).held,
{
    assert forall|n: int| 0 <= n <= items.len() implies #[trigger] run(
        new_account(client),
        items.take(n),
    ).total == run(new_account(client), items.take(n)).available + run(
        new_account(client),
        items.take(n),
    ).held by {
        lemma_run_preserves_wf(new_account(client), items.take(n));
    }
}

/// A withdrawal of more than the available funds from an open account is
/// refused with `InsufficientFunds`, and the account stays as it was.
pub proof fn lemma_overdraft_refused(a: AccountView, d: crate::input::WithdrawalData)
    requires
        !a.frozen,
        d.amount.units() > a.available,
    ensures
        step(a, LedgerItem::Withdrawal(d)) == (a, Err::<(), Error>(Error::InsufficientFunds)),
{
}

/// No two deposits share a transaction id.
pub open spec fn unique_ids(txs: Seq<Transaction>) -> bool {
    forall|i: int, j: int| 0 <= i < j < txs.len() ==> #[trigger] txs[i].id != #[trigger] txs[j].id
}

/// With unique ids, the deposit with id `tx` is the one found.
pub proof fn lemma_unique_found(txs: Seq<Transaction>, tx: TransactionId, i: int)
    requires
        unique_ids(txs),
        0 <= i < txs.len(),
        txs[i].id == tx,
    ensures
        find_deposit(txs, tx) == Some(i),
{
    assert forall|j: int| 0 <= j < i implies #[trigger] txs[j].id != tx by {
        assert(txs[j].id != txs[i].id);
    }
    lemma_first_match(txs, tx, i);
}

/// A dispute of a transaction id that no deposit of an open account has is
/// refused with `InvalidDispute`, and the account stays as it was.
pub proof fn lemma_dispute_unknown_refused(a: AccountView, d: crate::input::DisputeData)
    requires
        !a.frozen,
        forall|i: int| 0 <= i < a.transactions.len() ==> #[trigger] a.transactions[i].id != d.tx,
    ensures
        step(a, LedgerItem::Dispute(d)) == (a, Err::<(), Error>(Error::InvalidDispute)),
{
}

/// A dispute of a deposit of an open account that is already marked as
/// disputed is refused with `InvalidDispute`, and the account stays as it was.
pub proof fn lemma_dispute_repeated_refused(a: AccountView, d: crate::input::DisputeData, i: int)
    requires
        !a.frozen,
        unique_ids(a.transactions),
        0 <= i < a.transactions.len(),
        a.transactions[i].id == d.tx,
        a.transactions[i].dispute,
    ensures
        step(a, LedgerItem::Dispute(d)) == (a, Err::<(), Error>(Error::InvalidDispute)),
{
    lemma_unique_found(a.transactions, d.tx, i);
}

/// A dispute of a deposit of an open account that is not yet disputed, with
/// enough available funds, moves exactly the deposit's amount from the
/// available funds to the held ones, and leaves the total as it was.
pub proof fn lemma_dispute_moves_amount(a: AccountView, d: crate::input::DisputeData, i: int)
    requires
        !a.frozen,
        a.wf(),
        a.fits(),
        unique_ids(a.transactions),
        0 <= i < a.transactions.len(),
        a.transactions[i].id == d.tx,
        !a.transactions[i].dispute,
        a.available >= a.transactions[i].amount,
    ensures
        ({
            let (b, r) = step(a, LedgerItem::Dispute(d));
            &&& r is Ok
            &&& b.available == a.available - a.transactions[i].amount
            &&& b.held == a.held + a.transactions[i].amount
            &&& b.total == a.total
            &&& b.transactions[i].dispute
        }),
{
    lemma_unique_found(a.transactions, d.tx, i);
    assert(a.transactions[i].amount >= 0);
}

/// A resolve of a transaction id that no deposit of an open account has, or
/// of a deposit that is not disputed, is refused with `InvalidResolve`, and
/// the account stays as it was.
pub proof fn lemma_resolve_undisputed_refused(a: AccountView, d: crate::input::ResolveData)
    requires
        !a.frozen,
        forall|i: int|
            0 <= i < a.transactions.len() && #[trigger] a.transactions[i].id == d.tx
                ==> !a.transactions[i].dispute,
    ensures
        step(a, LedgerItem::Resolve(d)) == (a, Err::<(), Error>(Error::InvalidResolve)),
{
    match find_deposit(a.transactions, d.tx) {
        Some(i) => {
            assert(is_first_match(a.transactions, d.tx, i));
        },
        None => {},
    }
}

/// A resolve of a disputed deposit of an open account, whose amount is
/// held, moves exactly that amount from the held funds back to the
/// available ones.
pub proof fn lemma_resolve_returns_amount(a: AccountView, d: crate::input::ResolveData, i: int)
    requires
        !a.frozen,
        a.wf(),
        a.fits(),
        unique_ids(a.transactions),
        0 <= i < a.transactions.len(),
        a.transactions[i].id == d.tx,
        a.transactions[i].dispute,
        a.held >= a.transactions[i].amount,
    ensures
        ({
            let (b, r) = step(a, LedgerItem::Resolve(d));
            &&& r is Ok
            &&& b.available == a.available + a.transactions[i].amount
            &&& b.held == a.held - a.transactions[i].amount
            &&& b.total == a.total
        }),
{
    lemma_unique_found(a.transactions, d.tx, i);
    assert(a.transactions[i].amount >= 0);
}

/// A frozen account refuses every sequence of events with `LockedAccount`
/// and stays as it is.
pub proof fn lemma_frozen_stays(a: AccountView, items: Seq<LedgerItem>)
    requires
        a.frozen,
    ensures
        run(a, items) == a,
        forall|item: LedgerItem| #[trigger] step(a, item) == (a, Err::<(), Error>(Error::LockedAccount)),
    decreases items.len(),
{
    if items.len() > 0 {
        lemma_frozen_stays(a, items.drop_last());
    }
}

/// A chargeback of a disputed deposit of an open account, whose amount is
/// held, freezes it; after that every event, a deposit too, is refused with
/// `LockedAccount`, and the account stays frozen and unchanged.
pub proof fn lemma_chargeback_locks(
    a: AccountView,
    d: crate::input::ChargebackData,
    i: int,
    later: Seq<LedgerItem>,
)
    requires
        !a.frozen,
        a.wf(),
        a.fits(),
        unique_ids(a.transactions),
        0 <= i < a.transactions.len(),
        a.transactions[i].id == d.tx,
        a.transactions[i].dispute,
        a.held >= a.transactions[i].amount,
    ensures
        ({
            let (b, r) = step(a, LedgerItem::Chargeback(d));
            &&& r is Ok
            &&& b.frozen
            &&& b.held == a.held - a.transactions[i].amount
            &&& b.total == a.total - a.transactions[i].amount
            &&& run(b, later) == b
            &&& forall|item: LedgerItem|
                #[trigger] step(b, item) == (b, Err::<(), Error>(Error::LockedAccount))
        }),
{
    lemma_unique_found(a.transactions, d.tx, i);
    assert(a.transactions[i].amount >= 0);
    let b = step(a, LedgerItem::Chargeback(d)).0;
    lemma_frozen_stays(b, later);
}

/// One client's balances and deposit history.
pub struct Account {
    client: ClientId,
    available: i128,
    held: i128,
    total: i128,
    frozen: bool,
    transactions: Vec<Transaction>,
}

impl View for Account {
    type V = AccountView;

    closed spec fn view(&self) -> AccountView {
        AccountView {
            client: self.client,
            available: self.available as int,
            held: self.held as int,
            total: self.total as int,
            frozen: self.frozen,
            transactions: self.transactions@,
        }
    }
}

impl Account {
    pub fn new(client: ClientId) -> (r: Account)
        ensures
            r@ == new_account(client),
    {
        let r = Account {
            client,
            available: 0,
            held: 0,
            total: 0,
            frozen: false,
            transactions: Vec::new(),
        };
        assert(r@.transactions =~= Seq::empty());
        r
    }

    pub fn client(&self) -> (r: ClientId)
        ensures
            r == self@.client,
    {
        self.client
    }

    /// The funds that can be withdrawn or disputed, in ten-thousandths.
    pub fn available(&self) -> (r: i128)
        ensures
            r == self@.available,
    {
        self.available
    }

    /// The funds held by open disputes, in ten-thousandths.
    pub fn held(&self) -> (r: i128)
        ensures
            r == self@.held,
    {
        self.held
    }

    /// All the funds of the account, in ten-thousandths.
    pub fn total(&self) -> (r: i128)
        ensures
            r == self@.total,
    {
        self.total
    }

    pub fn frozen(&self) -> (r: bool)
        ensures
            r == self@.frozen,
    {
        self.frozen
    }

    /// Applies one event of the ledger to the account. A frozen account
    /// refuses it with `LockedAccount`.
    pub fn handle_ledger_item(&mut self, ledger_item: LedgerItem) -> (r: Result<(), Error>)
        requires
            ledger_item.wf(),
        ensures
            (final(self)@, r) == step(old(self)@, ledger_item),
    {
        if self.frozen {
            return Err(Error::LockedAccount);
        }
        match ledger_item {
            LedgerItem::Deposit(data) => self.deposit(data.tx, data.amount),
            LedgerItem::Withdrawal(data) => self.withdrawal(data.amount),
            LedgerItem::Dispute(data) => self.dispute(data.tx),
            LedgerItem::Resolve(data) => self.resolve(data.tx),
            LedgerItem::Chargeback(data) => self.chargeback(data.tx),
        }
    }

    /// Deposits funds into the account, rounded to four fractional digits.
    pub fn deposit(&mut self, tx: TransactionId, amount: Amount) -> (r: Result<(), Error>)
        requires
            amount.wf(),
        ensures
            (final(self)@, r) == deposit_outcome(old(self)@, tx, amount.units()),
    {
        let amount = Self::round(amount);
        match (self.available.checked_add(amount), self.total.checked_add(amount)) {
            (Some(available), Some(total)) => {
                self.available = available;
                self.total = total;
                self.transactions.push(Transaction { id: tx, amount, dispute: false });
                Ok(())
            },
            _ => Err(Error::BalanceOverflow),
        }
    }

    /// Withdraws funds from the account, rounded to four fractional digits;
    /// refused where less is available.
    pub fn withdrawal(&mut self, amount: Amount) -> (r: Result<(), Error>)
        requires
            amount.wf(),
        ensures
            (final(self)@, r) == withdrawal_outcome(old(self)@, amount.units()),
    {
        let amount = Self::round(amount);
        if self.available < amount {
            return Err(Error::InsufficientFunds);
        }
        match (self.available.checked_sub(amount), self.total.checked_sub(amount)) {
            (Some(available), Some(total)) => {
                self.available = available;
                self.total = total;
                Ok(())
            },
            _ => Err(Error::BalanceOverflow),
        }
    }

    /// Disputes an earlier deposit that is not yet marked as disputed. The
    /// deposit is marked also where the dispute is refused for want of
    /// available funds, and can then never be disputed again.
    pub fn dispute(&mut self, tx: TransactionId) -> (r: Result<(), Error>)
        ensures
            (final(self)@, r) == dispute_outcome(old(self)@, tx),
    {
        match self.find_transaction(tx) {
            None => Err(Error::InvalidDispute),
            Some(i) => {
                let t = self.transactions[i];
                if t.dispute {
                    return Err(Error::InvalidDispute);
                }
                let marked = Transaction { dispute: true, ..t };
                if self.available < t.amount {
                    self.transactions.set(i, marked);
                    return Err(Error::InsufficientFundsForDispute);
                }
                match (self.available.checked_sub(t.amount), self.held.checked_add(t.amount)) {
                    (Some(available), Some(held)) => {
                        self.transactions.set(i, marked);
                        self.available = available;
                        self.held = held;
                        Ok(())
                    },
                    _ => Err(Error::BalanceOverflow),
                }
            },
        }
    }

    /// Resolves an earlier dispute, where at least the deposit's amount is
    /// held. The deposit stays marked as disputed, so a later resolve or
    /// chargeback of it is accepted too while that much is held.
    pub fn resolve(&mut self, tx: TransactionId) -> (r: Result<(), Error>)
        ensures
            (final(self)@, r) == resolve_outcome(old(self)@, tx),
    {
        match self.find_transaction(tx) {
            None => Err(Error::InvalidResolve),
            Some(i) => {
                let t = self.transactions[i];
                if !t.dispute || self.held < t.amount {
                    return Err(Error::InvalidResolve);
                }
                match (self.available.checked_add(t.amount), self.held.checked_sub(t.amount)) {
                    (Some(available), Some(held)) => {
                        self.available = available;
                        self.held = held;
                        Ok(())
                    },
                    _ => Err(Error::BalanceOverflow),
                }
            },
        }
    }

    /// Charges back an earlier dispute, where at least the deposit's amount
    /// is held, which freezes the account.
    pub fn chargeback(&mut self, tx: TransactionId) -> (r: Result<(), Error>)
        ensures
            (final(self)@, r) == chargeback_outcome(old(self)@, tx),
    {
        match self.find_transaction(tx) {
            None => Err(Error::InvalidChargeback),
            Some(i) => {
                let t = self.transactions[i];
                if !t.dispute || self.held < t.amount {
                    return Err(Error::InvalidChargeback);
                }
                match (self.held.checked_sub(t.amount), self.total.checked_sub(t.amount)) {
                    (Some(held), Some(total)) => {
                        self.held = held;
                        self.total = total;
                        self.frozen = true;
                        Ok(())
                    },
                    _ => Err(Error::BalanceOverflow),
                }
            },
        }
    }

    /// The position of the first deposit with id `tx`.
    fn find_transaction(&self, tx: TransactionId) -> (r: Option<usize>)
        ensures
            match r {
                Some(i) => find_deposit(self@.transactions, tx) == Some(i as int),
                None => find_deposit(self@.transactions, tx) is None,
            },
    {
        let mut i: usize = 0;
        while i < self.transactions.len()
            invariant
                i <= self.transactions@.len(),
                forall|j: int| 0 <= j < i ==> #[trigger] self.transactions@[j].id != tx,
            decreases self.transactions@.len() - i,
        {
            if self.transactions[i].id == tx {
                proof {
                    lemma_first_match(self.transactions@, tx, i as int);
                }
                return Some(i);
            }
            i += 1;
        }
        None
    }

    /// An amount rounded to four fractional digits, in ten-thousandths.
    fn round(amount: Amount) -> (r: i128)
        requires
            amount.wf(),
        ensures
            r == amount.units(),
            r >= 0,
    {
        amount.to_units()
    }
}

} // verus!
