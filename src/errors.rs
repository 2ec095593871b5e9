//! The errors that an event can end with.

use vstd::prelude::*;

verus! {

/// Why an event was refused. A refused event leaves every account as it was,
/// except where a variant says otherwise.
#[derive(Clone, Copy, Debug, PartialEq, Eq, Structural)]
pub enum Error {
    /// A withdrawal asked for more than the available funds.
    InsufficientFunds,
    /// A dispute named a deposit larger than the available funds (the deposit
    /// is still marked as disputed, and can never be disputed again).
    InsufficientFundsForDispute,
    /// A row could not be read as an event.
    InvalidRecord,
    /// A dispute named no deposit of the account, or one already marked as
    /// disputed.
    InvalidDispute,
    /// A resolve named no deposit of the account, one that is not disputed,
    /// or one whose amount is not held.
    InvalidResolve,
    /// A chargeback named no deposit of the account, one that is not
    /// disputed, or one whose amount is not held.
    InvalidChargeback,
    /// The account is frozen after a chargeback.
    LockedAccount,
    /// A balance would leave the range of an `i128` count of ten-thousandths.
    BalanceOverflow,
}

pub type CsvLedgerResult<T> = Result<T, Error>;

} // verus!
