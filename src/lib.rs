//! A ledger of client accounts: deposits, withdrawals and the dispute
//! lifecycle (dispute, resolve, chargeback), applied one event at a time.

pub mod account;
pub mod bank;
pub mod errors;
pub mod exchange;
pub mod input;
pub mod money;

pub use errors::{CsvLedgerResult, Error};
pub use input::{
    ChargebackData, DepositData, DisputeData, LedgerItem, ResolveData, WithdrawalData,
};
pub use money::Amount;

use vstd::prelude::*;

verus! {

/// A client id.
pub type ClientId = u16;

/// A transaction id.
pub type TransactionId = u32;

} // verus!
