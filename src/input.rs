//! The events of the ledger, and how a row of text fields becomes one.

use crate::errors::Error;
use crate::money::{amount_from_parts, decimal_parts_of, parse_decimal, Amount};
use crate::{ClientId, TransactionId};
use vstd::prelude::*;

verus! {

/// One event of the ledger, for one client.
#[derive(Clone, Copy, Debug, PartialEq, Eq, Structural)]
pub enum LedgerItem {
    Deposit(DepositData),
    Withdrawal(WithdrawalData),
    Dispute(DisputeData),
    Resolve(ResolveData),
    Chargeback(ChargebackData),
}

/// A deposit or a withdrawal: who, which transaction, how much.
#[derive(Clone, Copy, Debug, PartialEq, Eq, Structural)]
pub struct DepositData {
    pub client: ClientId,
    pub tx: TransactionId,
    pub amount: Amount,
}

pub type WithdrawalData = DepositData;

/// A dispute, a resolve or a chargeback: who, and which deposit it names.
#[derive(Clone, Copy, Debug, PartialEq, Eq, Structural)]
pub struct DisputeData {
    pub client: ClientId,
    pub tx: TransactionId,
}

pub type ResolveData = DisputeData;

pub type ChargebackData = DisputeData;

impl LedgerItem {
    /// The client that the event is for.
    pub open spec fn client_id(self) -> ClientId {
        match self {
            LedgerItem::Deposit(d) => d.client,
            LedgerItem::Withdrawal(d) => d.client,
            LedgerItem::Dispute(d) => d.client,
            LedgerItem::Resolve(d) => d.client,
            LedgerItem::Chargeback(d) => d.client,
        }
    }

    /// Every amount that the event carries fits in a decimal.
    pub open spec fn wf(self) -> bool {
        match self {
            LedgerItem::Deposit(d) => d.amount.wf(),
            LedgerItem::Withdrawal(d) => d.amount.wf(),
            _ => true,
        }
    }

    pub fn client(&self) -> (r: ClientId)
        ensures
            r == self.client_id(),
    {
        match self {
            LedgerItem::Deposit(data) => data.client,
            LedgerItem::Withdrawal(data) => data.client,
            LedgerItem::Dispute(data) => data.client,
            LedgerItem::Resolve(data) => data.client,
            LedgerItem::Chargeback(data) => data.client,
        }
    }
}

pub open spec fn is_digit(c: char) -> bool {
    '0' <= c && c <= '9'
}

/// The value of a string of decimal digits.
pub open spec fn digits_value(s: Seq<char>) -> nat
    decreases s.len(),
{
    if s.len() == 0 {
        0
    } else {
        digits_value(s.drop_last()) * 10 + (s.last() as int - '0' as int) as nat
    }
}

/// The value of an unsigned integer written as an optional `+` followed by
/// one or more ASCII digits; nothing for any other text.
pub open spec fn unsigned_value(s: Seq<char>) -> Option<nat> {
    let d = if s.len() > 0 && s[0] == '+' {
        s.drop_first()
    } else {
        s
    };
    if d.len() > 0 && (forall|i: int| 0 <= i < d.len() ==> is_digit(#[trigger] d[i])) {
        Some(digits_value(d))
    } else {
        None
    }
}

pub open spec fn u16_of(s: Seq<char>) -> Option<u16> {
    match unsigned_value(s) {
        Some(v) => if v <= u16::MAX {
            Some(v as u16)
        } else {
            None
        },
        None => None,
    }
}

pub open spec fn u32_of(s: Seq<char>) -> Option<u32> {
    match unsigned_value(s) {
        Some(v) => if v <= u32::MAX {
            Some(v as u32)
        } else {
            None
        },
        None => None,
    }
}

/// Relies on `u16::from_str`: an optional `+` and then only ASCII digits,
/// with a value that fits.
#[verifier::external_body]
fn parse_u16(s: &str) -> (r: Option<u16>)
    ensures
        r == u16_of(s@),
{
    s.parse::<u16>().ok()
}

/// Relies on `u32::from_str`: an optional `+` and then only ASCII digits,
/// with a value that fits.
#[verifier::external_body]
fn parse_u32(s: &str) -> (r: Option<u32>)
    ensures
        r == u32_of(s@),
{
    s.parse::<u32>().ok()
}

/// A non-negative decimal that fits the amount type.
pub open spec fn amount_of(s: Seq<char>) -> Option<Amount> {
    match decimal_parts_of(s) {
        Some(p) => amount_from_parts(p.0, p.1),
        None => None,
    }
}

/// Fields 1, 2 and 3 of a row: client, transaction and amount.
pub open spec fn deposit_data_of(rec: Seq<String>) -> Result<DepositData, Error> {
    if rec.len() < 4 {
        Err(Error::InvalidRecord)
    } else {
        match (u16_of(rec[1]@), u32_of(rec[2]@), amount_of(rec[3]@)) {
            (Some(client), Some(tx), Some(amount)) => Ok(DepositData { client, tx, amount }),
            _ => Err(Error::InvalidRecord),
        }
    }
}

/// Fields 1 and 2 of a row: client and transaction; any later field is ignored.
pub open spec fn dispute_data_of(rec: Seq<String>) -> Result<DisputeData, Error> {
    if rec.len() < 3 {
        Err(Error::InvalidRecord)
    } else {
        match (u16_of(rec[1]@), u32_of(rec[2]@)) {
            (Some(client), Some(tx)) => Ok(DisputeData { client, tx }),
            _ => Err(Error::InvalidRecord),
        }
    }
}

/// The event that a row spells: field 0 names the kind.
pub open spec fn ledger_item_of(rec: Seq<String>) -> Result<LedgerItem, Error> {
    if rec.len() == 0 {
        Err(Error::InvalidRecord)
    } else if rec[0]@ == "deposit"@ {
        match deposit_data_of(rec) {
            Ok(d) => Ok(LedgerItem::Deposit(d)),
            Err(e) => Err(e),
        }
    } else if rec[0]@ == "withdrawal"@ {
        match deposit_data_of(rec) {
            Ok(d) => Ok(LedgerItem::Withdrawal(d)),
            Err(e) => Err(e),
        }
    } else if rec[0]@ == "dispute"@ {
        match dispute_data_of(rec) {
            Ok(d) => Ok(LedgerItem::Dispute(d)),
            Err(e) => Err(e),
        }
    } else if rec[0]@ == "resolve"@ {
        match dispute_data_of(rec) {
            Ok(d) => Ok(LedgerItem::Resolve(d)),
            Err(e) => Err(e),
        }
    } else if rec[0]@ == "chargeback"@ {
        match dispute_data_of(rec) {
            Ok(d) => Ok(LedgerItem::Chargeback(d)),
            Err(e) => Err(e),
        }
    } else {
        Err(Error::InvalidRecord)
    }
}

fn parse_amount(s: &str) -> (r: Option<Amount>)
    ensures
        r == amount_of(s@),
        r matches Some(a) ==> a.wf(),
{
    match parse_decimal(s) {
        Some((mantissa, scale)) => Amount::from_parts(mantissa, scale),
        None => None,
    }
}

impl DepositData {
    pub fn from_fields(fields: &Vec<String>) -> (r: Result<DepositData, Error>)
        ensures
            r == deposit_data_of(fields@),
            r matches Ok(d) ==> d.amount.wf(),
    {
        if fields.len() < 4 {
            return Err(Error::InvalidRecord);
        }
        let client = parse_u16(fields[1].as_str());
        let tx = parse_u32(fields[2].as_str());
        let amount = parse_amount(fields[3].as_str());
        match (client, tx, amount) {
            (Some(client), Some(tx), Some(amount)) => Ok(DepositData { client, tx, amount }),
            _ => Err(Error::InvalidRecord),
        }
    }
}

impl DisputeData {
    pub fn from_fields(fields: &Vec<String>) -> (r: Result<DisputeData, Error>)
        ensures
            r == dispute_data_of(fields@),
    {
        if fields.len() < 3 {
            return Err(Error::InvalidRecord);
        }
        let client = parse_u16(fields[1].as_str());
        let tx = parse_u32(fields[2].as_str());
        match (client, tx) {
            (Some(client), Some(tx)) => Ok(DisputeData { client, tx }),
            _ => Err(Error::InvalidRecord),
        }
    }
}

impl LedgerItem {
    /// Reads one row of text fields as an event; any malformed row is
    /// refused with `InvalidRecord`.
    pub fn from_fields(fields: &Vec<String>) -> (r: Result<LedgerItem, Error>)
        ensures
            r == ledger_item_of(fields@),
            r matches Ok(item) ==> item.wf(),
    {
        if fields.len() == 0 {
            return Err(Error::InvalidRecord);
        }
        let kind = &fields[0];
        if *kind == "deposit".to_owned() {
            match DepositData::from_fields(fields) {
                Ok(d) => Ok(LedgerItem::Deposit(d)),
                Err(e) => Err(e),
            }
        } else if *kind == "withdrawal".to_owned() {
            match DepositData::from_fields(fields) {
                Ok(d) => Ok(LedgerItem::Withdrawal(d)),
                Err(e) => Err(e),
            }
        } else if *kind == "dispute".to_owned() {
            match DisputeData::from_fields(fields) {
                Ok(d) => Ok(LedgerItem::Dispute(d)),
                Err(e) => Err(e),
            }
        } else if *kind == "resolve".to_owned() {
            match DisputeData::from_fields(fields) {
                Ok(d) => Ok(LedgerItem::Resolve(d)),
                Err(e) => Err(e),
            }
        } else if *kind == "chargeback".to_owned() {
            match DisputeData::from_fields(fields) {
                Ok(d) => Ok(LedgerItem::Chargeback(d)),
                Err(e) => Err(e),
            }
        } else {
            Err(Error::InvalidRecord)
        }
    }
}

} // verus!
