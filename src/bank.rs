//! A bank is an exchange loaded from the rows of a ledger.

use crate::account::{Account, AccountView};
use crate::errors::Error;
use crate::exchange::{lists_accounts, route, Exchange};
use crate::input::{ledger_item_of, LedgerItem};
use crate::ClientId;
use vstd::prelude::*;

verus! {

/// The accounts after the rows `records`, read and applied in order, or the
/// error of the first row that is no event. An event that an account
/// refuses does not stop the rows after it.
pub open spec fn load(records: Seq<Vec<String>>) -> Result<Map<ClientId, AccountView>, Error>
    decreases records.len(),
{
    if records.len() == 0 {
        Ok(Map::empty())
    } else {
        match load(records.drop_last()) {
            Err(e) => Err(e),
            Ok(m) => match ledger_item_of(records.last()@) {
                Err(e) => Err(e),
                Ok(item) => Ok(route(m, item).0),
            },
        }
    }
}

/// The accounts of all clients of a ledger.
pub struct Bank(Exchange);

impl View for Bank {
    type V = Map<ClientId, AccountView>;

    closed spec fn view(&self) -> Map<ClientId, AccountView> {
        self.0@
    }
}

impl Bank {
    pub closed spec fn wf(&self) -> bool {
        self.0.wf()
    }

    /// A bank without accounts.
    pub fn new() -> (r: Bank)
        ensures
            r@ == Map::<ClientId, AccountView>::empty(),
            r.wf(),
    {
        Bank(Exchange::new())
    }

    /// Reads each row as an event and applies it to the account of its
    /// client. Stops at the first row that is no event.
    pub fn from_records(records: &Vec<Vec<String>>) -> (r: Result<Bank, Error>)
        ensures
            match r {
                Ok(bank) => load(records@) == Ok::<_, Error>(bank@) && bank.wf(),
                Err(e) => load(records@) == Err::<Map<ClientId, AccountView>, _>(e),
            },
    {
        let mut bank = Bank::new();
        let mut i: usize = 0;
        assert(records@.subrange(0, 0) =~= Seq::<Vec<String>>::empty());
        while i < records.len()
            invariant
                i <= records@.len(),
                bank.wf(),
                load(records@.subrange(0, i as int)) == Ok::<_, Error>(bank@),
            decreases records@.len() - i,
        {
            assert(records@.subrange(0, i + 1).drop_last() =~= records@.subrange(0, i as int));
            match LedgerItem::from_fields(&records[i]) {
                Ok(item) => {
                    let _ = bank.handle_ledger_item(item);
                },
                Err(e) => {
                    proof {
                        lemma_load_stays_failed(records@, i as int + 1, e);
                    }
                    return Err(e);
                },
            }
            i += 1;
        }
        assert(records@.subrange(0, i as int) =~= records@);
        Ok(bank)
    }

    /// Applies one event of the ledger to the account of its client.
    pub fn handle_ledger_item(&mut self, ledger_item: LedgerItem) -> (r: Result<(), Error>)
        requires
            old(self).wf(),
            ledger_item.wf(),
        ensures
            (final(self)@, r) == route(old(self)@, ledger_item),
            final(self).wf(),
    {
        self.0.handle_ledger_item(ledger_item)
    }

    /// The accounts, by ascending client id.
    pub fn accounts(&self) -> (r: Vec<&Account>)
        requires
            self.wf(),
        ensures
            lists_accounts(r@.map_values(|a: &Account| a@), self@),
    {
        self.0.accounts()
    }
}

/// Once a prefix of the rows fails to load, every longer prefix fails with
/// the same error.
pub proof fn lemma_load_stays_failed(records: Seq<Vec<String>>, n: int, e: Error)
    requires
        0 <= n <= records.len(),
        load(records.subrange(0, n)) == Err::<Map<ClientId, AccountView>, _>(e),
    ensures
        load(records) == Err::<Map<ClientId, AccountView>, _>(e),
    decreases records.len() - n,
{
    if n < records.len() {
        assert(records.subrange(0, n + 1).drop_last() =~= records.subrange(0, n));
        lemma_load_stays_failed(records, n + 1, e);
    } else {
        assert(records.subrange(0, n) =~= records);
    }
}

} // verus!
