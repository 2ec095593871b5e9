//! An exchange holds the accounts of all clients, and routes each event of
//! the ledger to the account of its client, opening that account on first
//! sight of the client.

use crate::account::{new_account, step, Account, AccountView};
use crate::errors::Error;
use crate::input::LedgerItem;
use crate::ClientId;
use std::collections::HashMap;
use vstd::prelude::*;

verus! {

broadcast use vstd::std_specs::hash::group_hash_axioms;

/// The account of client `c`, or a fresh one where the client is unknown.
pub open spec fn account_or_new(m: Map<ClientId, AccountView>, c: ClientId) -> AccountView {
    if m.contains_key(c) {
        m[c]
    } else {
        new_account(c)
    }
}

/// The accounts after one event, and how the event ended: the event goes to
/// the account of its client, which exists afterwards even where the event
/// was refused.
pub open spec fn route(m: Map<ClientId, AccountView>, item: LedgerItem) -> (
    Map<ClientId, AccountView>,
    Result<(), Error>,
) {
    let c = item.client_id();
    let (a, r) = step(account_or_new(m, c), item);
    (m.insert(c, a), r)
}

/// Every account is filed under its own client and keeps the accounting
/// invariant.
pub open spec fn registry_wf(m: Map<ClientId, AccountView>) -> bool {
    forall|c: ClientId| #[trigger] m.contains_key(c) ==> m[c].client == c && m[c].wf()
}

/// The accounts `r` are those of `m`, one per client, by ascending client id.
pub open spec fn lists_accounts(r: Seq<AccountView>, m: Map<ClientId, AccountView>) -> bool {
    &&& forall|i: int|
        0 <= i < r.len() ==> m.contains_key(#[trigger] r[i].client) && m[r[i].client] == r[i]
    &&& forall|i: int, j: int| 0 <= i < j < r.len() ==> r[i].client < r[j].client
    &&& forall|c: ClientId|
        #[trigger] m.contains_key(c) ==> exists|i: int| 0 <= i < r.len() && r[i].client == c
}

/// The accounts of all clients met so far, by client id.
pub struct Exchange(HashMap<ClientId, Account>);

impl View for Exchange {
    type V = Map<ClientId, AccountView>;

    closed spec fn view(&self) -> Map<ClientId, AccountView> {
        self.0@.map_values(|a: Account| a@)
    }
}

impl Exchange {
    pub open spec fn wf(&self) -> bool {
        registry_wf(self@)
    }

    /// An exchange without accounts.
    pub fn new() -> (r: Exchange)
        ensures
            r@ == Map::<ClientId, AccountView>::empty(),
            r.wf(),
    {
        let r = Exchange(HashMap::new());
        assert(r@ =~= Map::<ClientId, AccountView>::empty());
        r
    }

    /// Applies one event of the ledger to the account of its client.
    pub fn handle_ledger_item(&mut self, ledger_item: LedgerItem) -> (r: Result<(), Error>)
        requires
            old(self).wf(),
            ledger_item.wf(),
        ensures
            (final(self)@, r) == route(old(self)@, ledger_item),
            final(self).wf(),
    {
        let client = ledger_item.client();
        let mut account = self.get_or_create_bank_account(client);
        let r = account.handle_ledger_item(ledger_item);
        proof {
            crate::account::lemma_step_preserves_wf(account_or_new(old(self)@, client), ledger_item);
        }
        let ghost taken = self.0@;
        let ghost without = self@;
        self.0.insert(client, account);
        assert(self.0@ == taken.insert(client, account));
        assert forall|k: ClientId|
            #[trigger] old(self)@.insert(client, account@).contains_key(k) implies self@.contains_key(
                k,
            ) by {
            if k != client {
                assert(without.contains_key(k));
                assert(taken.contains_key(k));
            }
        }
        assert forall|k: ClientId| #[trigger] self@.contains_key(k) implies old(self)@.insert(
            client,
            account@,
        ).contains_key(k) && self@[k] == old(self)@.insert(client, account@)[k] by {
            if k != client {
                assert(taken.contains_key(k));
                assert(without.contains_key(k));
                assert(without[k] == taken[k]@);
            }
            assert(old(self)@.insert(client, account@).contains_key(k));
        }
        assert(self@ =~= old(self)@.insert(client, account@));
        r
    }

    /// Takes the account of `client` out of the exchange, or opens a new one.
    fn get_or_create_bank_account(&mut self, client: ClientId) -> (r: Account)
        ensures
            r@ == account_or_new(old(self)@, client),
            final(self)@ == old(self)@.remove(client),
    {
        let r = match self.0.remove(&client) {
            Some(account) => account,
            None => Account::new(client),
        };
        assert(self@ =~= old(self)@.remove(client));
        r
    }

    /// The accounts, by ascending client id.
    pub fn accounts(&self) -> (r: Vec<&Account>)
        requires
            self.wf(),
        ensures
            lists_accounts(r@.map_values(|a: &Account| a@), self@),
    {
        let mut out: Vec<&Account> = Vec::new();
        let mut k: u32 = 0;
        while k <= 0xffff
            invariant
                k <= 0x10000,
                self.wf(),
                forall|i: int|
                    0 <= i < out@.len() ==> (#[trigger] out@[i]@).client < k && self@.contains_key(
                        out@[i]@.client,
                    ) && self@[out@[i]@.client] == out@[i]@,
                forall|i: int, j: int|
                    0 <= i < j < out@.len() ==> out@[i]@.client < out@[j]@.client,
                forall|c: ClientId|
                    c < k && #[trigger] self@.contains_key(c) ==> exists|i: int|
                        0 <= i < out@.len() && out@[i]@.client == c,
            decreases 0x10000 - k,
        {
            let c = k as u16;
            match self.0.get(&c) {
                Some(account) => {
                    assert(self@.contains_key(c));
                    assert(self@[c] == account@);
                    assert(account@.client == c);
                    let ghost prev = out@;
                    out.push(account);
                    assert(out@ == prev.push(account));
                    assert(forall|i: int| 0 <= i < prev.len() ==> out@[i] == prev[i]);
                    assert(out@[out@.len() - 1]@.client == c);
                },
                None => {},
            }
            k += 1;
        }
        let ghost v = out@.map_values(|a: &Account| a@);
        assert(v.len() == out@.len());
        assert(forall|i: int| 0 <= i < out@.len() ==> v[i] == out@[i]@);
        assert forall|c: ClientId| #[trigger] self@.contains_key(c) implies exists|i: int|
            0 <= i < v.len() && v[i].client == c by {
            let i = choose|i: int| 0 <= i < out@.len() && out@[i]@.client == c;
            assert(v[i].client == c);
        }
        out
    }
}

} // verus!
