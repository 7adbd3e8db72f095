use vstd::prelude::*;

use crate::account::{step, Account, AccountView};
use crate::transaction::Transaction;
use std::collections::HashMap;

verus! {

broadcast use vstd::std_specs::hash::group_hash_axioms;

/// The ledger as a mathematical value: each client's account, and the client that
/// owns each transaction id seen so far.
pub struct BankView {
    pub accounts: Map<u16, AccountView>,
    pub owners: Map<u32, u16>,
}

/// A fresh account of `client_id`.
pub open spec fn empty_account(client_id: u16) -> AccountView {
    AccountView {
        client_id,
        available: 0,
        held: 0,
        total: 0,
        locked: false,
        transactions: Map::empty(),
    }
}

/// The owner map after `tx` is seen: its id goes to its client unless already owned.
pub open spec fn owners_after(owners: Map<u32, u16>, tx: Transaction) -> Map<u32, u16> {
    if owners.contains_key(tx.id) {
        owners
    } else {
        owners.insert(tx.id, tx.client_id)
    }
}

/// The ledger after `tx` is submitted. A record whose id another client owns is
/// dropped; any other goes to its client's account (made on first sight), which
/// takes the stepped state or, on rejection, stays as it was.
pub open spec fn submit(b: BankView, tx: Transaction) -> BankView {
    let owners = owners_after(b.owners, tx);
    if owners[tx.id] != tx.client_id {
        BankView { owners, ..b }
    } else {
        let before = if b.accounts.contains_key(tx.client_id) {
            b.accounts[tx.client_id]
        } else {
            empty_account(tx.client_id)
        };
        let after = match step(before, tx) {
            Ok(v) => v,
            Err(_) => before,
        };
        BankView { owners, accounts: b.accounts.insert(tx.client_id, after) }
    }
}

/// All accounts, by client id, and the owner of every transaction id seen.
#[derive(Debug)]
pub struct Bank {
    accounts: HashMap<u16, Account>,
    transactions: HashMap<u32, u16>,
}

impl View for Bank {
    type V = BankView;

    closed spec fn view(&self) -> BankView {
        BankView {
            accounts: Map::new(
                |k: u16| self.accounts@.contains_key(k),
                |k: u16| self.accounts@[k]@,
            ),
            owners: self.transactions@,
        }
    }
}

impl Bank {
    /// Each account is well formed and filed under its own client id.
    pub closed spec fn wf(&self) -> bool {
        forall|k: u16| #[trigger]
            self.accounts@.contains_key(k) ==> {
                &&& self.accounts@[k].wf()
                &&& self.accounts@[k]@.client_id == k
            }
    }

    pub fn new() -> (r: Self)
        ensures
            r.wf(),
            r@.accounts == Map::<u16, AccountView>::empty(),
            r@.owners == Map::<u32, u16>::empty(),
    {
        let r = Bank { accounts: HashMap::new(), transactions: HashMap::new() };
        assert(r@.accounts =~= Map::<u16, AccountView>::empty());
        r
    }

    /// All accounts, by client id.
    pub fn accounts(&self) -> (r: &HashMap<u16, Account>)
        ensures
            forall|k: u16| #[trigger]
                r@.contains_key(k) <==> self@.accounts.contains_key(k),
            forall|k: u16| #[trigger] r@.contains_key(k) ==> r@[k]@ == self@.accounts[k],
    {
        &self.accounts
    }

    /// The owner of the record's id, made the record's client if the id is new.
    fn get_or_insert_client_id(&mut self, transaction: &Transaction) -> (r: u16)
        ensures
            final(self)@.owners == owners_after(old(self)@.owners, *transaction),
            r == final(self)@.owners[transaction.id],
            final(self).accounts == old(self).accounts,
    {
        match self.transactions.get(&transaction.id) {
            Some(c) => *c,
            None => {
                self.transactions.insert(transaction.id, transaction.client_id);
                transaction.client_id
            },
        }
    }

    /// Whether another client owns the record's id; the id is claimed if new.
    fn duplicate_transaction_id(&mut self, transaction: &Transaction) -> (r: bool)
        ensures
            final(self)@.owners == owners_after(old(self)@.owners, *transaction),
            r == (final(self)@.owners[transaction.id] != transaction.client_id),
            final(self).accounts == old(self).accounts,
    {
        self.get_or_insert_client_id(transaction) != transaction.client_id
    }

    /// Routes one record to its client's account; rejected and dropped records
    /// leave the accounts as they were.
    pub fn transact(&mut self, transaction: Transaction)
        requires
            old(self).wf(),
        ensures
            final(self).wf(),
            final(self)@ == submit(old(self)@, transaction),
            forall|k: u16| #[trigger]
                final(self)@.accounts.contains_key(k) ==> final(self)@.accounts[k].balanced(),
    {
        if self.duplicate_transaction_id(&transaction) {
            assert(self@.accounts =~= old(self)@.accounts);
            return;
        }
        let client_id = transaction.client_id;
        let mut account = match self.accounts.remove(&client_id) {
            Some(a) => a,
            None => Account::new(client_id),
        };
        let _ = account.transact(transaction);
        self.accounts.insert(client_id, account);
        assert(self@.accounts =~= submit(old(self)@, transaction).accounts);
    }
}

/// A record whose transaction id another client already owns is dropped: the
/// ledger stays exactly as it was.
pub proof fn lemma_foreign_id_dropped(b: BankView, tx: Transaction)
    requires
        b.owners.contains_key(tx.id),
        b.owners[tx.id] != tx.client_id,
    ensures
        submit(b, tx) == b,
{
}

} // verus!
