//! The ledger store: an in-memory index of client accounts by client
//! identifier and of persisted transactions by transaction identifier.

use vstd::prelude::*;
use vstd::hash_map::HashMapWithView;
use crate::client::{Client, ClientId, AccountModel, fresh_account};
use crate::transaction::{Transaction, TransactionId, TransactionModel};

verus! {

/// Mathematical state of the whole ledger: the account of every client seen
/// so far, and every persisted deposit or withdrawal, each keyed by its
/// identifier.
#[verifier::ext_equal]
pub struct LedgerModel {
    pub accounts: Map<ClientId, AccountModel>,
    pub txs: Map<TransactionId, TransactionModel>,
}

/// The account for `id`: the stored one if the ledger knows the client,
/// otherwise the fresh account that first contact would create.
pub open spec fn account_or_fresh(accounts: Map<ClientId, AccountModel>, id: ClientId) -> AccountModel {
    if accounts.contains_key(id) {
        accounts[id]
    } else {
        fresh_account(id)
    }
}

/// The account table after `id` has been referenced once: unchanged if the
/// client was already known, extended with a fresh account otherwise.
pub open spec fn create_account(accounts: Map<ClientId, AccountModel>, id: ClientId) -> Map<ClientId, AccountModel> {
    accounts.insert(id, account_or_fresh(accounts, id))
}

/// In-memory store of client accounts and persisted transactions, owned
/// exclusively by one replay run.
pub struct Store {
    transactions: HashMapWithView<TransactionId, Transaction>,
    clients: HashMapWithView<ClientId, Client>,
    /// Client identifiers in first-reference order, one per known account,
    /// kept so that a snapshot can walk the accounts deterministically.
    client_ids: Vec<ClientId>,
}

impl View for Store {
    type V = LedgerModel;

    closed spec fn view(&self) -> LedgerModel {
        LedgerModel {
            accounts: self.clients@.map_values(|c: Client| c@),
            txs: self.transactions@.map_values(|t: Transaction| t@),
        }
    }
}

impl Store {
    /// The store's bookkeeping invariant: the id list names exactly the known
    /// clients, once each, and every stored account carries the identifier it
    /// is keyed under.
    pub closed spec fn wf(&self) -> bool {
        &&& self.client_ids@.no_duplicates()
        &&& forall|i: int|
            0 <= i < self.client_ids@.len() ==> self.clients@.contains_key(#[trigger] self.client_ids@[i])
        &&& forall|k: ClientId| self.clients@.contains_key(k) ==> self.client_ids@.contains(k)
        &&& forall|k: ClientId| self.clients@.contains_key(k) ==> (#[trigger] self.clients@[k]).id == k
    }

    /// An empty store: no accounts, no persisted transactions.
    pub fn new() -> (s: Store)
        ensures
            s.wf(),
            s@.accounts == Map::<ClientId, AccountModel>::empty(),
            s@.txs == Map::<TransactionId, TransactionModel>::empty(),
    {
        let s = Store {
            transactions: HashMapWithView::new(),
            clients: HashMapWithView::new(),
            client_ids: Vec::new(),
        };
        proof {
            assert(s@.accounts =~= Map::<ClientId, AccountModel>::empty());
            assert(s@.txs =~= Map::<TransactionId, TransactionModel>::empty());
        }
        s
    }

    /// The account for `id`, created with zero balances and unlocked state if
    /// the client was not yet known. Returns a copy of the stored account.
    pub fn get_or_create_client(&mut self, id: ClientId) -> (c: Client)
        requires
            old(self).wf(),
        ensures
            final(self).wf(),
            c@ == account_or_fresh(old(self)@.accounts, id),
            c.id == id,
            final(self)@.accounts == create_account(old(self)@.accounts, id),
            final(self)@.txs == old(self)@.txs,
    {
        if !self.clients.contains_key(&id) {
            self.clients.insert(id, Client::default(id));
            self.client_ids.push(id);
            proof {
                let ids_old = old(self).client_ids@;
                let ids = self.client_ids@;
                assert forall|i: int, j: int|
                    (0 <= i < ids.len() && 0 <= j < ids.len() && i != j) implies ids[i] != ids[j] by {
                    if i < ids_old.len() && j < ids_old.len() {
                        assert(ids[i] == ids_old[i] && ids[j] == ids_old[j]);
                    } else if i < ids_old.len() {
                        assert(old(self).clients@.contains_key(ids_old[i]));
                        assert(ids[i] == ids_old[i] && ids[j] == id);
                    } else {
                        assert(old(self).clients@.contains_key(ids_old[j]));
                        assert(ids[j] == ids_old[j] && ids[i] == id);
                    }
                }
                assert forall|k: ClientId| self.clients@.contains_key(k) implies ids.contains(k) by {
                    if k == id {
                        assert(ids[ids.len() - 1] == id);
                    } else {
                        assert(old(self).clients@.contains_key(k));
                        assert(ids_old.contains(k));
                        let j = choose|j: int| 0 <= j < ids_old.len() && ids_old[j] == k;
                        assert(ids[j] == k);
                    }
                }
                assert forall|i: int|
                    0 <= i < ids.len() implies self.clients@.contains_key(#[trigger] ids[i]) by {
                    if i < ids_old.len() {
                        assert(ids[i] == ids_old[i]);
                    }
                }
            }
        }
        let c = *self.clients.get(&id).unwrap();
        proof {
            assert(self@.accounts =~= create_account(old(self)@.accounts, id));
            assert(self@.txs =~= old(self)@.txs);
        }
        c
    }

    /// Write back the mutated account of an already known client.
    pub(crate) fn save_client(&mut self, id: ClientId, client: Client)
        requires
            old(self).wf(),
            old(self)@.accounts.contains_key(id),
            client.id == id,
        ensures
            final(self).wf(),
            final(self)@.accounts == old(self)@.accounts.insert(id, client@),
            final(self)@.txs == old(self)@.txs,
    {
        self.clients.insert(id, client);
        proof {
            assert(self@.accounts =~= old(self)@.accounts.insert(id, client@));
            assert(self@.txs =~= old(self)@.txs);
        }
    }

    /// Insert `transaction` into the transaction index under its identifier,
    /// silently overwriting any previous entry with the same identifier.
    pub fn save_transaction(&mut self, transaction: Transaction)
        requires
            old(self).wf(),
        ensures
            final(self).wf(),
            final(self)@.txs == old(self)@.txs.insert(transaction.transaction_id, transaction@),
            final(self)@.accounts == old(self)@.accounts,
    {
        self.transactions.insert(transaction.transaction_id, transaction);
        proof {
            assert(self@.txs =~= old(self)@.txs.insert(transaction.transaction_id, transaction@));
            assert(self@.accounts =~= old(self)@.accounts);
        }
    }

    /// Look up a previously persisted deposit or withdrawal by identifier.
    /// Returns a copy, or nothing if no such transaction was persisted.
    pub fn get_transaction(&self, id: TransactionId) -> (r: Option<Transaction>)
        ensures
            match r {
                Some(t) => self@.txs.contains_key(id) && t@ == self@.txs[id],
                None => !self@.txs.contains_key(id),
            },
    {
        match self.transactions.get(&id) {
            Some(t) => Some(*t),
            None => None,
        }
    }

    /// A snapshot of every known account, for reporting. Each known client
    /// appears exactly once; the order carries no meaning.
    pub fn snapshot_accounts(&self) -> (r: Vec<Client>)
        requires
            self.wf(),
        ensures
            forall|i: int|
                0 <= i < r@.len() ==> self@.accounts.contains_key((#[trigger] r@[i]).id)
                    && r@[i]@ == self@.accounts[r@[i].id],
            forall|k: ClientId|
                self@.accounts.contains_key(k) ==> exists|i: int| 0 <= i < r@.len() && (#[trigger] r@[i]).id == k,
            forall|i: int, j: int| 0 <= i < j < r@.len() ==> r@[i].id != r@[j].id,
    {
        let mut r: Vec<Client> = Vec::new();
        let n = self.client_ids.len();
        let mut idx: usize = 0;
        while idx < n
            invariant
                self.wf(),
                n == self.client_ids@.len(),
                idx <= n,
                r@.len() == idx,
                forall|i: int| 0 <= i < idx ==> (#[trigger] r@[i]).id == self.client_ids@[i],
                forall|i: int|
                    0 <= i < idx ==> self@.accounts.contains_key((#[trigger] r@[i]).id)
                        && r@[i]@ == self@.accounts[r@[i].id],
            decreases n - idx,
        {
            let id = self.client_ids[idx];
            let c = *self.clients.get(&id).unwrap();
            r.push(c);
            idx += 1;
        }
        proof {
            assert forall|k: ClientId| self@.accounts.contains_key(k) implies exists|i: int|
                0 <= i < r@.len() && (#[trigger] r@[i]).id == k by {
                assert(self.clients@.contains_key(k));
                assert(self.client_ids@.contains(k));
                let i = choose|i: int| 0 <= i < self.client_ids@.len() && self.client_ids@[i] == k;
                assert(r@[i].id == self.client_ids@[i]);
                assert(r@[i].id == k);
            }
        }
        r
    }
}

} // verus!
