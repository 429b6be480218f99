//! Transactions and the processor that replays them against the ledger.
//!
//! The effect of executing one transaction is captured by the spec-level
//! transition `step`, a total function over the mathematical ledger state;
//! `Transaction::exec` is proved to realize exactly that transition.

use vstd::prelude::*;
use crate::client::{
    Amount, ClientId, account_deposit, account_withdraw, account_dispute, account_resolve,
    account_chargeback, withdraw_allowed, dispute_allowed, resolve_allowed,
};
use crate::store::{LedgerModel, Store, account_or_fresh};

verus! {

/// The five kinds of transaction the processor understands. The dispatch in
/// `Transaction::exec` matches on this exhaustively, so adding a kind without
/// handling it fails to compile.
#[derive(Clone, Copy, Debug, PartialEq, Eq, Structural)]
pub enum TransactionKind {
    Deposit,
    Withdrawal,
    Dispute,
    Resolve,
    Chargeback,
}

/// Transaction identifier, unique per run for deposits and withdrawals and
/// used as the dispute-reference key.
pub type TransactionId = u32;

/// Mathematical image of one transaction record, with the amount as an
/// unbounded integer count of ten-thousandths.
pub struct TransactionModel {
    pub kind: TransactionKind,
    pub client_id: ClientId,
    pub transaction_id: TransactionId,
    pub amount: int,
    pub success: bool,
}

/// One transaction record: its kind, the client it concerns, its identifier,
/// its amount (meaningful for deposits and withdrawals only), and the outcome
/// flag set during execution.
#[derive(Clone, Copy, Debug, PartialEq, Eq, Structural)]
pub struct Transaction {
    pub kind: TransactionKind,
    pub client_id: ClientId,
    pub transaction_id: TransactionId,
    pub amount: Amount,
    pub success: bool,
}

impl View for Transaction {
    type V = TransactionModel;

    open spec fn view(&self) -> TransactionModel {
        TransactionModel {
            kind: self.kind,
            client_id: self.client_id,
            transaction_id: self.transaction_id,
            amount: self.amount as int,
            success: self.success,
        }
    }
}

/// Executing a deposit: the account is created if absent; a locked account
/// rejects the deposit outright; otherwise the available balance is credited
/// and the record is persisted with a successful outcome.
pub open spec fn step_deposit(t: TransactionModel, l: LedgerModel) -> (LedgerModel, TransactionModel) {
    let a = account_or_fresh(l.accounts, t.client_id);
    if a.locked {
        (LedgerModel { accounts: l.accounts.insert(t.client_id, a), ..l }, t)
    } else {
        let t2 = TransactionModel { success: true, ..t };
        (
            LedgerModel {
                accounts: l.accounts.insert(t.client_id, account_deposit(a, t.amount)),
                txs: l.txs.insert(t.transaction_id, t2),
            },
            t2,
        )
    }
}

/// Executing a withdrawal: the account is created if absent; a locked account
/// rejects the withdrawal outright; otherwise the available balance is
/// debited when it covers the amount, and the record is persisted either way,
/// its outcome flag telling whether the debit happened.
pub open spec fn step_withdrawal(t: TransactionModel, l: LedgerModel) -> (LedgerModel, TransactionModel) {
    let a = account_or_fresh(l.accounts, t.client_id);
    if a.locked {
        (LedgerModel { accounts: l.accounts.insert(t.client_id, a), ..l }, t)
    } else {
        let t2 = TransactionModel { success: withdraw_allowed(a, t.amount), ..t };
        (
            LedgerModel {
                accounts: l.accounts.insert(t.client_id, account_withdraw(a, t.amount)),
                txs: l.txs.insert(t.transaction_id, t2),
            },
            t2,
        )
    }
}

/// Executing a dispute: the account is created if absent. A locked account,
/// a reference to a transaction never persisted, or insufficient available
/// funds each leave every balance unchanged; otherwise the amount of the
/// referenced transaction moves from available to held. Nothing is persisted.
pub open spec fn step_dispute(t: TransactionModel, l: LedgerModel) -> (LedgerModel, TransactionModel) {
    let a = account_or_fresh(l.accounts, t.client_id);
    if a.locked || !l.txs.contains_key(t.transaction_id) {
        (LedgerModel { accounts: l.accounts.insert(t.client_id, a), ..l }, t)
    } else {
        let amount = l.txs[t.transaction_id].amount;
        (LedgerModel { accounts: l.accounts.insert(t.client_id, account_dispute(a, amount)), ..l }, t)
    }
}

/// Executing a resolve: like a dispute, but the referenced amount moves back
/// from held to available.
pub open spec fn step_resolve(t: TransactionModel, l: LedgerModel) -> (LedgerModel, TransactionModel) {
    let a = account_or_fresh(l.accounts, t.client_id);
    if a.locked || !l.txs.contains_key(t.transaction_id) {
        (LedgerModel { accounts: l.accounts.insert(t.client_id, a), ..l }, t)
    } else {
        let amount = l.txs[t.transaction_id].amount;
        (LedgerModel { accounts: l.accounts.insert(t.client_id, account_resolve(a, amount)), ..l }, t)
    }
}

/// Executing a chargeback: like a dispute, but the referenced amount leaves
/// the held balance and the account is permanently locked.
pub open spec fn step_chargeback(t: TransactionModel, l: LedgerModel) -> (LedgerModel, TransactionModel) {
    let a = account_or_fresh(l.accounts, t.client_id);
    if a.locked || !l.txs.contains_key(t.transaction_id) {
        (LedgerModel { accounts: l.accounts.insert(t.client_id, a), ..l }, t)
    } else {
        let amount = l.txs[t.transaction_id].amount;
        (LedgerModel { accounts: l.accounts.insert(t.client_id, account_chargeback(a, amount)), ..l }, t)
    }
}

/// The full transition of executing one transaction against the ledger:
/// the ledger afterwards, and the record with its outcome flag updated.
pub open spec fn step(t: TransactionModel, l: LedgerModel) -> (LedgerModel, TransactionModel) {
    match t.kind {
        TransactionKind::Deposit => step_deposit(t, l),
        TransactionKind::Withdrawal => step_withdrawal(t, l),
        TransactionKind::Dispute => step_dispute(t, l),
        TransactionKind::Resolve => step_resolve(t, l),
        TransactionKind::Chargeback => step_chargeback(t, l),
    }
}

/// Every persisted transaction carries a non-negative amount. Execution
/// preserves this, and relies on it when a dispute, resolve or chargeback
/// re-reads a persisted amount.
pub open spec fn stored_amounts_ok(l: LedgerModel) -> bool {
    forall|i: TransactionId| l.txs.contains_key(i) ==> (#[trigger] l.txs[i]).amount >= 0
}

/// The machine-level bound under which executing `t` stays within the range
/// of the fixed-point representation: whichever balance the transition
/// credits must not outgrow it. Subtractions need no bound, because a debit
/// is only applied when the balance covers it.
pub open spec fn step_fits(t: TransactionModel, l: LedgerModel) -> bool {
    let a = account_or_fresh(l.accounts, t.client_id);
    match t.kind {
        TransactionKind::Deposit => !a.locked ==> a.available + t.amount <= i64::MAX,
        TransactionKind::Withdrawal => true,
        TransactionKind::Dispute => {
            let known = l.txs.contains_key(t.transaction_id);
            (!a.locked && known && dispute_allowed(a, l.txs[t.transaction_id].amount))
                ==> a.held + l.txs[t.transaction_id].amount <= i64::MAX
        },
        TransactionKind::Resolve => {
            let known = l.txs.contains_key(t.transaction_id);
            (!a.locked && known && resolve_allowed(a, l.txs[t.transaction_id].amount))
                ==> a.available + l.txs[t.transaction_id].amount <= i64::MAX
        },
        TransactionKind::Chargeback => true,
    }
}

impl Transaction {
    /// The transaction identifier.
    pub fn id(&self) -> (r: TransactionId)
        ensures
            r == self@.transaction_id,
    {
        self.transaction_id
    }

    /// A transaction record with the given fields and a successful outcome
    /// flag.
    pub fn new(kind: TransactionKind, client_id: ClientId, transaction_id: TransactionId, amount: Amount) -> (t: Transaction)
        ensures
            t == (Transaction { kind, client_id, transaction_id, amount, success: true }),
    {
        Transaction { kind, client_id, transaction_id, amount, success: true }
    }

    /// Execute this transaction against the ledger: dispatch on the kind and
    /// apply exactly the transition `step` describes, updating the outcome
    /// flag in place.
    pub fn exec(&mut self, store: &mut Store)
        requires
            old(store).wf(),
            old(self)@.amount >= 0,
            stored_amounts_ok(old(store)@),
            step_fits(old(self)@, old(store)@),
        ensures
            final(store).wf(),
            final(store)@ == step(old(self)@, old(store)@).0,
            final(self)@ == step(old(self)@, old(store)@).1,
    {
        match self.kind {
            TransactionKind::Deposit => self.deposit(store),
            TransactionKind::Withdrawal => self.withdraw(store),
            TransactionKind::Dispute => self.dispute(store),
            TransactionKind::Resolve => self.resolve(store),
            TransactionKind::Chargeback => self.chargeback(store),
        }
    }

    /// Deposit: credit the client's available balance and persist the record,
    /// unless the account is locked.
    fn deposit(&mut self, store: &mut Store)
        requires
            old(store).wf(),
            old(self)@.kind == TransactionKind::Deposit,
            old(self)@.amount >= 0,
            step_fits(old(self)@, old(store)@),
        ensures
            final(store).wf(),
            final(store)@ == step_deposit(old(self)@, old(store)@).0,
            final(self)@ == step_deposit(old(self)@, old(store)@).1,
    {
        let mut client = store.get_or_create_client(self.client_id);
        if client.locked() {
            return ;
        }
        client.deposit(self.amount);
        store.save_client(self.client_id, client);
        self.success = true;
        store.save_transaction(*self);
        proof {
            assert(store@.accounts =~= step_deposit(old(self)@, old(store)@).0.accounts);
        }
    }

    /// Withdrawal: debit the client's available balance when it suffices and
    /// persist the record with its outcome, unless the account is locked.
    fn withdraw(&mut self, store: &mut Store)
        requires
            old(store).wf(),
            old(self)@.kind == TransactionKind::Withdrawal,
            old(self)@.amount >= 0,
        ensures
            final(store).wf(),
            final(store)@ == step_withdrawal(old(self)@, old(store)@).0,
            final(self)@ == step_withdrawal(old(self)@, old(store)@).1,
    {
        let mut client = store.get_or_create_client(self.client_id);
        if client.locked() {
            return ;
        }
        self.success = client.withdraw(self.amount);
        store.save_client(self.client_id, client);
        store.save_transaction(*self);
        proof {
            assert(store@.accounts =~= step_withdrawal(old(self)@, old(store)@).0.accounts);
        }
    }

    /// Dispute: move the referenced transaction's amount from available to
    /// held. A locked account, an unknown reference, or insufficient
    /// available funds leave the ledger's balances unchanged.
    fn dispute(&mut self, store: &mut Store)
        requires
            old(store).wf(),
            old(self)@.kind == TransactionKind::Dispute,
            stored_amounts_ok(old(store)@),
            step_fits(old(self)@, old(store)@),
        ensures
            final(store).wf(),
            final(store)@ == step_dispute(old(self)@, old(store)@).0,
            final(self)@ == step_dispute(old(self)@, old(store)@).1,
    {
        let disputed_transaction = store.get_transaction(self.id());
        let mut client = store.get_or_create_client(self.client_id);
        if client.locked() {
            return ;
        }
        match disputed_transaction {
            None => {},
            Some(transaction) => {
                let _ = client.dispute(transaction.amount);
                store.save_client(self.client_id, client);
                proof {
                    assert(store@.accounts =~= step_dispute(old(self)@, old(store)@).0.accounts);
                }
            },
        }
    }

    /// Resolve: move the referenced transaction's amount back from held to
    /// available. A locked account, an unknown reference, or insufficient
    /// held funds leave the ledger's balances unchanged.
    fn resolve(&mut self, store: &mut Store)
        requires
            old(store).wf(),
            old(self)@.kind == TransactionKind::Resolve,
            stored_amounts_ok(old(store)@),
            step_fits(old(self)@, old(store)@),
        ensures
            final(store).wf(),
            final(store)@ == step_resolve(old(self)@, old(store)@).0,
            final(self)@ == step_resolve(old(self)@, old(store)@).1,
    {
        let disputed_transaction = store.get_transaction(self.id());
        let mut client = store.get_or_create_client(self.client_id);
        if client.locked() {
            return ;
        }
        match disputed_transaction {
            None => {},
            Some(transaction) => {
                let _ = client.resolve(transaction.amount);
                store.save_client(self.client_id, client);
                proof {
                    assert(store@.accounts =~= step_resolve(old(self)@, old(store)@).0.accounts);
                }
            },
        }
    }

    /// Chargeback: remove the referenced transaction's amount from held and
    /// permanently lock the account. A locked account, an unknown reference,
    /// or insufficient held funds leave the ledger's balances unchanged.
    fn chargeback(&mut self, store: &mut Store)
        requires
            old(store).wf(),
            old(self)@.kind == TransactionKind::Chargeback,
            stored_amounts_ok(old(store)@),
        ensures
            final(store).wf(),
            final(store)@ == step_chargeback(old(self)@, old(store)@).0,
            final(self)@ == step_chargeback(old(self)@, old(store)@).1,
    {
        let disputed_transaction = store.get_transaction(self.id());
        let mut client = store.get_or_create_client(self.client_id);
        if client.locked() {
            return ;
        }
        match disputed_transaction {
            None => {},
            Some(transaction) => {
                let _ = client.chargeback(transaction.amount);
                store.save_client(self.client_id, client);
                proof {
                    assert(store@.accounts =~= step_chargeback(old(self)@, old(store)@).0.accounts);
                }
            },
        }
    }
}

} // verus!
