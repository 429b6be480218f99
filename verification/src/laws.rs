//! The laws the replay obeys, proved against the same transition `step` that
//! `Transaction::exec` is verified to implement.

use vstd::prelude::*;
use crate::client::{
    AccountModel, ClientId, account_total, withdraw_allowed, chargeback_allowed,
};
use crate::store::{LedgerModel, account_or_fresh, create_account};
use crate::transaction::{TransactionId, TransactionKind, TransactionModel, step, stored_amounts_ok};

verus! {

/// The ledger a run starts from: no accounts, no persisted transactions.
pub open spec fn empty_ledger() -> LedgerModel {
    LedgerModel { accounts: Map::empty(), txs: Map::empty() }
}

/// A well-formed ledger: every account carries the identifier it is keyed
/// under and non-negative balances, and every persisted transaction a
/// non-negative amount.
pub open spec fn ledger_wf(l: LedgerModel) -> bool {
    &&& forall|c: ClientId|
        l.accounts.contains_key(c) ==> {
            let a = #[trigger] l.accounts[c];
            a.id == c && a.available >= 0 && a.held >= 0
        }
    &&& stored_amounts_ok(l)
}

/// Law (ledger invariant): executing any transaction with a non-negative
/// amount preserves well-formedness — in particular, held balances never go
/// negative and available balances stay non-negative.
pub proof fn lemma_step_preserves_wf(t: TransactionModel, l: LedgerModel)
    requires
        ledger_wf(l),
        t.amount >= 0,
    ensures
        ledger_wf(step(t, l).0),
{
}

/// Law (persistence discipline): only deposits and withdrawals are ever
/// persisted — if every transaction in the index is of one of those kinds,
/// the same holds after executing any transaction.
pub proof fn lemma_only_movements_persisted(l: LedgerModel, t: TransactionModel)
    requires
        forall|i: TransactionId|
            l.txs.contains_key(i) ==> ((#[trigger] l.txs[i]).kind == TransactionKind::Deposit
                || l.txs[i].kind == TransactionKind::Withdrawal),
    ensures
        forall|i: TransactionId|
            step(t, l).0.txs.contains_key(i) ==> ((#[trigger] step(t, l).0.txs[i]).kind
                == TransactionKind::Deposit || step(t, l).0.txs[i].kind
                == TransactionKind::Withdrawal),
{
}

/// Law (idempotent lookup): getting or creating the same account twice with
/// no mutation in between yields the same account both times, and the second
/// call leaves the account table unchanged.
pub proof fn lemma_get_or_create_idempotent(accounts: Map<ClientId, AccountModel>, id: ClientId)
    ensures
        account_or_fresh(create_account(accounts, id), id) == account_or_fresh(accounts, id),
        create_account(create_account(accounts, id), id) == create_account(accounts, id),
{
    assert(create_account(create_account(accounts, id), id) =~= create_account(accounts, id));
}

/// The ledger after replaying a sequence of transactions in input order.
pub open spec fn replay(ts: Seq<TransactionModel>, l: LedgerModel) -> LedgerModel
    decreases ts.len(),
{
    if ts.len() == 0 {
        l
    } else {
        replay(ts.drop_first(), step(ts.first(), l).0)
    }
}

/// The signed contribution of one transaction to client `c`'s total balance:
/// the amount of a deposit that succeeds against ledger `l`, minus the amount
/// of a withdrawal that succeeds, and zero in every other case.
pub open spec fn total_contribution(t: TransactionModel, l: LedgerModel, c: ClientId) -> int {
    let a = account_or_fresh(l.accounts, t.client_id);
    if t.client_id == c && t.kind == TransactionKind::Deposit && !a.locked {
        t.amount
    } else if t.client_id == c && t.kind == TransactionKind::Withdrawal && !a.locked
        && withdraw_allowed(a, t.amount) {
        -t.amount
    } else {
        0
    }
}

/// The sum of the successful deposits minus the successful withdrawals for
/// client `c` over a replayed sequence, success judged against the evolving
/// ledger exactly as the replay judges it.
pub open spec fn net_flow(ts: Seq<TransactionModel>, l: LedgerModel, c: ClientId) -> int
    decreases ts.len(),
{
    if ts.len() == 0 {
        0
    } else {
        total_contribution(ts.first(), l, c) + net_flow(ts.drop_first(), step(ts.first(), l).0, c)
    }
}

/// Law (balance conservation): replaying a sequence of deposits and
/// withdrawals only, a client's total balance changes by exactly the sum of
/// the successful deposits minus the sum of the successful withdrawals.
pub proof fn lemma_balance_conservation(ts: Seq<TransactionModel>, l: LedgerModel, c: ClientId)
    requires
        forall|i: int|
            0 <= i < ts.len() ==> ((#[trigger] ts[i]).kind == TransactionKind::Deposit
                || ts[i].kind == TransactionKind::Withdrawal),
    ensures
        account_total(account_or_fresh(replay(ts, l).accounts, c)) == account_total(
            account_or_fresh(l.accounts, c),
        ) + net_flow(ts, l, c),
    decreases ts.len(),
{
    if ts.len() > 0 {
        let t = ts.first();
        let l1 = step(t, l).0;
        assert(account_total(account_or_fresh(l1.accounts, c)) == account_total(
            account_or_fresh(l.accounts, c),
        ) + total_contribution(t, l, c));
        assert forall|i: int|
            0 <= i < ts.drop_first().len() implies ((#[trigger] ts.drop_first()[i]).kind
            == TransactionKind::Deposit || ts.drop_first()[i].kind
            == TransactionKind::Withdrawal) by {
            assert(ts.drop_first()[i] == ts[i + 1]);
        }
        lemma_balance_conservation(ts.drop_first(), l1, c);
    }
}

/// Balance conservation for a whole run: starting from the empty ledger, a
/// client's total balance after replaying deposits and withdrawals only is
/// exactly the net flow of the successful ones.
pub proof fn lemma_balance_conservation_from_empty(ts: Seq<TransactionModel>, c: ClientId)
    requires
        forall|i: int|
            0 <= i < ts.len() ==> ((#[trigger] ts[i]).kind == TransactionKind::Deposit
                || ts[i].kind == TransactionKind::Withdrawal),
    ensures
        account_total(account_or_fresh(replay(ts, empty_ledger()).accounts, c)) == net_flow(
            ts,
            empty_ledger(),
            c,
        ),
{
    lemma_balance_conservation(ts, empty_ledger(), c);
}

/// Law (dispute round trip): a deposit, then a dispute referencing it, then a
/// resolve referencing it restore the available and held balances to exactly
/// their values just after the deposit.
pub proof fn lemma_dispute_round_trip(
    l: LedgerModel,
    dep: TransactionModel,
    dis: TransactionModel,
    res: TransactionModel,
)
    requires
        dep.kind == TransactionKind::Deposit,
        dis.kind == TransactionKind::Dispute,
        res.kind == TransactionKind::Resolve,
        dis.client_id == dep.client_id,
        res.client_id == dep.client_id,
        dis.transaction_id == dep.transaction_id,
        res.transaction_id == dep.transaction_id,
        0 <= dep.amount,
        !account_or_fresh(l.accounts, dep.client_id).locked,
        0 <= account_or_fresh(l.accounts, dep.client_id).available,
        0 <= account_or_fresh(l.accounts, dep.client_id).held,
    ensures
        ({
            let after_dep = step(dep, l).0;
            let after_res = step(res, step(dis, after_dep).0).0;
            let before = account_or_fresh(after_dep.accounts, dep.client_id);
            let after = account_or_fresh(after_res.accounts, dep.client_id);
            after.available == before.available && after.held == before.held
        }),
{
}

/// Law (chargeback locks): a chargeback whose referenced transaction is
/// persisted and whose amount the held balance covers leaves the account
/// locked.
pub proof fn lemma_chargeback_locks(l: LedgerModel, cb: TransactionModel)
    requires
        cb.kind == TransactionKind::Chargeback,
        l.txs.contains_key(cb.transaction_id),
        chargeback_allowed(
            account_or_fresh(l.accounts, cb.client_id),
            l.txs[cb.transaction_id].amount,
        ),
    ensures
        account_or_fresh(step(cb, l).0.accounts, cb.client_id).locked,
{
}

/// Law (chargeback finality, no-op part): once an account is locked, any
/// further transaction concerning it leaves its state bit for bit unchanged,
/// persists nothing, and reports no new outcome.
pub proof fn lemma_locked_account_inert(l: LedgerModel, t: TransactionModel)
    requires
        account_or_fresh(l.accounts, t.client_id).locked,
    ensures
        account_or_fresh(step(t, l).0.accounts, t.client_id) == account_or_fresh(
            l.accounts,
            t.client_id,
        ),
        step(t, l).0.txs == l.txs,
        step(t, l).1 == t,
{
}

/// Law (chargeback finality, permanence part): once an account is locked, it
/// stays locked whatever transaction is executed next.
pub proof fn lemma_lock_monotonic(l: LedgerModel, t: TransactionModel, c: ClientId)
    requires
        account_or_fresh(l.accounts, c).locked,
    ensures
        account_or_fresh(step(t, l).0.accounts, c).locked,
{
}

/// Law (unknown reference is inert): a dispute, resolve or chargeback
/// referencing a transaction identifier never persisted changes no account's
/// state and persists nothing.
pub proof fn lemma_unknown_reference_inert(l: LedgerModel, t: TransactionModel)
    requires
        t.kind == TransactionKind::Dispute || t.kind == TransactionKind::Resolve || t.kind
            == TransactionKind::Chargeback,
        !l.txs.contains_key(t.transaction_id),
    ensures
        forall|c: ClientId| #[trigger]
            account_or_fresh(step(t, l).0.accounts, c) == account_or_fresh(l.accounts, c),
        step(t, l).0.txs == l.txs,
        step(t, l).1 == t,
{
}

/// Law (client independence): a transaction concerning one client never
/// changes another client's account state.
pub proof fn lemma_other_clients_unaffected(l: LedgerModel, t: TransactionModel, c: ClientId)
    requires
        t.client_id != c,
    ensures
        account_or_fresh(step(t, l).0.accounts, c) == account_or_fresh(l.accounts, c),
{
}

} // verus!
