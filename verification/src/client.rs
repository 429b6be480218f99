//! Client accounts: per-client balance state with operations for deposit,
//! withdrawal, dispute holds, releases, and freezing.

use vstd::prelude::*;

verus! {

/// Client account identifier.
pub type ClientId = u16;

/// A monetary quantity counted in ten-thousandths of the base currency unit:
/// the fixed-point representation, with four fractional digits, that all
/// balances and transaction amounts use.
pub type Amount = i64;

/// Mathematical state of one client account. Balances are unbounded integers,
/// still counted in ten-thousandths, so the account transitions below are
/// total functions with no overflow concerns.
pub struct AccountModel {
    pub id: ClientId,
    pub available: int,
    pub held: int,
    pub locked: bool,
}

/// The state a freshly created account starts in: zero balances, unlocked.
pub open spec fn fresh_account(id: ClientId) -> AccountModel {
    AccountModel { id, available: 0, held: 0, locked: false }
}

/// Funds of the account usable for payment plus funds frozen pending
/// dispute resolution.
pub open spec fn account_total(a: AccountModel) -> int {
    a.available + a.held
}

/// A deposit credits the available balance.
pub open spec fn account_deposit(a: AccountModel, amount: int) -> AccountModel {
    AccountModel { available: a.available + amount, ..a }
}

/// A withdrawal is allowed only when the available balance covers it.
pub open spec fn withdraw_allowed(a: AccountModel, amount: int) -> bool {
    a.available >= amount
}

/// A withdrawal debits the available balance; if the funds are insufficient
/// it leaves the account unchanged.
pub open spec fn account_withdraw(a: AccountModel, amount: int) -> AccountModel {
    if withdraw_allowed(a, amount) {
        AccountModel { available: a.available - amount, ..a }
    } else {
        a
    }
}

/// A dispute is allowed only when the available balance covers the disputed
/// amount.
pub open spec fn dispute_allowed(a: AccountModel, amount: int) -> bool {
    a.available >= amount
}

/// A dispute moves the disputed amount from available to held; if the
/// available funds are insufficient it leaves the account unchanged.
pub open spec fn account_dispute(a: AccountModel, amount: int) -> AccountModel {
    if dispute_allowed(a, amount) {
        AccountModel { available: a.available - amount, held: a.held + amount, ..a }
    } else {
        a
    }
}

/// A resolve is allowed only when the held balance covers the disputed
/// amount.
pub open spec fn resolve_allowed(a: AccountModel, amount: int) -> bool {
    a.held >= amount
}

/// A resolve reverses a dispute in the client's favor, moving the amount
/// back from held to available; if the held funds are insufficient it leaves
/// the account unchanged.
pub open spec fn account_resolve(a: AccountModel, amount: int) -> AccountModel {
    if resolve_allowed(a, amount) {
        AccountModel { available: a.available + amount, held: a.held - amount, ..a }
    } else {
        a
    }
}

/// A chargeback is allowed only when the held balance covers the disputed
/// amount.
pub open spec fn chargeback_allowed(a: AccountModel, amount: int) -> bool {
    a.held >= amount
}

/// A chargeback finalizes a dispute against the client: the held amount is
/// removed and the account is permanently locked; if the held funds are
/// insufficient it leaves the account unchanged.
pub open spec fn account_chargeback(a: AccountModel, amount: int) -> AccountModel {
    if chargeback_allowed(a, amount) {
        AccountModel { held: a.held - amount, locked: true, ..a }
    } else {
        a
    }
}

/// Per-client balance state: funds available for payment, funds held pending
/// dispute resolution, and the permanent lock flag set by a chargeback.
#[derive(Clone, Copy, Debug, PartialEq, Eq, Structural)]
pub struct Client {
    pub id: ClientId,
    pub available: Amount,
    pub held: Amount,
    pub locked: bool,
}

impl View for Client {
    type V = AccountModel;

    open spec fn view(&self) -> AccountModel {
        AccountModel {
            id: self.id,
            available: self.available as int,
            held: self.held as int,
            locked: self.locked,
        }
    }
}

impl Client {
    /// The client identifier this account belongs to.
    pub fn id(&self) -> (r: ClientId)
        ensures
            r == self@.id,
    {
        self.id
    }

    /// The balance usable for payment.
    pub fn available(&self) -> (r: Amount)
        ensures
            r == self@.available,
    {
        self.available
    }

    /// The balance frozen pending dispute resolution.
    pub fn held(&self) -> (r: Amount)
        ensures
            r == self@.held,
    {
        self.held
    }

    /// Whether the account has been permanently frozen by a chargeback.
    pub fn locked(&self) -> (r: bool)
        ensures
            r == self@.locked,
    {
        self.locked
    }

    /// The total balance, available plus held.
    pub fn total(&self) -> (r: Amount)
        requires
            i64::MIN <= self@.available + self@.held <= i64::MAX,
        ensures
            r == account_total(self@),
    {
        self.available + self.held
    }

    /// Credit `amount` to the available balance.
    pub fn deposit(&mut self, amount: Amount)
        requires
            0 <= amount,
            old(self)@.available + amount <= i64::MAX,
        ensures
            final(self)@ == account_deposit(old(self)@, amount as int),
    {
        self.available = self.available + amount;
    }

    /// Debit `amount` from the available balance; fails without mutation if
    /// the available funds are insufficient.
    pub fn withdraw(&mut self, amount: Amount) -> (ok: bool)
        requires
            0 <= amount,
        ensures
            ok == withdraw_allowed(old(self)@, amount as int),
            final(self)@ == account_withdraw(old(self)@, amount as int),
    {
        if self.available < amount {
            false
        } else {
            self.available = self.available - amount;
            true
        }
    }

    /// Move `amount` from available to held because a prior transaction is
    /// being challenged; fails without mutation if the available funds are
    /// insufficient.
    pub fn dispute(&mut self, amount: Amount) -> (ok: bool)
        requires
            0 <= amount,
            dispute_allowed(old(self)@, amount as int) ==> old(self)@.held + amount <= i64::MAX,
        ensures
            ok == dispute_allowed(old(self)@, amount as int),
            final(self)@ == account_dispute(old(self)@, amount as int),
    {
        if self.available < amount {
            false
        } else {
            self.available = self.available - amount;
            self.held = self.held + amount;
            true
        }
    }

    /// Reverse a dispute in the client's favor, moving `amount` back from
    /// held to available; fails without mutation if the held funds are
    /// insufficient.
    pub fn resolve(&mut self, amount: Amount) -> (ok: bool)
        requires
            0 <= amount,
            resolve_allowed(old(self)@, amount as int) ==> old(self)@.available + amount <= i64::MAX,
        ensures
            ok == resolve_allowed(old(self)@, amount as int),
            final(self)@ == account_resolve(old(self)@, amount as int),
    {
        if self.held < amount {
            false
        } else {
            self.held = self.held - amount;
            self.available = self.available + amount;
            true
        }
    }

    /// Finalize a dispute against the client: remove `amount` from held and
    /// permanently lock the account; fails without mutation if the held
    /// funds are insufficient.
    pub fn chargeback(&mut self, amount: Amount) -> (ok: bool)
        requires
            0 <= amount,
        ensures
            ok == chargeback_allowed(old(self)@, amount as int),
            final(self)@ == account_chargeback(old(self)@, amount as int),
    {
        if self.held < amount {
            false
        } else {
            self.locked = true;
            self.held = self.held - amount;
            true
        }
    }

    /// An account with explicitly chosen balances and lock state.
    pub fn new(id: ClientId, available: Amount, held: Amount, locked: bool) -> (c: Client)
        ensures
            c == (Client { id, available, held, locked }),
    {
        Client { id, available, held, locked }
    }

    /// A freshly created account: zero balances, unlocked.
    pub fn default(id: ClientId) -> (c: Client)
        ensures
            c@ == fresh_account(id),
            c == (Client { id, available: 0, held: 0, locked: false }),
    {
        Client { id, available: 0, held: 0, locked: false }
    }
}

} // verus!
