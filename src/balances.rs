//! Free and reserved balances of accounts, per currency.
use vstd::prelude::*;

use crate::vault::{AccountId, Balance, CurrencyId, VaultError, add_spec, checked_add, checked_sub, sub_spec, unit_of};

verus! {

/// Balances of one account in one currency.
#[derive(Clone, Copy, Debug, PartialEq, Eq, Structural)]
pub struct AccountBalance {
    pub account: AccountId,
    pub currency: CurrencyId,
    pub free: Balance,
    pub reserved: Balance,
}

/// Balances of all accounts; an account without an entry holds nothing.
pub struct Ledger {
    pub entries: Vec<AccountBalance>,
}

impl Ledger {
    pub open spec fn has(self, account: AccountId, currency: CurrencyId) -> bool {
        exists|i: int|
            0 <= i < self.entries@.len() && (#[trigger] self.entries@[i]).account == account
                && self.entries@[i].currency == currency
    }

    pub open spec fn index_of(self, account: AccountId, currency: CurrencyId) -> int {
        choose|i: int|
            0 <= i < self.entries@.len() && (#[trigger] self.entries@[i]).account == account
                && self.entries@[i].currency == currency
    }

    /// Free balance of `account` in `currency`.
    pub open spec fn free_of(self, account: AccountId, currency: CurrencyId) -> Balance {
        if self.has(account, currency) {
            self.entries@[self.index_of(account, currency)].free
        } else {
            0
        }
    }

    /// Reserved balance of `account` in `currency`.
    pub open spec fn reserved_of(self, account: AccountId, currency: CurrencyId) -> Balance {
        if self.has(account, currency) {
            self.entries@[self.index_of(account, currency)].reserved
        } else {
            0
        }
    }

    /// One entry per account and currency.
    pub open spec fn wf(self) -> bool {
        forall|i: int, k: int|
            0 <= i < self.entries@.len() && 0 <= k < self.entries@.len() && #[trigger] self.entries@[i].account
                == #[trigger] self.entries@[k].account && self.entries@[i].currency == self.entries@[k].currency
                ==> i == k
    }

    /// Only the balances of `account` in `currency` may differ between
    /// `self` and `old`.
    pub open spec fn others_unchanged(self, old: Self, account: AccountId, currency: CurrencyId) -> bool {
        &&& forall|a: AccountId, c: CurrencyId|
            !(a == account && c == currency) ==> #[trigger] self.free_of(a, c) == old.free_of(a, c)
        &&& forall|a: AccountId, c: CurrencyId|
            !(a == account && c == currency) ==> #[trigger] self.reserved_of(a, c) == old.reserved_of(a, c)
    }

    pub fn new() -> (r: Ledger)
        ensures
            r.wf(),
            forall|a: AccountId, c: CurrencyId| #[trigger] r.free_of(a, c) == 0 && r.reserved_of(a, c) == 0,
    {
        Ledger { entries: Vec::new() }
    }

    proof fn lemma_index(self, account: AccountId, currency: CurrencyId, i: int)
        requires
            self.wf(),
            0 <= i < self.entries@.len(),
            self.entries@[i].account == account,
            self.entries@[i].currency == currency,
        ensures
            self.has(account, currency),
            self.index_of(account, currency) == i,
    {
        assert(self.has(account, currency));
        let k = self.index_of(account, currency);
        assert(self.entries@[k].account == self.entries@[i].account);
    }

    fn find(&self, account: AccountId, currency: CurrencyId) -> (r: Option<usize>)
        requires
            self.wf(),
        ensures
            r is None <==> !self.has(account, currency),
            r is Some ==> r->Some_0 == self.index_of(account, currency) && r->Some_0 < self.entries@.len(),
    {
        let mut i: usize = 0;
        while i < self.entries.len()
            invariant
                self.wf(),
                0 <= i <= self.entries@.len(),
                forall|k: int|
                    0 <= k < i ==> !((#[trigger] self.entries@[k]).account == account && self.entries@[k].currency
                        == currency),
            decreases self.entries@.len() - i,
        {
            if self.entries[i].account == account && self.entries[i].currency == currency {
                proof {
                    self.lemma_index(account, currency, i as int);
                }
                return Some(i);
            }
            i = i + 1;
        }
        None
    }

    /// Free balance of `account` in `currency`.
    pub fn free_balance(&self, account: AccountId, currency: CurrencyId) -> (r: Balance)
        requires
            self.wf(),
        ensures
            r == self.free_of(account, currency),
    {
        match self.find(account, currency) {
            Some(i) => self.entries[i].free,
            None => 0,
        }
    }

    /// Reserved balance of `account` in `currency`.
    pub fn reserved_balance(&self, account: AccountId, currency: CurrencyId) -> (r: Balance)
        requires
            self.wf(),
        ensures
            r == self.reserved_of(account, currency),
    {
        match self.find(account, currency) {
            Some(i) => self.entries[i].reserved,
            None => 0,
        }
    }

    /// Sets both balances of `account` in `currency`.
    fn set_balances(&mut self, account: AccountId, currency: CurrencyId, free: Balance, reserved: Balance)
        requires
            old(self).wf(),
        ensures
            final(self).wf(),
            final(self).free_of(account, currency) == free,
            final(self).reserved_of(account, currency) == reserved,
            final(self).others_unchanged(*old(self), account, currency),
    {
        let ghost old_self = *self;
        let entry = AccountBalance { account, currency, free, reserved };
        match self.find(account, currency) {
            Some(i) => {
                self.entries[i] = entry;
                proof {
                    self.lemma_index(account, currency, i as int);
                    assert forall|a: AccountId, c: CurrencyId|
                        #![trigger self.free_of(a, c)]
                        #![trigger self.reserved_of(a, c)]
                        !(a == account && c == currency) implies self.free_of(a, c) == old_self.free_of(a, c)
                            && self.reserved_of(a, c) == old_self.reserved_of(a, c) by {
                        if old_self.has(a, c) {
                            let w = old_self.index_of(a, c);
                            self.lemma_index(a, c, w);
                        }
                        if self.has(a, c) {
                            let w = self.index_of(a, c);
                            assert(old_self.entries@[w].account == a && old_self.entries@[w].currency == c);
                        }
                    }
                }
            },
            None => {
                self.entries.push(entry);
                proof {
                    let n = old_self.entries@.len() as int;
                    assert forall|x: int, y: int|
                        0 <= x < self.entries@.len() && 0 <= y < self.entries@.len()
                            && #[trigger] self.entries@[x].account == #[trigger] self.entries@[y].account
                            && self.entries@[x].currency == self.entries@[y].currency implies x == y by {
                        if x < n && y == n {
                            assert(old_self.has(account, currency));
                        }
                        if y < n && x == n {
                            assert(old_self.has(account, currency));
                        }
                    }
                    self.lemma_index(account, currency, n);
                    assert forall|a: AccountId, c: CurrencyId|
                        #![trigger self.free_of(a, c)]
                        #![trigger self.reserved_of(a, c)]
                        !(a == account && c == currency) implies self.free_of(a, c) == old_self.free_of(a, c)
                            && self.reserved_of(a, c) == old_self.reserved_of(a, c) by {
                        if old_self.has(a, c) {
                            let w = old_self.index_of(a, c);
                            self.lemma_index(a, c, w);
                        }
                        if self.has(a, c) {
                            let w = self.index_of(a, c);
                            if w < n {
                                assert(old_self.entries@[w].account == a && old_self.entries@[w].currency == c);
                            }
                        }
                    }
                }
            },
        }
    }

    /// Creates `amount` new units in the free balance of `account`.
    pub fn mint(&mut self, account: AccountId, currency: CurrencyId, amount: Balance) -> (r: Result<(), VaultError>)
        requires
            old(self).wf(),
        ensures
            final(self).wf(),
            r == unit_of(add_spec(old(self).free_of(account, currency), amount)),
            r is Ok ==> final(self).free_of(account, currency) == old(self).free_of(account, currency) + amount,
            final(self).reserved_of(account, currency) == old(self).reserved_of(account, currency),
            r is Err ==> final(self).free_of(account, currency) == old(self).free_of(account, currency),
            final(self).others_unchanged(*old(self), account, currency),
    {
        self.increase_free(account, currency, amount)
    }

    pub fn increase_free(&mut self, account: AccountId, currency: CurrencyId, amount: Balance) -> (r: Result<
        (),
        VaultError,
    >)
        requires
            old(self).wf(),
        ensures
            final(self).wf(),
            r == unit_of(add_spec(old(self).free_of(account, currency), amount)),
            r is Ok ==> final(self).free_of(account, currency) == old(self).free_of(account, currency) + amount,
            final(self).reserved_of(account, currency) == old(self).reserved_of(account, currency),
            r is Err ==> final(self).free_of(account, currency) == old(self).free_of(account, currency),
            final(self).others_unchanged(*old(self), account, currency),
    {
        let free = checked_add(self.free_balance(account, currency), amount)?;
        let reserved = self.reserved_balance(account, currency);
        self.set_balances(account, currency, free, reserved);
        Ok(())
    }

    pub fn decrease_free(&mut self, account: AccountId, currency: CurrencyId, amount: Balance) -> (r: Result<
        (),
        VaultError,
    >)
        requires
            old(self).wf(),
        ensures
            final(self).wf(),
            r == unit_of(sub_spec(old(self).free_of(account, currency), amount, VaultError::InsufficientFunds)),
            r is Ok ==> final(self).free_of(account, currency) == old(self).free_of(account, currency) - amount,
            final(self).reserved_of(account, currency) == old(self).reserved_of(account, currency),
            r is Err ==> final(self).free_of(account, currency) == old(self).free_of(account, currency),
            final(self).others_unchanged(*old(self), account, currency),
    {
        let free = checked_sub(self.free_balance(account, currency), amount, VaultError::InsufficientFunds)?;
        let reserved = self.reserved_balance(account, currency);
        self.set_balances(account, currency, free, reserved);
        Ok(())
    }

    pub fn increase_reserved(&mut self, account: AccountId, currency: CurrencyId, amount: Balance) -> (r: Result<
        (),
        VaultError,
    >)
        requires
            old(self).wf(),
        ensures
            final(self).wf(),
            r == unit_of(add_spec(old(self).reserved_of(account, currency), amount)),
            r is Ok ==> final(self).reserved_of(account, currency) == old(self).reserved_of(account, currency)
                + amount,
            final(self).free_of(account, currency) == old(self).free_of(account, currency),
            r is Err ==> final(self).reserved_of(account, currency) == old(self).reserved_of(account, currency),
            final(self).others_unchanged(*old(self), account, currency),
    {
        let reserved = checked_add(self.reserved_balance(account, currency), amount)?;
        let free = self.free_balance(account, currency);
        self.set_balances(account, currency, free, reserved);
        Ok(())
    }

    pub fn decrease_reserved(&mut self, account: AccountId, currency: CurrencyId, amount: Balance) -> (r: Result<
        (),
        VaultError,
    >)
        requires
            old(self).wf(),
        ensures
            final(self).wf(),
            r == unit_of(sub_spec(old(self).reserved_of(account, currency), amount, VaultError::InsufficientFunds)),
            r is Ok ==> final(self).reserved_of(account, currency) == old(self).reserved_of(account, currency)
                - amount,
            final(self).free_of(account, currency) == old(self).free_of(account, currency),
            r is Err ==> final(self).reserved_of(account, currency) == old(self).reserved_of(account, currency),
            final(self).others_unchanged(*old(self), account, currency),
    {
        let reserved = checked_sub(self.reserved_balance(account, currency), amount, VaultError::InsufficientFunds)?;
        let free = self.free_balance(account, currency);
        self.set_balances(account, currency, free, reserved);
        Ok(())
    }
}

impl Ledger {
    /// Moves `amount` of the free balance of `account` into its reserved
    /// balance.
    pub fn lock(&mut self, account: AccountId, currency: CurrencyId, amount: Balance) -> (r: Result<(), VaultError>)
        requires
            old(self).wf(),
        ensures
            final(self).wf(),
            amount > old(self).free_of(account, currency) ==> r == Err::<(), VaultError>(VaultError::InsufficientFunds),
            amount <= old(self).free_of(account, currency) && old(self).reserved_of(account, currency) + amount
                > u128::MAX ==> r == Err::<(), VaultError>(VaultError::ArithmeticOverflow),
            amount <= old(self).free_of(account, currency) && old(self).reserved_of(account, currency) + amount
                <= u128::MAX ==> r is Ok,
            r is Ok ==> final(self).free_of(account, currency) == old(self).free_of(account, currency) - amount
                && final(self).reserved_of(account, currency) == old(self).reserved_of(account, currency) + amount,
            r is Err ==> final(self).free_of(account, currency) == old(self).free_of(account, currency)
                && final(self).reserved_of(account, currency) == old(self).reserved_of(account, currency),
            final(self).others_unchanged(*old(self), account, currency),
    {
        let free = checked_sub(self.free_balance(account, currency), amount, VaultError::InsufficientFunds)?;
        let reserved = checked_add(self.reserved_balance(account, currency), amount)?;
        self.set_balances(account, currency, free, reserved);
        Ok(())
    }

    /// Moves `amount` of the reserved balance of `account` back into its
    /// free balance.
    pub fn release(&mut self, account: AccountId, currency: CurrencyId, amount: Balance) -> (r: Result<(), VaultError>)
        requires
            old(self).wf(),
        ensures
            final(self).wf(),
            amount > old(self).reserved_of(account, currency) ==> r == Err::<(), VaultError>(
                VaultError::InsufficientFunds,
            ),
            amount <= old(self).reserved_of(account, currency) && old(self).free_of(account, currency) + amount
                > u128::MAX ==> r == Err::<(), VaultError>(VaultError::ArithmeticOverflow),
            amount <= old(self).reserved_of(account, currency) && old(self).free_of(account, currency) + amount
                <= u128::MAX ==> r is Ok,
            r is Ok ==> final(self).reserved_of(account, currency) == old(self).reserved_of(account, currency) - amount
                && final(self).free_of(account, currency) == old(self).free_of(account, currency) + amount,
            r is Err ==> final(self).free_of(account, currency) == old(self).free_of(account, currency)
                && final(self).reserved_of(account, currency) == old(self).reserved_of(account, currency),
            final(self).others_unchanged(*old(self), account, currency),
    {
        let reserved = checked_sub(self.reserved_balance(account, currency), amount, VaultError::InsufficientFunds)?;
        let free = checked_add(self.free_balance(account, currency), amount)?;
        self.set_balances(account, currency, free, reserved);
        Ok(())
    }
}

} // verus!
