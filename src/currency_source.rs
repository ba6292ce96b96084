//! Currency sources: the roles that hold collateral (a vault's collateral,
//! a user's griefing collateral, a free balance, a liquidated vault's
//! set-aside collateral, a system vault), what each holds, and transfers
//! between them.
use vstd::prelude::*;

use crate::balances::Ledger;
use crate::registry::{VaultEntry, VaultRegistry};
use crate::vault::{
    AccountId, Balance, CurrencyId, SystemVault, Vault, VaultCurrencyPair, VaultError, VaultId, checked_add,
};

verus! {

/// A role that holds collateral.
#[derive(Clone, Copy, Debug, PartialEq, Eq, Structural)]
pub enum CurrencySource {
    /// Backing collateral of a vault, nominated collateral included.
    Collateral(VaultId),
    /// Griefing collateral reserved by a user.
    UserGriefing(AccountId),
    /// Free balance of an account.
    FreeBalance(AccountId),
    /// Collateral set aside by a liquidated vault for its pending redeems.
    LiquidatedCollateral(VaultId),
    /// Collateral of the system vault of a currency pair.
    LiquidationVault(VaultCurrencyPair),
}

/// Account that nominally owns `source`.
pub open spec fn account_spec(source: CurrencySource, registry: VaultRegistry) -> AccountId {
    match source {
        CurrencySource::Collateral(v) => v.account_id,
        CurrencySource::UserGriefing(a) => a,
        CurrencySource::FreeBalance(a) => a,
        CurrencySource::LiquidatedCollateral(v) => v.account_id,
        CurrencySource::LiquidationVault(_) => registry.liquidation_vault_account_id,
    }
}

/// Whether `source` exists and holds `currency`: vault roles need a
/// registered vault, the system vault a configured pair, and both the pair's
/// collateral currency.
pub open spec fn role_check(source: CurrencySource, registry: VaultRegistry, currency: CurrencyId) -> Result<
    (),
    VaultError,
> {
    match source {
        CurrencySource::Collateral(v) => if !registry.has_vault(v) {
            Err(VaultError::VaultNotFound)
        } else if v.currencies.collateral != currency {
            Err(VaultError::InvalidCurrency)
        } else {
            Ok(())
        },
        CurrencySource::LiquidatedCollateral(v) => if !registry.has_vault(v) {
            Err(VaultError::VaultNotFound)
        } else if v.currencies.collateral != currency {
            Err(VaultError::InvalidCurrency)
        } else {
            Ok(())
        },
        CurrencySource::LiquidationVault(p) => if !registry.has_pair(p) {
            Err(VaultError::ThresholdNotSet)
        } else if p.collateral != currency {
            Err(VaultError::InvalidCurrency)
        } else {
            Ok(())
        },
        _ => Ok(()),
    }
}

/// What `source` holds in `currency`.
pub open spec fn role_balance(source: CurrencySource, registry: VaultRegistry, ledger: Ledger, currency: CurrencyId) -> int {
    match source {
        CurrencySource::Collateral(v) => registry.pool_of(v).total_spec(),
        CurrencySource::UserGriefing(a) => ledger.reserved_of(a, currency) as int,
        CurrencySource::FreeBalance(a) => ledger.free_of(a, currency) as int,
        CurrencySource::LiquidatedCollateral(v) => registry.vault_of(v).liquidated_collateral as int,
        CurrencySource::LiquidationVault(p) => registry.system_of(p).collateral as int,
    }
}

/// What can be taken out of `source`: for a vault's collateral, only the
/// owner's own part.
pub open spec fn debitable(source: CurrencySource, registry: VaultRegistry, ledger: Ledger, currency: CurrencyId) -> int {
    match source {
        CurrencySource::Collateral(v) => registry.pool_of(v).vault_collateral as int,
        _ => role_balance(source, registry, ledger, currency),
    }
}

/// Every role but `source` keeps its existence and its balance.
pub open spec fn roles_unchanged_but(
    source: CurrencySource,
    currency: CurrencyId,
    registry: VaultRegistry,
    ledger: Ledger,
    old_registry: VaultRegistry,
    old_ledger: Ledger,
) -> bool {
    forall|other: CurrencySource|
        other != source && role_check(other, old_registry, currency) is Ok ==> role_check(other, registry, currency)
            is Ok && #[trigger] role_balance(other, registry, ledger, currency) == role_balance(
            other,
            old_registry,
            old_ledger,
            currency,
        )
}

/// Whether `source` is a role of vault `v`.
pub open spec fn touches_vault(source: CurrencySource, v: VaultId) -> bool {
    source == CurrencySource::Collateral(v) || source == CurrencySource::LiquidatedCollateral(v)
}

/// Whether `source` is a balance of account `a` in `c`, given that it holds
/// `currency`.
pub open spec fn touches_account(source: CurrencySource, a: AccountId, c: CurrencyId, currency: CurrencyId) -> bool {
    c == currency && (source == CurrencySource::FreeBalance(a) || source == CurrencySource::UserGriefing(a))
}

/// Every vault entry, system vault and ledger balance that `source` is not
/// is the same in the new state as in the old one.
pub open spec fn untouched_but(
    source: CurrencySource,
    currency: CurrencyId,
    registry: VaultRegistry,
    ledger: Ledger,
    old_registry: VaultRegistry,
    old_ledger: Ledger,
) -> bool {
    &&& forall|v: VaultId|
        old_registry.has_vault(v) && !touches_vault(source, v) ==> #[trigger] registry.entry_of(v)
            == old_registry.entry_of(v)
    &&& forall|p: VaultCurrencyPair|
        old_registry.has_pair(p) && source != CurrencySource::LiquidationVault(p) ==> #[trigger] registry.system_of(
            p,
        ) == old_registry.system_of(p)
    &&& forall|a: AccountId, c: CurrencyId|
        !touches_account(source, a, c, currency) ==> #[trigger] ledger.free_of(a, c) == old_ledger.free_of(a, c)
    &&& forall|a: AccountId, c: CurrencyId|
        !touches_account(source, a, c, currency) ==> #[trigger] ledger.reserved_of(a, c) == old_ledger.reserved_of(
            a,
            c,
        )
}

/// Every vault entry, system vault and ledger balance that neither `from`
/// nor `to` is stays the same.
pub open spec fn untouched_but2(
    from: CurrencySource,
    to: CurrencySource,
    currency: CurrencyId,
    registry: VaultRegistry,
    ledger: Ledger,
    old_registry: VaultRegistry,
    old_ledger: Ledger,
) -> bool {
    &&& forall|v: VaultId|
        old_registry.has_vault(v) && !touches_vault(from, v) && !touches_vault(to, v) ==> #[trigger] registry.entry_of(
            v,
        ) == old_registry.entry_of(v)
    &&& forall|p: VaultCurrencyPair|
        old_registry.has_pair(p) && from != CurrencySource::LiquidationVault(p) && to
            != CurrencySource::LiquidationVault(p) ==> #[trigger] registry.system_of(p) == old_registry.system_of(p)
    &&& forall|a: AccountId, c: CurrencyId|
        !touches_account(from, a, c, currency) && !touches_account(to, a, c, currency) ==> #[trigger] ledger.free_of(
            a,
            c,
        ) == old_ledger.free_of(a, c)
    &&& forall|a: AccountId, c: CurrencyId|
        !touches_account(from, a, c, currency) && !touches_account(to, a, c, currency)
            ==> #[trigger] ledger.reserved_of(a, c) == old_ledger.reserved_of(a, c)
}

/// `registry` differs from `old` at most in collateral: the same vaults and
/// pairs, the same configurations, and the same token counters, status and
/// ban of every vault and system vault.
pub open spec fn counters_unchanged(registry: VaultRegistry, old: VaultRegistry) -> bool {
    &&& registry.vaults@.len() == old.vaults@.len()
    &&& forall|i: int|
        0 <= i < old.vaults@.len() ==> #[trigger] registry.vaults@[i].vault.id == old.vaults@[i].vault.id
    &&& forall|v: VaultId| #[trigger] registry.has_vault(v) == old.has_vault(v)
    &&& forall|p: VaultCurrencyPair| #[trigger] registry.has_pair(p) == old.has_pair(p)
    &&& forall|v: VaultId|
        old.has_vault(v) ==> #[trigger] registry.vault_of(v) == (Vault {
            liquidated_collateral: registry.vault_of(v).liquidated_collateral,
            ..old.vault_of(v)
        })
    &&& forall|p: VaultCurrencyPair|
        old.has_pair(p) ==> #[trigger] registry.system_of(p) == (SystemVault {
            collateral: registry.system_of(p).collateral,
            ..old.system_of(p)
        })
    &&& forall|p: VaultCurrencyPair| old.has_pair(p) ==> #[trigger] registry.config_of(p) == old.config_of(p)
    &&& registry.active_block_number == old.active_block_number
    &&& registry.punishment_delay == old.punishment_delay
    &&& registry.liquidation_vault_account_id == old.liquidation_vault_account_id
}

impl CurrencySource {
    /// Account that nominally owns this source; a system vault belongs to
    /// the protocol's liquidation account.
    pub fn account_id(&self, registry: &VaultRegistry) -> (r: AccountId)
        ensures
            r == account_spec(*self, *registry),
    {
        match self {
            CurrencySource::Collateral(v) => v.account_id,
            CurrencySource::UserGriefing(a) => *a,
            CurrencySource::FreeBalance(a) => *a,
            CurrencySource::LiquidatedCollateral(v) => v.account_id,
            CurrencySource::LiquidationVault(_) => registry.liquidation_vault_account_id,
        }
    }

    /// What this source holds in `currency`; an unconfigured pair's system
    /// vault holds nothing.
    pub fn current_balance(&self, registry: &VaultRegistry, ledger: &Ledger, currency: CurrencyId) -> (r: Result<
        Balance,
        VaultError,
    >)
        requires
            registry.wf(),
            ledger.wf(),
        ensures
            match *self {
                CurrencySource::Collateral(v) => if registry.has_vault(v) {
                    r == Ok::<Balance, VaultError>(registry.pool_of(v).total_spec() as Balance)
                } else {
                    r == Err::<Balance, VaultError>(VaultError::VaultNotFound)
                },
                CurrencySource::LiquidatedCollateral(v) => if registry.has_vault(v) {
                    r == Ok::<Balance, VaultError>(registry.vault_of(v).liquidated_collateral)
                } else {
                    r == Err::<Balance, VaultError>(VaultError::VaultNotFound)
                },
                CurrencySource::LiquidationVault(p) => if registry.has_pair(p) {
                    r == Ok::<Balance, VaultError>(registry.system_of(p).collateral)
                } else {
                    r == Ok::<Balance, VaultError>(0)
                },
                CurrencySource::UserGriefing(a) => r == Ok::<Balance, VaultError>(ledger.reserved_of(a, currency)),
                CurrencySource::FreeBalance(a) => r == Ok::<Balance, VaultError>(ledger.free_of(a, currency)),
            },
    {
        match self {
            CurrencySource::Collateral(v) => {
                let pool = registry.get_collateral_pool(v)?;
                proof {
                    registry.lemma_pool_wf(*v);
                }
                Ok(pool.get_total_collateral())
            },
            CurrencySource::UserGriefing(a) => Ok(ledger.reserved_balance(*a, currency)),
            CurrencySource::FreeBalance(a) => Ok(ledger.free_balance(*a, currency)),
            CurrencySource::LiquidatedCollateral(v) => {
                let vault = registry.get_vault_from_id(v)?;
                Ok(vault.liquidated_collateral)
            },
            CurrencySource::LiquidationVault(p) => match registry.get_liquidation_vault(p) {
                Ok(system) => Ok(system.collateral),
                Err(_) => Ok(0),
            },
        }
    }
}

impl VaultRegistry {
    /// Takes `amount` out of `source`.
    fn decrease_role(&mut self, ledger: &mut Ledger, source: CurrencySource, currency: CurrencyId, amount: Balance)
        requires
            old(self).wf(),
            old(ledger).wf(),
            role_check(source, *old(self), currency) is Ok,
            amount <= debitable(source, *old(self), *old(ledger), currency),
        ensures
            final(self).wf(),
            final(ledger).wf(),
            role_check(source, *final(self), currency) is Ok,
            role_balance(source, *final(self), *final(ledger), currency) == role_balance(
                source,
                *old(self),
                *old(ledger),
                currency,
            ) - amount,
            roles_unchanged_but(source, currency, *final(self), *final(ledger), *old(self), *old(ledger)),
            counters_unchanged(*final(self), *old(self)),
            untouched_but(source, currency, *final(self), *final(ledger), *old(self), *old(ledger)),
    {
        let ghost old_self = *self;
        match source {
            CurrencySource::Collateral(v) => {
                let (i, j) = match self.locate(&v) {
                    Ok(x) => x,
                    Err(_) => return ,
                };
                let mut entry = self.vaults[i];
                let system = self.pairs[j].liquidation_vault;
                let done = entry.pool.withdraw_vault_stake(amount);
                assert(done is Ok);
                self.commit(v, i, j, entry, system);
                proof {
                    VaultRegistry::lemma_update_frame(*self, old_self, v, entry, system);
                }
            },
            CurrencySource::LiquidatedCollateral(v) => {
                let (i, j) = match self.locate(&v) {
                    Ok(x) => x,
                    Err(_) => return ,
                };
                let mut entry = self.vaults[i];
                let system = self.pairs[j].liquidation_vault;
                let done = entry.vault.decrease_liquidated_collateral(amount);
                assert(done is Ok);
                self.commit(v, i, j, entry, system);
                proof {
                    VaultRegistry::lemma_update_frame(*self, old_self, v, entry, system);
                }
            },
            CurrencySource::LiquidationVault(p) => {
                let j = match self.find_pair(&p) {
                    Some(j) => j,
                    None => return ,
                };
                let mut system = self.pairs[j].liquidation_vault;
                let done = system.decrease_collateral(amount);
                assert(done is Ok);
                self.commit_system(p, j, system);
            },
            CurrencySource::UserGriefing(a) => {
                let done = ledger.decrease_reserved(a, currency, amount);
                assert(done is Ok);
            },
            CurrencySource::FreeBalance(a) => {
                let done = ledger.decrease_free(a, currency, amount);
                assert(done is Ok);
            },
        }
    }

    /// Adds `amount` to `source`.
    fn increase_role(&mut self, ledger: &mut Ledger, source: CurrencySource, currency: CurrencyId, amount: Balance)
        requires
            old(self).wf(),
            old(ledger).wf(),
            role_check(source, *old(self), currency) is Ok,
            role_balance(source, *old(self), *old(ledger), currency) + amount <= u128::MAX,
        ensures
            final(self).wf(),
            final(ledger).wf(),
            role_check(source, *final(self), currency) is Ok,
            role_balance(source, *final(self), *final(ledger), currency) == role_balance(
                source,
                *old(self),
                *old(ledger),
                currency,
            ) + amount,
            roles_unchanged_but(source, currency, *final(self), *final(ledger), *old(self), *old(ledger)),
            counters_unchanged(*final(self), *old(self)),
            untouched_but(source, currency, *final(self), *final(ledger), *old(self), *old(ledger)),
    {
        let ghost old_self = *self;
        match source {
            CurrencySource::Collateral(v) => {
                let (i, j) = match self.locate(&v) {
                    Ok(x) => x,
                    Err(_) => return ,
                };
                let mut entry = self.vaults[i];
                let system = self.pairs[j].liquidation_vault;
                let done = entry.pool.deposit_vault_stake(amount);
                assert(done is Ok);
                self.commit(v, i, j, entry, system);
                proof {
                    VaultRegistry::lemma_update_frame(*self, old_self, v, entry, system);
                }
            },
            CurrencySource::LiquidatedCollateral(v) => {
                let (i, j) = match self.locate(&v) {
                    Ok(x) => x,
                    Err(_) => return ,
                };
                let mut entry = self.vaults[i];
                let system = self.pairs[j].liquidation_vault;
                let done = entry.vault.increase_liquidated_collateral(amount);
                assert(done is Ok);
                self.commit(v, i, j, entry, system);
                proof {
                    VaultRegistry::lemma_update_frame(*self, old_self, v, entry, system);
                }
            },
            CurrencySource::LiquidationVault(p) => {
                let j = match self.find_pair(&p) {
                    Some(j) => j,
                    None => return ,
                };
                let mut system = self.pairs[j].liquidation_vault;
                let done = system.increase_collateral(amount);
                assert(done is Ok);
                self.commit_system(p, j, system);
            },
            CurrencySource::UserGriefing(a) => {
                let done = ledger.increase_reserved(a, currency, amount);
                assert(done is Ok);
            },
            CurrencySource::FreeBalance(a) => {
                let done = ledger.increase_free(a, currency, amount);
                assert(done is Ok);
            },
        }
    }
}

impl VaultRegistry {
    /// Checks that `source` exists and holds `currency`.
    fn check_role(&self, source: CurrencySource, currency: CurrencyId) -> (r: Result<(), VaultError>)
        requires
            self.wf(),
        ensures
            r == role_check(source, *self, currency),
    {
        match source {
            CurrencySource::Collateral(v) => {
                if self.find_vault(&v).is_none() {
                    return Err(VaultError::VaultNotFound);
                }
                if v.currencies.collateral != currency {
                    return Err(VaultError::InvalidCurrency);
                }
                Ok(())
            },
            CurrencySource::LiquidatedCollateral(v) => {
                if self.find_vault(&v).is_none() {
                    return Err(VaultError::VaultNotFound);
                }
                if v.currencies.collateral != currency {
                    return Err(VaultError::InvalidCurrency);
                }
                Ok(())
            },
            CurrencySource::LiquidationVault(p) => {
                if self.find_pair(&p).is_none() {
                    return Err(VaultError::ThresholdNotSet);
                }
                if p.collateral != currency {
                    return Err(VaultError::InvalidCurrency);
                }
                Ok(())
            },
            _ => Ok(()),
        }
    }

    /// Moves `amount` of `currency` from `from` to `to`. Fails, changing
    /// nothing, where a role is unknown or holds another currency, where
    /// `from` cannot give `amount` (a vault gives only its owner's
    /// collateral), or where `to` would overflow. Every other role keeps its
    /// balance; a transfer from a role to itself changes nothing.
    pub fn transfer_funds(
        &mut self,
        ledger: &mut Ledger,
        from: CurrencySource,
        to: CurrencySource,
        currency: CurrencyId,
        amount: Balance,
    ) -> (r: Result<(), VaultError>)
        requires
            old(self).wf(),
            old(ledger).wf(),
        ensures
            final(self).wf(),
            final(ledger).wf(),
            role_check(from, *old(self), currency) is Err ==> r == role_check(from, *old(self), currency),
            role_check(from, *old(self), currency) is Ok && role_check(to, *old(self), currency) is Err ==> r
                == role_check(to, *old(self), currency),
            role_check(from, *old(self), currency) is Ok && role_check(to, *old(self), currency) is Ok ==> r == (
            if amount > debitable(from, *old(self), *old(ledger), currency) {
                Err::<(), VaultError>(VaultError::InsufficientFunds)
            } else if from != to && role_balance(to, *old(self), *old(ledger), currency) + amount > u128::MAX {
                Err::<(), VaultError>(VaultError::ArithmeticOverflow)
            } else {
                Ok::<(), VaultError>(())
            }),
            r is Err ==> final(self).same_as(*old(self)) && final(ledger).entries@ == old(ledger).entries@,
            counters_unchanged(*final(self), *old(self)),
            r is Ok ==> untouched_but2(from, to, currency, *final(self), *final(ledger), *old(self), *old(ledger)),
            r is Ok && from == to ==> final(self).same_as(*old(self)) && final(ledger).entries@ == old(
                ledger,
            ).entries@,
            r is Ok && from != to ==> {
                &&& role_balance(from, *final(self), *final(ledger), currency) == role_balance(
                    from,
                    *old(self),
                    *old(ledger),
                    currency,
                ) - amount
                &&& role_balance(to, *final(self), *final(ledger), currency) == role_balance(
                    to,
                    *old(self),
                    *old(ledger),
                    currency,
                ) + amount
                &&& forall|other: CurrencySource|
                    other != from && other != to && role_check(other, *old(self), currency) is Ok
                        ==> #[trigger] role_balance(other, *final(self), *final(ledger), currency) == role_balance(
                        other,
                        *old(self),
                        *old(ledger),
                        currency,
                    )
            },
    {
        self.check_role(from, currency)?;
        self.check_role(to, currency)?;
        let available = match from {
            CurrencySource::Collateral(v) => match self.get_collateral_pool(&v) {
                Ok(pool) => pool.vault_collateral,
                Err(e) => return Err(e),
            },
            _ => from.current_balance(self, ledger, currency)?,
        };
        if amount > available {
            return Err(VaultError::InsufficientFunds);
        }
        if from == to {
            return Ok(());
        }
        let held = to.current_balance(self, ledger, currency)?;
        if checked_add(held, amount).is_err() {
            return Err(VaultError::ArithmeticOverflow);
        }
        let ghost (registry0, ledger0) = (*self, *ledger);
        self.decrease_role(ledger, from, currency, amount);
        assert(role_balance(to, *self, *ledger, currency) == role_balance(to, registry0, ledger0, currency));
        let ghost (registry1, ledger1) = (*self, *ledger);
        self.increase_role(ledger, to, currency, amount);
        assert(role_balance(from, *self, *ledger, currency) == role_balance(from, registry1, ledger1, currency));
        assert forall|other: CurrencySource|
            other != from && other != to && role_check(other, registry0, currency) is Ok implies #[trigger] role_balance(
                other,
                *self,
                *ledger,
                currency,
            ) == role_balance(other, registry0, ledger0, currency) by {
            assert(role_balance(other, registry1, ledger1, currency) == role_balance(other, registry0, ledger0, currency));
        }
        Ok(())
    }
}

proof fn lemma_same_entry_tokens(
    new: Seq<crate::registry::VaultEntry>,
    old: Seq<crate::registry::VaultEntry>,
    pair: VaultCurrencyPair,
)
    requires
        new.len() == old.len(),
        forall|i: int|
            0 <= i < old.len() ==> crate::registry::entry_tokens(#[trigger] new[i], pair)
                == crate::registry::entry_tokens(old[i], pair),
    ensures
        crate::registry::sum_entry_tokens(new, pair) == crate::registry::sum_entry_tokens(old, pair),
    decreases old.len(),
{
    if old.len() > 0 {
        lemma_same_entry_tokens(new.drop_last(), old.drop_last(), pair);
    }
}

/// Conservation: a transfer of collateral between roles changes no pair's
/// total of issued and to-be-issued tokens.
pub proof fn transfer_conserves_pair_tokens(new: VaultRegistry, old: VaultRegistry, pair: VaultCurrencyPair)
    requires
        old.wf(),
        new.wf(),
        old.has_pair(pair),
        counters_unchanged(new, old),
    ensures
        new.pair_token_total(pair) == old.pair_token_total(pair),
{
    assert forall|i: int| 0 <= i < old.vaults@.len() implies crate::registry::entry_tokens(
        #[trigger] new.vaults@[i],
        pair,
    ) == crate::registry::entry_tokens(old.vaults@[i], pair) by {
        let v = old.vaults@[i].vault.id;
        old.lemma_index_of_vault(v, i);
        new.lemma_index_of_vault(v, i);
        assert(new.vault_of(v) == (Vault {
            liquidated_collateral: new.vault_of(v).liquidated_collateral,
            ..old.vault_of(v)
        }));
    }
    lemma_same_entry_tokens(new.vaults@, old.vaults@, pair);
}

} // verus!
