//! The registry of all vaults, with the configuration and the system vault of
//! each currency pair, and the operations that the issue, redeem, replace
//! and nomination flows call.
use vstd::prelude::*;

use crate::balances::Ledger;
use crate::liquidation::{liquidate, liquidation_spec};
use crate::staking::CollateralPool;
use crate::threshold::{ExchangeRate, below_threshold_spec, is_below_threshold, max_tokens_fits};
use crate::vault::{
    AccountId, Balance, BlockNumber, SystemVault, UnsignedFixedPoint, Vault, VaultCurrencyPair, VaultError,
    VaultId, VaultStatus, add_spec, banned_at, checked_add, issuable_spec, sub_spec, unit_of,
};

verus! {

/// Parameters of one currency pair.
#[derive(Clone, Copy, Debug, PartialEq, Eq, Structural)]
pub struct PairConfig {
    pub currencies: VaultCurrencyPair,
    /// Least collateral that registering a vault locks.
    pub minimum_collateral: Balance,
    pub secure_threshold: UnsignedFixedPoint,
    pub premium_redeem_threshold: UnsignedFixedPoint,
    pub liquidation_threshold: UnsignedFixedPoint,
    /// Oracle rate between the pair's collateral and wrapped currencies.
    pub exchange_rate: ExchangeRate,
}

impl PairConfig {
    /// Thresholds ordered `0 < liquidation < premium < secure`, and a rate
    /// with both sides positive.
    pub open spec fn wf(self) -> bool {
        &&& 0 < self.liquidation_threshold
        &&& self.liquidation_threshold < self.premium_redeem_threshold
        &&& self.premium_redeem_threshold < self.secure_threshold
        &&& self.exchange_rate.wf()
    }
}

/// Configuration and system vault of one currency pair.
#[derive(Clone, Copy, Debug, PartialEq, Eq, Structural)]
pub struct PairState {
    pub config: PairConfig,
    pub liquidation_vault: SystemVault,
}

/// A vault and its collateral pool.
#[derive(Clone, Copy, Debug, PartialEq, Eq, Structural)]
pub struct VaultEntry {
    pub vault: Vault,
    pub pool: CollateralPool,
}

/// All vaults and currency pairs, the current block height, and the
/// protocol's own accounts.
pub struct VaultRegistry {
    pub vaults: Vec<VaultEntry>,
    pub pairs: Vec<PairState>,
    pub active_block_number: BlockNumber,
    /// Blocks for which a delinquent vault is banned.
    pub punishment_delay: BlockNumber,
    /// Account that holds the collateral of the system vaults.
    pub liquidation_vault_account_id: AccountId,
}

impl VaultRegistry {
    pub open spec fn has_vault(self, id: VaultId) -> bool {
        exists|i: int| 0 <= i < self.vaults@.len() && (#[trigger] self.vaults@[i]).vault.id == id
    }

    /// Position of vault `id`.
    pub open spec fn vault_index(self, id: VaultId) -> int {
        choose|i: int| 0 <= i < self.vaults@.len() && (#[trigger] self.vaults@[i]).vault.id == id
    }

    pub open spec fn entry_of(self, id: VaultId) -> VaultEntry {
        self.vaults@[self.vault_index(id)]
    }

    pub open spec fn vault_of(self, id: VaultId) -> Vault {
        self.entry_of(id).vault
    }

    pub open spec fn pool_of(self, id: VaultId) -> CollateralPool {
        self.entry_of(id).pool
    }

    pub open spec fn has_pair(self, pair: VaultCurrencyPair) -> bool {
        exists|j: int| 0 <= j < self.pairs@.len() && (#[trigger] self.pairs@[j]).config.currencies == pair
    }

    /// Position of currency pair `pair`.
    pub open spec fn pair_index(self, pair: VaultCurrencyPair) -> int {
        choose|j: int| 0 <= j < self.pairs@.len() && (#[trigger] self.pairs@[j]).config.currencies == pair
    }

    pub open spec fn config_of(self, pair: VaultCurrencyPair) -> PairConfig {
        self.pairs@[self.pair_index(pair)].config
    }

    pub open spec fn system_of(self, pair: VaultCurrencyPair) -> SystemVault {
        self.pairs@[self.pair_index(pair)].liquidation_vault
    }

    /// Vault ids and pairs are unique, every vault's pair is configured,
    /// every configuration is valid and every pool's total fits.
    pub open spec fn wf(self) -> bool {
        &&& forall|i: int, k: int|
            0 <= i < self.vaults@.len() && 0 <= k < self.vaults@.len() && #[trigger] self.vaults@[i].vault.id
                == #[trigger] self.vaults@[k].vault.id ==> i == k
        &&& forall|j: int, k: int|
            0 <= j < self.pairs@.len() && 0 <= k < self.pairs@.len() && #[trigger] self.pairs@[j].config.currencies
                == #[trigger] self.pairs@[k].config.currencies ==> j == k
        &&& forall|i: int|
            0 <= i < self.vaults@.len() ==> self.has_pair(#[trigger] self.vaults@[i].vault.id.currencies)
        &&& forall|i: int| 0 <= i < self.vaults@.len() ==> (#[trigger] self.vaults@[i]).pool.wf()
        &&& forall|j: int| 0 <= j < self.pairs@.len() ==> (#[trigger] self.pairs@[j]).config.wf()
        &&& forall|j: int|
            0 <= j < self.pairs@.len() ==> (#[trigger] self.pairs@[j]).liquidation_vault.currency_pair
                == self.pairs@[j].config.currencies
    }

    /// `self` is `old` with nothing changed.
    pub open spec fn same_as(self, old: Self) -> bool {
        &&& self.vaults@ == old.vaults@
        &&& self.pairs@ == old.pairs@
        &&& self.active_block_number == old.active_block_number
        &&& self.punishment_delay == old.punishment_delay
        &&& self.liquidation_vault_account_id == old.liquidation_vault_account_id
    }

    /// `self` is `old` with the entry of vault `id` replaced by `entry` and
    /// the system vault of its pair by `system`.
    pub open spec fn is_update_of(self, old: Self, id: VaultId, entry: VaultEntry, system: SystemVault) -> bool {
        let i = old.vault_index(id);
        let j = old.pair_index(id.currencies);
        &&& self.vaults@ == old.vaults@.update(i, entry)
        &&& self.pairs@ == old.pairs@.update(j, PairState { liquidation_vault: system, ..old.pairs@[j] })
        &&& self.active_block_number == old.active_block_number
        &&& self.punishment_delay == old.punishment_delay
        &&& self.liquidation_vault_account_id == old.liquidation_vault_account_id
    }

    /// An empty registry at block `active_block_number`.
    pub fn new(
        active_block_number: BlockNumber,
        punishment_delay: BlockNumber,
        liquidation_vault_account_id: AccountId,
    ) -> (r: VaultRegistry)
        ensures
            r.wf(),
            r.vaults@.len() == 0,
            r.pairs@.len() == 0,
            r.active_block_number == active_block_number,
            r.punishment_delay == punishment_delay,
            r.liquidation_vault_account_id == liquidation_vault_account_id,
    {
        VaultRegistry {
            vaults: Vec::new(),
            pairs: Vec::new(),
            active_block_number,
            punishment_delay,
            liquidation_vault_account_id,
        }
    }

    /// Every vault of `new` keeps a configured pair when its pair was
    /// configured in `old` and `new` keeps `old`'s pairs at their positions.
    proof fn lemma_vault_pairs_kept(new: Self, old: Self)
        requires
            forall|k: int|
                0 <= k < new.vaults@.len() ==> old.has_pair(#[trigger] new.vaults@[k].vault.id.currencies),
            old.pairs@.len() <= new.pairs@.len(),
            forall|j: int|
                0 <= j < old.pairs@.len() ==> #[trigger] new.pairs@[j].config.currencies
                    == old.pairs@[j].config.currencies,
        ensures
            forall|k: int|
                0 <= k < new.vaults@.len() ==> new.has_pair(#[trigger] new.vaults@[k].vault.id.currencies),
    {
        assert forall|k: int| 0 <= k < new.vaults@.len() implies new.has_pair(
            #[trigger] new.vaults@[k].vault.id.currencies,
        ) by {
            let c = new.vaults@[k].vault.id.currencies;
            let w = old.pair_index(c);
            assert(new.pairs@[w].config.currencies == c);
        }
    }

    proof fn lemma_vault_index(self, id: VaultId, i: int)
        requires
            self.wf(),
            0 <= i < self.vaults@.len(),
            self.vaults@[i].vault.id == id,
        ensures
            self.has_vault(id),
            self.vault_index(id) == i,
    {
        assert(self.has_vault(id));
        let k = self.vault_index(id);
        assert(self.vaults@[k].vault.id == self.vaults@[i].vault.id);
    }

    proof fn lemma_pair_index(self, pair: VaultCurrencyPair, j: int)
        requires
            self.wf(),
            0 <= j < self.pairs@.len(),
            self.pairs@[j].config.currencies == pair,
        ensures
            self.has_pair(pair),
            self.pair_index(pair) == j,
    {
        assert(self.has_pair(pair));
        let k = self.pair_index(pair);
        assert(self.pairs@[k].config.currencies == self.pairs@[j].config.currencies);
    }

    /// Position of vault `id`, if it is registered.
    pub fn find_vault(&self, id: &VaultId) -> (r: Option<usize>)
        requires
            self.wf(),
        ensures
            r is None <==> !self.has_vault(*id),
            r is Some ==> r->Some_0 == self.vault_index(*id) && r->Some_0 < self.vaults@.len(),
    {
        let mut i: usize = 0;
        while i < self.vaults.len()
            invariant
                self.wf(),
                0 <= i <= self.vaults@.len(),
                forall|k: int| 0 <= k < i ==> (#[trigger] self.vaults@[k]).vault.id != *id,
            decreases self.vaults@.len() - i,
        {
            if self.vaults[i].vault.id == *id {
                proof {
                    self.lemma_vault_index(*id, i as int);
                }
                return Some(i);
            }
            i = i + 1;
        }
        None
    }

    /// Position of currency pair `pair`, if it is configured.
    pub fn find_pair(&self, pair: &VaultCurrencyPair) -> (r: Option<usize>)
        requires
            self.wf(),
        ensures
            r is None <==> !self.has_pair(*pair),
            r is Some ==> r->Some_0 == self.pair_index(*pair) && r->Some_0 < self.pairs@.len(),
    {
        let mut j: usize = 0;
        while j < self.pairs.len()
            invariant
                self.wf(),
                0 <= j <= self.pairs@.len(),
                forall|k: int| 0 <= k < j ==> (#[trigger] self.pairs@[k]).config.currencies != *pair,
            decreases self.pairs@.len() - j,
        {
            if self.pairs[j].config.currencies == *pair {
                proof {
                    self.lemma_pair_index(*pair, j as int);
                }
                return Some(j);
            }
            j = j + 1;
        }
        None
    }
}

impl VaultRegistry {
    proof fn lemma_has_vault_pair(self, id: VaultId)
        requires
            self.wf(),
            self.has_vault(id),
        ensures
            0 <= self.vault_index(id) < self.vaults@.len(),
            self.vaults@[self.vault_index(id)].vault.id == id,
            self.has_pair(id.currencies),
            0 <= self.pair_index(id.currencies) < self.pairs@.len(),
            self.pairs@[self.pair_index(id.currencies)].config.currencies == id.currencies,
            self.entry_of(id).pool.wf(),
            self.config_of(id.currencies).wf(),
            self.system_of(id.currencies).currency_pair == id.currencies,
    {
        let i = self.vault_index(id);
        assert(self.has_pair(self.vaults@[i].vault.id.currencies));
    }

    /// Writes `entry` at position `i` and `system` into the pair at `j`.
    pub(crate) fn commit(&mut self, id: VaultId, i: usize, j: usize, entry: VaultEntry, system: SystemVault)
        requires
            old(self).wf(),
            old(self).has_vault(id),
            i == old(self).vault_index(id),
            j == old(self).pair_index(id.currencies),
            entry.vault.id == id,
            entry.pool.wf(),
            system.currency_pair == id.currencies,
        ensures
            final(self).wf(),
            final(self).is_update_of(*old(self), id, entry, system),
    {
        proof {
            old(self).lemma_has_vault_pair(id);
        }
        let ghost old_self = *self;
        let mut pair = self.pairs[j];
        pair.liquidation_vault = system;
        self.vaults[i] = entry;
        self.pairs[j] = pair;
        proof {
            VaultRegistry::lemma_vault_pairs_kept(*self, old_self);
        }
    }

    /// Adds or reconfigures currency pair `config.currencies`. Refused unless
    /// `0 < liquidation < premium < secure` and both sides of the rate are
    /// positive; a new pair starts with an empty system vault.
    pub fn configure_pair(&mut self, config: PairConfig) -> (r: Result<(), VaultError>)
        requires
            old(self).wf(),
        ensures
            final(self).wf(),
            !(0 < config.liquidation_threshold && config.liquidation_threshold < config.premium_redeem_threshold
                && config.premium_redeem_threshold < config.secure_threshold) ==> r == Err::<(), VaultError>(
                VaultError::InvalidThresholds,
            ),
            (0 < config.liquidation_threshold && config.liquidation_threshold < config.premium_redeem_threshold
                && config.premium_redeem_threshold < config.secure_threshold) && !config.exchange_rate.wf()
                ==> r == Err::<(), VaultError>(VaultError::InvalidExchangeRate),
            config.wf() ==> r is Ok,
            r is Err ==> final(self).same_as(*old(self)),
            r is Ok ==> final(self).vaults@ == old(self).vaults@,
            r is Ok ==> final(self).has_pair(config.currencies) && final(self).config_of(config.currencies)
                == config,
            r is Ok && old(self).has_pair(config.currencies) ==> final(self).system_of(config.currencies)
                == old(self).system_of(config.currencies),
            r is Ok && !old(self).has_pair(config.currencies) ==> final(self).system_of(config.currencies)
                == SystemVault::new_spec(config.currencies),
            r is Ok ==> forall|p: VaultCurrencyPair|
                p != config.currencies ==> (final(self).has_pair(p) == old(self).has_pair(p) && (old(
                    self,
                ).has_pair(p) ==> final(self).config_of(p) == old(self).config_of(p) && final(self).system_of(p)
                    == old(self).system_of(p))),
    {
        if !(0 < config.liquidation_threshold && config.liquidation_threshold < config.premium_redeem_threshold
            && config.premium_redeem_threshold < config.secure_threshold) {
            return Err(VaultError::InvalidThresholds);
        }
        if !(config.exchange_rate.collateral > 0 && config.exchange_rate.wrapped > 0) {
            return Err(VaultError::InvalidExchangeRate);
        }
        let ghost old_self = *self;
        match self.find_pair(&config.currencies) {
            Some(j) => {
                let mut pair = self.pairs[j];
                pair.config = config;
                self.pairs[j] = pair;
                proof {
                    VaultRegistry::lemma_vault_pairs_kept(*self, old_self);
                    assert(self.wf());
                    self.lemma_pair_index(config.currencies, j as int);
                    assert forall|p: VaultCurrencyPair| p != config.currencies && old_self.has_pair(p) implies (
                    self.has_pair(p) && self.config_of(p) == old_self.config_of(p) && self.system_of(p)
                        == old_self.system_of(p)) by {
                        let w = old_self.pair_index(p);
                        self.lemma_pair_index(p, w);
                    }
                    assert forall|p: VaultCurrencyPair| p != config.currencies && self.has_pair(p) implies old_self.has_pair(p) by {
                        let w = self.pair_index(p);
                        assert(old_self.pairs@[w].config.currencies == p);
                    }
                }
            },
            None => {
                self.pairs.push(PairState { config, liquidation_vault: SystemVault::new(config.currencies) });
                proof {
                    let n = old_self.pairs@.len() as int;
                    assert forall|a: int, b: int|
                        0 <= a < self.pairs@.len() && 0 <= b < self.pairs@.len()
                            && #[trigger] self.pairs@[a].config.currencies == #[trigger] self.pairs@[b].config.currencies
                            implies a == b by {
                        if a < n && b == n {
                            assert(old_self.pairs@[a].config.currencies == config.currencies);
                        }
                        if b < n && a == n {
                            assert(old_self.pairs@[b].config.currencies == config.currencies);
                        }
                    }
                    VaultRegistry::lemma_vault_pairs_kept(*self, old_self);
                    assert(self.wf());
                    self.lemma_pair_index(config.currencies, n);
                    assert forall|p: VaultCurrencyPair| p != config.currencies && old_self.has_pair(p) implies (
                    self.has_pair(p) && self.config_of(p) == old_self.config_of(p) && self.system_of(p)
                        == old_self.system_of(p)) by {
                        let w = old_self.pair_index(p);
                        self.lemma_pair_index(p, w);
                    }
                    assert forall|p: VaultCurrencyPair| p != config.currencies && self.has_pair(p) implies old_self.has_pair(p) by {
                        let w = self.pair_index(p);
                        assert(old_self.pairs@[w].config.currencies == p);
                    }
                }
            },
        }
        Ok(())
    }

    /// Registers a vault of `account_id` for `currencies`, moving
    /// `collateral` from the owner's free balance into the vault's pool.
    pub fn register_vault(
        &mut self,
        ledger: &mut Ledger,
        account_id: AccountId,
        currencies: VaultCurrencyPair,
        collateral: Balance,
    ) -> (r: Result<(), VaultError>)
        requires
            old(self).wf(),
            old(ledger).wf(),
        ensures
            final(self).wf(),
            final(ledger).wf(),
            r is Err ==> final(ledger).entries@ == old(ledger).entries@,
            r is Ok ==> final(ledger).free_of(account_id, currencies.collateral) == old(ledger).free_of(
                account_id,
                currencies.collateral,
            ) - collateral,
            r is Ok ==> final(ledger).reserved_of(account_id, currencies.collateral) == old(ledger).reserved_of(
                account_id,
                currencies.collateral,
            ),
            r is Ok ==> final(ledger).others_unchanged(*old(ledger), account_id, currencies.collateral),
            ({
                let id = VaultId { account_id, currencies };
                &&& !old(self).has_pair(currencies) ==> r == Err::<(), VaultError>(VaultError::ThresholdNotSet)
                &&& old(self).has_pair(currencies) && old(self).has_vault(id) ==> r == Err::<(), VaultError>(
                    VaultError::VaultAlreadyRegistered,
                )
                &&& old(self).has_pair(currencies) && !old(self).has_vault(id) && collateral < old(
                    self,
                ).config_of(currencies).minimum_collateral ==> r == Err::<(), VaultError>(
                    VaultError::InsufficientCollateral,
                )
                &&& r is Ok ==> {
                    &&& final(self).vaults@ == old(self).vaults@.push(
                        VaultEntry { vault: Vault::new_spec(id), pool: CollateralPool::new_spec(collateral) },
                    )
                    &&& final(self).pairs@ == old(self).pairs@
                    &&& final(self).has_vault(id)
                    &&& final(self).entry_of(id) == (VaultEntry {
                        vault: Vault::new_spec(id),
                        pool: CollateralPool::new_spec(collateral),
                    })
                }
                &&& old(self).has_pair(currencies) && !old(self).has_vault(id) && collateral >= old(
                    self,
                ).config_of(currencies).minimum_collateral && collateral > old(ledger).free_of(
                    account_id,
                    currencies.collateral,
                ) ==> r == Err::<(), VaultError>(VaultError::InsufficientFunds)
                &&& old(self).has_pair(currencies) && !old(self).has_vault(id) && collateral >= old(
                    self,
                ).config_of(currencies).minimum_collateral && collateral <= old(ledger).free_of(
                    account_id,
                    currencies.collateral,
                ) ==> r is Ok
            }),
            r is Err ==> final(self).same_as(*old(self)),
            final(self).active_block_number == old(self).active_block_number,
            final(self).punishment_delay == old(self).punishment_delay,
            final(self).liquidation_vault_account_id == old(self).liquidation_vault_account_id,
    {
        let id = VaultId::new(account_id, currencies.collateral, currencies.wrapped);
        let j = match self.find_pair(&currencies) {
            Some(j) => j,
            None => return Err(VaultError::ThresholdNotSet),
        };
        if self.find_vault(&id).is_some() {
            return Err(VaultError::VaultAlreadyRegistered);
        }
        if collateral < self.pairs[j].config.minimum_collateral {
            return Err(VaultError::InsufficientCollateral);
        }
        if collateral > ledger.free_balance(account_id, currencies.collateral) {
            return Err(VaultError::InsufficientFunds);
        }
        let paid = ledger.decrease_free(account_id, currencies.collateral, collateral);
        assert(paid is Ok);
        let ghost old_self = *self;
        self.vaults.push(VaultEntry { vault: Vault::new(id), pool: CollateralPool::new(collateral) });
        proof {
            let n = old_self.vaults@.len() as int;
            assert forall|a: int, b: int|
                0 <= a < self.vaults@.len() && 0 <= b < self.vaults@.len() && #[trigger] self.vaults@[a].vault.id
                    == #[trigger] self.vaults@[b].vault.id implies a == b by {
                if a < n && b == n {
                    assert(old_self.vaults@[a].vault.id == id);
                    assert(old_self.has_vault(id));
                }
                if b < n && a == n {
                    assert(old_self.vaults@[b].vault.id == id);
                    assert(old_self.has_vault(id));
                }
            }
            VaultRegistry::lemma_vault_pairs_kept(*self, old_self);
            self.lemma_vault_index(id, n);
        }
        Ok(())
    }
}

impl VaultRegistry {
    /// Positions of vault `id` and of its currency pair.
    pub(crate) fn locate(&self, id: &VaultId) -> (r: Result<(usize, usize), VaultError>)
        requires
            self.wf(),
        ensures
            !self.has_vault(*id) ==> r == Err::<(usize, usize), VaultError>(VaultError::VaultNotFound),
            self.has_vault(*id) ==> r is Ok,
            r is Ok ==> {
                &&& r->Ok_0.0 == self.vault_index(*id)
                &&& r->Ok_0.1 == self.pair_index(id.currencies)
                &&& r->Ok_0.0 < self.vaults@.len()
                &&& r->Ok_0.1 < self.pairs@.len()
                &&& self.vaults@[r->Ok_0.0 as int].vault.id == *id
                &&& self.pairs@[r->Ok_0.1 as int].config.currencies == id.currencies
                &&& self.entry_of(*id).pool.wf()
                &&& self.config_of(id.currencies).wf()
                &&& self.system_of(id.currencies).currency_pair == id.currencies
            },
    {
        let i = match self.find_vault(id) {
            Some(i) => i,
            None => return Err(VaultError::VaultNotFound),
        };
        proof {
            self.lemma_has_vault_pair(*id);
        }
        match self.find_pair(&id.currencies) {
            Some(j) => Ok((i, j)),
            None => Err(VaultError::VaultNotFound),
        }
    }

    /// The record of vault `id`.
    pub fn get_vault_from_id(&self, id: &VaultId) -> (r: Result<Vault, VaultError>)
        requires
            self.wf(),
        ensures
            !self.has_vault(*id) ==> r == Err::<Vault, VaultError>(VaultError::VaultNotFound),
            self.has_vault(*id) ==> r == Ok::<Vault, VaultError>(self.vault_of(*id)),
    {
        let (i, _j) = self.locate(id)?;
        Ok(self.vaults[i].vault)
    }

    /// The record of vault `id`, provided it is not liquidated.
    pub fn get_active_vault_from_id(&self, id: &VaultId) -> (r: Result<Vault, VaultError>)
        requires
            self.wf(),
        ensures
            !self.has_vault(*id) ==> r == Err::<Vault, VaultError>(VaultError::VaultNotFound),
            self.has_vault(*id) && self.vault_of(*id).liquidated() ==> r == Err::<Vault, VaultError>(
                VaultError::InvalidState,
            ),
            self.has_vault(*id) && !self.vault_of(*id).liquidated() ==> r == Ok::<Vault, VaultError>(
                self.vault_of(*id),
            ),
    {
        let vault = self.get_vault_from_id(id)?;
        if vault.is_liquidated() {
            return Err(VaultError::InvalidState);
        }
        Ok(vault)
    }

    /// The collateral pool of vault `id`.
    pub fn get_collateral_pool(&self, id: &VaultId) -> (r: Result<CollateralPool, VaultError>)
        requires
            self.wf(),
        ensures
            !self.has_vault(*id) ==> r == Err::<CollateralPool, VaultError>(VaultError::VaultNotFound),
            self.has_vault(*id) ==> r == Ok::<CollateralPool, VaultError>(self.pool_of(*id)),
    {
        let (i, _j) = self.locate(id)?;
        Ok(self.vaults[i].pool)
    }

    /// The system vault of currency pair `pair`.
    pub fn get_liquidation_vault(&self, pair: &VaultCurrencyPair) -> (r: Result<SystemVault, VaultError>)
        requires
            self.wf(),
        ensures
            !self.has_pair(*pair) ==> r == Err::<SystemVault, VaultError>(VaultError::ThresholdNotSet),
            self.has_pair(*pair) ==> r == Ok::<SystemVault, VaultError>(self.system_of(*pair)),
    {
        match self.find_pair(pair) {
            Some(j) => Ok(self.pairs[j].liquidation_vault),
            None => Err(VaultError::ThresholdNotSet),
        }
    }

    /// Whether vault `id` is liquidated.
    pub fn is_vault_liquidated(&self, id: &VaultId) -> (r: Result<bool, VaultError>)
        requires
            self.wf(),
        ensures
            !self.has_vault(*id) ==> r == Err::<bool, VaultError>(VaultError::VaultNotFound),
            self.has_vault(*id) ==> r == Ok::<bool, VaultError>(self.vault_of(*id).liquidated()),
    {
        let (i, _j) = self.locate(id)?;
        Ok(self.vaults[i].vault.is_liquidated())
    }

    /// Liquidates vault `id` into the system vault of its pair at the pair's
    /// exchange rate and liquidation threshold; returns the collateral moved
    /// into the system vault.
    pub fn liquidate_vault(&mut self, id: &VaultId) -> (r: Result<Balance, VaultError>)
        requires
            old(self).wf(),
        ensures
            final(self).wf(),
            !old(self).has_vault(*id) ==> r == Err::<Balance, VaultError>(VaultError::VaultNotFound),
            r is Err ==> final(self).same_as(*old(self)),
            old(self).has_vault(*id) ==> ({
                let e = old(self).entry_of(*id);
                let c = old(self).config_of(id.currencies);
                let s = liquidation_spec(
                    e.vault,
                    e.pool,
                    old(self).system_of(id.currencies),
                    c.exchange_rate,
                    c.liquidation_threshold,
                );
                &&& r is Ok <==> s is Ok
                &&& r is Err ==> r->Err_0 == s->Err_0
                &&& r is Ok ==> r->Ok_0 == s->Ok_0.3 && final(self).is_update_of(
                    *old(self),
                    *id,
                    VaultEntry { vault: s->Ok_0.0, pool: s->Ok_0.1 },
                    s->Ok_0.2,
                )
            }),
    {
        let (i, j) = self.locate(id)?;
        let mut entry = self.vaults[i];
        let mut system = self.pairs[j].liquidation_vault;
        let config = self.pairs[j].config;
        let moved = liquidate(
            &mut entry.vault,
            &mut entry.pool,
            &mut system,
            config.exchange_rate,
            config.liquidation_threshold,
        )?;
        self.commit(*id, i, j, entry, system);
        Ok(moved)
    }

    /// Releases `tokens` reserved for issue by vault `id` (on the system
    /// vault where `id` is liquidated).
    pub fn decrease_to_be_issued_tokens(&mut self, id: &VaultId, tokens: Balance) -> (r: Result<(), VaultError>)
        requires
            old(self).wf(),
        ensures
            final(self).wf(),
            !old(self).has_vault(*id) ==> r == Err::<(), VaultError>(VaultError::VaultNotFound),
            r is Err ==> final(self).same_as(*old(self)),
            old(self).has_vault(*id) ==> ({
                let e = old(self).entry_of(*id);
                let s = old(self).system_of(id.currencies);
                &&& e.vault.liquidated() ==> r == unit_of(
                    sub_spec(s.to_be_issued_tokens, tokens, VaultError::InsufficientTokensCommitted),
                ) && (r is Ok ==> final(self).is_update_of(
                    *old(self),
                    *id,
                    e,
                    s.with_to_be_issued((s.to_be_issued_tokens - tokens) as u128),
                ))
                &&& !e.vault.liquidated() ==> r == unit_of(
                    sub_spec(e.vault.to_be_issued_tokens, tokens, VaultError::InsufficientTokensCommitted),
                ) && (r is Ok ==> final(self).is_update_of(
                    *old(self),
                    *id,
                    VaultEntry {
                        vault: e.vault.with_to_be_issued((e.vault.to_be_issued_tokens - tokens) as u128),
                        ..e
                    },
                    s,
                ))
            }),
    {
        let (i, j) = self.locate(id)?;
        let mut entry = self.vaults[i];
        let mut system = self.pairs[j].liquidation_vault;
        entry.vault.decrease_to_be_issued(&mut system, tokens)?;
        self.commit(*id, i, j, entry, system);
        Ok(())
    }

    /// Completes an issue of `tokens` against vault `id`: they move from
    /// to-be-issued to issued (on the system vault where `id` is liquidated).
    pub fn issue_tokens(&mut self, id: &VaultId, tokens: Balance) -> (r: Result<(), VaultError>)
        requires
            old(self).wf(),
        ensures
            final(self).wf(),
            !old(self).has_vault(*id) ==> r == Err::<(), VaultError>(VaultError::VaultNotFound),
            r is Err ==> final(self).same_as(*old(self)),
            old(self).has_vault(*id) ==> ({
                let e = old(self).entry_of(*id);
                let s = old(self).system_of(id.currencies);
                &&& e.vault.liquidated() ==> r == (if tokens > s.to_be_issued_tokens {
                    Err::<(), VaultError>(VaultError::InsufficientTokensCommitted)
                } else {
                    unit_of(add_spec(s.issued_tokens, tokens))
                }) && (r is Ok ==> final(self).is_update_of(
                    *old(self),
                    *id,
                    e,
                    s.with_to_be_issued((s.to_be_issued_tokens - tokens) as u128).with_issued(
                        (s.issued_tokens + tokens) as u128,
                    ),
                ))
                &&& !e.vault.liquidated() ==> r == (if tokens > e.vault.to_be_issued_tokens {
                    Err::<(), VaultError>(VaultError::InsufficientTokensCommitted)
                } else {
                    unit_of(add_spec(e.vault.issued_tokens, tokens))
                }) && (r is Ok ==> final(self).is_update_of(
                    *old(self),
                    *id,
                    VaultEntry {
                        vault: e.vault.with_to_be_issued((e.vault.to_be_issued_tokens - tokens) as u128).with_issued(
                            (e.vault.issued_tokens + tokens) as u128,
                        ),
                        ..e
                    },
                    s,
                ))
            }),
    {
        let (i, j) = self.locate(id)?;
        let mut entry = self.vaults[i];
        let mut system = self.pairs[j].liquidation_vault;
        entry.vault.execute_issue_tokens(&mut system, tokens)?;
        self.commit(*id, i, j, entry, system);
        Ok(())
    }

    /// Completes a redeem of `tokens` against vault `id`: both its
    /// to-be-redeemed and its issued tokens go down (on the system vault too
    /// where `id` is liquidated).
    pub fn execute_redeem_tokens(&mut self, id: &VaultId, tokens: Balance) -> (r: Result<(), VaultError>)
        requires
            old(self).wf(),
        ensures
            final(self).wf(),
            !old(self).has_vault(*id) ==> r == Err::<(), VaultError>(VaultError::VaultNotFound),
            r is Err ==> final(self).same_as(*old(self)),
            old(self).has_vault(*id) ==> ({
                let e = old(self).entry_of(*id);
                let s = old(self).system_of(id.currencies);
                &&& e.vault.liquidated() ==> r == (if tokens > s.to_be_redeemed_tokens || tokens
                    > e.vault.to_be_redeemed_tokens || tokens > s.issued_tokens {
                    Err::<(), VaultError>(VaultError::InsufficientTokensCommitted)
                } else {
                    Ok::<(), VaultError>(())
                }) && (r is Ok ==> final(self).is_update_of(
                    *old(self),
                    *id,
                    VaultEntry {
                        vault: e.vault.with_to_be_redeemed((e.vault.to_be_redeemed_tokens - tokens) as u128),
                        ..e
                    },
                    s.with_to_be_redeemed((s.to_be_redeemed_tokens - tokens) as u128).with_issued(
                        (s.issued_tokens - tokens) as u128,
                    ),
                ))
                &&& !e.vault.liquidated() ==> r == (if tokens > e.vault.to_be_redeemed_tokens || tokens
                    > e.vault.issued_tokens {
                    Err::<(), VaultError>(VaultError::InsufficientTokensCommitted)
                } else {
                    Ok::<(), VaultError>(())
                }) && (r is Ok ==> final(self).is_update_of(
                    *old(self),
                    *id,
                    VaultEntry {
                        vault: e.vault.with_to_be_redeemed(
                            (e.vault.to_be_redeemed_tokens - tokens) as u128,
                        ).with_issued((e.vault.issued_tokens - tokens) as u128),
                        ..e
                    },
                    s,
                ))
            }),
    {
        let (i, j) = self.locate(id)?;
        let mut entry = self.vaults[i];
        let mut system = self.pairs[j].liquidation_vault;
        entry.vault.execute_redeem_tokens(&mut system, tokens)?;
        self.commit(*id, i, j, entry, system);
        Ok(())
    }

    /// Releases `tokens` reserved for redeem by vault `id` (and by the system
    /// vault where `id` is liquidated).
    pub fn decrease_to_be_redeemed_tokens(&mut self, id: &VaultId, tokens: Balance) -> (r: Result<
        (),
        VaultError,
    >)
        requires
            old(self).wf(),
        ensures
            final(self).wf(),
            !old(self).has_vault(*id) ==> r == Err::<(), VaultError>(VaultError::VaultNotFound),
            r is Err ==> final(self).same_as(*old(self)),
            old(self).has_vault(*id) ==> ({
                let e = old(self).entry_of(*id);
                let s = old(self).system_of(id.currencies);
                let v2 = e.vault.with_to_be_redeemed((e.vault.to_be_redeemed_tokens - tokens) as u128);
                &&& e.vault.liquidated() ==> r == (if tokens > s.to_be_redeemed_tokens || tokens
                    > e.vault.to_be_redeemed_tokens {
                    Err::<(), VaultError>(VaultError::InsufficientTokensCommitted)
                } else {
                    Ok::<(), VaultError>(())
                }) && (r is Ok ==> final(self).is_update_of(
                    *old(self),
                    *id,
                    VaultEntry { vault: v2, ..e },
                    s.with_to_be_redeemed((s.to_be_redeemed_tokens - tokens) as u128),
                ))
                &&& !e.vault.liquidated() ==> r == unit_of(
                    sub_spec(e.vault.to_be_redeemed_tokens, tokens, VaultError::InsufficientTokensCommitted),
                ) && (r is Ok ==> final(self).is_update_of(*old(self), *id, VaultEntry { vault: v2, ..e }, s))
            }),
    {
        let (i, j) = self.locate(id)?;
        let mut entry = self.vaults[i];
        let mut system = self.pairs[j].liquidation_vault;
        entry.vault.decrease_to_be_redeemed(&mut system, tokens)?;
        self.commit(*id, i, j, entry, system);
        Ok(())
    }
}

impl VaultRegistry {
    /// Tokens vault `id` can still take issue requests for at the current
    /// block.
    pub fn issuable_tokens(&self, id: &VaultId) -> (r: Result<Balance, VaultError>)
        requires
            self.wf(),
        ensures
            !self.has_vault(*id) ==> r == Err::<Balance, VaultError>(VaultError::VaultNotFound),
            self.has_vault(*id) ==> ({
                let e = self.entry_of(*id);
                let c = self.config_of(id.currencies);
                let s = issuable_spec(
                    e.vault,
                    e.pool.total_spec(),
                    c.exchange_rate,
                    c.secure_threshold,
                    self.active_block_number,
                );
                &&& r is Ok <==> s is Ok
                &&& r is Ok ==> r->Ok_0 == s->Ok_0
                &&& r is Err ==> r->Err_0 == s->Err_0
            }),
    {
        let (i, j) = self.locate(id)?;
        let entry = self.vaults[i];
        let config = self.pairs[j].config;
        entry.vault.issuable_tokens(
            entry.pool.get_total_collateral(),
            config.exchange_rate,
            config.secure_threshold,
            self.active_block_number,
        )
    }

    /// Issued tokens of vault `id` that can still be redeemed at the current
    /// block: none while it is banned.
    pub fn redeemable_tokens(&self, id: &VaultId) -> (r: Result<Balance, VaultError>)
        requires
            self.wf(),
        ensures
            !self.has_vault(*id) ==> r == Err::<Balance, VaultError>(VaultError::VaultNotFound),
            self.has_vault(*id) && banned_at(self.vault_of(*id).banned_until, self.active_block_number) ==> r
                == Ok::<Balance, VaultError>(0),
            self.has_vault(*id) && !banned_at(self.vault_of(*id).banned_until, self.active_block_number) ==> r
                == sub_spec(
                self.vault_of(*id).issued_tokens,
                self.vault_of(*id).to_be_redeemed_tokens,
                VaultError::ArithmeticUnderflow,
            ),
    {
        let (i, _j) = self.locate(id)?;
        self.vaults[i].vault.redeemable_tokens(self.active_block_number)
    }

    /// Reserves `tokens` for an issue request on active vault `id`, within
    /// what it can issue.
    pub fn try_increase_to_be_issued_tokens(&mut self, id: &VaultId, tokens: Balance) -> (r: Result<
        (),
        VaultError,
    >)
        requires
            old(self).wf(),
        ensures
            final(self).wf(),
            !old(self).has_vault(*id) ==> r == Err::<(), VaultError>(VaultError::VaultNotFound),
            r is Err ==> final(self).same_as(*old(self)),
            old(self).has_vault(*id) ==> ({
                let e = old(self).entry_of(*id);
                let c = old(self).config_of(id.currencies);
                let s = issuable_spec(
                    e.vault,
                    e.pool.total_spec(),
                    c.exchange_rate,
                    c.secure_threshold,
                    old(self).active_block_number,
                );
                &&& e.vault.liquidated() ==> r == Err::<(), VaultError>(VaultError::InvalidState)
                &&& !e.vault.liquidated() && s is Err ==> r == Err::<(), VaultError>(s->Err_0)
                &&& !e.vault.liquidated() && s is Ok && s->Ok_0 < tokens ==> r == Err::<(), VaultError>(
                    VaultError::ExceedingVaultLimit,
                )
                &&& !e.vault.liquidated() && s is Ok && s->Ok_0 >= tokens ==> r == unit_of(
                    add_spec(e.vault.to_be_issued_tokens, tokens),
                )
                &&& r is Ok ==> final(self).is_update_of(
                    *old(self),
                    *id,
                    VaultEntry {
                        vault: e.vault.with_to_be_issued((e.vault.to_be_issued_tokens + tokens) as u128),
                        ..e
                    },
                    old(self).system_of(id.currencies),
                )
            }),
    {
        let (i, j) = self.locate(id)?;
        let mut entry = self.vaults[i];
        let system = self.pairs[j].liquidation_vault;
        let config = self.pairs[j].config;
        if entry.vault.is_liquidated() {
            return Err(VaultError::InvalidState);
        }
        let issuable = entry.vault.issuable_tokens(
            entry.pool.get_total_collateral(),
            config.exchange_rate,
            config.secure_threshold,
            self.active_block_number,
        )?;
        if issuable < tokens {
            return Err(VaultError::ExceedingVaultLimit);
        }
        entry.vault.request_issue_tokens(tokens)?;
        self.commit(*id, i, j, entry, system);
        Ok(())
    }

    /// Reserves `tokens` for a redeem request on active vault `id`, within
    /// its issued tokens not yet being redeemed.
    pub fn try_increase_to_be_redeemed_tokens(&mut self, id: &VaultId, tokens: Balance) -> (r: Result<
        (),
        VaultError,
    >)
        requires
            old(self).wf(),
        ensures
            final(self).wf(),
            !old(self).has_vault(*id) ==> r == Err::<(), VaultError>(VaultError::VaultNotFound),
            r is Err ==> final(self).same_as(*old(self)),
            old(self).has_vault(*id) ==> ({
                let e = old(self).entry_of(*id);
                &&& e.vault.liquidated() ==> r == Err::<(), VaultError>(VaultError::InvalidState)
                &&& !e.vault.liquidated() && e.vault.to_be_redeemed_tokens > e.vault.issued_tokens ==> r == Err::<
                    (),
                    VaultError,
                >(VaultError::ArithmeticUnderflow)
                &&& !e.vault.liquidated() && e.vault.to_be_redeemed_tokens <= e.vault.issued_tokens ==> r == (if tokens
                    > e.vault.issued_tokens - e.vault.to_be_redeemed_tokens {
                    Err::<(), VaultError>(VaultError::InsufficientTokensCommitted)
                } else {
                    Ok::<(), VaultError>(())
                })
                &&& r is Ok ==> final(self).is_update_of(
                    *old(self),
                    *id,
                    VaultEntry {
                        vault: e.vault.with_to_be_redeemed((e.vault.to_be_redeemed_tokens + tokens) as u128),
                        ..e
                    },
                    old(self).system_of(id.currencies),
                )
            }),
    {
        let (i, j) = self.locate(id)?;
        let mut entry = self.vaults[i];
        let system = self.pairs[j].liquidation_vault;
        if entry.vault.is_liquidated() {
            return Err(VaultError::InvalidState);
        }
        let redeemable = entry.vault.freely_redeemable_tokens()?;
        if redeemable < tokens {
            return Err(VaultError::InsufficientTokensCommitted);
        }
        entry.vault.request_redeem_tokens(tokens)?;
        self.commit(*id, i, j, entry, system);
        Ok(())
    }

    /// Moves `amount` from the owner's free balance into the pool of active
    /// vault `id`.
    pub fn lock_additional_collateral(&mut self, ledger: &mut Ledger, id: &VaultId, amount: Balance) -> (r: Result<
        (),
        VaultError,
    >)
        requires
            old(self).wf(),
            old(ledger).wf(),
        ensures
            final(self).wf(),
            final(ledger).wf(),
            !old(self).has_vault(*id) ==> r == Err::<(), VaultError>(VaultError::VaultNotFound),
            r is Err ==> final(self).same_as(*old(self)) && final(ledger).entries@ == old(ledger).entries@,
            r is Ok ==> final(ledger).free_of(id.account_id, id.currencies.collateral) == old(ledger).free_of(
                id.account_id,
                id.currencies.collateral,
            ) - amount,
            r is Ok ==> final(ledger).reserved_of(id.account_id, id.currencies.collateral) == old(
                ledger,
            ).reserved_of(id.account_id, id.currencies.collateral),
            r is Ok ==> final(ledger).others_unchanged(*old(ledger), id.account_id, id.currencies.collateral),
            old(self).has_vault(*id) ==> ({
                let e = old(self).entry_of(*id);
                &&& e.vault.liquidated() ==> r == Err::<(), VaultError>(VaultError::InvalidState)
                &&& !e.vault.liquidated() && amount > old(ledger).free_of(id.account_id, id.currencies.collateral)
                    ==> r == Err::<(), VaultError>(VaultError::InsufficientFunds)
                &&& !e.vault.liquidated() && amount <= old(ledger).free_of(id.account_id, id.currencies.collateral)
                    ==> r == (if e.pool.total_spec() + amount > u128::MAX
                    || e.pool.reward_stake + amount > u128::MAX {
                    Err::<(), VaultError>(VaultError::ArithmeticOverflow)
                } else {
                    Ok::<(), VaultError>(())
                })
                &&& r is Ok ==> final(self).is_update_of(
                    *old(self),
                    *id,
                    VaultEntry {
                        pool: CollateralPool {
                            vault_collateral: (e.pool.vault_collateral + amount) as u128,
                            reward_stake: (e.pool.reward_stake + amount) as u128,
                            ..e.pool
                        },
                        ..e
                    },
                    old(self).system_of(id.currencies),
                )
            }),
    {
        let (i, j) = self.locate(id)?;
        let mut entry = self.vaults[i];
        let system = self.pairs[j].liquidation_vault;
        if entry.vault.is_liquidated() {
            return Err(VaultError::InvalidState);
        }
        if amount > ledger.free_balance(id.account_id, id.currencies.collateral) {
            return Err(VaultError::InsufficientFunds);
        }
        entry.pool.deposit_collateral(false, amount)?;
        let paid = ledger.decrease_free(id.account_id, id.currencies.collateral, amount);
        assert(paid is Ok);
        self.commit(*id, i, j, entry, system);
        Ok(())
    }

    /// Moves `amount` of the owner's collateral in active vault `id` back to
    /// the owner's free balance, provided what stays still backs its tokens
    /// at the secure threshold.
    pub fn withdraw_collateral(&mut self, ledger: &mut Ledger, id: &VaultId, amount: Balance) -> (r: Result<
        (),
        VaultError,
    >)
        requires
            old(self).wf(),
            old(ledger).wf(),
        ensures
            final(self).wf(),
            final(ledger).wf(),
            !old(self).has_vault(*id) ==> r == Err::<(), VaultError>(VaultError::VaultNotFound),
            r is Err ==> final(self).same_as(*old(self)) && final(ledger).entries@ == old(ledger).entries@,
            r is Ok ==> final(ledger).free_of(id.account_id, id.currencies.collateral) == old(ledger).free_of(
                id.account_id,
                id.currencies.collateral,
            ) + amount,
            r is Ok ==> final(ledger).reserved_of(id.account_id, id.currencies.collateral) == old(
                ledger,
            ).reserved_of(id.account_id, id.currencies.collateral),
            r is Ok ==> final(ledger).others_unchanged(*old(ledger), id.account_id, id.currencies.collateral),
            old(self).has_vault(*id) ==> ({
                let e = old(self).entry_of(*id);
                let c = old(self).config_of(id.currencies);
                let left = e.pool.total_spec() - amount;
                let secure = e.vault.secure_threshold_spec(c.secure_threshold) as int;
                &&& e.vault.liquidated() ==> r == Err::<(), VaultError>(VaultError::InvalidState)
                &&& !e.vault.liquidated() && amount > e.pool.vault_collateral ==> r == Err::<(), VaultError>(
                    VaultError::InsufficientFunds,
                )
                &&& !e.vault.liquidated() && amount <= e.pool.vault_collateral ==> r == (if e.vault.backed_spec()
                    > u128::MAX || !max_tokens_fits(left, c.exchange_rate, secure) {
                    Err::<(), VaultError>(VaultError::ArithmeticOverflow)
                } else if below_threshold_spec(left, e.vault.backed_spec(), c.exchange_rate, secure) {
                    Err::<(), VaultError>(VaultError::ThresholdViolation)
                } else if old(ledger).free_of(id.account_id, id.currencies.collateral) + amount > u128::MAX {
                    Err::<(), VaultError>(VaultError::ArithmeticOverflow)
                } else {
                    Ok::<(), VaultError>(())
                })
                &&& r is Ok ==> final(self).is_update_of(
                    *old(self),
                    *id,
                    VaultEntry {
                        pool: CollateralPool {
                            vault_collateral: (e.pool.vault_collateral - amount) as u128,
                            reward_stake: if amount <= e.pool.reward_stake {
                                (e.pool.reward_stake - amount) as u128
                            } else {
                                0
                            },
                            ..e.pool
                        },
                        ..e
                    },
                    old(self).system_of(id.currencies),
                )
            }),
    {
        let (i, j) = self.locate(id)?;
        let mut entry = self.vaults[i];
        let system = self.pairs[j].liquidation_vault;
        let config = self.pairs[j].config;
        if entry.vault.is_liquidated() {
            return Err(VaultError::InvalidState);
        }
        if amount > entry.pool.vault_collateral {
            return Err(VaultError::InsufficientFunds);
        }
        let left = entry.pool.get_total_collateral() - amount;
        let backed = entry.vault.backed_tokens()?;
        let secure = entry.vault.get_secure_threshold(config.secure_threshold);
        if is_below_threshold(left, backed, config.exchange_rate, secure)? {
            return Err(VaultError::ThresholdViolation);
        }
        if checked_add(ledger.free_balance(id.account_id, id.currencies.collateral), amount).is_err() {
            return Err(VaultError::ArithmeticOverflow);
        }
        let returned = ledger.increase_free(id.account_id, id.currencies.collateral, amount);
        assert(returned is Ok);
        let taken = entry.pool.withdraw_collateral(false, amount);
        assert(taken is Ok);
        self.commit(*id, i, j, entry, system);
        Ok(())
    }

    /// Opens or closes active vault `id` to new issue requests.
    pub fn accept_new_issues(&mut self, id: &VaultId, accept_new_issues: bool) -> (r: Result<(), VaultError>)
        requires
            old(self).wf(),
        ensures
            final(self).wf(),
            !old(self).has_vault(*id) ==> r == Err::<(), VaultError>(VaultError::VaultNotFound),
            old(self).has_vault(*id) && old(self).vault_of(*id).liquidated() ==> r == Err::<(), VaultError>(
                VaultError::InvalidState,
            ),
            old(self).has_vault(*id) && !old(self).vault_of(*id).liquidated() ==> r is Ok,
            r is Err ==> final(self).same_as(*old(self)),
            r is Ok ==> final(self).is_update_of(
                *old(self),
                *id,
                VaultEntry {
                    vault: Vault {
                        status: VaultStatus::Active(accept_new_issues),
                        ..old(self).vault_of(*id)
                    },
                    ..old(self).entry_of(*id)
                },
                old(self).system_of(id.currencies),
            ),
    {
        let (i, j) = self.locate(id)?;
        let mut entry = self.vaults[i];
        let system = self.pairs[j].liquidation_vault;
        entry.vault.set_accept_new_issues(accept_new_issues)?;
        self.commit(*id, i, j, entry, system);
        Ok(())
    }

    /// Sets or clears the custom secure threshold of vault `id`.
    pub fn set_custom_secure_threshold(&mut self, id: &VaultId, threshold: Option<UnsignedFixedPoint>) -> (r:
        Result<(), VaultError>)
        requires
            old(self).wf(),
        ensures
            final(self).wf(),
            !old(self).has_vault(*id) ==> r == Err::<(), VaultError>(VaultError::VaultNotFound),
            old(self).has_vault(*id) ==> r is Ok,
            r is Err ==> final(self).same_as(*old(self)),
            r is Ok ==> final(self).is_update_of(
                *old(self),
                *id,
                VaultEntry {
                    vault: Vault { secure_collateral_threshold: threshold, ..old(self).vault_of(*id) },
                    ..old(self).entry_of(*id)
                },
                old(self).system_of(id.currencies),
            ),
    {
        let (i, j) = self.locate(id)?;
        let mut entry = self.vaults[i];
        let system = self.pairs[j].liquidation_vault;
        entry.vault.set_custom_secure_threshold(threshold);
        self.commit(*id, i, j, entry, system);
        Ok(())
    }

    /// Bans vault `id` for the punishment delay from the current block on.
    pub fn ban_vault(&mut self, id: &VaultId) -> (r: Result<(), VaultError>)
        requires
            old(self).wf(),
        ensures
            final(self).wf(),
            !old(self).has_vault(*id) ==> r == Err::<(), VaultError>(VaultError::VaultNotFound),
            old(self).has_vault(*id) ==> r == (if old(self).active_block_number + old(self).punishment_delay
                > u32::MAX {
                Err::<(), VaultError>(VaultError::ArithmeticOverflow)
            } else {
                Ok::<(), VaultError>(())
            }),
            r is Err ==> final(self).same_as(*old(self)),
            r is Ok ==> final(self).is_update_of(
                *old(self),
                *id,
                VaultEntry {
                    vault: Vault {
                        banned_until: Some((old(self).active_block_number + old(self).punishment_delay) as u32),
                        ..old(self).vault_of(*id)
                    },
                    ..old(self).entry_of(*id)
                },
                old(self).system_of(id.currencies),
            ),
    {
        let (i, j) = self.locate(id)?;
        let mut entry = self.vaults[i];
        let system = self.pairs[j].liquidation_vault;
        let until = match self.active_block_number.checked_add(self.punishment_delay) {
            Some(h) => h,
            None => return Err(VaultError::ArithmeticOverflow),
        };
        entry.vault.ban_until(until);
        self.commit(*id, i, j, entry, system);
        Ok(())
    }

    /// Fails with `VaultBanned` while vault `id` is banned at the current
    /// block.
    pub fn ensure_not_banned(&self, id: &VaultId) -> (r: Result<(), VaultError>)
        requires
            self.wf(),
        ensures
            !self.has_vault(*id) ==> r == Err::<(), VaultError>(VaultError::VaultNotFound),
            self.has_vault(*id) && banned_at(self.vault_of(*id).banned_until, self.active_block_number) ==> r
                == Err::<(), VaultError>(VaultError::VaultBanned),
            self.has_vault(*id) && !banned_at(self.vault_of(*id).banned_until, self.active_block_number) ==> r
                is Ok,
    {
        let (i, _j) = self.locate(id)?;
        self.vaults[i].vault.ensure_not_banned(self.active_block_number)
    }

    /// The current block height.
    pub fn active_block_number(&self) -> (r: BlockNumber)
        ensures
            r == self.active_block_number,
    {
        self.active_block_number
    }

    /// Moves the registry to block `height`.
    pub fn set_active_block_number(&mut self, height: BlockNumber)
        requires
            old(self).wf(),
        ensures
            final(self).wf(),
            final(self).active_block_number == height,
            final(self).vaults@ == old(self).vaults@,
            final(self).pairs@ == old(self).pairs@,
            final(self).punishment_delay == old(self).punishment_delay,
            final(self).liquidation_vault_account_id == old(self).liquidation_vault_account_id,
    {
        let ghost old_self = *self;
        self.active_block_number = height;
        proof {
            VaultRegistry::lemma_vault_pairs_kept(*self, old_self);
        }
    }

    /// Sets the number of blocks for which `ban_vault` bans a vault.
    pub fn set_punishment_delay(&mut self, delay: BlockNumber)
        requires
            old(self).wf(),
        ensures
            final(self).wf(),
            final(self).punishment_delay == delay,
            final(self).vaults@ == old(self).vaults@,
            final(self).pairs@ == old(self).pairs@,
            final(self).active_block_number == old(self).active_block_number,
            final(self).liquidation_vault_account_id == old(self).liquidation_vault_account_id,
    {
        let ghost old_self = *self;
        self.punishment_delay = delay;
        proof {
            VaultRegistry::lemma_vault_pairs_kept(*self, old_self);
        }
    }

    /// Whether a period of `period` blocks opened at `opentime` has passed
    /// at the current block.
    pub fn has_expired(&self, opentime: BlockNumber, period: BlockNumber) -> (r: Result<bool, VaultError>)
        ensures
            opentime + period > u32::MAX ==> r == Err::<bool, VaultError>(VaultError::ArithmeticOverflow),
            opentime + period <= u32::MAX ==> r == Ok::<bool, VaultError>(
                self.active_block_number > opentime + period,
            ),
    {
        match opentime.checked_add(period) {
            Some(expiry) => Ok(self.active_block_number > expiry),
            None => Err(VaultError::ArithmeticOverflow),
        }
    }
}

impl VaultRegistry {
    /// What an update of vault `id` and its pair's system vault leaves as it
    /// was: the set of vaults and pairs, every other vault, every other
    /// pair's configuration and system vault.
    pub proof fn lemma_update_frame(new: Self, old: Self, id: VaultId, entry: VaultEntry, system: SystemVault)
        requires
            old.wf(),
            new.wf(),
            old.has_vault(id),
            entry.vault.id == id,
            new.is_update_of(old, id, entry, system),
        ensures
            forall|v: VaultId| #[trigger] new.has_vault(v) == old.has_vault(v),
            forall|p: VaultCurrencyPair| #[trigger] new.has_pair(p) == old.has_pair(p),
            new.entry_of(id) == entry,
            new.system_of(id.currencies) == system,
            forall|p: VaultCurrencyPair| old.has_pair(p) ==> #[trigger] new.config_of(p) == old.config_of(p),
            forall|v: VaultId| v != id && old.has_vault(v) ==> #[trigger] new.entry_of(v) == old.entry_of(v),
            forall|p: VaultCurrencyPair|
                p != id.currencies && old.has_pair(p) ==> #[trigger] new.system_of(p) == old.system_of(p),
    {
        old.lemma_has_vault_pair(id);
        let i = old.vault_index(id);
        let j = old.pair_index(id.currencies);
        assert forall|v: VaultId| #[trigger] new.has_vault(v) == old.has_vault(v) by {
            if old.has_vault(v) {
                let w = old.vault_index(v);
                if w == i {
                    assert(new.vaults@[w].vault.id == v);
                } else {
                    assert(new.vaults@[w].vault.id == v);
                }
            }
            if new.has_vault(v) {
                let w = new.vault_index(v);
                if w == i {
                    assert(old.vaults@[w].vault.id == v);
                } else {
                    assert(old.vaults@[w].vault.id == v);
                }
            }
        }
        assert forall|p: VaultCurrencyPair| #[trigger] new.has_pair(p) == old.has_pair(p) by {
            if old.has_pair(p) {
                let w = old.pair_index(p);
                assert(new.pairs@[w].config.currencies == p);
            }
            if new.has_pair(p) {
                let w = new.pair_index(p);
                assert(old.pairs@[w].config.currencies == p);
            }
        }
        new.lemma_vault_index(id, i);
        new.lemma_pair_index(id.currencies, j);
        assert forall|p: VaultCurrencyPair| old.has_pair(p) implies #[trigger] new.config_of(p) == old.config_of(p) by {
            let w = old.pair_index(p);
            new.lemma_pair_index(p, w);
        }
        assert forall|v: VaultId| v != id && old.has_vault(v) implies #[trigger] new.entry_of(v) == old.entry_of(v) by {
            let w = old.vault_index(v);
            new.lemma_vault_index(v, w);
        }
        assert forall|p: VaultCurrencyPair| p != id.currencies && old.has_pair(p) implies #[trigger] new.system_of(p)
            == old.system_of(p) by {
            let w = old.pair_index(p);
            new.lemma_pair_index(p, w);
        }
    }
}

/// Issued and to-be-issued tokens of `entry` if it belongs to `pair`.
pub open spec fn entry_tokens(entry: VaultEntry, pair: VaultCurrencyPair) -> int {
    if entry.vault.id.currencies == pair {
        entry.vault.issued_tokens + entry.vault.to_be_issued_tokens
    } else {
        0
    }
}

/// Issued and to-be-issued tokens of the vaults of `pair` in `entries`.
pub open spec fn sum_entry_tokens(entries: Seq<VaultEntry>, pair: VaultCurrencyPair) -> int
    decreases entries.len(),
{
    if entries.len() == 0 {
        0
    } else {
        sum_entry_tokens(entries.drop_last(), pair) + entry_tokens(entries.last(), pair)
    }
}

proof fn lemma_sum_update(entries: Seq<VaultEntry>, pair: VaultCurrencyPair, i: int, entry: VaultEntry)
    requires
        0 <= i < entries.len(),
    ensures
        sum_entry_tokens(entries.update(i, entry), pair) == sum_entry_tokens(entries, pair) - entry_tokens(
            entries[i],
            pair,
        ) + entry_tokens(entry, pair),
    decreases entries.len(),
{
    let updated = entries.update(i, entry);
    if i == entries.len() - 1 {
        assert(updated.drop_last() =~= entries.drop_last());
    } else {
        lemma_sum_update(entries.drop_last(), pair, i, entry);
        assert(updated.drop_last() =~= entries.drop_last().update(i, entry));
    }
}

impl VaultRegistry {
    /// Issued and to-be-issued tokens of all vaults of `pair` and of its
    /// system vault.
    pub open spec fn pair_token_total(self, pair: VaultCurrencyPair) -> int {
        sum_entry_tokens(self.vaults@, pair) + self.system_of(pair).issued_tokens
            + self.system_of(pair).to_be_issued_tokens
    }
}

/// Conservation: an update of one vault and its pair's system vault that
/// keeps the issued and to-be-issued tokens of both (collateral moves,
/// bans, settings, redeem reservations) changes no pair's total.
pub proof fn counter_preserving_update_conserves_pair_tokens(
    old: VaultRegistry,
    new: VaultRegistry,
    id: VaultId,
    entry: VaultEntry,
    system: SystemVault,
    pair: VaultCurrencyPair,
)
    requires
        old.wf(),
        new.wf(),
        old.has_vault(id),
        old.has_pair(pair),
        entry.vault.id == id,
        new.is_update_of(old, id, entry, system),
        entry.vault.issued_tokens == old.vault_of(id).issued_tokens,
        entry.vault.to_be_issued_tokens == old.vault_of(id).to_be_issued_tokens,
        system.issued_tokens == old.system_of(id.currencies).issued_tokens,
        system.to_be_issued_tokens == old.system_of(id.currencies).to_be_issued_tokens,
    ensures
        new.pair_token_total(pair) == old.pair_token_total(pair),
{
    old.lemma_has_vault_pair(id);
    VaultRegistry::lemma_update_frame(new, old, id, entry, system);
    lemma_sum_update(old.vaults@, pair, old.vault_index(id), entry);
}

/// After `liquidate_vault(id)` succeeds, vault `id` is liquidated with no
/// issued or to-be-issued tokens and its to-be-redeemed tokens unchanged, and
/// liquidating it again fails with `InvalidState`.
pub proof fn liquidate_vault_is_terminal(old: VaultRegistry, new: VaultRegistry, id: VaultId)
    requires
        old.wf(),
        new.wf(),
        old.has_vault(id),
        liquidation_spec(
            old.vault_of(id),
            old.pool_of(id),
            old.system_of(id.currencies),
            old.config_of(id.currencies).exchange_rate,
            old.config_of(id.currencies).liquidation_threshold,
        ) is Ok,
        ({
            let s = liquidation_spec(
                old.vault_of(id),
                old.pool_of(id),
                old.system_of(id.currencies),
                old.config_of(id.currencies).exchange_rate,
                old.config_of(id.currencies).liquidation_threshold,
            )->Ok_0;
            new.is_update_of(old, id, VaultEntry { vault: s.0, pool: s.1 }, s.2)
        }),
    ensures
        new.has_vault(id),
        new.vault_of(id).status == VaultStatus::Liquidated,
        new.vault_of(id).issued_tokens == 0,
        new.vault_of(id).to_be_issued_tokens == 0,
        new.vault_of(id).to_be_redeemed_tokens == old.vault_of(id).to_be_redeemed_tokens,
        liquidation_spec(
            new.vault_of(id),
            new.pool_of(id),
            new.system_of(id.currencies),
            new.config_of(id.currencies).exchange_rate,
            new.config_of(id.currencies).liquidation_threshold,
        ) == Err::<(Vault, CollateralPool, SystemVault, Balance), VaultError>(VaultError::InvalidState),
{
    let s = liquidation_spec(
        old.vault_of(id),
        old.pool_of(id),
        old.system_of(id.currencies),
        old.config_of(id.currencies).exchange_rate,
        old.config_of(id.currencies).liquidation_threshold,
    )->Ok_0;
    VaultRegistry::lemma_update_frame(new, old, id, VaultEntry { vault: s.0, pool: s.1 }, s.2);
}

/// Conservation: liquidating a vault changes no currency pair's total of
/// issued and to-be-issued tokens over its vaults and its system vault.
pub proof fn liquidation_conserves_pair_tokens(old: VaultRegistry, new: VaultRegistry, id: VaultId, pair: VaultCurrencyPair)
    requires
        old.wf(),
        new.wf(),
        old.has_vault(id),
        old.has_pair(pair),
        liquidation_spec(
            old.vault_of(id),
            old.pool_of(id),
            old.system_of(id.currencies),
            old.config_of(id.currencies).exchange_rate,
            old.config_of(id.currencies).liquidation_threshold,
        ) is Ok,
        ({
            let s = liquidation_spec(
                old.vault_of(id),
                old.pool_of(id),
                old.system_of(id.currencies),
                old.config_of(id.currencies).exchange_rate,
                old.config_of(id.currencies).liquidation_threshold,
            )->Ok_0;
            new.is_update_of(old, id, VaultEntry { vault: s.0, pool: s.1 }, s.2)
        }),
    ensures
        new.pair_token_total(pair) == old.pair_token_total(pair),
{
    let s = liquidation_spec(
        old.vault_of(id),
        old.pool_of(id),
        old.system_of(id.currencies),
        old.config_of(id.currencies).exchange_rate,
        old.config_of(id.currencies).liquidation_threshold,
    )->Ok_0;
    let entry = VaultEntry { vault: s.0, pool: s.1 };
    old.lemma_has_vault_pair(id);
    VaultRegistry::lemma_update_frame(new, old, id, entry, s.2);
    lemma_sum_update(old.vaults@, pair, old.vault_index(id), entry);
}

impl VaultRegistry {
    /// Writes `system` as the system vault of the pair at position `j`.
    pub(crate) fn commit_system(&mut self, pair: VaultCurrencyPair, j: usize, system: SystemVault)
        requires
            old(self).wf(),
            old(self).has_pair(pair),
            j == old(self).pair_index(pair),
            system.currency_pair == pair,
        ensures
            final(self).wf(),
            final(self).vaults@ == old(self).vaults@,
            final(self).active_block_number == old(self).active_block_number,
            final(self).punishment_delay == old(self).punishment_delay,
            final(self).liquidation_vault_account_id == old(self).liquidation_vault_account_id,
            forall|v: VaultId| #[trigger] final(self).has_vault(v) == old(self).has_vault(v),
            forall|v: VaultId| old(self).has_vault(v) ==> #[trigger] final(self).entry_of(v) == old(self).entry_of(v),
            forall|p: VaultCurrencyPair| #[trigger] final(self).has_pair(p) == old(self).has_pair(p),
            final(self).system_of(pair) == system,
            forall|p: VaultCurrencyPair|
                p != pair && old(self).has_pair(p) ==> #[trigger] final(self).system_of(p) == old(self).system_of(p),
            forall|p: VaultCurrencyPair|
                old(self).has_pair(p) ==> #[trigger] final(self).config_of(p) == old(self).config_of(p),
    {
        let ghost old_self = *self;
        let mut state = self.pairs[j];
        proof {
            old_self.lemma_pair_index(pair, j as int);
        }
        state.liquidation_vault = system;
        self.pairs[j] = state;
        proof {
            assert forall|p: VaultCurrencyPair| #[trigger] self.has_pair(p) == old_self.has_pair(p) by {
                if old_self.has_pair(p) {
                    let w = old_self.pair_index(p);
                    assert(self.pairs@[w].config.currencies == p);
                }
                if self.has_pair(p) {
                    let w = self.pair_index(p);
                    assert(old_self.pairs@[w].config.currencies == p);
                }
            }
            VaultRegistry::lemma_vault_pairs_kept(*self, old_self);
            assert(self.wf());
            self.lemma_pair_index(pair, j as int);
            assert forall|p: VaultCurrencyPair| old_self.has_pair(p) implies #[trigger] self.system_of(p) == (if p
                == pair {
                system
            } else {
                old_self.system_of(p)
            }) by {
                let w = old_self.pair_index(p);
                self.lemma_pair_index(p, w);
            }
            assert forall|p: VaultCurrencyPair| old_self.has_pair(p) implies #[trigger] self.config_of(p)
                == old_self.config_of(p) by {
                let w = old_self.pair_index(p);
                self.lemma_pair_index(p, w);
            }
            assert forall|v: VaultId| #[trigger] self.has_vault(v) == old_self.has_vault(v) by {
                if old_self.has_vault(v) {
                    let w = old_self.vault_index(v);
                    assert(self.vaults@[w].vault.id == v);
                }
                if self.has_vault(v) {
                    let w = self.vault_index(v);
                    assert(old_self.vaults@[w].vault.id == v);
                }
            }
        }
    }
}

impl VaultRegistry {
    /// Vault `id` is at position `i`.
    pub proof fn lemma_index_of_vault(self, id: VaultId, i: int)
        requires
            self.wf(),
            0 <= i < self.vaults@.len(),
            self.vaults@[i].vault.id == id,
        ensures
            self.has_vault(id),
            self.vault_index(id) == i,
    {
        self.lemma_vault_index(id, i);
    }

    /// A registered vault's pool total fits, its pair's system vault is of
    /// its pair, and its record carries its id.
    pub proof fn lemma_pool_wf(self, id: VaultId)
        requires
            self.wf(),
            self.has_vault(id),
        ensures
            self.pool_of(id).wf(),
            self.system_of(id.currencies).currency_pair == id.currencies,
            self.vault_of(id).id == id,
    {
        self.lemma_has_vault_pair(id);
    }
}

proof fn lemma_sum_take(entries: Seq<VaultEntry>, pair: VaultCurrencyPair, i: int)
    requires
        0 <= i < entries.len(),
    ensures
        sum_entry_tokens(entries.take(i + 1), pair) == sum_entry_tokens(entries.take(i), pair) + entry_tokens(
            entries[i],
            pair,
        ),
{
    assert(entries.take(i + 1).drop_last() =~= entries.take(i));
}

proof fn lemma_sum_nonneg(entries: Seq<VaultEntry>, pair: VaultCurrencyPair)
    ensures
        sum_entry_tokens(entries, pair) >= 0,
    decreases entries.len(),
{
    if entries.len() > 0 {
        lemma_sum_nonneg(entries.drop_last(), pair);
    }
}

impl VaultRegistry {
    /// Issued and to-be-issued tokens of all vaults of `pair` and of its
    /// system vault; an error where the pair is not configured or the total
    /// does not fit in a `u128`.
    pub fn pair_tokens_total(&self, pair: &VaultCurrencyPair) -> (r: Result<Balance, VaultError>)
        requires
            self.wf(),
        ensures
            !self.has_pair(*pair) ==> r == Err::<Balance, VaultError>(VaultError::ThresholdNotSet),
            self.has_pair(*pair) && self.pair_token_total(*pair) <= u128::MAX ==> r == Ok::<Balance, VaultError>(
                self.pair_token_total(*pair) as Balance,
            ),
            self.has_pair(*pair) && self.pair_token_total(*pair) > u128::MAX ==> r == Err::<Balance, VaultError>(
                VaultError::ArithmeticOverflow,
            ),
    {
        let system = self.get_liquidation_vault(pair)?;
        let mut total: Balance = 0;
        let mut i: usize = 0;
        while i < self.vaults.len()
            invariant
                0 <= i <= self.vaults@.len(),
                total == sum_entry_tokens(self.vaults@.take(i as int), *pair),
                self.has_pair(*pair),
                system == self.system_of(*pair),
            decreases self.vaults@.len() - i,
        {
            let entry = self.vaults[i];
            proof {
                lemma_sum_take(self.vaults@, *pair, i as int);
                lemma_sum_nonneg(self.vaults@.take(i as int + 1), *pair);
                lemma_sum_nonneg(self.vaults@.skip(i as int + 1), *pair);
                lemma_sum_split(self.vaults@, *pair, i as int + 1);
            }
            if entry.vault.id.currencies == *pair {
                total = match checked_add(total, entry.vault.issued_tokens) {
                    Ok(t) => t,
                    Err(e) => return Err(e),
                };
                total = match checked_add(total, entry.vault.to_be_issued_tokens) {
                    Ok(t) => t,
                    Err(e) => return Err(e),
                };
            }
            i = i + 1;
        }
        proof {
            assert(self.vaults@.take(self.vaults@.len() as int) =~= self.vaults@);
        }
        total = checked_add(total, system.issued_tokens)?;
        checked_add(total, system.to_be_issued_tokens)
    }
}

/// The sum over `entries` splits at `k` into the sums over the two parts.
proof fn lemma_sum_split(entries: Seq<VaultEntry>, pair: VaultCurrencyPair, k: int)
    requires
        0 <= k <= entries.len(),
    ensures
        sum_entry_tokens(entries, pair) == sum_entry_tokens(entries.take(k), pair) + sum_entry_tokens(
            entries.skip(k),
            pair,
        ),
    decreases entries.len(),
{
    if k == entries.len() {
        assert(entries.take(k) =~= entries);
        assert(entries.skip(k).len() == 0);
    } else {
        lemma_sum_split(entries.drop_last(), pair, k);
        assert(entries.drop_last().take(k) =~= entries.take(k));
        assert(entries.skip(k).drop_last() =~= entries.drop_last().skip(k));
        assert(entries.skip(k).last() == entries.last());
    }
}

} // verus!
