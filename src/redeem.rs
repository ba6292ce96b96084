//! Redemption: completing a redeem request against a vault, which pays the
//! redeemer a premium or releases a liquidated vault's set-aside collateral,
//! and redeeming wrapped tokens directly against a system vault.
use vstd::prelude::*;

use crate::balances::Ledger;
use crate::currency_source::{CurrencySource, role_balance};
use crate::registry::{VaultEntry, VaultRegistry};
use crate::threshold::{calculate_collateral, proportion_spec};
use crate::vault::{
    AccountId, Balance, CurrencyId, SystemVault, VaultCurrencyPair, VaultError, VaultId, checked_add,
};

verus! {

/// Collateral a liquidated vault releases when `tokens` of its
/// `to_be_redeemed` tokens are redeemed: the same share of its set-aside
/// collateral.
pub open spec fn released_spec(liquidated_collateral: int, tokens: int, to_be_redeemed: int) -> int {
    proportion_spec(liquidated_collateral, tokens, to_be_redeemed)
}

/// Collateral that redeeming `tokens` against a system vault pays out: the
/// share `tokens / (issued + to_be_issued - to_be_redeemed)` of its
/// collateral.
pub open spec fn liquidation_payout_spec(collateral: int, tokens: int, backed: int) -> int {
    proportion_spec(collateral, tokens, backed)
}

impl VaultRegistry {
    /// Completes a redeem of `tokens` against vault `id` (see
    /// `execute_redeem_tokens`). An active vault also pays `premium` of its
    /// owner's collateral to `redeemer`; a liquidated vault releases the
    /// matching share of its set-aside collateral to its owner's free
    /// balance. All or nothing.
    pub fn redeem_tokens(
        &mut self,
        ledger: &mut Ledger,
        id: &VaultId,
        tokens: Balance,
        premium: Balance,
        redeemer: AccountId,
    ) -> (r: Result<(), VaultError>)
        requires
            old(self).wf(),
            old(ledger).wf(),
        ensures
            final(self).wf(),
            final(ledger).wf(),
            !old(self).has_vault(*id) ==> r == Err::<(), VaultError>(VaultError::VaultNotFound),
            r is Err ==> final(self).same_as(*old(self)) && final(ledger).entries@ == old(ledger).entries@,
            forall|w: VaultId| #[trigger] final(self).has_vault(w) == old(self).has_vault(w),
            forall|p: VaultCurrencyPair| #[trigger] final(self).has_pair(p) == old(self).has_pair(p),
            r is Ok ==> forall|w: VaultId|
                old(self).has_vault(w) && w != *id ==> #[trigger] final(self).entry_of(w) == old(self).entry_of(w),
            r is Ok ==> forall|p: VaultCurrencyPair|
                old(self).has_pair(p) && p != id.currencies ==> #[trigger] final(self).system_of(p) == old(self).system_of(p),
            r is Ok ==> forall|a: AccountId, c: CurrencyId|
                !(c == id.currencies.collateral && (a == redeemer || a == id.account_id)) ==> #[trigger] final(ledger).free_of(a, c) == old(ledger).free_of(a, c),
            r is Ok ==> forall|a: AccountId, c: CurrencyId|
                !(c == id.currencies.collateral && (a == redeemer || a == id.account_id)) ==> #[trigger] final(ledger).reserved_of(a, c) == old(ledger).reserved_of(a, c),
            old(self).has_vault(*id) ==> ({
                let e = old(self).entry_of(*id);
                let s = old(self).system_of(id.currencies);
                let c = id.currencies.collateral;
                let v = e.vault;
                let released = released_spec(
                    v.liquidated_collateral as int,
                    tokens as int,
                    v.to_be_redeemed_tokens as int,
                );
                &&& !v.liquidated() ==> r == (if tokens > v.to_be_redeemed_tokens || tokens > v.issued_tokens {
                    Err::<(), VaultError>(VaultError::InsufficientTokensCommitted)
                } else if premium > 0 && premium > e.pool.vault_collateral {
                    Err::<(), VaultError>(VaultError::InsufficientFunds)
                } else if premium > 0 && old(ledger).free_of(redeemer, c) + premium > u128::MAX {
                    Err::<(), VaultError>(VaultError::ArithmeticOverflow)
                } else {
                    Ok::<(), VaultError>(())
                })
                &&& v.liquidated() ==> r == (if tokens > s.to_be_redeemed_tokens || tokens
                    > v.to_be_redeemed_tokens || tokens > s.issued_tokens {
                    Err::<(), VaultError>(VaultError::InsufficientTokensCommitted)
                } else if old(ledger).free_of(id.account_id, c) + released > u128::MAX {
                    Err::<(), VaultError>(VaultError::ArithmeticOverflow)
                } else {
                    Ok::<(), VaultError>(())
                })
                &&& r is Ok ==> final(self).vault_of(*id).to_be_redeemed_tokens == v.to_be_redeemed_tokens - tokens
                &&& r is Ok && !v.liquidated() ==> {
                    &&& final(self).vault_of(*id) == v.with_to_be_redeemed(
                        (v.to_be_redeemed_tokens - tokens) as u128,
                    ).with_issued((v.issued_tokens - tokens) as u128)
                    &&& final(self).system_of(id.currencies) == s
                    &&& role_balance(CurrencySource::Collateral(*id), *final(self), *final(ledger), c)
                        == e.pool.total_spec() - premium
                    &&& final(ledger).free_of(redeemer, c) == old(ledger).free_of(redeemer, c) + premium
                }
                &&& r is Ok && v.liquidated() ==> {
                    &&& final(self).vault_of(*id) == v.with_to_be_redeemed(
                        (v.to_be_redeemed_tokens - tokens) as u128,
                    ).with_liquidated_collateral((v.liquidated_collateral - released) as u128)
                    &&& final(self).system_of(id.currencies) == s.with_to_be_redeemed(
                        (s.to_be_redeemed_tokens - tokens) as u128,
                    ).with_issued((s.issued_tokens - tokens) as u128)
                    &&& final(ledger).free_of(id.account_id, c) == old(ledger).free_of(id.account_id, c) + released
                }
            }),
    {
        let (i, j) = self.locate(id)?;
        let entry0 = self.vaults[i];
        let system0 = self.pairs[j].liquidation_vault;
        let mut entry = entry0;
        let mut system = system0;
        let currency = id.currencies.collateral;
        entry.vault.execute_redeem_tokens(&mut system, tokens)?;
        let ghost registry0 = *self;
        if !entry0.vault.is_liquidated() {
            if premium > 0 {
                if premium > entry0.pool.vault_collateral {
                    return Err(VaultError::InsufficientFunds);
                }
                if checked_add(ledger.free_balance(redeemer, currency), premium).is_err() {
                    return Err(VaultError::ArithmeticOverflow);
                }
            }
            self.commit(*id, i, j, entry, system);
            proof {
                VaultRegistry::lemma_update_frame(*self, registry0, *id, entry, system);
            }
            if premium > 0 {
                let ghost (registry1, ledger1) = (*self, *ledger);
                let paid = self.transfer_funds(
                    ledger,
                    CurrencySource::Collateral(*id),
                    CurrencySource::FreeBalance(redeemer),
                    currency,
                    premium,
                );
                assert(paid is Ok);
                assert(role_balance(CurrencySource::LiquidatedCollateral(*id), *self, *ledger, currency)
                    == role_balance(CurrencySource::LiquidatedCollateral(*id), registry1, ledger1, currency));
                assert(role_balance(CurrencySource::LiquidationVault(id.currencies), *self, *ledger, currency)
                    == role_balance(CurrencySource::LiquidationVault(id.currencies), registry1, ledger1, currency));
            }
        } else {
            let released = calculate_collateral(
                entry0.vault.liquidated_collateral,
                tokens,
                entry0.vault.to_be_redeemed_tokens,
            )?;
            proof {
                if !(tokens == 0 && entry0.vault.to_be_redeemed_tokens == 0) {
                    let lc = entry0.vault.liquidated_collateral as int;
                    let n = tokens as int;
                    let d = entry0.vault.to_be_redeemed_tokens as int;
                    assert(lc * n / d <= lc) by (nonlinear_arith)
                        requires lc >= 0, 0 <= n <= d, d > 0;
                }
            }
            if checked_add(ledger.free_balance(id.account_id, currency), released).is_err() {
                return Err(VaultError::ArithmeticOverflow);
            }
            self.commit(*id, i, j, entry, system);
            proof {
                VaultRegistry::lemma_update_frame(*self, registry0, *id, entry, system);
            }
            let ghost (registry1, ledger1) = (*self, *ledger);
            let paid = self.transfer_funds(
                ledger,
                CurrencySource::LiquidatedCollateral(*id),
                CurrencySource::FreeBalance(id.account_id),
                currency,
                released,
            );
            assert(paid is Ok);
            assert(role_balance(CurrencySource::LiquidationVault(id.currencies), *self, *ledger, currency)
                == role_balance(CurrencySource::LiquidationVault(id.currencies), registry1, ledger1, currency));
        }
        Ok(())
    }

    /// Redeems `tokens` wrapped tokens of `pair` directly against its system
    /// vault: pays `redeemer` the matching share of the system vault's
    /// collateral and burns the tokens. Returns the collateral paid.
    pub fn redeem_tokens_liquidation(
        &mut self,
        ledger: &mut Ledger,
        pair: &VaultCurrencyPair,
        redeemer: AccountId,
        tokens: Balance,
    ) -> (r: Result<Balance, VaultError>)
        requires
            old(self).wf(),
            old(ledger).wf(),
        ensures
            final(self).wf(),
            final(ledger).wf(),
            !old(self).has_pair(*pair) ==> r == Err::<Balance, VaultError>(VaultError::ThresholdNotSet),
            r is Err ==> final(self).same_as(*old(self)) && final(ledger).entries@ == old(ledger).entries@,
            forall|w: VaultId| #[trigger] final(self).has_vault(w) == old(self).has_vault(w),
            forall|p: VaultCurrencyPair| #[trigger] final(self).has_pair(p) == old(self).has_pair(p),
            r is Ok ==> forall|w: VaultId|
                old(self).has_vault(w) ==> #[trigger] final(self).entry_of(w) == old(self).entry_of(w),
            r is Ok ==> forall|p: VaultCurrencyPair|
                old(self).has_pair(p) && p != *pair ==> #[trigger] final(self).system_of(p) == old(self).system_of(p),
            r is Ok ==> forall|a: AccountId, c: CurrencyId|
                !(c == pair.collateral && a == redeemer) ==> #[trigger] final(ledger).free_of(a, c) == old(ledger).free_of(a, c),
            r is Ok ==> forall|a: AccountId, c: CurrencyId|
                !(c == pair.collateral && a == redeemer) ==> #[trigger] final(ledger).reserved_of(a, c) == old(ledger).reserved_of(a, c),
            old(self).has_pair(*pair) ==> ({
                let s = old(self).system_of(*pair);
                let backed = s.issued_tokens + s.to_be_issued_tokens - s.to_be_redeemed_tokens;
                let paid = liquidation_payout_spec(s.collateral as int, tokens as int, backed);
                &&& r == (if s.to_be_redeemed_tokens > s.issued_tokens {
                    Err::<Balance, VaultError>(VaultError::ArithmeticUnderflow)
                } else if tokens > s.issued_tokens - s.to_be_redeemed_tokens {
                    Err::<Balance, VaultError>(VaultError::InsufficientTokensCommitted)
                } else if s.issued_tokens + s.to_be_issued_tokens > u128::MAX {
                    Err::<Balance, VaultError>(VaultError::ArithmeticOverflow)
                } else if old(ledger).free_of(redeemer, pair.collateral) + paid > u128::MAX {
                    Err::<Balance, VaultError>(VaultError::ArithmeticOverflow)
                } else {
                    Ok::<Balance, VaultError>(paid as Balance)
                })
                &&& r is Ok ==> final(self).system_of(*pair) == s.with_collateral(
                    (s.collateral - paid) as u128,
                ).with_issued((s.issued_tokens - tokens) as u128)
                &&& r is Ok ==> final(ledger).free_of(redeemer, pair.collateral) == old(ledger).free_of(
                    redeemer,
                    pair.collateral,
                ) + paid
            }),
    {
        let system = self.get_liquidation_vault(pair)?;
        let redeemable = system.redeemable_tokens()?;
        if redeemable < tokens {
            return Err(VaultError::InsufficientTokensCommitted);
        }
        let backed = system.to_be_backed_tokens()?;
        let paid = calculate_collateral(system.collateral, tokens, backed)?;
        proof {
            if !(tokens == 0 && backed == 0) {
                let c = system.collateral as int;
                let n = tokens as int;
                let d = backed as int;
                assert(c * n / d <= c) by (nonlinear_arith)
                    requires c >= 0, 0 <= n <= d, d > 0;
            }
        }
        if checked_add(ledger.free_balance(redeemer, pair.collateral), paid).is_err() {
            return Err(VaultError::ArithmeticOverflow);
        }
        let ghost registry0 = *self;
        let moved = self.transfer_funds(
            ledger,
            CurrencySource::LiquidationVault(*pair),
            CurrencySource::FreeBalance(redeemer),
            pair.collateral,
            paid,
        );
        assert(moved is Ok);
        let j = match self.find_pair(pair) {
            Some(j) => j,
            None => return Err(VaultError::ThresholdNotSet),
        };
        let mut burnt = self.pairs[j].liquidation_vault;
        let done = burnt.burn_issued(tokens);
        assert(done is Ok);
        self.commit_system(*pair, j, burnt);
        Ok(paid)
    }
}

impl VaultRegistry {
    /// Completes a replace of `tokens`: they leave `old_id` as a completed
    /// redeem (on its system vault where `old_id` is liquidated, which then
    /// returns the matching share of its set-aside collateral to its
    /// owner's stake) and enter the active vault `new_id` as a completed
    /// issue. All or nothing.
    pub fn replace_tokens(&mut self, old_id: &VaultId, new_id: &VaultId, tokens: Balance) -> (r: Result<
        (),
        VaultError,
    >)
        requires
            old(self).wf(),
        ensures
            final(self).wf(),
            !old(self).has_vault(*old_id) ==> r == Err::<(), VaultError>(VaultError::VaultNotFound),
            old(self).has_vault(*old_id) && !old(self).has_vault(*new_id) ==> r == Err::<(), VaultError>(
                VaultError::VaultNotFound,
            ),
            r is Err ==> final(self).same_as(*old(self)),
            forall|w: VaultId| #[trigger] final(self).has_vault(w) == old(self).has_vault(w),
            forall|p: VaultCurrencyPair| #[trigger] final(self).has_pair(p) == old(self).has_pair(p),
            r is Ok ==> forall|w: VaultId|
                old(self).has_vault(w) && w != *old_id && w != *new_id ==> #[trigger] final(self).entry_of(w) == old(self).entry_of(w),
            r is Ok ==> forall|p: VaultCurrencyPair|
                old(self).has_pair(p) && p != old_id.currencies ==> #[trigger] final(self).system_of(p) == old(self).system_of(p),
            old(self).has_vault(*old_id) && old(self).has_vault(*new_id) ==> ({
                let eo = old(self).entry_of(*old_id);
                let so = old(self).system_of(old_id.currencies);
                let en = old(self).entry_of(*new_id);
                let released = released_spec(
                    eo.vault.liquidated_collateral as int,
                    tokens as int,
                    eo.vault.to_be_redeemed_tokens as int,
                );
                &&& r == (if *old_id == *new_id || en.vault.liquidated() {
                    Err::<(), VaultError>(VaultError::InvalidState)
                } else if !eo.vault.liquidated() && (tokens > eo.vault.to_be_redeemed_tokens || tokens
                    > eo.vault.issued_tokens) {
                    Err::<(), VaultError>(VaultError::InsufficientTokensCommitted)
                } else if eo.vault.liquidated() && (tokens > so.to_be_redeemed_tokens || tokens
                    > eo.vault.to_be_redeemed_tokens || tokens > so.issued_tokens) {
                    Err::<(), VaultError>(VaultError::InsufficientTokensCommitted)
                } else if eo.vault.liquidated() && eo.pool.total_spec() + released > u128::MAX {
                    Err::<(), VaultError>(VaultError::ArithmeticOverflow)
                } else if tokens > en.vault.to_be_issued_tokens {
                    Err::<(), VaultError>(VaultError::InsufficientTokensCommitted)
                } else if en.vault.issued_tokens + tokens > u128::MAX {
                    Err::<(), VaultError>(VaultError::ArithmeticOverflow)
                } else {
                    Ok::<(), VaultError>(())
                })
                &&& r is Ok ==> final(self).vault_of(*new_id) == en.vault.with_to_be_issued(
                    (en.vault.to_be_issued_tokens - tokens) as u128,
                ).with_issued((en.vault.issued_tokens + tokens) as u128)
                &&& r is Ok ==> final(self).pool_of(*new_id) == en.pool
                &&& r is Ok && !eo.vault.liquidated() ==> {
                    &&& final(self).vault_of(*old_id) == eo.vault.with_to_be_redeemed(
                        (eo.vault.to_be_redeemed_tokens - tokens) as u128,
                    ).with_issued((eo.vault.issued_tokens - tokens) as u128)
                    &&& final(self).pool_of(*old_id) == eo.pool
                    &&& final(self).system_of(old_id.currencies) == so
                }
                &&& r is Ok && eo.vault.liquidated() ==> {
                    &&& final(self).vault_of(*old_id) == eo.vault.with_to_be_redeemed(
                        (eo.vault.to_be_redeemed_tokens - tokens) as u128,
                    ).with_liquidated_collateral((eo.vault.liquidated_collateral - released) as u128)
                    &&& final(self).pool_of(*old_id).vault_collateral == eo.pool.vault_collateral + released
                    &&& final(self).pool_of(*old_id).nominated_collateral == eo.pool.nominated_collateral
                    &&& final(self).system_of(old_id.currencies) == so.with_to_be_redeemed(
                        (so.to_be_redeemed_tokens - tokens) as u128,
                    ).with_issued((so.issued_tokens - tokens) as u128)
                }
            }),
    {
        let (i1, j1) = self.locate(old_id)?;
        let (i2, _j2) = self.locate(new_id)?;
        if *old_id == *new_id || self.vaults[i2].vault.is_liquidated() {
            return Err(VaultError::InvalidState);
        }
        let entry0: VaultEntry = self.vaults[i1];
        let system0: SystemVault = self.pairs[j1].liquidation_vault;
        let mut entry = entry0;
        let mut system = system0;
        entry.vault.execute_redeem_tokens(&mut system, tokens)?;
        if entry0.vault.is_liquidated() {
            let released = calculate_collateral(
                entry0.vault.liquidated_collateral,
                tokens,
                entry0.vault.to_be_redeemed_tokens,
            )?;
            proof {
                if !(tokens == 0 && entry0.vault.to_be_redeemed_tokens == 0) {
                    let lc = entry0.vault.liquidated_collateral as int;
                    let n = tokens as int;
                    let d = entry0.vault.to_be_redeemed_tokens as int;
                    assert(lc * n / d <= lc) by (nonlinear_arith)
                        requires lc >= 0, 0 <= n <= d, d > 0;
                }
            }
            let done = entry.vault.decrease_liquidated_collateral(released);
            assert(done is Ok);
            entry.pool.deposit_vault_stake(released)?;
        }
        let ghost registry0 = *self;
        self.commit(*old_id, i1, j1, entry, system);
        proof {
            VaultRegistry::lemma_update_frame(*self, registry0, *old_id, entry, system);
        }
        let (k2, l2) = match self.locate(new_id) {
            Ok(x) => x,
            Err(e) => return Err(e),
        };
        let mut new_entry = self.vaults[k2];
        let mut new_system = self.pairs[l2].liquidation_vault;
        match new_entry.vault.execute_issue_tokens(&mut new_system, tokens) {
            Ok(()) => {
                let ghost registry1 = *self;
                self.commit(*new_id, k2, l2, new_entry, new_system);
                proof {
                    VaultRegistry::lemma_update_frame(*self, registry1, *new_id, new_entry, new_system);
                }
                Ok(())
            },
            Err(e) => {
                let ghost registry1 = *self;
                let (k1, l1) = match self.locate(old_id) {
                    Ok(x) => x,
                    Err(e2) => return Err(e2),
                };
                self.commit(*old_id, k1, l1, entry0, system0);
                proof {
                    assert(self.vaults@ =~= registry0.vaults@);
                    assert(self.pairs@ =~= registry0.pairs@);
                }
                Err(e)
            },
        }
    }
}

} // verus!
