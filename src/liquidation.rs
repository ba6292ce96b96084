//! Liquidation engine: moves the tokens and the seized collateral of an
//! undercollateralized vault into the system vault of its currency pair.
use vstd::prelude::*;

use crate::staking::CollateralPool;
use crate::threshold::{
    ExchangeRate, calculate_collateral, proportion_spec, used_collateral,
    used_collateral_fits,
    used_collateral_spec,
};
use crate::vault::{Balance, SystemVault, UnsignedFixedPoint, Vault, VaultError, VaultStatus};

verus! {

/// Part of the seized collateral that goes to the system vault:
/// `liquidated * (backed - to_be_redeemed) / backed`.
pub open spec fn for_liquidation_vault_spec(liquidated: int, backed: int, to_be_redeemed: int) -> int {
    proportion_spec(liquidated, backed - to_be_redeemed, backed)
}

/// Splits the seized collateral `liquidated` of a vault backing `backed`
/// tokens, `to_be_redeemed` of them being redeemed, into the part for the
/// system vault and the part kept for the pending redemptions. The two parts
/// add up to `liquidated` exactly.
pub fn split_liquidated_collateral(liquidated: Balance, backed: Balance, to_be_redeemed: Balance) -> (r: Result<
    (Balance, Balance),
    VaultError,
>)
    ensures
        to_be_redeemed > backed ==> r == Err::<(Balance, Balance), VaultError>(VaultError::ArithmeticUnderflow),
        to_be_redeemed <= backed ==> {
            &&& r is Ok
            &&& r->Ok_0.0 == for_liquidation_vault_spec(liquidated as int, backed as int, to_be_redeemed as int)
            &&& r->Ok_0.0 + r->Ok_0.1 == liquidated
        },
{
    if to_be_redeemed > backed {
        return Err(VaultError::ArithmeticUnderflow);
    }
    let for_liquidation_vault = match calculate_collateral(liquidated, backed - to_be_redeemed, backed) {
        Ok(v) => v,
        Err(e) => return Err(e),
    };
    Ok((for_liquidation_vault, liquidated - for_liquidation_vault))
}

/// Collateral that a liquidation seizes: what the backed tokens lock at the
/// liquidation threshold, capped at the pool's total.
pub open spec fn seized_spec(vault: Vault, pool: CollateralPool, rate: ExchangeRate, threshold: u128) -> int {
    used_collateral_spec(pool.total_spec(), vault.backed_spec(), rate, threshold as int)
}

/// The outcome of liquidating `vault` with collateral `pool` into `system`:
/// the new vault, pool and system vault and the collateral moved to the
/// system vault, or the error that leaves all three as they were.
pub open spec fn liquidation_spec(
    vault: Vault,
    pool: CollateralPool,
    system: SystemVault,
    rate: ExchangeRate,
    threshold: u128,
) -> Result<(Vault, CollateralPool, SystemVault, Balance), VaultError> {
    if vault.liquidated() {
        Err(VaultError::InvalidState)
    } else if vault.backed_spec() > u128::MAX || !used_collateral_fits(
        vault.backed_spec(),
        rate,
        threshold as int,
    ) {
        Err(VaultError::ArithmeticOverflow)
    } else {
        let seized = seized_spec(vault, pool, rate, threshold);
        let backed = vault.backed_spec();
        let to_be_redeemed = vault.to_be_redeemed_tokens as int;
        if to_be_redeemed > backed {
            Err(VaultError::ArithmeticUnderflow)
        } else {
            let for_system = for_liquidation_vault_spec(seized, backed, to_be_redeemed);
            let for_redeem = seized - for_system;
            let kept = if pool.vault_collateral < for_redeem {
                pool.vault_collateral as int
            } else {
                for_redeem
            };
            let own_left = pool.vault_collateral - kept;
            let slashed = if for_system >= own_left {
                for_system - own_left
            } else {
                0
            };
            if vault.liquidated_collateral + kept > u128::MAX || system.collateral + for_system > u128::MAX
                || system.issued_tokens + vault.issued_tokens > u128::MAX || system.to_be_issued_tokens
                + vault.to_be_issued_tokens > u128::MAX || system.to_be_redeemed_tokens
                + vault.to_be_redeemed_tokens > u128::MAX {
                Err(VaultError::ArithmeticOverflow)
            } else {
                Ok(
                    (
                        Vault {
                            status: VaultStatus::Liquidated,
                            issued_tokens: 0,
                            to_be_issued_tokens: 0,
                            liquidated_collateral: (vault.liquidated_collateral + kept) as u128,
                            ..vault
                        },
                        CollateralPool {
                            vault_collateral: (own_left - (for_system - slashed)) as u128,
                            nominated_collateral: (pool.nominated_collateral - slashed) as u128,
                            reward_stake: 0,
                        },
                        SystemVault {
                            issued_tokens: (system.issued_tokens + vault.issued_tokens) as u128,
                            to_be_issued_tokens: (system.to_be_issued_tokens
                                + vault.to_be_issued_tokens) as u128,
                            to_be_redeemed_tokens: (system.to_be_redeemed_tokens
                                + vault.to_be_redeemed_tokens) as u128,
                            collateral: (system.collateral + for_system) as u128,
                            ..system
                        },
                        for_system as u128,
                    ),
                )
            }
        }
    }
}

/// Sets aside up to `amount` of the owner's own collateral as the vault's
/// liquidated collateral, for the tokens still being redeemed.
pub fn slash_for_to_be_redeemed(vault: &mut Vault, pool: &mut CollateralPool, amount: Balance) -> (r: Result<
    (),
    VaultError,
>)
    requires
        old(pool).wf(),
    ensures
        ({
            let kept = if old(pool).vault_collateral < amount {
                old(pool).vault_collateral
            } else {
                amount
            };
            &&& r is Err <==> old(vault).liquidated_collateral + kept > u128::MAX
            &&& r is Err ==> r == Err::<(), VaultError>(VaultError::ArithmeticOverflow)
            &&& r is Ok ==> *final(vault) == old(vault).with_liquidated_collateral(
                (old(vault).liquidated_collateral + kept) as u128,
            )
            &&& r is Ok ==> *final(pool) == (CollateralPool {
                vault_collateral: (old(pool).vault_collateral - kept) as u128,
                ..*old(pool)
            })
        }),
        r is Err ==> *final(vault) == *old(vault) && *final(pool) == *old(pool),
        final(pool).wf(),
{
    let own = pool.get_vault_collateral();
    let kept = if own < amount {
        own
    } else {
        amount
    };
    vault.increase_liquidated_collateral(kept)?;
    let withdrawn = pool.withdraw_vault_stake(kept);
    assert(withdrawn is Ok);
    Ok(())
}

/// Moves `amount` of the vault's pool into the system vault: first the
/// owner's own collateral, then, for what remains, the nominators'. More
/// than the pool holds is refused.
pub fn slash_to_liquidation_vault(pool: &mut CollateralPool, system: &mut SystemVault, amount: Balance) -> (r:
    Result<(), VaultError>)
    requires
        old(pool).wf(),
    ensures
        amount > old(pool).total_spec() ==> r == Err::<(), VaultError>(VaultError::InsufficientFunds),
        ({
            let own = old(pool).vault_collateral;
            let slashed = if amount >= own {
                amount - own
            } else {
                0
            };
            &&& amount <= old(pool).total_spec() ==> (r is Err <==> old(system).collateral + amount > u128::MAX)
            &&& amount <= old(pool).total_spec() && r is Err ==> r == Err::<(), VaultError>(
                VaultError::ArithmeticOverflow,
            )
            &&& r is Ok ==> *final(pool) == (CollateralPool {
                vault_collateral: (own - (amount - slashed)) as u128,
                nominated_collateral: (old(pool).nominated_collateral - slashed) as u128,
                ..*old(pool)
            })
            &&& r is Ok ==> *final(system) == old(system).with_collateral(
                (old(system).collateral + amount) as u128,
            )
        }),
        r is Err ==> *final(pool) == *old(pool) && *final(system) == *old(system),
        final(pool).wf(),
{
    if amount > pool.get_total_collateral() {
        return Err(VaultError::InsufficientFunds);
    }
    let own = pool.get_vault_collateral();
    let (to_withdraw, to_slash) = if amount >= own {
        (own, amount - own)
    } else {
        (amount, 0)
    };
    system.increase_collateral(amount)?;
    let withdrawn = pool.withdraw_vault_stake(to_withdraw);
    assert(withdrawn is Ok);
    let slashed = pool.slash_collateral(to_slash);
    assert(slashed is Ok);
    Ok(())
}

fn liquidate_steps(
    vault: &mut Vault,
    pool: &mut CollateralPool,
    system: &mut SystemVault,
    rate: ExchangeRate,
    threshold: UnsignedFixedPoint,
) -> (r: Result<Balance, VaultError>)
    requires
        old(pool).wf(),
        rate.wf(),
    ensures
        ({
            let s = liquidation_spec(*old(vault), *old(pool), *old(system), rate, threshold);
            &&& r is Ok <==> s is Ok
            &&& r is Err ==> r->Err_0 == s->Err_0
            &&& r is Ok ==> (*final(vault), *final(pool), *final(system), r->Ok_0) == s->Ok_0
        }),
{
    if vault.is_liquidated() {
        return Err(VaultError::InvalidState);
    }
    let backed = vault.backed_tokens()?;
    let total = pool.get_total_collateral();
    let seized = used_collateral(total, backed, rate, threshold)?;
    let (for_system, for_redeem) = split_liquidated_collateral(seized, backed, vault.to_be_redeemed_tokens)?;
    slash_for_to_be_redeemed(vault, pool, for_redeem)?;
    slash_to_liquidation_vault(pool, system, for_system)?;
    system.increase_issued(vault.issued_tokens)?;
    system.increase_to_be_issued(vault.to_be_issued_tokens)?;
    system.increase_to_be_redeemed(vault.to_be_redeemed_tokens)?;
    pool.set_stake(0);
    vault.to_be_issued_tokens = 0;
    vault.issued_tokens = 0;
    vault.status = VaultStatus::Liquidated;
    Ok(for_system)
}

/// Liquidates `vault`: seizes the collateral that its issued and
/// to-be-issued tokens lock at the liquidation `threshold`, keeps the share
/// of the tokens being redeemed as the vault's liquidated collateral, moves
/// the rest into `system` (owner's collateral first, then nominators'),
/// copies the vault's token counters into `system`, stops the pool's rewards,
/// zeroes the vault's issued and to-be-issued tokens and marks it
/// liquidated. Returns the collateral moved into `system`. All or nothing.
pub fn liquidate(
    vault: &mut Vault,
    pool: &mut CollateralPool,
    system: &mut SystemVault,
    rate: ExchangeRate,
    threshold: UnsignedFixedPoint,
) -> (r: Result<Balance, VaultError>)
    requires
        old(pool).wf(),
        rate.wf(),
    ensures
        ({
            let s = liquidation_spec(*old(vault), *old(pool), *old(system), rate, threshold);
            &&& r is Ok <==> s is Ok
            &&& r is Err ==> r->Err_0 == s->Err_0
            &&& r is Ok ==> (*final(vault), *final(pool), *final(system), r->Ok_0) == s->Ok_0
        }),
        r is Err ==> *final(vault) == *old(vault) && *final(pool) == *old(pool) && *final(system) == *old(
            system,
        ),
{
    let saved = (*vault, *pool, *system);
    match liquidate_steps(vault, pool, system, rate, threshold) {
        Ok(moved) => Ok(moved),
        Err(e) => {
            *vault = saved.0;
            *pool = saved.1;
            *system = saved.2;
            Err(e)
        },
    }
}

/// The split of a successful liquidation: the system vault receives
/// `seized * (backed - to_be_redeemed) / backed` (all of it where nothing is
/// backed), the vault sets aside the rest of the seized collateral as far as
/// its owner's own collateral reaches, and the two shares add up to the
/// seized collateral.
pub proof fn liquidation_split(
    vault: Vault,
    pool: CollateralPool,
    system: SystemVault,
    rate: ExchangeRate,
    threshold: u128,
)
    requires
        liquidation_spec(vault, pool, system, rate, threshold) is Ok,
        rate.wf(),
        pool.wf(),
    ensures
        ({
            let (v, p, s, moved) = liquidation_spec(vault, pool, system, rate, threshold)->Ok_0;
            let seized = seized_spec(vault, pool, rate, threshold);
            let backed = vault.backed_spec();
            let for_redeem = seized - moved;
            &&& moved == for_liquidation_vault_spec(seized, backed, vault.to_be_redeemed_tokens as int)
            &&& backed > 0 ==> moved == seized * (backed - vault.to_be_redeemed_tokens) / backed
            &&& backed == 0 ==> moved == seized
            &&& 0 <= moved <= seized
            &&& s.collateral == system.collateral + moved
            &&& v.liquidated_collateral == vault.liquidated_collateral + (if pool.vault_collateral < for_redeem {
                pool.vault_collateral as int
            } else {
                for_redeem
            })
            &&& vault.to_be_redeemed_tokens == 0 ==> moved == seized
            &&& vault.to_be_redeemed_tokens == backed ==> moved == 0
        }),
{
    let seized = seized_spec(vault, pool, rate, threshold);
    let backed = vault.backed_spec();
    let t = vault.to_be_redeemed_tokens as int;
    let w = crate::threshold::wrapped_in_collateral(backed, rate);
    assert(w >= 0) by (nonlinear_arith)
        requires backed >= 0, rate.wf(), w == backed * rate.collateral / rate.wrapped as int;
    let needed = crate::threshold::scaled(w, threshold as int);
    assert(needed >= 0) by (nonlinear_arith)
        requires w >= 0, threshold >= 0, needed == w * threshold / 100_000int;
    assert(0 <= seized <= pool.total_spec());
    if backed == 0 {
        assert(w == 0) by (nonlinear_arith)
            requires backed == 0, rate.wf(), w == backed * rate.collateral / rate.wrapped as int;
        assert(needed == 0) by (nonlinear_arith)
            requires w == 0, needed == w * threshold / 100_000int;
    }
    crate::threshold::lemma_proportion_bounded(seized, backed - t, backed);
    if backed > 0 && t == 0 {
        assert(seized * backed / backed == seized) by (nonlinear_arith)
            requires backed > 0;
    }
    if backed > 0 && t == backed {
        assert(seized * 0 / backed == 0) by (nonlinear_arith)
            requires backed > 0;
    }
}

/// Issued and to-be-issued tokens of a vault and of the system vault of its
/// pair, together.
pub open spec fn pair_tokens(vault: Vault, system: SystemVault) -> int {
    vault.issued_tokens + vault.to_be_issued_tokens + system.issued_tokens + system.to_be_issued_tokens
}

/// A liquidation moves issued and to-be-issued tokens from the vault to the
/// system vault without changing their sum.
pub proof fn liquidation_conserves_tokens(
    vault: Vault,
    pool: CollateralPool,
    system: SystemVault,
    rate: ExchangeRate,
    threshold: u128,
)
    requires
        liquidation_spec(vault, pool, system, rate, threshold) is Ok,
    ensures
        ({
            let (v, p, s, moved) = liquidation_spec(vault, pool, system, rate, threshold)->Ok_0;
            pair_tokens(v, s) == pair_tokens(vault, system)
        }),
{
}

/// After a liquidation the vault is liquidated with no issued or
/// to-be-issued tokens, its to-be-redeemed tokens unchanged; liquidating it
/// again fails with `InvalidState`, whatever the pool, system vault, rate and
/// threshold.
pub proof fn liquidation_is_terminal(
    vault: Vault,
    pool: CollateralPool,
    system: SystemVault,
    rate: ExchangeRate,
    threshold: u128,
    pool2: CollateralPool,
    system2: SystemVault,
    rate2: ExchangeRate,
    threshold2: u128,
)
    requires
        liquidation_spec(vault, pool, system, rate, threshold) is Ok,
    ensures
        ({
            let (v, p, s, moved) = liquidation_spec(vault, pool, system, rate, threshold)->Ok_0;
            &&& v.status == VaultStatus::Liquidated
            &&& v.issued_tokens == 0
            &&& v.to_be_issued_tokens == 0
            &&& v.to_be_redeemed_tokens == vault.to_be_redeemed_tokens
            &&& liquidation_spec(v, pool2, system2, rate2, threshold2) == Err::<
                (Vault, CollateralPool, SystemVault, Balance),
                VaultError,
            >(VaultError::InvalidState)
        }),
{
}

} // verus!
