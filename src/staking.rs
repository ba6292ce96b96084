//! The collateral pool of one vault: what its owner staked and what
//! nominators staked, and the stake that earns rewards.
use vstd::prelude::*;

use crate::vault::{Balance, VaultError, add_spec, checked_add, checked_sub, sub_spec, unit_of};

verus! {

/// Collateral staked in a vault's pool.
#[derive(Clone, Copy, Debug, PartialEq, Eq, Structural)]
pub struct CollateralPool {
    /// Collateral of the vault's owner.
    pub vault_collateral: Balance,
    /// Collateral of the nominators, together.
    pub nominated_collateral: Balance,
    /// Stake of the vault in the reward pool.
    pub reward_stake: Balance,
}

impl CollateralPool {
    /// The pool's total fits in a `u128`.
    pub open spec fn wf(self) -> bool {
        self.vault_collateral + self.nominated_collateral <= u128::MAX
    }

    /// All collateral backing the vault.
    pub open spec fn total_spec(self) -> int {
        self.vault_collateral + self.nominated_collateral
    }

    pub open spec fn new_spec(collateral: Balance) -> CollateralPool {
        CollateralPool { vault_collateral: collateral, nominated_collateral: 0, reward_stake: collateral }
    }

    /// A pool holding `collateral` of the owner, all of it staked for
    /// rewards.
    pub fn new(collateral: Balance) -> (r: CollateralPool)
        ensures
            r == CollateralPool::new_spec(collateral),
            r.wf(),
    {
        CollateralPool { vault_collateral: collateral, nominated_collateral: 0, reward_stake: collateral }
    }

    /// Collateral of the owner alone.
    pub fn get_vault_collateral(&self) -> (r: Balance)
        ensures
            r == self.vault_collateral,
    {
        self.vault_collateral
    }

    /// Owner's and nominators' collateral together.
    pub fn get_total_collateral(&self) -> (r: Balance)
        requires
            self.wf(),
        ensures
            r == self.total_spec(),
    {
        self.vault_collateral + self.nominated_collateral
    }

    /// Adds collateral of the owner (`nominator == false`) or of nominators,
    /// and stakes it for rewards.
    pub fn deposit_collateral(&mut self, nominator: bool, amount: Balance) -> (r: Result<(), VaultError>)
        requires
            old(self).wf(),
        ensures
            r == (if old(self).total_spec() + amount > u128::MAX || old(self).reward_stake + amount
                > u128::MAX {
                Err::<(), VaultError>(VaultError::ArithmeticOverflow)
            } else {
                Ok::<(), VaultError>(())
            }),
            r is Ok && !nominator ==> *final(self) == (CollateralPool {
                vault_collateral: (old(self).vault_collateral + amount) as u128,
                reward_stake: (old(self).reward_stake + amount) as u128,
                ..*old(self)
            }),
            r is Ok && nominator ==> *final(self) == (CollateralPool {
                nominated_collateral: (old(self).nominated_collateral + amount) as u128,
                reward_stake: (old(self).reward_stake + amount) as u128,
                ..*old(self)
            }),
            r is Err ==> *final(self) == *old(self),
            final(self).wf(),
    {
        let total = self.vault_collateral + self.nominated_collateral;
        checked_add(total, amount)?;
        let stake = checked_add(self.reward_stake, amount)?;
        if nominator {
            self.nominated_collateral = self.nominated_collateral + amount;
        } else {
            self.vault_collateral = self.vault_collateral + amount;
        }
        self.reward_stake = stake;
        Ok(())
    }

    /// Takes collateral of the owner (`nominator == false`) or of nominators
    /// out of the pool and out of the reward stake; never more than there
    /// is.
    pub fn withdraw_collateral(&mut self, nominator: bool, amount: Balance) -> (r: Result<(), VaultError>)
        requires
            old(self).wf(),
        ensures
            r == (if nominator {
                unit_of(sub_spec(old(self).nominated_collateral, amount, VaultError::InsufficientFunds))
            } else {
                unit_of(sub_spec(old(self).vault_collateral, amount, VaultError::InsufficientFunds))
            }),
            r is Ok && !nominator ==> *final(self) == (CollateralPool {
                vault_collateral: (old(self).vault_collateral - amount) as u128,
                reward_stake: if amount <= old(self).reward_stake {
                    (old(self).reward_stake - amount) as u128
                } else {
                    0
                },
                ..*old(self)
            }),
            r is Ok && nominator ==> *final(self) == (CollateralPool {
                nominated_collateral: (old(self).nominated_collateral - amount) as u128,
                reward_stake: if amount <= old(self).reward_stake {
                    (old(self).reward_stake - amount) as u128
                } else {
                    0
                },
                ..*old(self)
            }),
            r is Err ==> *final(self) == *old(self),
            final(self).wf(),
    {
        if nominator {
            self.nominated_collateral = checked_sub(self.nominated_collateral, amount, VaultError::InsufficientFunds)?;
        } else {
            self.vault_collateral = checked_sub(self.vault_collateral, amount, VaultError::InsufficientFunds)?;
        }
        self.reward_stake = self.reward_stake.saturating_sub(amount);
        Ok(())
    }

    /// Takes collateral out of the owner's stake without touching the reward
    /// stake; never more than the owner has.
    pub fn withdraw_vault_stake(&mut self, amount: Balance) -> (r: Result<(), VaultError>)
        requires
            old(self).wf(),
        ensures
            r == unit_of(sub_spec(old(self).vault_collateral, amount, VaultError::InsufficientFunds)),
            r is Ok ==> *final(self) == (CollateralPool {
                vault_collateral: (old(self).vault_collateral - amount) as u128,
                ..*old(self)
            }),
            r is Err ==> *final(self) == *old(self),
            final(self).wf(),
    {
        self.vault_collateral = checked_sub(self.vault_collateral, amount, VaultError::InsufficientFunds)?;
        Ok(())
    }

    /// Adds collateral to the owner's stake without touching the reward
    /// stake.
    pub fn deposit_vault_stake(&mut self, amount: Balance) -> (r: Result<(), VaultError>)
        requires
            old(self).wf(),
        ensures
            r == unit_of(add_spec(old(self).total_spec() as u128, amount)),
            r is Ok ==> *final(self) == (CollateralPool {
                vault_collateral: (old(self).vault_collateral + amount) as u128,
                ..*old(self)
            }),
            r is Err ==> *final(self) == *old(self),
            final(self).wf(),
    {
        checked_add(self.vault_collateral + self.nominated_collateral, amount)?;
        self.vault_collateral = self.vault_collateral + amount;
        Ok(())
    }

    /// Slashes `amount` from the nominators' stake; never more than they
    /// have.
    pub fn slash_collateral(&mut self, amount: Balance) -> (r: Result<(), VaultError>)
        requires
            old(self).wf(),
        ensures
            r == unit_of(sub_spec(old(self).nominated_collateral, amount, VaultError::InsufficientFunds)),
            r is Ok ==> *final(self) == (CollateralPool {
                nominated_collateral: (old(self).nominated_collateral - amount) as u128,
                ..*old(self)
            }),
            r is Err ==> *final(self) == *old(self),
            final(self).wf(),
    {
        self.nominated_collateral = checked_sub(
            self.nominated_collateral,
            amount,
            VaultError::InsufficientFunds,
        )?;
        Ok(())
    }

    /// Sets the reward stake.
    pub fn set_stake(&mut self, stake: Balance)
        ensures
            *final(self) == (CollateralPool { reward_stake: stake, ..*old(self) }),
    {
        self.reward_stake = stake;
    }
}

} // verus!
