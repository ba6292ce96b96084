//! Vault records: the per-vault ledger of token counters, its ban state, and
//! the per-pair system (liquidation) vault that absorbs liquidated vaults.
use vstd::prelude::*;

use crate::threshold::{
    ExchangeRate, max_tokens_fits, max_tokens_for_collateral, max_tokens_spec, used_collateral, used_collateral_fits,
    used_collateral_spec,
};

verus! {

pub type AccountId = u64;

pub type CurrencyId = u32;

pub type BlockNumber = u32;

pub type Balance = u128;

/// A ratio with `threshold::SCALE` standing for 100%.
pub type UnsignedFixedPoint = u128;

/// What can make a vault operation fail.
#[derive(Clone, Copy, Debug, PartialEq, Eq, Structural)]
pub enum VaultError {
    VaultNotFound,
    VaultAlreadyRegistered,
    ThresholdNotSet,
    InsufficientCollateral,
    InsufficientFunds,
    InsufficientTokensCommitted,
    ExceedingVaultLimit,
    ThresholdViolation,
    VaultBanned,
    InvalidState,
    InvalidThresholds,
    InvalidExchangeRate,
    InvalidCurrency,
    ArithmeticOverflow,
    ArithmeticUnderflow,
}

/// The collateral currency and the wrapped currency of a vault.
#[derive(Clone, Copy, Debug, PartialEq, Eq, Structural)]
pub struct VaultCurrencyPair {
    pub collateral: CurrencyId,
    pub wrapped: CurrencyId,
}

/// A vault's key: its owner and its currency pair.
#[derive(Clone, Copy, Debug, PartialEq, Eq, Structural)]
pub struct VaultId {
    pub account_id: AccountId,
    pub currencies: VaultCurrencyPair,
}

impl VaultId {
    pub fn new(account_id: AccountId, collateral: CurrencyId, wrapped: CurrencyId) -> (r: VaultId)
        ensures
            r.account_id == account_id,
            r.currencies.collateral == collateral,
            r.currencies.wrapped == wrapped,
    {
        VaultId { account_id, currencies: VaultCurrencyPair { collateral, wrapped } }
    }

    pub fn collateral_currency(&self) -> (r: CurrencyId)
        ensures
            r == self.currencies.collateral,
    {
        self.currencies.collateral
    }

    pub fn wrapped_currency(&self) -> (r: CurrencyId)
        ensures
            r == self.currencies.wrapped,
    {
        self.currencies.wrapped
    }
}

/// Layout version of stored vault records.
#[derive(Clone, Copy, Debug, PartialEq, Eq, Structural)]
pub enum Version {
    /// Initial version.
    V0,
    /// Bitcoin addresses in script format.
    V1,
    /// Replace collateral added to the vault, status enum changed.
    V2,
    /// Public key moved out of the vault record.
    V3,
    /// Fixed liquidation vault.
    V4,
    /// Custom per-vault secure collateral threshold.
    V5,
    /// Wallet removed.
    V6,
    /// Replace fields removed from the vault record.
    V7,
}

/// Life-cycle state of a vault.
#[derive(Clone, Copy, Debug, PartialEq, Eq, Structural)]
pub enum VaultStatus {
    /// Active; the flag says whether it accepts new issue requests.
    Active(bool),
    /// Liquidated, for good.
    Liquidated,
}

impl Default for VaultStatus {
    fn default() -> (r: VaultStatus)
        ensures
            r == VaultStatus::Active(true),
    {
        VaultStatus::Active(true)
    }
}

/// The record of one vault.
#[derive(Clone, Copy, Debug, PartialEq, Eq, Structural)]
pub struct Vault {
    pub id: VaultId,
    pub status: VaultStatus,
    /// Last block height at which the vault is still banned.
    pub banned_until: Option<BlockNumber>,
    /// Custom secure collateral threshold; the global one still applies
    /// where it is higher.
    pub secure_collateral_threshold: Option<UnsignedFixedPoint>,
    /// Tokens of open issue requests.
    pub to_be_issued_tokens: Balance,
    /// Tokens issued and backed by this vault.
    pub issued_tokens: Balance,
    /// Tokens of open redeem requests.
    pub to_be_redeemed_tokens: Balance,
    /// Collateral set aside at liquidation for the tokens still being
    /// redeemed.
    pub liquidated_collateral: Balance,
}

/// The aggregate vault of one currency pair that takes over the tokens and
/// collateral of liquidated vaults.
#[derive(Clone, Copy, Debug, PartialEq, Eq, Structural)]
pub struct SystemVault {
    pub to_be_issued_tokens: Balance,
    pub issued_tokens: Balance,
    pub to_be_redeemed_tokens: Balance,
    pub collateral: Balance,
    pub currency_pair: VaultCurrencyPair,
}

/// `a + b` where it fits in a `u128`, else the overflow error.
pub open spec fn add_spec(a: u128, b: u128) -> Result<u128, VaultError> {
    if a + b <= u128::MAX {
        Ok((a + b) as u128)
    } else {
        Err(VaultError::ArithmeticOverflow)
    }
}

/// `a - b` where `b <= a`, else `err`.
pub open spec fn sub_spec(a: u128, b: u128, err: VaultError) -> Result<u128, VaultError> {
    if b <= a {
        Ok((a - b) as u128)
    } else {
        Err(err)
    }
}

/// Outcome of a checked update: the error of `r`, or `Ok` where it holds a
/// value.
pub open spec fn unit_of(r: Result<u128, VaultError>) -> Result<(), VaultError> {
    match r {
        Ok(_) => Ok(()),
        Err(e) => Err(e),
    }
}

pub fn checked_add(a: Balance, b: Balance) -> (r: Result<Balance, VaultError>)
    ensures
        r == add_spec(a, b),
{
    match a.checked_add(b) {
        Some(v) => Ok(v),
        None => Err(VaultError::ArithmeticOverflow),
    }
}

pub fn checked_sub(a: Balance, b: Balance, err: VaultError) -> (r: Result<Balance, VaultError>)
    ensures
        r == sub_spec(a, b, err),
{
    if b <= a {
        Ok(a - b)
    } else {
        Err(err)
    }
}

impl SystemVault {
    pub open spec fn with_issued(self, v: u128) -> SystemVault {
        SystemVault { issued_tokens: v, ..self }
    }

    pub open spec fn with_to_be_issued(self, v: u128) -> SystemVault {
        SystemVault { to_be_issued_tokens: v, ..self }
    }

    pub open spec fn with_to_be_redeemed(self, v: u128) -> SystemVault {
        SystemVault { to_be_redeemed_tokens: v, ..self }
    }

    pub open spec fn with_collateral(self, v: u128) -> SystemVault {
        SystemVault { collateral: v, ..self }
    }

    pub open spec fn new_spec(currency_pair: VaultCurrencyPair) -> SystemVault {
        SystemVault {
            to_be_issued_tokens: 0,
            issued_tokens: 0,
            to_be_redeemed_tokens: 0,
            collateral: 0,
            currency_pair,
        }
    }

    /// An empty system vault for `currency_pair`.
    pub fn new(currency_pair: VaultCurrencyPair) -> (r: SystemVault)
        ensures
            r == SystemVault::new_spec(currency_pair),
    {
        SystemVault {
            to_be_issued_tokens: 0,
            issued_tokens: 0,
            to_be_redeemed_tokens: 0,
            collateral: 0,
            currency_pair,
        }
    }

    pub fn issued_tokens(&self) -> (r: Balance)
        ensures
            r == self.issued_tokens,
    {
        self.issued_tokens
    }

    pub fn to_be_issued_tokens(&self) -> (r: Balance)
        ensures
            r == self.to_be_issued_tokens,
    {
        self.to_be_issued_tokens
    }

    pub fn to_be_redeemed_tokens(&self) -> (r: Balance)
        ensures
            r == self.to_be_redeemed_tokens,
    {
        self.to_be_redeemed_tokens
    }

    pub fn collateral(&self) -> (r: Balance)
        ensures
            r == self.collateral,
    {
        self.collateral
    }

    pub fn wrapped_currency(&self) -> (r: CurrencyId)
        ensures
            r == self.currency_pair.wrapped,
    {
        self.currency_pair.wrapped
    }

    /// Issued tokens not yet claimed by a redeem request.
    pub fn redeemable_tokens(&self) -> (r: Result<Balance, VaultError>)
        ensures
            r == sub_spec(self.issued_tokens, self.to_be_redeemed_tokens, VaultError::ArithmeticUnderflow),
    {
        checked_sub(self.issued_tokens, self.to_be_redeemed_tokens, VaultError::ArithmeticUnderflow)
    }

    /// Issued and to-be-issued tokens that are not being redeemed.
    pub fn to_be_backed_tokens(&self) -> (r: Result<Balance, VaultError>)
        ensures
            self.issued_tokens + self.to_be_issued_tokens > u128::MAX ==> r == Err::<Balance, VaultError>(
                VaultError::ArithmeticOverflow,
            ),
            self.issued_tokens + self.to_be_issued_tokens <= u128::MAX ==> r == sub_spec(
                (self.issued_tokens + self.to_be_issued_tokens) as u128,
                self.to_be_redeemed_tokens,
                VaultError::ArithmeticUnderflow,
            ),
    {
        let backed = checked_add(self.issued_tokens, self.to_be_issued_tokens)?;
        checked_sub(backed, self.to_be_redeemed_tokens, VaultError::ArithmeticUnderflow)
    }

    pub fn increase_issued(&mut self, tokens: Balance) -> (r: Result<(), VaultError>)
        ensures
            r == unit_of(add_spec(old(self).issued_tokens, tokens)),
            r is Ok ==> *final(self) == old(self).with_issued((old(self).issued_tokens + tokens) as u128),
            r is Err ==> *final(self) == *old(self),
    {
        self.issued_tokens = checked_add(self.issued_tokens, tokens)?;
        Ok(())
    }

    pub fn increase_to_be_issued(&mut self, tokens: Balance) -> (r: Result<(), VaultError>)
        ensures
            r == unit_of(add_spec(old(self).to_be_issued_tokens, tokens)),
            r is Ok ==> *final(self) == old(self).with_to_be_issued(
                (old(self).to_be_issued_tokens + tokens) as u128,
            ),
            r is Err ==> *final(self) == *old(self),
    {
        self.to_be_issued_tokens = checked_add(self.to_be_issued_tokens, tokens)?;
        Ok(())
    }

    pub fn increase_to_be_redeemed(&mut self, tokens: Balance) -> (r: Result<(), VaultError>)
        ensures
            r == unit_of(add_spec(old(self).to_be_redeemed_tokens, tokens)),
            r is Ok ==> *final(self) == old(self).with_to_be_redeemed(
                (old(self).to_be_redeemed_tokens + tokens) as u128,
            ),
            r is Err ==> *final(self) == *old(self),
    {
        self.to_be_redeemed_tokens = checked_add(self.to_be_redeemed_tokens, tokens)?;
        Ok(())
    }

    pub fn increase_collateral(&mut self, amount: Balance) -> (r: Result<(), VaultError>)
        ensures
            r == unit_of(add_spec(old(self).collateral, amount)),
            r is Ok ==> *final(self) == old(self).with_collateral((old(self).collateral + amount) as u128),
            r is Err ==> *final(self) == *old(self),
    {
        self.collateral = checked_add(self.collateral, amount)?;
        Ok(())
    }

    pub fn decrease_issued(&mut self, tokens: Balance) -> (r: Result<(), VaultError>)
        ensures
            r == unit_of(sub_spec(old(self).issued_tokens, tokens, VaultError::InsufficientTokensCommitted)),
            r is Ok ==> *final(self) == old(self).with_issued((old(self).issued_tokens - tokens) as u128),
            r is Err ==> *final(self) == *old(self),
    {
        self.issued_tokens = checked_sub(self.issued_tokens, tokens, VaultError::InsufficientTokensCommitted)?;
        Ok(())
    }

    pub fn decrease_to_be_issued(&mut self, tokens: Balance) -> (r: Result<(), VaultError>)
        ensures
            r == unit_of(
                sub_spec(old(self).to_be_issued_tokens, tokens, VaultError::InsufficientTokensCommitted),
            ),
            r is Ok ==> *final(self) == old(self).with_to_be_issued(
                (old(self).to_be_issued_tokens - tokens) as u128,
            ),
            r is Err ==> *final(self) == *old(self),
    {
        self.to_be_issued_tokens = checked_sub(
            self.to_be_issued_tokens,
            tokens,
            VaultError::InsufficientTokensCommitted,
        )?;
        Ok(())
    }

    pub fn decrease_to_be_redeemed(&mut self, tokens: Balance) -> (r: Result<(), VaultError>)
        ensures
            r == unit_of(
                sub_spec(old(self).to_be_redeemed_tokens, tokens, VaultError::InsufficientTokensCommitted),
            ),
            r is Ok ==> *final(self) == old(self).with_to_be_redeemed(
                (old(self).to_be_redeemed_tokens - tokens) as u128,
            ),
            r is Err ==> *final(self) == *old(self),
    {
        self.to_be_redeemed_tokens = checked_sub(
            self.to_be_redeemed_tokens,
            tokens,
            VaultError::InsufficientTokensCommitted,
        )?;
        Ok(())
    }

    pub fn decrease_collateral(&mut self, amount: Balance) -> (r: Result<(), VaultError>)
        ensures
            r == unit_of(sub_spec(old(self).collateral, amount, VaultError::InsufficientFunds)),
            r is Ok ==> *final(self) == old(self).with_collateral((old(self).collateral - amount) as u128),
            r is Err ==> *final(self) == *old(self),
    {
        self.collateral = checked_sub(self.collateral, amount, VaultError::InsufficientFunds)?;
        Ok(())
    }

    /// Burns issued tokens held by the system vault.
    pub fn burn_issued(&mut self, tokens: Balance) -> (r: Result<(), VaultError>)
        ensures
            r == unit_of(sub_spec(old(self).issued_tokens, tokens, VaultError::InsufficientTokensCommitted)),
            r is Ok ==> *final(self) == old(self).with_issued((old(self).issued_tokens - tokens) as u128),
            r is Err ==> *final(self) == *old(self),
    {
        self.decrease_issued(tokens)
    }
}

/// Whether a vault whose ban ends at `banned_until` is banned at height `now`.
pub open spec fn banned_at(banned_until: Option<BlockNumber>, now: BlockNumber) -> bool {
    match banned_until {
        None => false,
        Some(until) => now <= until,
    }
}

impl Vault {
    pub open spec fn with_issued(self, v: u128) -> Vault {
        Vault { issued_tokens: v, ..self }
    }

    pub open spec fn with_to_be_issued(self, v: u128) -> Vault {
        Vault { to_be_issued_tokens: v, ..self }
    }

    pub open spec fn with_to_be_redeemed(self, v: u128) -> Vault {
        Vault { to_be_redeemed_tokens: v, ..self }
    }

    pub open spec fn with_liquidated_collateral(self, v: u128) -> Vault {
        Vault { liquidated_collateral: v, ..self }
    }

    pub open spec fn liquidated(self) -> bool {
        self.status is Liquidated
    }

    /// Issued plus to-be-issued tokens.
    pub open spec fn backed_spec(self) -> int {
        self.issued_tokens + self.to_be_issued_tokens
    }

    /// Secure threshold in force: the custom one where it exceeds `global`.
    pub open spec fn secure_threshold_spec(self, global: u128) -> u128 {
        match self.secure_collateral_threshold {
            Some(t) => if t > global {
                t
            } else {
                global
            },
            None => global,
        }
    }

    pub open spec fn new_spec(id: VaultId) -> Vault {
        Vault {
            id,
            status: VaultStatus::Active(true),
            banned_until: None,
            secure_collateral_threshold: None,
            to_be_issued_tokens: 0,
            issued_tokens: 0,
            to_be_redeemed_tokens: 0,
            liquidated_collateral: 0,
        }
    }

    /// A fresh active vault that accepts issue requests, with all counters
    /// zero.
    pub fn new(id: VaultId) -> (r: Vault)
        ensures
            r == Vault::new_spec(id),
    {
        Vault {
            id,
            status: VaultStatus::Active(true),
            banned_until: None,
            secure_collateral_threshold: None,
            to_be_issued_tokens: 0,
            issued_tokens: 0,
            to_be_redeemed_tokens: 0,
            liquidated_collateral: 0,
        }
    }

    pub fn is_liquidated(&self) -> (r: bool)
        ensures
            r == self.liquidated(),
    {
        matches!(self.status, VaultStatus::Liquidated)
    }

    pub fn accepts_new_issues(&self) -> (r: bool)
        ensures
            r == (self.status == VaultStatus::Active(true)),
    {
        matches!(self.status, VaultStatus::Active(true))
    }

    pub fn issued_tokens(&self) -> (r: Balance)
        ensures
            r == self.issued_tokens,
    {
        self.issued_tokens
    }

    pub fn to_be_issued_tokens(&self) -> (r: Balance)
        ensures
            r == self.to_be_issued_tokens,
    {
        self.to_be_issued_tokens
    }

    pub fn to_be_redeemed_tokens(&self) -> (r: Balance)
        ensures
            r == self.to_be_redeemed_tokens,
    {
        self.to_be_redeemed_tokens
    }

    pub fn liquidated_collateral(&self) -> (r: Balance)
        ensures
            r == self.liquidated_collateral,
    {
        self.liquidated_collateral
    }

    pub fn wrapped_currency(&self) -> (r: CurrencyId)
        ensures
            r == self.id.currencies.wrapped,
    {
        self.id.currencies.wrapped
    }

    /// Issued plus to-be-issued tokens: what the vault's collateral backs.
    pub fn backed_tokens(&self) -> (r: Result<Balance, VaultError>)
        ensures
            r == add_spec(self.issued_tokens, self.to_be_issued_tokens),
    {
        checked_add(self.issued_tokens, self.to_be_issued_tokens)
    }

    /// Issued tokens not yet claimed by a redeem request.
    pub fn freely_redeemable_tokens(&self) -> (r: Result<Balance, VaultError>)
        ensures
            r == sub_spec(self.issued_tokens, self.to_be_redeemed_tokens, VaultError::ArithmeticUnderflow),
    {
        checked_sub(self.issued_tokens, self.to_be_redeemed_tokens, VaultError::ArithmeticUnderflow)
    }

    /// Secure threshold in force for this vault: the larger of its custom
    /// threshold and the global one.
    pub fn get_secure_threshold(&self, global: UnsignedFixedPoint) -> (r: UnsignedFixedPoint)
        ensures
            r == self.secure_threshold_spec(global),
            r >= global,
    {
        match self.secure_collateral_threshold {
            Some(t) => if t > global {
                t
            } else {
                global
            },
            None => global,
        }
    }

    /// Adds issued tokens; on a liquidated vault they go to the system vault.
    pub fn increase_issued(&mut self, system: &mut SystemVault, tokens: Balance) -> (r: Result<
        (),
        VaultError,
    >)
        ensures
            old(self).liquidated() ==> {
                &&& r == unit_of(add_spec(old(system).issued_tokens, tokens))
                &&& *final(self) == *old(self)
                &&& r is Ok ==> *final(system) == old(system).with_issued(
                    (old(system).issued_tokens + tokens) as u128,
                )
            },
            !old(self).liquidated() ==> {
                &&& r == unit_of(add_spec(old(self).issued_tokens, tokens))
                &&& *final(system) == *old(system)
                &&& r is Ok ==> *final(self) == old(self).with_issued((old(self).issued_tokens + tokens) as u128)
            },
            r is Err ==> *final(self) == *old(self) && *final(system) == *old(system),
    {
        if self.is_liquidated() {
            system.increase_issued(tokens)
        } else {
            self.issued_tokens = checked_add(self.issued_tokens, tokens)?;
            Ok(())
        }
    }

    /// Adds to-be-issued tokens; refused on a liquidated vault.
    pub fn increase_to_be_issued(&mut self, tokens: Balance) -> (r: Result<(), VaultError>)
        ensures
            old(self).liquidated() ==> r == Err::<(), VaultError>(VaultError::InvalidState),
            !old(self).liquidated() ==> r == unit_of(add_spec(old(self).to_be_issued_tokens, tokens)),
            r is Ok ==> *final(self) == old(self).with_to_be_issued(
                (old(self).to_be_issued_tokens + tokens) as u128,
            ),
            r is Err ==> *final(self) == *old(self),
    {
        if self.is_liquidated() {
            return Err(VaultError::InvalidState);
        }
        self.to_be_issued_tokens = checked_add(self.to_be_issued_tokens, tokens)?;
        Ok(())
    }

    /// Adds to-be-redeemed tokens; refused on a liquidated vault.
    pub fn increase_to_be_redeemed(&mut self, tokens: Balance) -> (r: Result<(), VaultError>)
        ensures
            old(self).liquidated() ==> r == Err::<(), VaultError>(VaultError::InvalidState),
            !old(self).liquidated() ==> r == unit_of(add_spec(old(self).to_be_redeemed_tokens, tokens)),
            r is Ok ==> *final(self) == old(self).with_to_be_redeemed(
                (old(self).to_be_redeemed_tokens + tokens) as u128,
            ),
            r is Err ==> *final(self) == *old(self),
    {
        if self.is_liquidated() {
            return Err(VaultError::InvalidState);
        }
        self.to_be_redeemed_tokens = checked_add(self.to_be_redeemed_tokens, tokens)?;
        Ok(())
    }

    /// Removes issued tokens; on a liquidated vault they come off the system
    /// vault. Never goes below zero.
    pub fn decrease_issued(&mut self, system: &mut SystemVault, tokens: Balance) -> (r: Result<
        (),
        VaultError,
    >)
        ensures
            old(self).liquidated() ==> {
                &&& r == unit_of(
                    sub_spec(old(system).issued_tokens, tokens, VaultError::InsufficientTokensCommitted),
                )
                &&& *final(self) == *old(self)
                &&& r is Ok ==> *final(system) == old(system).with_issued(
                    (old(system).issued_tokens - tokens) as u128,
                )
            },
            !old(self).liquidated() ==> {
                &&& r == unit_of(
                    sub_spec(old(self).issued_tokens, tokens, VaultError::InsufficientTokensCommitted),
                )
                &&& *final(system) == *old(system)
                &&& r is Ok ==> *final(self) == old(self).with_issued((old(self).issued_tokens - tokens) as u128)
            },
            r is Err ==> *final(self) == *old(self) && *final(system) == *old(system),
    {
        if self.is_liquidated() {
            system.decrease_issued(tokens)
        } else {
            self.issued_tokens = checked_sub(self.issued_tokens, tokens, VaultError::InsufficientTokensCommitted)?;
            Ok(())
        }
    }

    /// Removes to-be-issued tokens; on a liquidated vault they come off the
    /// system vault. Never goes below zero.
    pub fn decrease_to_be_issued(&mut self, system: &mut SystemVault, tokens: Balance) -> (r: Result<
        (),
        VaultError,
    >)
        ensures
            old(self).liquidated() ==> {
                &&& r == unit_of(
                    sub_spec(old(system).to_be_issued_tokens, tokens, VaultError::InsufficientTokensCommitted),
                )
                &&& *final(self) == *old(self)
                &&& r is Ok ==> *final(system) == old(system).with_to_be_issued(
                    (old(system).to_be_issued_tokens - tokens) as u128,
                )
            },
            !old(self).liquidated() ==> {
                &&& r == unit_of(
                    sub_spec(old(self).to_be_issued_tokens, tokens, VaultError::InsufficientTokensCommitted),
                )
                &&& *final(system) == *old(system)
                &&& r is Ok ==> *final(self) == old(self).with_to_be_issued(
                    (old(self).to_be_issued_tokens - tokens) as u128,
                )
            },
            r is Err ==> *final(self) == *old(self) && *final(system) == *old(system),
    {
        if self.is_liquidated() {
            system.decrease_to_be_issued(tokens)
        } else {
            self.to_be_issued_tokens = checked_sub(
                self.to_be_issued_tokens,
                tokens,
                VaultError::InsufficientTokensCommitted,
            )?;
            Ok(())
        }
    }

    /// Removes to-be-redeemed tokens from the vault and, where it is
    /// liquidated, from the system vault as well. Never goes below zero.
    pub fn decrease_to_be_redeemed(&mut self, system: &mut SystemVault, tokens: Balance) -> (r: Result<
        (),
        VaultError,
    >)
        ensures
            old(self).liquidated() ==> r == (if tokens > old(system).to_be_redeemed_tokens
                || tokens > old(self).to_be_redeemed_tokens {
                Err::<(), VaultError>(VaultError::InsufficientTokensCommitted)
            } else {
                Ok::<(), VaultError>(())
            }),
            !old(self).liquidated() ==> r == unit_of(
                sub_spec(old(self).to_be_redeemed_tokens, tokens, VaultError::InsufficientTokensCommitted),
            ),
            r is Ok ==> *final(self) == old(self).with_to_be_redeemed(
                (old(self).to_be_redeemed_tokens - tokens) as u128,
            ),
            r is Ok && old(self).liquidated() ==> *final(system) == old(system).with_to_be_redeemed(
                (old(system).to_be_redeemed_tokens - tokens) as u128,
            ),
            r is Ok && !old(self).liquidated() ==> *final(system) == *old(system),
            r is Err ==> *final(self) == *old(self) && *final(system) == *old(system),
    {
        let new_value = checked_sub(self.to_be_redeemed_tokens, tokens, VaultError::InsufficientTokensCommitted)?;
        if self.is_liquidated() {
            system.decrease_to_be_redeemed(tokens)?;
        }
        self.to_be_redeemed_tokens = new_value;
        Ok(())
    }

    /// Reserves tokens for an issue request.
    pub fn request_issue_tokens(&mut self, tokens: Balance) -> (r: Result<(), VaultError>)
        ensures
            old(self).liquidated() ==> r == Err::<(), VaultError>(VaultError::InvalidState),
            !old(self).liquidated() ==> r == unit_of(add_spec(old(self).to_be_issued_tokens, tokens)),
            r is Ok ==> *final(self) == old(self).with_to_be_issued(
                (old(self).to_be_issued_tokens + tokens) as u128,
            ),
            r is Err ==> *final(self) == *old(self),
    {
        self.increase_to_be_issued(tokens)
    }

    /// Releases the reservation of a cancelled issue request.
    pub fn cancel_issue_tokens(&mut self, system: &mut SystemVault, tokens: Balance) -> (r: Result<
        (),
        VaultError,
    >)
        ensures
            old(self).liquidated() ==> {
                &&& r == unit_of(
                    sub_spec(old(system).to_be_issued_tokens, tokens, VaultError::InsufficientTokensCommitted),
                )
                &&& *final(self) == *old(self)
                &&& r is Ok ==> *final(system) == old(system).with_to_be_issued(
                    (old(system).to_be_issued_tokens - tokens) as u128,
                )
            },
            !old(self).liquidated() ==> {
                &&& r == unit_of(
                    sub_spec(old(self).to_be_issued_tokens, tokens, VaultError::InsufficientTokensCommitted),
                )
                &&& *final(system) == *old(system)
                &&& r is Ok ==> *final(self) == old(self).with_to_be_issued(
                    (old(self).to_be_issued_tokens - tokens) as u128,
                )
            },
            r is Err ==> *final(self) == *old(self) && *final(system) == *old(system),
    {
        self.decrease_to_be_issued(system, tokens)
    }

    /// Turns reserved tokens of an issue request into issued tokens, on the
    /// system vault where this vault is liquidated.
    pub fn execute_issue_tokens(&mut self, system: &mut SystemVault, tokens: Balance) -> (r: Result<
        (),
        VaultError,
    >)
        ensures
            old(self).liquidated() ==> {
                &&& r == (if tokens > old(system).to_be_issued_tokens {
                    Err::<(), VaultError>(VaultError::InsufficientTokensCommitted)
                } else {
                    unit_of(add_spec(old(system).issued_tokens, tokens))
                })
                &&& *final(self) == *old(self)
                &&& r is Ok ==> *final(system) == old(system).with_to_be_issued(
                    (old(system).to_be_issued_tokens - tokens) as u128,
                ).with_issued((old(system).issued_tokens + tokens) as u128)
            },
            !old(self).liquidated() ==> {
                &&& r == (if tokens > old(self).to_be_issued_tokens {
                    Err::<(), VaultError>(VaultError::InsufficientTokensCommitted)
                } else {
                    unit_of(add_spec(old(self).issued_tokens, tokens))
                })
                &&& *final(system) == *old(system)
                &&& r is Ok ==> *final(self) == old(self).with_to_be_issued(
                    (old(self).to_be_issued_tokens - tokens) as u128,
                ).with_issued((old(self).issued_tokens + tokens) as u128)
            },
            r is Err ==> *final(self) == *old(self) && *final(system) == *old(system),
    {
        let saved_vault = *self;
        let saved_system = *system;
        self.decrease_to_be_issued(system, tokens)?;
        match self.increase_issued(system, tokens) {
            Ok(()) => Ok(()),
            Err(e) => {
                *self = saved_vault;
                *system = saved_system;
                Err(e)
            },
        }
    }

    /// Reserves tokens for a redeem request.
    pub fn request_redeem_tokens(&mut self, tokens: Balance) -> (r: Result<(), VaultError>)
        ensures
            old(self).liquidated() ==> r == Err::<(), VaultError>(VaultError::InvalidState),
            !old(self).liquidated() ==> r == unit_of(add_spec(old(self).to_be_redeemed_tokens, tokens)),
            r is Ok ==> *final(self) == old(self).with_to_be_redeemed(
                (old(self).to_be_redeemed_tokens + tokens) as u128,
            ),
            r is Err ==> *final(self) == *old(self),
    {
        self.increase_to_be_redeemed(tokens)
    }

    /// Releases the reservation of a cancelled redeem request.
    pub fn cancel_redeem_tokens(&mut self, system: &mut SystemVault, tokens: Balance) -> (r: Result<
        (),
        VaultError,
    >)
        ensures
            old(self).liquidated() ==> r == (if tokens > old(system).to_be_redeemed_tokens
                || tokens > old(self).to_be_redeemed_tokens {
                Err::<(), VaultError>(VaultError::InsufficientTokensCommitted)
            } else {
                Ok::<(), VaultError>(())
            }),
            !old(self).liquidated() ==> r == unit_of(
                sub_spec(old(self).to_be_redeemed_tokens, tokens, VaultError::InsufficientTokensCommitted),
            ),
            r is Ok ==> *final(self) == old(self).with_to_be_redeemed(
                (old(self).to_be_redeemed_tokens - tokens) as u128,
            ),
            r is Ok && old(self).liquidated() ==> *final(system) == old(system).with_to_be_redeemed(
                (old(system).to_be_redeemed_tokens - tokens) as u128,
            ),
            r is Ok && !old(self).liquidated() ==> *final(system) == *old(system),
            r is Err ==> *final(self) == *old(self) && *final(system) == *old(system),
    {
        self.decrease_to_be_redeemed(system, tokens)
    }

    /// Completes a redeem request: the reservation and the issued tokens
    /// both go down (on the system vault too where this vault is liquidated).
    pub fn execute_redeem_tokens(&mut self, system: &mut SystemVault, tokens: Balance) -> (r: Result<
        (),
        VaultError,
    >)
        ensures
            old(self).liquidated() ==> {
                &&& r == (if tokens > old(system).to_be_redeemed_tokens || tokens > old(
                    self,
                ).to_be_redeemed_tokens || tokens > old(system).issued_tokens {
                    Err::<(), VaultError>(VaultError::InsufficientTokensCommitted)
                } else {
                    Ok::<(), VaultError>(())
                })
                &&& r is Ok ==> *final(self) == old(self).with_to_be_redeemed(
                    (old(self).to_be_redeemed_tokens - tokens) as u128,
                )
                &&& r is Ok ==> *final(system) == old(system).with_to_be_redeemed(
                    (old(system).to_be_redeemed_tokens - tokens) as u128,
                ).with_issued((old(system).issued_tokens - tokens) as u128)
            },
            !old(self).liquidated() ==> {
                &&& r == (if tokens > old(self).to_be_redeemed_tokens || tokens > old(self).issued_tokens {
                    Err::<(), VaultError>(VaultError::InsufficientTokensCommitted)
                } else {
                    Ok::<(), VaultError>(())
                })
                &&& *final(system) == *old(system)
                &&& r is Ok ==> *final(self) == old(self).with_to_be_redeemed(
                    (old(self).to_be_redeemed_tokens - tokens) as u128,
                ).with_issued((old(self).issued_tokens - tokens) as u128)
            },
            r is Err ==> *final(self) == *old(self) && *final(system) == *old(system),
    {
        let saved_vault = *self;
        let saved_system = *system;
        self.decrease_to_be_redeemed(system, tokens)?;
        match self.decrease_issued(system, tokens) {
            Ok(()) => Ok(()),
            Err(e) => {
                *self = saved_vault;
                *system = saved_system;
                Err(e)
            },
        }
    }

    pub fn increase_liquidated_collateral(&mut self, amount: Balance) -> (r: Result<(), VaultError>)
        ensures
            r == unit_of(add_spec(old(self).liquidated_collateral, amount)),
            r is Ok ==> *final(self) == old(self).with_liquidated_collateral(
                (old(self).liquidated_collateral + amount) as u128,
            ),
            r is Err ==> *final(self) == *old(self),
    {
        self.liquidated_collateral = checked_add(self.liquidated_collateral, amount)?;
        Ok(())
    }

    pub fn decrease_liquidated_collateral(&mut self, amount: Balance) -> (r: Result<(), VaultError>)
        ensures
            r == unit_of(sub_spec(old(self).liquidated_collateral, amount, VaultError::ArithmeticUnderflow)),
            r is Ok ==> *final(self) == old(self).with_liquidated_collateral(
                (old(self).liquidated_collateral - amount) as u128,
            ),
            r is Err ==> *final(self) == *old(self),
    {
        self.liquidated_collateral = checked_sub(
            self.liquidated_collateral,
            amount,
            VaultError::ArithmeticUnderflow,
        )?;
        Ok(())
    }

    /// Sets or clears the custom secure threshold.
    pub fn set_custom_secure_threshold(&mut self, threshold: Option<UnsignedFixedPoint>)
        ensures
            *final(self) == (Vault { secure_collateral_threshold: threshold, ..*old(self) }),
    {
        self.secure_collateral_threshold = threshold;
    }

    /// Opens or closes an active vault to new issue requests; a liquidated
    /// vault stays liquidated.
    pub fn set_accept_new_issues(&mut self, accept_new_issues: bool) -> (r: Result<(), VaultError>)
        ensures
            old(self).liquidated() ==> r == Err::<(), VaultError>(VaultError::InvalidState) && *final(self)
                == *old(self),
            !old(self).liquidated() ==> r == Ok::<(), VaultError>(()) && *final(self) == (Vault {
                status: VaultStatus::Active(accept_new_issues),
                ..*old(self)
            }),
    {
        if self.is_liquidated() {
            return Err(VaultError::InvalidState);
        }
        self.status = VaultStatus::Active(accept_new_issues);
        Ok(())
    }

    /// Bans the vault up to and including block `height`.
    pub fn ban_until(&mut self, height: BlockNumber)
        ensures
            *final(self) == (Vault { banned_until: Some(height), ..*old(self) }),
    {
        self.banned_until = Some(height);
    }

    /// Whether the vault is banned at block `now`.
    pub fn is_banned(&self, now: BlockNumber) -> (r: bool)
        ensures
            r == banned_at(self.banned_until, now),
    {
        match self.banned_until {
            None => false,
            Some(until) => now <= until,
        }
    }

    /// Fails with `VaultBanned` while the vault is banned at block `now`.
    pub fn ensure_not_banned(&self, now: BlockNumber) -> (r: Result<(), VaultError>)
        ensures
            banned_at(self.banned_until, now) ==> r == Err::<(), VaultError>(VaultError::VaultBanned),
            !banned_at(self.banned_until, now) ==> r == Ok::<(), VaultError>(()),
    {
        if self.is_banned(now) {
            Err(VaultError::VaultBanned)
        } else {
            Ok(())
        }
    }

    /// Issued tokens that can still be redeemed at block `now`: none while
    /// banned.
    pub fn redeemable_tokens(&self, now: BlockNumber) -> (r: Result<Balance, VaultError>)
        ensures
            banned_at(self.banned_until, now) ==> r == Ok::<Balance, VaultError>(0),
            !banned_at(self.banned_until, now) ==> r == sub_spec(
                self.issued_tokens,
                self.to_be_redeemed_tokens,
                VaultError::ArithmeticUnderflow,
            ),
    {
        if self.is_banned(now) {
            return Ok(0);
        }
        self.freely_redeemable_tokens()
    }
}

/// Tokens that a vault holding `total` collateral can still take issue
/// requests for at block `now`: none while banned, else what its free
/// collateral backs at its secure threshold.
pub open spec fn issuable_spec(
    vault: Vault,
    total: int,
    rate: ExchangeRate,
    global_secure: u128,
    now: BlockNumber,
) -> Result<int, VaultError> {
    if banned_at(vault.banned_until, now) {
        Ok(0)
    } else {
        let secure = vault.secure_threshold_spec(global_secure) as int;
        if vault.backed_spec() > u128::MAX || !used_collateral_fits(vault.backed_spec(), rate, secure) {
            Err(VaultError::ArithmeticOverflow)
        } else {
            let free = total - used_collateral_spec(total, vault.backed_spec(), rate, secure);
            if !max_tokens_fits(free, rate, secure) {
                Err(VaultError::ArithmeticOverflow)
            } else {
                Ok(max_tokens_spec(free, rate, secure))
            }
        }
    }
}

impl Vault {
    /// Collateral that the issued and to-be-issued tokens lock at
    /// `threshold`, capped at `total_collateral`.
    pub fn get_used_collateral(&self, total_collateral: Balance, rate: ExchangeRate, threshold: UnsignedFixedPoint) -> (r:
        Result<Balance, VaultError>)
        requires
            rate.wf(),
        ensures
            self.backed_spec() > u128::MAX ==> r == Err::<Balance, VaultError>(VaultError::ArithmeticOverflow),
            self.backed_spec() <= u128::MAX && !used_collateral_fits(self.backed_spec(), rate, threshold as int)
                ==> r == Err::<Balance, VaultError>(VaultError::ArithmeticOverflow),
            self.backed_spec() <= u128::MAX && used_collateral_fits(self.backed_spec(), rate, threshold as int)
                ==> r == Ok::<Balance, VaultError>(
                used_collateral_spec(total_collateral as int, self.backed_spec(), rate, threshold as int) as Balance,
            ),
    {
        let backed = self.backed_tokens()?;
        used_collateral(total_collateral, backed, rate, threshold)
    }

    /// Collateral left over once the secure threshold is met.
    pub fn get_free_collateral(&self, total_collateral: Balance, rate: ExchangeRate, global_secure: UnsignedFixedPoint) -> (r:
        Result<Balance, VaultError>)
        requires
            rate.wf(),
        ensures
            ({
                let secure = self.secure_threshold_spec(global_secure) as int;
                &&& (self.backed_spec() > u128::MAX || !used_collateral_fits(self.backed_spec(), rate, secure))
                    ==> r == Err::<Balance, VaultError>(VaultError::ArithmeticOverflow)
                &&& (self.backed_spec() <= u128::MAX && used_collateral_fits(self.backed_spec(), rate, secure))
                    ==> r == Ok::<Balance, VaultError>(
                    (total_collateral - used_collateral_spec(
                        total_collateral as int,
                        self.backed_spec(),
                        rate,
                        secure,
                    )) as Balance,
                )
            }),
    {
        let secure = self.get_secure_threshold(global_secure);
        let used = self.get_used_collateral(total_collateral, rate, secure)?;
        Ok(total_collateral - used)
    }

    /// Tokens the vault can still take issue requests for at block `now`.
    pub fn issuable_tokens(
        &self,
        total_collateral: Balance,
        rate: ExchangeRate,
        global_secure: UnsignedFixedPoint,
        now: BlockNumber,
    ) -> (r: Result<Balance, VaultError>)
        requires
            rate.wf(),
        ensures
            ({
                let s = issuable_spec(*self, total_collateral as int, rate, global_secure, now);
                &&& r is Ok <==> s is Ok
                &&& r is Ok ==> r->Ok_0 == s->Ok_0
                &&& r is Err ==> r->Err_0 == s->Err_0
            }),
    {
        if self.is_banned(now) {
            return Ok(0);
        }
        let free = self.get_free_collateral(total_collateral, rate, global_secure)?;
        let secure = self.get_secure_threshold(global_secure);
        max_tokens_for_collateral(free, rate, secure)
    }
}

/// Once a vault is banned until `height`, it is banned at every height up to
/// `height` and free at every later height.
pub proof fn ban_is_monotonic(vault: Vault, height: BlockNumber, now: BlockNumber)
    ensures
        banned_at((Vault { banned_until: Some(height), ..vault }).banned_until, now) <==> now <= height,
{
}

} // verus!
