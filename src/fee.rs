//! Issue fees and griefing collateral, as fixed-point shares of an amount.
use vstd::prelude::*;

use crate::threshold::{checked_mul_fixed, scaled};
use crate::vault::{AccountId, Balance, UnsignedFixedPoint, VaultError};

verus! {

/// Fee parameters.
#[derive(Clone, Copy, Debug, PartialEq, Eq, Structural)]
pub struct FeeConfig {
    /// Share of an issued amount charged as fee.
    pub issue_fee: UnsignedFixedPoint,
    /// Share of an issue's collateral value locked as griefing collateral.
    pub issue_griefing_collateral: UnsignedFixedPoint,
    /// Account that collects the fees.
    pub fee_pool_account_id: AccountId,
}

impl FeeConfig {
    /// Fee on issuing `amount` wrapped tokens, rounded down.
    pub fn get_issue_fee(&self, amount: Balance) -> (r: Result<Balance, VaultError>)
        ensures
            scaled(amount as int, self.issue_fee as int) <= u128::MAX ==> r == Ok::<Balance, VaultError>(
                scaled(amount as int, self.issue_fee as int) as Balance,
            ),
            scaled(amount as int, self.issue_fee as int) > u128::MAX ==> r == Err::<Balance, VaultError>(
                VaultError::ArithmeticOverflow,
            ),
    {
        checked_mul_fixed(amount, self.issue_fee)
    }

    /// Griefing collateral for an issue worth `amount` of collateral,
    /// rounded down.
    pub fn get_issue_griefing_collateral(&self, amount: Balance) -> (r: Result<Balance, VaultError>)
        ensures
            scaled(amount as int, self.issue_griefing_collateral as int) <= u128::MAX ==> r == Ok::<
                Balance,
                VaultError,
            >(scaled(amount as int, self.issue_griefing_collateral as int) as Balance),
            scaled(amount as int, self.issue_griefing_collateral as int) > u128::MAX ==> r == Err::<Balance, VaultError>(
                VaultError::ArithmeticOverflow,
            ),
    {
        checked_mul_fixed(amount, self.issue_griefing_collateral)
    }

    /// Account that collects the fees.
    pub fn fee_pool_account_id(&self) -> (r: AccountId)
        ensures
            r == self.fee_pool_account_id,
    {
        self.fee_pool_account_id
    }
}

} // verus!
