//! Upgrade of stored vault records from layout version 6, which still held
//! the replace fields, to version 7.
use vstd::prelude::*;

use crate::vault::{Balance, BlockNumber, UnsignedFixedPoint, Vault, VaultId, VaultStatus, Version};

verus! {

/// A vault record in layout version 6.
#[derive(Clone, Copy, Debug, PartialEq, Eq, Structural)]
pub struct VaultV6 {
    pub id: VaultId,
    pub status: VaultStatus,
    pub banned_until: Option<BlockNumber>,
    pub secure_collateral_threshold: Option<UnsignedFixedPoint>,
    pub to_be_issued_tokens: Balance,
    pub issued_tokens: Balance,
    pub to_be_redeemed_tokens: Balance,
    /// Tokens requested for replacement but not yet accepted.
    pub to_be_replaced_tokens: Balance,
    /// Griefing collateral offered to vaults accepting a replace.
    pub replace_collateral: Balance,
    /// Collateral locked for accepted replace requests.
    pub active_replace_collateral: Balance,
    pub liquidated_collateral: Balance,
}

/// The version 7 record of `old`: the replace fields dropped, all others
/// kept.
pub open spec fn upgraded(old: VaultV6) -> Vault {
    Vault {
        id: old.id,
        status: old.status,
        banned_until: old.banned_until,
        secure_collateral_threshold: old.secure_collateral_threshold,
        to_be_issued_tokens: old.to_be_issued_tokens,
        issued_tokens: old.issued_tokens,
        to_be_redeemed_tokens: old.to_be_redeemed_tokens,
        liquidated_collateral: old.liquidated_collateral,
    }
}

/// Drops the replace fields of a version 6 record.
pub fn upgrade_vault(old: &VaultV6) -> (r: Vault)
    ensures
        r == upgraded(*old),
{
    Vault {
        id: old.id,
        status: old.status,
        banned_until: old.banned_until,
        secure_collateral_threshold: old.secure_collateral_threshold,
        to_be_issued_tokens: old.to_be_issued_tokens,
        issued_tokens: old.issued_tokens,
        to_be_redeemed_tokens: old.to_be_redeemed_tokens,
        liquidated_collateral: old.liquidated_collateral,
    }
}

/// Upgrades the stored records `vaults` where the storage is at version 6,
/// and moves the storage to version 7; at any other version nothing runs.
pub fn migrate_v6_to_v7(version: &mut Version, vaults: &Vec<VaultV6>) -> (r: Option<Vec<Vault>>)
    ensures
        *old(version) != Version::V6 ==> r is None && *final(version) == *old(version),
        *old(version) == Version::V6 ==> {
            &&& *final(version) == Version::V7
            &&& r is Some
            &&& r->Some_0@.len() == vaults@.len()
            &&& forall|i: int| 0 <= i < vaults@.len() ==> r->Some_0@[i] == upgraded(#[trigger] vaults@[i])
        },
{
    if *version != Version::V6 {
        return None;
    }
    let mut upgraded_vaults: Vec<Vault> = Vec::new();
    let mut i: usize = 0;
    while i < vaults.len()
        invariant
            0 <= i <= vaults@.len(),
            upgraded_vaults@.len() == i,
            forall|k: int| 0 <= k < i ==> upgraded_vaults@[k] == upgraded(#[trigger] vaults@[k]),
        decreases vaults@.len() - i,
    {
        upgraded_vaults.push(upgrade_vault(&vaults[i]));
        i = i + 1;
    }
    *version = Version::V7;
    Some(upgraded_vaults)
}

} // verus!
