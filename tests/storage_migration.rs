use vault_registry::migration::{migrate_v6_to_v7, VaultV6};
use vault_registry::vault::{VaultId, VaultStatus, Version};

fn old_vault() -> VaultV6 {
    VaultV6 {
        id: VaultId::new(123, 1, 2),
        status: VaultStatus::Active(true),
        banned_until: None,
        secure_collateral_threshold: None,
        to_be_issued_tokens: 0,
        issued_tokens: 0,
        to_be_redeemed_tokens: 0,
        to_be_replaced_tokens: 0,
        replace_collateral: 0,
        active_replace_collateral: 0,
        liquidated_collateral: 0,
    }
}

#[test]
fn migrating_from_v6_to_v7() {
    let mut version = Version::V6;
    let old = old_vault();
    let migrated = migrate_v6_to_v7(&mut version, &vec![old]).unwrap();
    assert_eq!(version, Version::V7);
    let new = migrated[0];
    assert!(old.id == new.id);
    assert!(old.status == new.status);
    assert!(old.banned_until == new.banned_until);
    assert!(old.secure_collateral_threshold == new.secure_collateral_threshold);
    assert!(old.to_be_issued_tokens == new.to_be_issued_tokens);
    assert!(old.issued_tokens == new.issued_tokens);
    assert!(old.to_be_redeemed_tokens == new.to_be_redeemed_tokens);
    assert!(old.liquidated_collateral == new.liquidated_collateral);
}

#[test]
fn migration_keeps_counters_and_skips_other_versions() {
    let mut old = old_vault();
    old.issued_tokens = 5;
    old.to_be_replaced_tokens = 9;
    old.liquidated_collateral = 3;
    let mut version = Version::V7;
    assert!(migrate_v6_to_v7(&mut version, &vec![old]).is_none());
    assert_eq!(version, Version::V7);
    let mut version = Version::V6;
    let migrated = migrate_v6_to_v7(&mut version, &vec![old, old]).unwrap();
    assert_eq!(migrated.len(), 2);
    assert_eq!(migrated[1].issued_tokens, 5);
    assert_eq!(migrated[1].liquidated_collateral, 3);
}
