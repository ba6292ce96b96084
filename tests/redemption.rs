use vault_registry::balances::Ledger;
use vault_registry::registry::{PairConfig, VaultRegistry};
use vault_registry::threshold::ExchangeRate;
use vault_registry::vault::{VaultCurrencyPair, VaultError, VaultId};

fn pair() -> VaultCurrencyPair {
    VaultCurrencyPair { collateral: 1, wrapped: 2 }
}

fn setup() -> (VaultRegistry, Ledger, VaultId) {
    let mut reg = VaultRegistry::new(0, 100, 4_242);
    reg.configure_pair(PairConfig {
        currencies: pair(),
        minimum_collateral: 10,
        secure_threshold: 150_000,
        premium_redeem_threshold: 135_000,
        liquidation_threshold: 110_000,
        exchange_rate: ExchangeRate { collateral: 1, wrapped: 1 },
    })
    .unwrap();
    let mut ledger = Ledger::new();
    ledger.mint(7, 1, 200).unwrap();
    reg.register_vault(&mut ledger, 7, pair(), 200).unwrap();
    let id = VaultId::new(7, 1, 2);
    reg.try_increase_to_be_issued_tokens(&id, 100).unwrap();
    reg.issue_tokens(&id, 100).unwrap();
    reg.try_increase_to_be_redeemed_tokens(&id, 40).unwrap();
    (reg, ledger, id)
}

#[test]
fn redeem_pays_premium_from_owner_collateral() {
    let (mut reg, mut ledger, id) = setup();
    assert_eq!(reg.redeem_tokens(&mut ledger, &id, 40, 5, 9), Ok(()));
    let v = reg.get_vault_from_id(&id).unwrap();
    assert_eq!((v.issued_tokens, v.to_be_redeemed_tokens), (60, 0));
    assert_eq!(reg.get_collateral_pool(&id).unwrap().vault_collateral, 195);
    assert_eq!(ledger.free_balance(9, 1), 5);
}

#[test]
fn redeem_with_unpayable_premium_changes_nothing() {
    let (mut reg, mut ledger, id) = setup();
    assert_eq!(reg.redeem_tokens(&mut ledger, &id, 40, 201, 9), Err(VaultError::InsufficientFunds));
    assert_eq!(reg.redeem_tokens(&mut ledger, &id, 41, 0, 9), Err(VaultError::InsufficientTokensCommitted));
    let v = reg.get_vault_from_id(&id).unwrap();
    assert_eq!((v.issued_tokens, v.to_be_redeemed_tokens), (100, 40));
    assert_eq!(ledger.free_balance(9, 1), 0);
}

#[test]
fn redeem_on_liquidated_vault_releases_set_aside_collateral() {
    let (mut reg, mut ledger, id) = setup();
    assert_eq!(reg.liquidate_vault(&id), Ok(66));
    assert_eq!(reg.redeem_tokens(&mut ledger, &id, 10, 0, 9), Ok(()));
    // 10 of 40 pending tokens release a quarter of the 44 set aside
    let v = reg.get_vault_from_id(&id).unwrap();
    assert_eq!((v.to_be_redeemed_tokens, v.liquidated_collateral), (30, 33));
    assert_eq!(ledger.free_balance(7, 1), 11);
    let s = reg.get_liquidation_vault(&pair()).unwrap();
    assert_eq!((s.issued_tokens, s.to_be_redeemed_tokens, s.collateral), (90, 30, 66));
}

#[test]
fn redeem_against_the_system_vault() {
    let (mut reg, mut ledger, id) = setup();
    reg.liquidate_vault(&id).unwrap();
    reg.redeem_tokens(&mut ledger, &id, 40, 0, 9).unwrap();
    // system vault: 60 issued, nothing pending, 66 collateral
    assert_eq!(reg.redeem_tokens_liquidation(&mut ledger, &pair(), 9, 31), Ok(34));
    let s = reg.get_liquidation_vault(&pair()).unwrap();
    assert_eq!((s.issued_tokens, s.collateral), (29, 32));
    assert_eq!(ledger.free_balance(9, 1), 34);
    assert_eq!(
        reg.redeem_tokens_liquidation(&mut ledger, &pair(), 9, 30),
        Err(VaultError::InsufficientTokensCommitted)
    );
    let other = VaultCurrencyPair { collateral: 3, wrapped: 2 };
    assert_eq!(reg.redeem_tokens_liquidation(&mut ledger, &other, 9, 1), Err(VaultError::ThresholdNotSet));
}

fn setup_replace() -> (VaultRegistry, VaultId, VaultId) {
    let (mut reg, mut ledger, old) = setup();
    // the old vault now has 100 issued, 40 being redeemed
    reg.decrease_to_be_redeemed_tokens(&old, 10).unwrap();
    ledger.mint(8, 1, 200).unwrap();
    reg.register_vault(&mut ledger, 8, pair(), 200).unwrap();
    let new = VaultId::new(8, 1, 2);
    reg.try_increase_to_be_issued_tokens(&new, 30).unwrap();
    (reg, old, new)
}

#[test]
fn replace_moves_tokens_between_vaults() {
    let (mut reg, old, new) = setup_replace();
    let total = reg.pair_tokens_total(&pair()).unwrap();
    assert_eq!(reg.replace_tokens(&old, &new, 30), Ok(()));
    let o = reg.get_vault_from_id(&old).unwrap();
    let n = reg.get_vault_from_id(&new).unwrap();
    assert_eq!((o.issued_tokens, o.to_be_redeemed_tokens), (70, 0));
    assert_eq!((n.issued_tokens, n.to_be_issued_tokens), (30, 0));
    // the reservation of the new vault is spent, the old vault's tokens burnt
    assert_eq!(reg.pair_tokens_total(&pair()).unwrap(), total - 30);
}

#[test]
fn replace_refusals_change_nothing() {
    let (mut reg, old, new) = setup_replace();
    assert_eq!(reg.replace_tokens(&old, &old, 30), Err(VaultError::InvalidState));
    assert_eq!(reg.replace_tokens(&old, &new, 31), Err(VaultError::InsufficientTokensCommitted));
    assert_eq!(reg.replace_tokens(&old, &VaultId::new(9, 1, 2), 30), Err(VaultError::VaultNotFound));
    reg.decrease_to_be_issued_tokens(&new, 10).unwrap();
    // the old side would succeed, the new side has only 20 reserved
    assert_eq!(reg.replace_tokens(&old, &new, 30), Err(VaultError::InsufficientTokensCommitted));
    let o = reg.get_vault_from_id(&old).unwrap();
    assert_eq!((o.issued_tokens, o.to_be_redeemed_tokens), (100, 30));
}

#[test]
fn replace_from_liquidated_vault_returns_set_aside_collateral() {
    let (mut reg, old, new) = setup_replace();
    // 110 seized: 33 set aside for the 30 pending tokens, 77 to the system vault
    assert_eq!(reg.liquidate_vault(&old), Ok(77));
    assert_eq!(reg.get_vault_from_id(&old).unwrap().liquidated_collateral, 33);
    assert_eq!(reg.replace_tokens(&old, &new, 30), Ok(()));
    let o = reg.get_vault_from_id(&old).unwrap();
    assert_eq!((o.to_be_redeemed_tokens, o.liquidated_collateral), (0, 0));
    assert_eq!(reg.get_collateral_pool(&old).unwrap().vault_collateral, 123);
    let s = reg.get_liquidation_vault(&pair()).unwrap();
    assert_eq!((s.issued_tokens, s.to_be_redeemed_tokens), (70, 0));
    assert_eq!(reg.get_vault_from_id(&new).unwrap().issued_tokens, 30);
    assert_eq!(reg.replace_tokens(&new, &old, 1), Err(VaultError::InvalidState));
}
