use vault_registry::balances::Ledger;
use vault_registry::liquidation::{liquidate, slash_to_liquidation_vault, split_liquidated_collateral};
use vault_registry::registry::{PairConfig, VaultRegistry};
use vault_registry::staking::CollateralPool;
use vault_registry::threshold::ExchangeRate;
use vault_registry::vault::{SystemVault, Vault, VaultCurrencyPair, VaultError, VaultId, VaultStatus};

fn pair() -> VaultCurrencyPair {
    VaultCurrencyPair { collateral: 1, wrapped: 2 }
}

fn config() -> PairConfig {
    PairConfig {
        currencies: pair(),
        minimum_collateral: 10,
        secure_threshold: 150_000,
        premium_redeem_threshold: 135_000,
        liquidation_threshold: 110_000,
        exchange_rate: ExchangeRate { collateral: 1, wrapped: 1 },
    }
}

fn registry_with_issued_vault() -> (VaultRegistry, VaultId) {
    let mut reg = VaultRegistry::new(0, 100, 4_242);
    reg.configure_pair(config()).unwrap();
    let mut ledger = Ledger::new();
    ledger.mint(7, 1, 200).unwrap();
    reg.register_vault(&mut ledger, 7, pair(), 200).unwrap();
    let id = VaultId::new(7, 1, 2);
    reg.try_increase_to_be_issued_tokens(&id, 100).unwrap();
    reg.issue_tokens(&id, 100).unwrap();
    reg.try_increase_to_be_redeemed_tokens(&id, 40).unwrap();
    (reg, id)
}

#[test]
fn split_of_sixty_with_forty_of_hundred_being_redeemed() {
    assert_eq!(split_liquidated_collateral(60, 100, 40), Ok((36, 24)));
}

#[test]
fn split_at_boundary_ratios() {
    // nothing being redeemed
    assert_eq!(split_liquidated_collateral(60, 100, 0), Ok((60, 0)));
    // everything being redeemed
    assert_eq!(split_liquidated_collateral(60, 100, 100), Ok((0, 60)));
    // nothing backed
    assert_eq!(split_liquidated_collateral(0, 0, 0), Ok((0, 0)));
    assert_eq!(split_liquidated_collateral(5, 0, 0), Ok((5, 0)));
    // rounding goes to the redeem share
    assert_eq!(split_liquidated_collateral(10, 3, 1), Ok((6, 4)));
    assert_eq!(split_liquidated_collateral(10, 3, 4), Err(VaultError::ArithmeticUnderflow));
    // the share is exact even where seized * (backed - to_be_redeemed) exceeds a u128
    assert_eq!(
        split_liquidated_collateral(u128::MAX, 3, 1),
        Ok((226854911280625642308916404954512140970, 113427455640312821154458202477256070485))
    );
    assert_eq!(split_liquidated_collateral(1 << 100, 1 << 40, 0), Ok((1 << 100, 0)));
    assert_eq!(split_liquidated_collateral(u128::MAX, u128::MAX, 0), Ok((u128::MAX, 0)));
}

#[test]
fn liquidation_moves_tokens_and_collateral() {
    let (mut reg, id) = registry_with_issued_vault();
    let before = reg.pair_tokens_total(&pair()).unwrap();
    assert_eq!(reg.liquidate_vault(&id), Ok(66));
    let v = reg.get_vault_from_id(&id).unwrap();
    assert_eq!(v.status, VaultStatus::Liquidated);
    assert_eq!(v.issued_tokens, 0);
    assert_eq!(v.to_be_issued_tokens, 0);
    assert_eq!(v.to_be_redeemed_tokens, 40);
    assert_eq!(v.liquidated_collateral, 44);
    let pool = reg.get_collateral_pool(&id).unwrap();
    assert_eq!(pool, CollateralPool { vault_collateral: 90, nominated_collateral: 0, reward_stake: 0 });
    let s = reg.get_liquidation_vault(&pair()).unwrap();
    assert_eq!(s.issued_tokens, 100);
    assert_eq!(s.to_be_issued_tokens, 0);
    assert_eq!(s.to_be_redeemed_tokens, 40);
    assert_eq!(s.collateral, 66);
    assert_eq!(reg.pair_tokens_total(&pair()).unwrap(), before);
    assert_eq!(before, 100);
}

#[test]
fn second_liquidation_fails_with_invalid_state() {
    let (mut reg, id) = registry_with_issued_vault();
    assert!(reg.liquidate_vault(&id).is_ok());
    let v = reg.get_vault_from_id(&id).unwrap();
    let s = reg.get_liquidation_vault(&pair()).unwrap();
    assert_eq!(reg.liquidate_vault(&id), Err(VaultError::InvalidState));
    assert_eq!(reg.get_vault_from_id(&id).unwrap(), v);
    assert_eq!(reg.get_liquidation_vault(&pair()).unwrap(), s);
    assert_eq!(reg.is_vault_liquidated(&id), Ok(true));
}

#[test]
fn liquidated_vault_redeems_against_system_vault() {
    let (mut reg, id) = registry_with_issued_vault();
    reg.liquidate_vault(&id).unwrap();
    assert_eq!(reg.execute_redeem_tokens(&id, 40), Ok(()));
    let v = reg.get_vault_from_id(&id).unwrap();
    let s = reg.get_liquidation_vault(&pair()).unwrap();
    assert_eq!(v.to_be_redeemed_tokens, 0);
    assert_eq!(s.to_be_redeemed_tokens, 0);
    assert_eq!(s.issued_tokens, 60);
    assert_eq!(reg.try_increase_to_be_issued_tokens(&id, 1), Err(VaultError::InvalidState));
}

#[test]
fn nominators_absorb_only_what_the_owner_cannot() {
    let mut v = Vault::new(VaultId::new(7, 1, 2));
    v.issued_tokens = 100;
    v.to_be_redeemed_tokens = 40;
    let mut pool = CollateralPool { vault_collateral: 10, nominated_collateral: 190, reward_stake: 200 };
    let mut s = SystemVault::new(pair());
    let moved = liquidate(&mut v, &mut pool, &mut s, ExchangeRate { collateral: 1, wrapped: 1 }, 110_000);
    assert_eq!(moved, Ok(66));
    assert_eq!(v.liquidated_collateral, 10);
    assert_eq!(pool, CollateralPool { vault_collateral: 0, nominated_collateral: 124, reward_stake: 0 });
    assert_eq!(s.collateral, 66);
}

#[test]
fn failed_liquidation_changes_nothing() {
    let mut v = Vault::new(VaultId::new(7, 1, 2));
    v.issued_tokens = 100;
    let mut pool = CollateralPool { vault_collateral: 200, nominated_collateral: 0, reward_stake: 200 };
    let mut s = SystemVault::new(pair());
    s.issued_tokens = u128::MAX;
    let (v0, p0, s0) = (v, pool, s);
    let r = liquidate(&mut v, &mut pool, &mut s, ExchangeRate { collateral: 1, wrapped: 1 }, 110_000);
    assert_eq!(r, Err(VaultError::ArithmeticOverflow));
    assert_eq!((v, pool, s), (v0, p0, s0));
}

#[test]
fn slash_takes_owner_first_and_refuses_more_than_the_pool() {
    let mut pool = CollateralPool { vault_collateral: 10, nominated_collateral: 20, reward_stake: 30 };
    let mut s = SystemVault::new(pair());
    assert_eq!(slash_to_liquidation_vault(&mut pool, &mut s, 31), Err(VaultError::InsufficientFunds));
    assert_eq!(pool, CollateralPool { vault_collateral: 10, nominated_collateral: 20, reward_stake: 30 });
    assert_eq!(s.collateral, 0);
    assert_eq!(slash_to_liquidation_vault(&mut pool, &mut s, 8), Ok(()));
    assert_eq!((pool.vault_collateral, pool.nominated_collateral, s.collateral), (2, 20, 8));
    assert_eq!(slash_to_liquidation_vault(&mut pool, &mut s, 12), Ok(()));
    assert_eq!((pool.vault_collateral, pool.nominated_collateral, s.collateral), (0, 10, 20));
}
