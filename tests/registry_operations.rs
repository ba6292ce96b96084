use vault_registry::balances::Ledger;
use vault_registry::registry::{PairConfig, VaultRegistry};
use vault_registry::staking::CollateralPool;
use vault_registry::threshold::ExchangeRate;
use vault_registry::vault::{VaultCurrencyPair, VaultError, VaultId, VaultStatus};

fn pair() -> VaultCurrencyPair {
    VaultCurrencyPair { collateral: 1, wrapped: 2 }
}

fn config() -> PairConfig {
    PairConfig {
        currencies: pair(),
        minimum_collateral: 100,
        secure_threshold: 150_000,
        premium_redeem_threshold: 135_000,
        liquidation_threshold: 110_000,
        exchange_rate: ExchangeRate { collateral: 1, wrapped: 50 },
    }
}

fn funds() -> Ledger {
    let mut ledger = Ledger::new();
    ledger.mint(1, 1, 10_000).unwrap();
    ledger
}

fn registry() -> VaultRegistry {
    let mut reg = VaultRegistry::new(0, 10, 4_242);
    reg.configure_pair(config()).unwrap();
    reg
}

#[test]
fn issuable_tokens_of_registered_vault() {
    let mut reg = registry();
    reg.register_vault(&mut funds(), 1, pair(), 1_000).unwrap();
    let id = VaultId::new(1, 1, 2);
    assert_eq!(reg.issuable_tokens(&id), Ok(33_333));
    assert_eq!(reg.try_increase_to_be_issued_tokens(&id, 33_334), Err(VaultError::ExceedingVaultLimit));
    assert_eq!(reg.try_increase_to_be_issued_tokens(&id, 3_000), Ok(()));
    // 3000 tokens lock 3000 / 50 * 1.5 = 90 collateral; 910 left back 30333
    assert_eq!(reg.issuable_tokens(&id), Ok(30_333));
}

#[test]
fn configuration_is_validated() {
    let mut reg = VaultRegistry::new(0, 10, 4_242);
    let mut bad = config();
    bad.premium_redeem_threshold = 160_000;
    assert_eq!(reg.configure_pair(bad), Err(VaultError::InvalidThresholds));
    let mut zero = config();
    zero.liquidation_threshold = 0;
    assert_eq!(reg.configure_pair(zero), Err(VaultError::InvalidThresholds));
    let mut no_rate = config();
    no_rate.exchange_rate = ExchangeRate { collateral: 0, wrapped: 50 };
    assert_eq!(reg.configure_pair(no_rate), Err(VaultError::InvalidExchangeRate));
    assert_eq!(reg.get_liquidation_vault(&pair()), Err(VaultError::ThresholdNotSet));
    assert_eq!(reg.configure_pair(config()), Ok(()));
    assert_eq!(reg.get_liquidation_vault(&pair()).unwrap().collateral, 0);
}

#[test]
fn register_vault_errors() {
    let mut reg = VaultRegistry::new(0, 10, 4_242);
    let mut ledger = Ledger::new();
    ledger.mint(1, 1, 150).unwrap();
    assert_eq!(reg.register_vault(&mut ledger, 1, pair(), 1_000), Err(VaultError::ThresholdNotSet));
    reg.configure_pair(config()).unwrap();
    assert_eq!(reg.register_vault(&mut ledger, 1, pair(), 99), Err(VaultError::InsufficientCollateral));
    assert_eq!(reg.register_vault(&mut ledger, 1, pair(), 151), Err(VaultError::InsufficientFunds));
    assert_eq!(ledger.free_balance(1, 1), 150);
    assert_eq!(reg.register_vault(&mut ledger, 1, pair(), 100), Ok(()));
    assert_eq!(ledger.free_balance(1, 1), 50);
    assert_eq!(reg.register_vault(&mut ledger, 1, pair(), 10), Err(VaultError::VaultAlreadyRegistered));
    let other = VaultCurrencyPair { collateral: 3, wrapped: 2 };
    assert_eq!(reg.register_vault(&mut ledger, 1, other, 1_000), Err(VaultError::ThresholdNotSet));
}

#[test]
fn unknown_vault_is_not_found() {
    let mut reg = registry();
    let id = VaultId::new(9, 1, 2);
    assert_eq!(reg.get_vault_from_id(&id), Err(VaultError::VaultNotFound));
    assert_eq!(reg.is_vault_liquidated(&id), Err(VaultError::VaultNotFound));
    assert_eq!(reg.lock_additional_collateral(&mut funds(), &id, 1), Err(VaultError::VaultNotFound));
    assert_eq!(reg.withdraw_collateral(&mut funds(), &id, 1), Err(VaultError::VaultNotFound));
    assert_eq!(reg.liquidate_vault(&id), Err(VaultError::VaultNotFound));
    assert_eq!(reg.ban_vault(&id), Err(VaultError::VaultNotFound));
    assert_eq!(reg.decrease_to_be_issued_tokens(&id, 1), Err(VaultError::VaultNotFound));
}

#[test]
fn collateral_lock_and_withdraw() {
    let mut reg = registry();
    let mut ledger = Ledger::new();
    ledger.mint(1, 1, 1_600).unwrap();
    reg.register_vault(&mut ledger, 1, pair(), 1_000).unwrap();
    let id = VaultId::new(1, 1, 2);
    assert_eq!(reg.lock_additional_collateral(&mut ledger, &id, 601), Err(VaultError::InsufficientFunds));
    assert_eq!(reg.lock_additional_collateral(&mut ledger, &id, 500), Ok(()));
    assert_eq!(ledger.free_balance(1, 1), 100);
    assert_eq!(
        reg.get_collateral_pool(&id),
        Ok(CollateralPool { vault_collateral: 1_500, nominated_collateral: 0, reward_stake: 1_500 })
    );
    reg.try_increase_to_be_issued_tokens(&id, 30_000).unwrap();
    // 30000 tokens need 30000 / 50 * 1.5 = 900 collateral
    assert_eq!(reg.withdraw_collateral(&mut ledger, &id, 1_501), Err(VaultError::InsufficientFunds));
    assert_eq!(reg.withdraw_collateral(&mut ledger, &id, 601), Err(VaultError::ThresholdViolation));
    assert_eq!(ledger.free_balance(1, 1), 100);
    assert_eq!(reg.withdraw_collateral(&mut ledger, &id, 600), Ok(()));
    assert_eq!(reg.get_collateral_pool(&id).unwrap().vault_collateral, 900);
    assert_eq!(ledger.free_balance(1, 1), 700);
}

#[test]
fn token_counters_through_the_registry() {
    let mut reg = registry();
    reg.register_vault(&mut funds(), 1, pair(), 1_000).unwrap();
    let id = VaultId::new(1, 1, 2);
    reg.try_increase_to_be_issued_tokens(&id, 500).unwrap();
    assert_eq!(reg.decrease_to_be_issued_tokens(&id, 501), Err(VaultError::InsufficientTokensCommitted));
    assert_eq!(reg.decrease_to_be_issued_tokens(&id, 100), Ok(()));
    assert_eq!(reg.issue_tokens(&id, 401), Err(VaultError::InsufficientTokensCommitted));
    assert_eq!(reg.issue_tokens(&id, 400), Ok(()));
    assert_eq!(reg.try_increase_to_be_redeemed_tokens(&id, 401), Err(VaultError::InsufficientTokensCommitted));
    assert_eq!(reg.try_increase_to_be_redeemed_tokens(&id, 300), Ok(()));
    assert_eq!(reg.redeemable_tokens(&id), Ok(100));
    assert_eq!(reg.decrease_to_be_redeemed_tokens(&id, 301), Err(VaultError::InsufficientTokensCommitted));
    assert_eq!(reg.decrease_to_be_redeemed_tokens(&id, 100), Ok(()));
    assert_eq!(reg.execute_redeem_tokens(&id, 200), Ok(()));
    let v = reg.get_vault_from_id(&id).unwrap();
    assert_eq!((v.issued_tokens, v.to_be_issued_tokens, v.to_be_redeemed_tokens), (200, 0, 0));
    assert_eq!(reg.pair_tokens_total(&pair()), Ok(200));
}

#[test]
fn ban_lasts_the_punishment_delay() {
    let mut reg = registry();
    reg.register_vault(&mut funds(), 1, pair(), 1_000).unwrap();
    let id = VaultId::new(1, 1, 2);
    reg.set_active_block_number(5);
    assert_eq!(reg.ban_vault(&id), Ok(()));
    assert_eq!(reg.get_vault_from_id(&id).unwrap().banned_until, Some(15));
    assert_eq!(reg.ensure_not_banned(&id), Err(VaultError::VaultBanned));
    assert_eq!(reg.issuable_tokens(&id), Ok(0));
    assert_eq!(reg.try_increase_to_be_issued_tokens(&id, 1), Err(VaultError::ExceedingVaultLimit));
    reg.set_active_block_number(15);
    assert_eq!(reg.ensure_not_banned(&id), Err(VaultError::VaultBanned));
    reg.set_active_block_number(16);
    assert_eq!(reg.ensure_not_banned(&id), Ok(()));
    assert_eq!(reg.issuable_tokens(&id), Ok(33_333));
    reg.set_active_block_number(u32::MAX);
    assert_eq!(reg.ban_vault(&id), Err(VaultError::ArithmeticOverflow));
}

#[test]
fn settings_of_a_vault() {
    let mut reg = registry();
    reg.register_vault(&mut funds(), 1, pair(), 1_000).unwrap();
    let id = VaultId::new(1, 1, 2);
    assert_eq!(reg.accept_new_issues(&id, false), Ok(()));
    assert_eq!(reg.get_vault_from_id(&id).unwrap().status, VaultStatus::Active(false));
    assert_eq!(reg.set_custom_secure_threshold(&id, Some(300_000)), Ok(()));
    // 1000 collateral at 1:50 and 300%
    assert_eq!(reg.issuable_tokens(&id), Ok(16_666));
    assert_eq!(reg.is_vault_liquidated(&id), Ok(false));
}

#[test]
fn expiry_of_periods() {
    let mut reg = registry();
    reg.set_active_block_number(100);
    assert_eq!(reg.active_block_number(), 100);
    assert_eq!(reg.has_expired(50, 50), Ok(false));
    assert_eq!(reg.has_expired(50, 49), Ok(true));
    assert_eq!(reg.has_expired(u32::MAX, 1), Err(VaultError::ArithmeticOverflow));
}

#[test]
fn punishment_delay_is_configurable() {
    let mut reg = registry();
    reg.register_vault(&mut funds(), 1, pair(), 1_000).unwrap();
    let id = VaultId::new(1, 1, 2);
    reg.set_punishment_delay(3);
    reg.set_active_block_number(7);
    assert_eq!(reg.ban_vault(&id), Ok(()));
    assert_eq!(reg.get_vault_from_id(&id).unwrap().banned_until, Some(10));
}
