use vault_registry::balances::Ledger;
use vault_registry::currency_source::CurrencySource;
use vault_registry::registry::{PairConfig, VaultRegistry};
use vault_registry::threshold::ExchangeRate;
use vault_registry::vault::{VaultCurrencyPair, VaultError, VaultId};

fn pair() -> VaultCurrencyPair {
    VaultCurrencyPair { collateral: 1, wrapped: 2 }
}

fn setup() -> (VaultRegistry, Ledger, VaultId) {
    let mut reg = VaultRegistry::new(0, 10, 4_242);
    reg.configure_pair(PairConfig {
        currencies: pair(),
        minimum_collateral: 0,
        secure_threshold: 150_000,
        premium_redeem_threshold: 135_000,
        liquidation_threshold: 110_000,
        exchange_rate: ExchangeRate { collateral: 1, wrapped: 1 },
    })
    .unwrap();
    let mut ledger = Ledger::new();
    ledger.mint(7, 1, 300).unwrap();
    reg.register_vault(&mut ledger, 7, pair(), 300).unwrap();
    assert_eq!(ledger.free_balance(7, 1), 0);
    ledger.mint(8, 1, 500).unwrap();
    (reg, ledger, VaultId::new(7, 1, 2))
}

#[test]
fn account_ids_of_sources() {
    let (reg, _ledger, id) = setup();
    assert_eq!(CurrencySource::Collateral(id).account_id(&reg), 7);
    assert_eq!(CurrencySource::LiquidatedCollateral(id).account_id(&reg), 7);
    assert_eq!(CurrencySource::UserGriefing(8).account_id(&reg), 8);
    assert_eq!(CurrencySource::FreeBalance(9).account_id(&reg), 9);
    assert_eq!(CurrencySource::LiquidationVault(pair()).account_id(&reg), 4_242);
}

#[test]
fn balances_of_sources() {
    let (reg, ledger, id) = setup();
    assert_eq!(CurrencySource::Collateral(id).current_balance(&reg, &ledger, 1), Ok(300));
    assert_eq!(CurrencySource::FreeBalance(8).current_balance(&reg, &ledger, 1), Ok(500));
    assert_eq!(CurrencySource::FreeBalance(8).current_balance(&reg, &ledger, 2), Ok(0));
    assert_eq!(CurrencySource::UserGriefing(8).current_balance(&reg, &ledger, 1), Ok(0));
    assert_eq!(CurrencySource::LiquidatedCollateral(id).current_balance(&reg, &ledger, 1), Ok(0));
    assert_eq!(CurrencySource::LiquidationVault(pair()).current_balance(&reg, &ledger, 1), Ok(0));
    let unknown = VaultId::new(1, 1, 2);
    assert_eq!(CurrencySource::Collateral(unknown).current_balance(&reg, &ledger, 1), Err(VaultError::VaultNotFound));
}

#[test]
fn transfer_between_sources() {
    let (mut reg, mut ledger, id) = setup();
    let user = CurrencySource::FreeBalance(8);
    let griefing = CurrencySource::UserGriefing(8);
    let collateral = CurrencySource::Collateral(id);
    let system = CurrencySource::LiquidationVault(pair());
    assert_eq!(reg.transfer_funds(&mut ledger, user, griefing, 1, 200), Ok(()));
    assert_eq!(ledger.free_balance(8, 1), 300);
    assert_eq!(ledger.reserved_balance(8, 1), 200);
    assert_eq!(reg.transfer_funds(&mut ledger, griefing, collateral, 1, 150), Ok(()));
    assert_eq!(ledger.reserved_balance(8, 1), 50);
    assert_eq!(reg.get_collateral_pool(&id).unwrap().vault_collateral, 450);
    assert_eq!(reg.transfer_funds(&mut ledger, collateral, system, 1, 100), Ok(()));
    assert_eq!(reg.get_liquidation_vault(&pair()).unwrap().collateral, 100);
    assert_eq!(reg.get_collateral_pool(&id).unwrap().vault_collateral, 350);
    assert_eq!(
        reg.transfer_funds(&mut ledger, CurrencySource::LiquidatedCollateral(id), user, 1, 1),
        Err(VaultError::InsufficientFunds)
    );
    assert_eq!(reg.transfer_funds(&mut ledger, user, user, 1, 300), Ok(()));
    assert_eq!(ledger.free_balance(8, 1), 300);
}

#[test]
fn refused_transfers_change_nothing() {
    let (mut reg, mut ledger, id) = setup();
    let user = CurrencySource::FreeBalance(8);
    assert_eq!(reg.transfer_funds(&mut ledger, user, CurrencySource::Collateral(id), 1, 501), Err(VaultError::InsufficientFunds));
    assert_eq!(reg.transfer_funds(&mut ledger, user, CurrencySource::Collateral(id), 2, 1), Err(VaultError::InvalidCurrency));
    let other = VaultCurrencyPair { collateral: 3, wrapped: 2 };
    assert_eq!(
        reg.transfer_funds(&mut ledger, user, CurrencySource::LiquidationVault(other), 1, 1),
        Err(VaultError::ThresholdNotSet)
    );
    assert_eq!(
        reg.transfer_funds(&mut ledger, CurrencySource::Collateral(VaultId::new(1, 1, 2)), user, 1, 1),
        Err(VaultError::VaultNotFound)
    );
    ledger.mint(9, 1, u128::MAX).unwrap();
    assert_eq!(
        reg.transfer_funds(&mut ledger, user, CurrencySource::FreeBalance(9), 1, 1),
        Err(VaultError::ArithmeticOverflow)
    );
    assert_eq!(ledger.free_balance(8, 1), 500);
    assert_eq!(reg.get_collateral_pool(&id).unwrap().vault_collateral, 300);
}

#[test]
fn mint_adds_to_free_balance() {
    let mut ledger = Ledger::new();
    assert_eq!(ledger.mint(1, 2, 10), Ok(()));
    assert_eq!(ledger.mint(1, 2, 5), Ok(()));
    assert_eq!(ledger.free_balance(1, 2), 15);
    assert_eq!(ledger.free_balance(2, 2), 0);
    assert_eq!(ledger.mint(1, 2, u128::MAX), Err(VaultError::ArithmeticOverflow));
    assert_eq!(ledger.free_balance(1, 2), 15);
}
