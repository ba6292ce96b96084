use vault_registry::vault::{SystemVault, Vault, VaultCurrencyPair, VaultError, VaultId, VaultStatus};

fn pair() -> VaultCurrencyPair {
    VaultCurrencyPair { collateral: 1, wrapped: 2 }
}

fn vault() -> Vault {
    Vault::new(VaultId::new(7, 1, 2))
}

#[test]
fn new_vault_is_active_and_empty() {
    let v = vault();
    assert_eq!(v.status, VaultStatus::Active(true));
    assert!(v.accepts_new_issues());
    assert!(!v.is_liquidated());
    assert_eq!(v.issued_tokens(), 0);
    assert_eq!(v.to_be_issued_tokens(), 0);
    assert_eq!(v.to_be_redeemed_tokens(), 0);
    assert_eq!(v.liquidated_collateral(), 0);
    assert_eq!(v.banned_until, None);
    assert_eq!(VaultStatus::default(), VaultStatus::Active(true));
}

#[test]
fn issue_lifecycle() {
    let mut v = vault();
    let mut s = SystemVault::new(pair());
    assert_eq!(v.request_issue_tokens(100), Ok(()));
    assert_eq!(v.to_be_issued_tokens, 100);
    assert_eq!(v.cancel_issue_tokens(&mut s, 30), Ok(()));
    assert_eq!(v.to_be_issued_tokens, 70);
    assert_eq!(v.execute_issue_tokens(&mut s, 70), Ok(()));
    assert_eq!(v.to_be_issued_tokens, 0);
    assert_eq!(v.issued_tokens, 70);
    assert_eq!(v.backed_tokens(), Ok(70));
    assert_eq!(s, SystemVault::new(pair()));
}

#[test]
fn redeem_lifecycle() {
    let mut v = vault();
    let mut s = SystemVault::new(pair());
    v.issued_tokens = 100;
    assert_eq!(v.request_redeem_tokens(40), Ok(()));
    assert_eq!(v.freely_redeemable_tokens(), Ok(60));
    assert_eq!(v.cancel_redeem_tokens(&mut s, 10), Ok(()));
    assert_eq!(v.execute_redeem_tokens(&mut s, 30), Ok(()));
    assert_eq!(v.to_be_redeemed_tokens, 0);
    assert_eq!(v.issued_tokens, 70);
}

#[test]
fn decreases_fail_instead_of_clamping() {
    let mut v = vault();
    let mut s = SystemVault::new(pair());
    v.issued_tokens = 10;
    v.to_be_issued_tokens = 5;
    v.to_be_redeemed_tokens = 3;
    let before = v;
    assert_eq!(v.decrease_to_be_issued(&mut s, 6), Err(VaultError::InsufficientTokensCommitted));
    assert_eq!(v.decrease_issued(&mut s, 11), Err(VaultError::InsufficientTokensCommitted));
    assert_eq!(v.decrease_to_be_redeemed(&mut s, 4), Err(VaultError::InsufficientTokensCommitted));
    assert_eq!(v, before);
    assert_eq!(v.decrease_to_be_issued(&mut s, 5), Ok(()));
    assert_eq!(v.to_be_issued_tokens, 0);
}

#[test]
fn execute_issue_is_all_or_nothing() {
    let mut v = vault();
    let mut s = SystemVault::new(pair());
    v.to_be_issued_tokens = 5;
    v.issued_tokens = u128::MAX;
    let before = v;
    assert_eq!(v.execute_issue_tokens(&mut s, 5), Err(VaultError::ArithmeticOverflow));
    assert_eq!(v, before);
}

#[test]
fn increases_overflow() {
    let mut v = vault();
    v.to_be_issued_tokens = u128::MAX;
    assert_eq!(v.increase_to_be_issued(1), Err(VaultError::ArithmeticOverflow));
    assert_eq!(v.to_be_issued_tokens, u128::MAX);
}

#[test]
fn liquidated_vault_delegates_to_system_vault() {
    let mut v = vault();
    let mut s = SystemVault::new(pair());
    v.status = VaultStatus::Liquidated;
    v.to_be_redeemed_tokens = 20;
    s.issued_tokens = 50;
    s.to_be_issued_tokens = 10;
    s.to_be_redeemed_tokens = 20;
    assert_eq!(v.increase_to_be_issued(1), Err(VaultError::InvalidState));
    assert_eq!(v.increase_to_be_redeemed(1), Err(VaultError::InvalidState));
    assert_eq!(v.increase_issued(&mut s, 5), Ok(()));
    assert_eq!(s.issued_tokens, 55);
    assert_eq!(v.issued_tokens, 0);
    assert_eq!(v.execute_issue_tokens(&mut s, 10), Ok(()));
    assert_eq!(s.to_be_issued_tokens, 0);
    assert_eq!(s.issued_tokens, 65);
    assert_eq!(v.execute_redeem_tokens(&mut s, 15), Ok(()));
    assert_eq!(v.to_be_redeemed_tokens, 5);
    assert_eq!(s.to_be_redeemed_tokens, 5);
    assert_eq!(s.issued_tokens, 50);
    assert_eq!(v.decrease_to_be_redeemed(&mut s, 6), Err(VaultError::InsufficientTokensCommitted));
    assert_eq!(v.set_accept_new_issues(true), Err(VaultError::InvalidState));
}

#[test]
fn system_vault_counters() {
    let mut s = SystemVault::new(pair());
    assert_eq!(s.increase_issued(10), Ok(()));
    assert_eq!(s.increase_to_be_issued(5), Ok(()));
    assert_eq!(s.increase_to_be_redeemed(3), Ok(()));
    assert_eq!(s.increase_collateral(100), Ok(()));
    assert_eq!(s.redeemable_tokens(), Ok(7));
    assert_eq!(s.to_be_backed_tokens(), Ok(12));
    assert_eq!(s.burn_issued(4), Ok(()));
    assert_eq!(s.issued_tokens(), 6);
    assert_eq!(s.decrease_collateral(101), Err(VaultError::InsufficientFunds));
    assert_eq!(s.decrease_collateral(40), Ok(()));
    assert_eq!(s.collateral(), 60);
    assert_eq!(s.decrease_to_be_redeemed(4), Err(VaultError::InsufficientTokensCommitted));
    assert_eq!(s.wrapped_currency(), 2);
}

#[test]
fn ban_holds_up_to_and_including_height() {
    let mut v = vault();
    assert_eq!(v.ensure_not_banned(0), Ok(()));
    v.ban_until(10);
    for h in 0..=10u32 {
        assert_eq!(v.ensure_not_banned(h), Err(VaultError::VaultBanned));
        assert!(v.is_banned(h));
    }
    assert_eq!(v.ensure_not_banned(11), Ok(()));
    assert_eq!(v.ensure_not_banned(1_000), Ok(()));
}

#[test]
fn banned_vault_issues_and_redeems_nothing() {
    let mut v = vault();
    v.issued_tokens = 10;
    v.ban_until(5);
    assert_eq!(v.redeemable_tokens(5), Ok(0));
    assert_eq!(v.redeemable_tokens(6), Ok(10));
    assert_eq!(v.issuable_tokens(1_000, vault_registry::threshold::ExchangeRate { collateral: 1, wrapped: 1 }, 150_000, 5), Ok(0));
}

#[test]
fn custom_threshold_never_lowers_the_global_one() {
    let mut v = vault();
    assert_eq!(v.get_secure_threshold(150_000), 150_000);
    v.set_custom_secure_threshold(Some(200_000));
    assert_eq!(v.get_secure_threshold(150_000), 200_000);
    v.set_custom_secure_threshold(Some(120_000));
    assert_eq!(v.get_secure_threshold(150_000), 150_000);
    v.set_custom_secure_threshold(None);
    assert_eq!(v.get_secure_threshold(150_000), 150_000);
}

#[test]
fn liquidated_collateral_counter() {
    let mut v = vault();
    assert_eq!(v.increase_liquidated_collateral(30), Ok(()));
    assert_eq!(v.decrease_liquidated_collateral(31), Err(VaultError::ArithmeticUnderflow));
    assert_eq!(v.decrease_liquidated_collateral(10), Ok(()));
    assert_eq!(v.liquidated_collateral, 20);
}
