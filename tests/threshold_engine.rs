use vault_registry::fee::FeeConfig;
use vault_registry::threshold::{
    calculate_collateral, checked_mul_fixed, collateral_to_wrapped, is_below_threshold, max_tokens_for_collateral,
    used_collateral, wrapped_to_collateral, ExchangeRate,
};
use vault_registry::vault::{Vault, VaultError, VaultId};

fn rate(collateral: u128, wrapped: u128) -> ExchangeRate {
    ExchangeRate { collateral, wrapped }
}

#[test]
fn issuable_tokens_of_fresh_vault_at_one_to_fifty() {
    let vault = Vault::new(VaultId::new(1, 1, 2));
    assert_eq!(vault.issuable_tokens(1_000, rate(1, 50), 150_000, 0), Ok(33_333));
}

#[test]
fn max_tokens_floors_the_division() {
    assert_eq!(max_tokens_for_collateral(1_000, rate(1, 50), 150_000), Ok(33_333));
    assert_eq!(max_tokens_for_collateral(1_000, rate(1, 1), 100_000), Ok(1_000));
    assert_eq!(max_tokens_for_collateral(10, rate(3, 1), 100_000), Ok(3));
}

#[test]
fn max_tokens_is_zero_for_zero_threshold() {
    assert_eq!(max_tokens_for_collateral(1_000, rate(1, 50), 0), Ok(0));
}

#[test]
fn max_tokens_overflow_is_an_error() {
    assert_eq!(max_tokens_for_collateral(u128::MAX, rate(1, 2), 150_000), Err(VaultError::ArithmeticOverflow));
    // no intermediate overflow: only a result beyond a u128 fails
    assert_eq!(max_tokens_for_collateral(u128::MAX / 2, rate(1, 1), 150_000), Ok(113427455640312821154458202477256070484));
    assert_eq!(max_tokens_for_collateral(u128::MAX, rate(1, 1), 50_000), Err(VaultError::ArithmeticOverflow));
}

#[test]
fn threshold_ordering_on_values() {
    // 150 collateral at 1:1 backs 100 tokens at 150%, 115 at 130%, 136 at 110%
    let r = rate(1, 1);
    for tokens in [50u128, 100, 101, 115, 116, 136, 137, 500] {
        let liq = is_below_threshold(150, tokens, r, 110_000).unwrap();
        let premium = is_below_threshold(150, tokens, r, 130_000).unwrap();
        let secure = is_below_threshold(150, tokens, r, 150_000).unwrap();
        assert!(!liq || premium);
        assert!(!premium || secure);
    }
    assert_eq!(is_below_threshold(150, 100, r, 150_000), Ok(false));
    assert_eq!(is_below_threshold(150, 101, r, 150_000), Ok(true));
    assert_eq!(is_below_threshold(150, 116, r, 130_000), Ok(true));
    assert_eq!(is_below_threshold(150, 116, r, 110_000), Ok(false));
}

#[test]
fn conversions_round_down() {
    assert_eq!(collateral_to_wrapped(1_000, rate(1, 50)), Ok(50_000));
    assert_eq!(wrapped_to_collateral(50_000, rate(1, 50)), Ok(1_000));
    assert_eq!(wrapped_to_collateral(99, rate(1, 50)), Ok(1));
    assert_eq!(collateral_to_wrapped(7, rate(2, 3)), Ok(10));
    assert_eq!(collateral_to_wrapped(u128::MAX, rate(1, 2)), Err(VaultError::ArithmeticOverflow));
    assert_eq!(collateral_to_wrapped(u128::MAX, rate(2, 1)), Ok(u128::MAX / 2));
    assert_eq!(collateral_to_wrapped(u128::MAX, rate(3, 3)), Ok(u128::MAX));
    assert_eq!(wrapped_to_collateral(u128::MAX, rate(2, 1)), Err(VaultError::ArithmeticOverflow));
}

#[test]
fn used_collateral_is_capped_at_total() {
    // 100 tokens at 1:1 and 150% lock 150
    assert_eq!(used_collateral(1_000, 100, rate(1, 1), 150_000), Ok(150));
    assert_eq!(used_collateral(120, 100, rate(1, 1), 150_000), Ok(120));
    assert_eq!(used_collateral(1_000, 0, rate(1, 1), 150_000), Ok(0));
}

#[test]
fn fixed_point_multiplication() {
    assert_eq!(checked_mul_fixed(1_000, 150_000), Ok(1_500));
    assert_eq!(checked_mul_fixed(3, 50_000), Ok(1));
    assert_eq!(checked_mul_fixed(u128::MAX, 2), Ok(6805647338418769269267492148635364));
    assert_eq!(checked_mul_fixed(u128::MAX, 200_000), Err(VaultError::ArithmeticOverflow));
}

#[test]
fn calculate_collateral_proportion() {
    assert_eq!(calculate_collateral(60, 60, 100), Ok(36));
    assert_eq!(calculate_collateral(60, 0, 0), Ok(60));
    assert_eq!(calculate_collateral(60, 1, 0), Err(VaultError::ArithmeticUnderflow));
    assert_eq!(calculate_collateral(u128::MAX, 2, 3), Ok(226854911280625642308916404954512140970));
    assert_eq!(calculate_collateral(u128::MAX, 2, 2), Ok(u128::MAX));
    assert_eq!(calculate_collateral(u128::MAX, 3, 2), Err(VaultError::ArithmeticOverflow));
    assert_eq!(calculate_collateral(10, 1, 3), Ok(3));
}

#[test]
fn issue_fee_and_griefing_collateral() {
    let fees = FeeConfig { issue_fee: 500, issue_griefing_collateral: 5_000, fee_pool_account_id: 99 };
    assert_eq!(fees.get_issue_fee(1_000), Ok(5));
    assert_eq!(fees.get_issue_fee(199), Ok(0));
    assert_eq!(fees.get_issue_griefing_collateral(1_000), Ok(50));
    assert_eq!(fees.get_issue_fee(u128::MAX), Ok(1701411834604692317316873037158841057));
    let steep = FeeConfig { issue_fee: 200_000, issue_griefing_collateral: 0, fee_pool_account_id: 99 };
    assert_eq!(steep.get_issue_fee(u128::MAX), Err(VaultError::ArithmeticOverflow));
    assert_eq!(fees.fee_pool_account_id(), 99);
}
