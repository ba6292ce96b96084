//! Vault registry of a Bitcoin-backed token: vaults lock collateral to back
//! the wrapped token, collateral thresholds classify their risk, and a
//! liquidation moves an undercollateralized vault into the system vault.
pub mod balances;
pub mod currency_source;
pub mod fee;
pub mod liquidation;
pub mod migration;
pub mod redeem;
pub mod registry;
pub mod staking;
pub mod threshold;
pub mod vault;
