//! Accounting core of an over-collateralized lending vault: a pool that holds
//! deposited collateral, tracks each depositor's collateral and debt, and lends
//! against that collateral up to half of its value.

pub mod accounts;
pub mod authority;
pub mod identity;
pub mod instructions;
pub mod laws;
pub mod vault;
