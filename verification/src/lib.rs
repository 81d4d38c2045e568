//! Capacity accounting and claims settlement for a parametric-insurance
//! protocol: risk pools, covers drawn against pool capital, and stake-weighted
//! claim governance, settled through a fungible-token ledger.

pub mod assoc;
pub mod bqbtc;
pub mod cover;
pub mod error;
pub mod bqtoken;
pub mod governance;
pub mod ledger;
pub mod model;
pub mod natural;
pub mod participation;
pub mod pool;
pub mod principal;
pub mod types;
