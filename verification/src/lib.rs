//! Constant-product swap engine for a two-asset liquidity pool.
//!
//! A trade request names a source and a destination asset and says, for each
//! side, what is known about the amount. The engine resolves the open side on
//! the pool's pricing curve, checks the request against the balances the host
//! reports, and drives the balance movements that carry the trade out.

pub mod wide;
pub mod pricing;
pub mod bounds;
pub mod request;
pub mod fee_policy;
pub mod validation;
pub mod executor;
