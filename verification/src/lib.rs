//! A bonding-curve market maker: a step-price curve integrated exactly in
//! integer arithmetic, and the pool ledger that trades against it.

pub mod errors;
pub mod state;
pub mod curve;
pub mod instructions;
pub mod ledger;
