pub mod games;
pub mod laws;
pub mod lifecycle;
pub mod market;
pub mod payout;
pub mod types;
