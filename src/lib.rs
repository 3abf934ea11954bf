//! A binary-outcome price-prediction market: games, predictions, and the
//! escrow and payout arithmetic that settles them.
pub mod errors;
pub mod table;
pub mod storage;
pub mod payout;
pub mod oracle;
pub mod contract;
pub mod laws;
