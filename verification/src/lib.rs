//! Settlement and accounting engine of a binary-outcome prediction market.
//!
//! A market asks a yes/no question with a deadline. Users stake value on one
//! of the two outcomes, the market's creator declares the outcome once the
//! deadline has passed, and every winning stake withdraws its pro-rata share
//! of the combined pool exactly once.
//!
//! The crate works on plain records and balances: storage, clocks and the
//! proof of a caller's identity belong to whoever drives it.

pub mod bet;
pub mod book;
pub mod error;
pub mod identity;
pub mod laws;
pub mod ledger;
pub mod market;
pub mod settlement;
pub mod solvency;

pub use bet::{place_bet, Bet, BetView};
pub use error::{ErrorCategory, ErrorCode};
pub use identity::Identity;
pub use ledger::transfer;
pub use market::{create_market, resolve_market, BetOption, Market, MarketView};
pub use settlement::{claim_winnings, compute_payout};
