//! Cross-venue arbitrage monitoring for binary prediction markets.
//!
//! Two venues quote the same yes/no outcome in different shapes: one in
//! integer cents with a yes/no book, the other in decimal strings with
//! explicit bid and ask arrays. This library brings both into one canonical
//! quote (prices in millionths of a unit of probability), merges updates into
//! a per-venue market state, and tests the pair for a profitable crossing.

pub mod arbitrage;
pub mod auth;
pub mod kalshi;
pub mod polymarket;
pub mod price;
pub mod quote;
pub mod slug;
pub mod sync;
pub mod text;
