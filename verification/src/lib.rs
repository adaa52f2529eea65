//! Reward-distribution engine for a chat "slot machine": a weighted tier
//! sampler, a decorative symbol sequence generator with an anti-repetition
//! rule, a per-user ledger of ticket and currency balances, a 3x3 grid
//! renderer, the pull orchestrator tying them together, and the
//! export/archive pipeline that snapshots the ledgers.

pub mod tier;
pub mod draw;
pub mod store;
pub mod digits;
pub mod symbol;
pub mod grid;
pub mod decorative;
pub mod pull;
pub mod dump;
pub mod backup;
