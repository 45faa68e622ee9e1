//! A verified instruction processor and state machine for on-chain betting
//! markets: markets are created, staked into, resolved, cancelled and paid
//! out, with fixed-layout account records and overflow-checked arithmetic.

pub mod codec;
pub mod error;
pub mod instruction;
pub mod laws;
pub mod processor;
pub mod state;
