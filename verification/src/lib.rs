//! An on-ledger accounting library that turns elapsed time (discrete network
//! slots) into an accruing token reward for holders of identity tokens
//! registered against an employer configuration record.
//!
//! The library is organised around four fixed-width ledger records
//! (mint authority, employer, employee, shift), the authorization predicates
//! that gate every mutation, the two-phase create-then-initialize lifecycle,
//! and the batched, tiered reward-accrual engine.

pub mod account;
pub mod check;
pub mod engine;
pub mod error;
pub mod instruction;
pub mod laws;
pub mod processor;
pub mod solana;
pub mod state;
