//! Bring-up sequencing and steady-state polling for a board that watches one
//! input through a sixteen-pin I2C expander and reports over a serial line.
//!
//! The crate never touches hardware. It decides which hardware operation comes
//! next ([`ops::Op`]) and what to make of its outcome ([`ops::Event`]); a driver
//! performs each operation and hands the outcome back. Every decision is stated
//! as a contract over the model in [`sequencer`], and the guarantees a board
//! bring-up must give (reset timing, bring-up before sampling, a fixed report
//! interval) are proved in [`laws`] for every run of that model.

pub mod ops;
pub mod report;
pub mod plan;
pub mod sequencer;
pub mod trace;
pub mod laws;
