//! A liquidity-mining incentive engine.
//!
//! The crate tracks reward pools ("global farms"), per-pool incentive
//! programs ("yield farms") and user positions ("deposits"), and computes,
//! with deterministic integer arithmetic only, how much reward each position
//! has accrued at any period boundary.
//!
//! - [`fixed`] — truncating fixed-point arithmetic over a 256-bit
//!   intermediate, the base of every reward computation.
//! - [`loyalty`] — the time-decay curve scaling what a claim may pay, with
//!   its monotonicity proof.
//! - [`types`] — the records: farms, entries, deposits, errors, outcomes.
//! - [`accrual`] — the two-level accumulator sync and entry settlement.
//! - [`engine`] — the registries and the lifecycle controller: one method
//!   per external call, each with an exact contract, plus the conservation
//!   and share-census invariants and the laws proved about call sequences.
//! - [`primitives`] — chain-wide primitive types: fees, trade intentions,
//!   the non-fungible class taxonomy.

pub mod fixed;
pub mod loyalty;
pub mod types;
pub mod accrual;
pub mod engine;
pub mod primitives;
