//! An inclusion emulator: predicts, off-chain, whether a relay-chain-style
//! ledger will accept a proposed extension block submitted by a dependent
//! chain, by mirroring the ledger's resource-accounting rules.
//!
//! The engine has three parts: [`constraints::Constraints`], a snapshot of
//! everything a candidate must respect; [`modifications::ConstraintModifications`],
//! a composable delta describing the effect of one or more candidates; and
//! [`fragment::Fragment`], which pairs a candidate with the constraints it was
//! built against and the modifications it would apply.

pub mod constraints;
pub mod fragment;
pub mod kvlist;
pub mod laws;
pub mod modifications;
pub mod primitives;
