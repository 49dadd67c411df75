//! A registry of uniquely identified creatures ("kitties"), each backed by a
//! fixed collateral deposit held against its owner.
//!
//! The registry supports three operations: minting a fresh creature, breeding
//! two existing creatures into a child, and transferring a creature to another
//! account. Every operation is all-or-nothing: a failed call leaves the
//! registry exactly as it was.

pub mod genome;
pub mod ledger;
pub mod registry;
