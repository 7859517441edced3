//! Allowlist gating by Merkle inclusion proofs.
//!
//! A registry record holds the current allowlist root and its administrator.
//! An identity that can show a sorted-pair Merkle path from its own leaf to
//! the stored root may perform the gated action, which is counted and leaves
//! the identity's leaf behind as an audit trail.

pub mod digest;
pub mod hasher;
pub mod merkle;
pub mod registry;
