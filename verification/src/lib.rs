//! Core computations for a legacy-chain migration and proof-of-delay
//! ("tower") tool suite:
//!
//! - classification of a historical account-balance snapshot into
//!   disjoint and overlay supply categories ([`supply`]), and
//! - construction of the fixed-length 1024-byte commitment ("preimage")
//!   that anchors a verifiable-delay-function proof to an identity,
//!   network instance, and attestation statement ([`preimage`]).
//!
//! Both computations are pure: reading the snapshot from disk, loading
//! profiles, and the delay-function computation itself are left to
//! external collaborators.

pub mod preimage;
pub mod records;
pub mod sums;
pub mod supply;
