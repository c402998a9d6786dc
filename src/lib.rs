//! Social recovery for a self-custodied bitcoin wallet.
//!
//! The owner holds a seed that spends every address at once. A second,
//! independent recovery seed is split among trustees: any threshold of them
//! can reconstruct it, and it spends an address only through a covenant
//! that re-locks the funds under a time lock, so the owner keeps the last
//! word.
//!
//! - [`splitter`]: threshold sharing of byte strings, sealed with a digest;
//! - [`keys`]: hierarchical derivation of the owner and recovery trees;
//! - [`backup`]: the two backups, their binary and hexadecimal forms, and
//!   wallet creation;
//! - [`policy`]: the two-step recovery policy and its taproot commitment;
//! - [`wallet`]: per-address keys, commitments, output keys and addresses;
//! - [`checksum`]: output-descriptor checksums.

pub mod backup;
pub mod checksum;
pub mod codec;
pub mod keys;
pub mod params;
pub mod policy;
pub mod splitter;
pub mod wallet;

pub use checksum::desc_checksum;
