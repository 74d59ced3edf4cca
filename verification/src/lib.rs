//! A kitties pallet: kitties with a 128-bit DNA are created, bred and
//! transferred between accounts, each creation reserving a price from the
//! owner's currency balance.

pub mod balances;
pub mod dna;
pub mod encoding;
pub mod hashing;
pub mod laws;
pub mod model;
pub mod offchain;
pub mod pallet;
pub mod owned;
pub mod types;
