//! Arithmetization of 32-bit unsigned addition for an AIR-based proof system.
//!
//! The crate produces two artifacts that must agree bit for bit: a witness
//! (concrete trace values recording how an addition was carried out) and a set
//! of polynomial constraints over the same columns that are satisfied exactly
//! when the columns encode a correct wrapping addition. Words are decomposed
//! into four little-endian byte limbs, each kept in range by an external
//! byte-lookup table that this crate only emits requests into.

pub mod addition;
pub mod builder;
pub mod field;
pub mod word;
