//! Data model and consensus rules for transmission locations, and the
//! account model of the management services.
//!
//! Floating-point numbers never enter this crate: every coordinate and every
//! distance is carried as the bit pattern of an IEEE 754 binary64 value
//! ([`binary64::Binary64`]). Callers compute with their own floats and hand the
//! patterns over with `to_bits` and `from_bits`.

pub mod binary64;
pub mod locations;
pub mod management;
