//! Numeric-precision normalization for an in-memory vector-graphics
//! document: every numeric payload of a recognized attribute is rounded
//! to a caller-configured number of decimal places, while the document's
//! structure, attribute presence, and value kinds stay untouched.
//!
//! Numbers are held as exact decimal fixed-point values (`scalar::Scalar`),
//! so the rounding rule — scale by a power of ten, round half away from
//! zero, scale back — is stated and proved exactly.

pub mod classify;
pub mod laws;
pub mod model;
pub mod rounder;
pub mod scalar;
