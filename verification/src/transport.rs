//! Transport-specific functionality.
//!
//! A transport supplies a codec between link-layer frames and protocol-level
//! [`crate::transfer::Frame`]s, plus the per-transfer transport metadata the
//! manager stores for it. The classic CAN codec in [`can`] is the reference
//! implementation.

pub mod can;
