//! A Fiat-Shamir transcript for an elliptic-curve proof protocol: a sponge
//! absorbs domain-separated points and scalars while a writer serializes them
//! to bytes and a reader replays the same bytes, so that both sides derive
//! identical challenges.

pub mod bigint;
pub mod bytes;
pub mod curve;
pub mod field;
pub mod limbs;
pub mod sponge;
pub mod transcript;
