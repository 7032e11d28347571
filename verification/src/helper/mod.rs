//! Text scanning, digests and calendar conversions used by the stages.

pub mod clock;
pub mod digest;
pub mod number;
pub mod pattern;
pub mod text;

pub use digest::{Digest, Sha256Digest};
