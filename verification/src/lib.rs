//! An exact, canonical representation of video/media frame rates.
//!
//! A [`FrameRate`] is either one of ten named broadcast-standard rates or a
//! custom rational number of frames per second. Every rate corresponds to an
//! exact fraction held in lowest terms by the [`Rational`] type, and
//! normalization maps any fraction back to its canonical `FrameRate`.

pub mod gcd;
pub mod rate;

pub use rate::FrameRate;
pub use rate::Rational;
pub use rate::SerializeRational;
