//! Owned, growable wide strings.
//!
//! This crate provides owned, mutable buffers of 16-bit and 32-bit code
//! units intended for interchange with foreign interfaces that expect wide
//! characters without mandatory nul termination. The buffers are not
//! nul-aware: contents may hold embedded nul units, unpaired surrogates, or
//! otherwise ill-formed data, and are preserved verbatim. Encoding from
//! native text is always well-formed by construction; decoding back to
//! native text is lossy, replacing ill-formed units with U+FFFD.

pub mod codec;
mod support;
pub mod u16string;
pub mod u32string;

pub use u16string::U16String;
pub use u32string::U32String;
