//! XDR runtime encoding and decoding.
//!
//! XDR (RFC 4506) is a big-endian wire format in which every value takes up
//! a whole number of four-byte words. This crate provides the two traits of
//! an XDR codec, `Pack` and `Unpack`, their implementations for the basic
//! types (integers, booleans, unit, byte and item sequences, text, optional
//! and boxed values), and the helper functions `pack`, `pack_array` and
//! `unpack`.
//!
//! Values are encoded into a `Vec<u8>` and decoded from a `&[u8]`. What a
//! value looks like on the wire is given by `Pack::wire`, what a buffer
//! decodes to by `Unpack::parse`, and the contracts of `pack` and `unpack`
//! tie the code to the two. The module `laws` proves that the two agree:
//! decoding undoes encoding, encodings fill whole words, and padding is
//! zero on the way out and ignored on the way in.

pub mod endian;
pub mod error;
pub mod laws;
pub mod pack;
pub mod padding;
pub mod unpack;

pub use error::{Cause, Error, ErrorKind};
pub use pack::{pack, pack_array, Pack};
pub use padding::padding;
pub use unpack::{unpack, Unpack};
