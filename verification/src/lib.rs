//! Typed identifiers that are written as `<prefix>-<uuid>`.
//!
//! An identifier kind is a Rust type with a fixed prefix and a 128-bit
//! payload. Every kind shares one text form, one parsing algorithm and one
//! error type; the contracts of this crate say exactly what each of them
//! returns.

pub mod encoding;
pub mod error;
pub mod id;
pub mod laws;
pub mod utf8_facts;
pub mod uuid_text;

pub use error::IdParseError;
pub use id::Id;

use vstd::prelude::*;

verus! {

/// Number of characters in the canonical text of a UUID.
pub const UUID_STRING_LENGTH: usize = 36;

/// The character that stands between the prefix and the UUID.
pub const SEPARATOR: char = '-';

/// Number of bytes that [`SEPARATOR`] takes in UTF-8.
pub const SEPARATOR_LENGTH: usize = 1;

} // verus!
