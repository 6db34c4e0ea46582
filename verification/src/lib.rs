//! Decoder and encoder for the nested, partly compressed save and campaign
//! archives of a game engine.
//!
//! Every decoder is specified against a mathematical parser over `Seq<u8>`,
//! every encoder against a byte-producing specification function, and the two
//! are tied together by round-trip laws.

pub mod codec;
pub mod compress;
pub mod error;
pub mod files;
pub mod primitive;
pub mod section;
pub mod sections;
pub mod stream;
pub mod text;
