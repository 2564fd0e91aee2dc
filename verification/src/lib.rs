//! Library for patching GameCube disc images of a particular game: it parses
//! the disc's filesystem and archive ("pak") containers, applies an ordered
//! catalog of structural patches to the scripting data inside room resources,
//! resolves the asset dependencies those patches introduce, and re-serializes
//! the result into one of several disc container encodings.

pub mod bytes;
pub mod scly_props;
pub mod scly;
pub mod mrea;
pub mod compress;
pub mod pak;
pub mod area;
pub mod patcher;
pub mod writers;
pub mod fst;
pub mod patches;

pub use bytes::Cursor;
