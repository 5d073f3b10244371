//! Decoding of Apple code-signing data embedded in Mach-O binaries.
//!
//! The code-signing data is a *super blob*: a header, a table of typed
//! offsets, and a series of *blobs*, each starting with a big-endian
//! `{magic, length}` header. Every decoder here is a total function from
//! bytes to `Result`, and its contract states exactly which result each
//! input gives, in terms of spec functions over the bytes.
//!
//! - [`wire`]: big-endian integers, sub-slices and UTF-8 text.
//! - [`slot`]: slot and magic constants and their enums.
//! - [`superblob`]: the embedded-signature super blob and its entries.
//! - [`blobs`]: the typed blobs and the dispatcher that decodes by magic.
//! - [`codedir`]: the versioned code directory and its hash slots.
//! - [`requirement`]: requirement expressions.
//! - [`hash`]: hash types and digests.
//! - [`locate`]: finding the super blob inside a Mach-O binary.
//! - [`licensing`]: kinds of licensed software components.

pub mod blobs;
pub mod codedir;
pub mod error;
pub mod hash;
pub mod licensing;
pub mod locate;
pub mod requirement;
pub mod slot;
pub mod superblob;
pub mod wire;

pub use codedir::CodeDirectoryBlob;
pub use error::MachOParseError;
pub use hash::HashType;
pub use requirement::Expression;
pub use slot::{CodeSigningMagic, CodeSigningSlot};
pub use superblob::{BlobEntry, EmbeddedSignature};
