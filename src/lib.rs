//! Recovery of a plaintext asset tree from an encrypted content archive.
//!
//! The archive's index record is decrypted with a master key and decoded into
//! a list of entries; each entry is then copied verbatim, or decrypted with its
//! own key, and JSON payloads are re-serialized in a pretty form. The library
//! holds every decision and transformation of that pipeline; reading and
//! writing files is left to the caller.
use vstd::prelude::*;

pub mod cipher;
pub mod json;
pub mod index;
pub mod entry;

verus! {

/// The stem of the archive's metadata file, which carries the `.json`
/// extension and is copied verbatim.
pub const METADATA_STEM: &'static str = "manifest";

/// The archive's icon, copied verbatim.
pub const ICON_FILE: &'static str = "pack_icon.png";

/// The encrypted content index.
pub const INDEX_FILE: &'static str = "contents.json";

/// Why a run of the pipeline cannot go on.
#[derive(Debug, Clone, Copy, PartialEq, Eq, Structural)]
pub enum DecryptError {
    /// A key holds fewer bytes than the cipher key needs.
    KeyTooShort,
    /// The index record ends before its encrypted payload begins.
    IndexTruncated,
    /// The decrypted index payload is not a content index in JSON.
    MalformedIndex,
}

} // verus!
