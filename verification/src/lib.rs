//! Merging of component installer archives.
//!
//! The library holds the decision logic of the combiner: parsing the list of
//! input archives, deriving each archive's package identifier, enforcing the
//! installer format version, uniting component sets, and emitting the merged
//! manifest. All file and archive I/O is performed by the surrounding binary,
//! which feeds file contents in and carries planned moves out.

pub mod combine;
pub mod laws;
pub mod paths;
pub mod text;

use vstd::prelude::*;

verus! {

/// The on-disk installer format version this tool supports.
pub const RUST_INSTALLER_VERSION: u64 = 3;

} // verus!
