//! Errors reported by the native provider adapter.

use vstd::prelude::*;

use crate::error::ArchiveError;

verus! {

/// A loading, metadata, bridge, or archive-operation failure.
#[derive(Debug)]
pub enum Format7zError {
    /// The native bridge could not be initialized or completed.
    Bridge {
        /// Native status code.
        status: i32,
        /// Native diagnostic.
        message: String,
    },
    /// Native metadata did not satisfy the Rust model.
    Metadata(String),
    /// An archive operation failed after the provider was loaded.
    Operation(ArchiveError),
}

} // verus!
