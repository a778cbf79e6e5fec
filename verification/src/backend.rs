//! Callback traits through which engines hand entries to callers and read
//! content from them.

use vstd::prelude::*;

use crate::entry::ArchiveEntry;
use crate::error::ArchiveError;
use crate::io::VolumeProvider;
use crate::operation::OperationContext;
use crate::password::PasswordProvider;
use crate::progress::ProgressReporter;

verus! {

/// Receives archive entries while an engine lists them.
pub trait EntryVisitor {
    /// Handles one entry's metadata.
    fn visit(&mut self, entry: &ArchiveEntry) -> Result<(), ArchiveError>;
}

/// Supplies entries and content to an archive creation operation.
pub trait EntrySource {
    /// The content stream of one regular-file entry.
    type Reader;

    /// Returns the next entry, or `None` after the source is exhausted.
    fn next<R: ProgressReporter, P: PasswordProvider, V: VolumeProvider>(
        &mut self,
        context: &OperationContext<R, P, V>,
    ) -> Result<Option<ArchiveEntry>, ArchiveError>;

    /// Opens the content stream for a regular-file entry.
    fn open<R: ProgressReporter, P: PasswordProvider, V: VolumeProvider>(
        &mut self,
        entry: &ArchiveEntry,
        context: &OperationContext<R, P, V>,
    ) -> Result<Self::Reader, ArchiveError>;
}

/// Chooses how an engine should handle the current extracted entry.
pub enum EntrySinkDecision<W> {
    /// Ignore this entry completely.
    Skip,
    /// Receive metadata but no content bytes.
    MetadataOnly,
    /// Write content to this caller-owned stream.
    Write(W),
}

/// Result of handling one extracted entry.
#[derive(Clone, Copy, Debug, PartialEq, Eq, Structural)]
pub enum EntryOutcome {
    /// The entry's content was written successfully.
    Written {
        /// Number of bytes written to the destination.
        bytes: u64,
    },
    /// The entry was intentionally skipped.
    Skipped,
    /// The entry could not be completed.
    Failed,
}

/// Receives extracted metadata and content destinations.
pub trait EntrySink {
    /// The stream that receives one entry's content.
    type Writer;

    /// Selects a destination for the current entry.
    fn begin<R: ProgressReporter, P: PasswordProvider, V: VolumeProvider>(
        &mut self,
        entry: &ArchiveEntry,
        context: &OperationContext<R, P, V>,
    ) -> Result<EntrySinkDecision<Self::Writer>, ArchiveError>;

    /// Finalizes one entry after the engine has finished writing it.
    fn finish<R: ProgressReporter, P: PasswordProvider, V: VolumeProvider>(
        &mut self,
        entry: &ArchiveEntry,
        outcome: EntryOutcome,
        context: &OperationContext<R, P, V>,
    ) -> Result<(), ArchiveError>;
}

/// A visitor that intentionally ignores every listed entry.
#[derive(Clone, Copy, Debug, Default)]
pub struct IgnoreEntryVisitor;

impl EntryVisitor for IgnoreEntryVisitor {
    fn visit(&mut self, entry: &ArchiveEntry) -> (r: Result<(), ArchiveError>)
        ensures
            r is Ok,
    {
        Ok(())
    }
}

/// A sink useful for test operations and metadata-only extraction.
#[derive(Clone, Copy, Debug, Default)]
pub struct MetadataOnlySink;

impl EntrySink for MetadataOnlySink {
    type Writer = ();

    fn begin<R: ProgressReporter, P: PasswordProvider, V: VolumeProvider>(
        &mut self,
        entry: &ArchiveEntry,
        context: &OperationContext<R, P, V>,
    ) -> (r: Result<EntrySinkDecision<()>, ArchiveError>)
        ensures
            r matches Ok(EntrySinkDecision::MetadataOnly),
    {
        Ok(EntrySinkDecision::MetadataOnly)
    }

    fn finish<R: ProgressReporter, P: PasswordProvider, V: VolumeProvider>(
        &mut self,
        entry: &ArchiveEntry,
        outcome: EntryOutcome,
        context: &OperationContext<R, P, V>,
    ) -> (r: Result<(), ArchiveError>)
        ensures
            r is Ok,
    {
        Ok(())
    }
}

} // verus!
