//! Progress events emitted while an operation runs.

use vstd::prelude::*;

use crate::entry::{EntryId, EntryName};
use crate::operation::{OperationKind, OperationReport};

verus! {

/// A coarse phase shown by clients while an operation runs.
#[derive(Clone, Copy, Debug, PartialEq, Eq, Structural)]
pub enum OperationPhase {
    /// Opening and reading archive metadata.
    Opening,
    /// Processing entries.
    Processing,
    /// Writing final metadata and closing.
    Finalizing,
}

/// Progress emitted by engines and filesystem adapters.
#[derive(Debug, PartialEq, Eq)]
pub enum ProgressEvent {
    /// An operation has started.
    Started {
        /// Operation kind.
        operation: OperationKind,
        /// Total bytes when known.
        total_bytes: Option<u64>,
    },
    /// A new entry is being processed.
    EntryStarted {
        /// Entry identifier.
        id: EntryId,
        /// Validated entry name.
        name: EntryName,
        /// Unpacked size when known.
        size: Option<u64>,
    },
    /// More bytes have been processed.
    Bytes {
        /// Delta since the previous event.
        delta: u64,
        /// Total bytes processed so far.
        processed: u64,
        /// Total bytes when known.
        total: Option<u64>,
    },
    /// A non-fatal diagnostic.
    Warning(String),
    /// The operation has completed.
    Finished(OperationReport),
}

/// Receives progress without imposing an async runtime on the core library.
pub trait ProgressReporter: Send + Sync {
    /// Handles one progress event.
    fn report(&self, event: ProgressEvent);
}

/// Hands an event to a caller's closure. The closure is the caller's code:
/// nothing is stated of what it does.
#[verifier::external_body]
fn call_reporter<F: Fn(ProgressEvent)>(f: &F, event: ProgressEvent) {
    f(event)
}

impl<F> ProgressReporter for F where F: Fn(ProgressEvent) + Send + Sync {
    fn report(&self, event: ProgressEvent) {
        call_reporter(self, event);
    }
}

impl<T: ProgressReporter> ProgressReporter for std::sync::Arc<T> {
    fn report(&self, event: ProgressEvent) {
        (**self).report(event);
    }
}

/// A reporter that discards all events.
#[derive(Clone, Copy, Debug, Default)]
pub struct NoopProgressReporter;

impl ProgressReporter for NoopProgressReporter {
    fn report(&self, event: ProgressEvent) {
    }
}

} // verus!
