//! Archive planning, naming, detection and safety logic for the Pulp archive tool.

pub mod backend;
pub mod cli;
pub mod desktop;
pub mod detect;
pub mod engine;
pub mod entry;
pub mod error;
pub mod filesystem;
pub mod format;
pub mod io;
pub mod limits;
pub mod locale;
pub mod native;
pub mod operation;
pub mod output;
pub mod password;
pub mod policy;
pub mod progress;
pub mod smart_extract;
pub mod tasks;
pub mod text;

pub use backend::{
    EntryOutcome, EntrySink, EntrySinkDecision, EntrySource, EntryVisitor, IgnoreEntryVisitor, MetadataOnlySink,
};
pub use detect::{
    DetectionCandidate, DetectionHint, DetectionMethod, DetectionResult, FormatDetector, DEFAULT_SNIFF_BYTES,
};
pub use engine::EngineInfo;
pub use entry::{ArchiveEntry, Checksum, EntryId, EntryKind, EntryName, EntryNameError};
pub use error::{ArchiveError, ArchiveResult};
pub use filesystem::{primary_volume_name, OverwritePolicy, PathState};
pub use format::{ArchiveFormatId, CompressionMethod, FormatCapability, FormatDescriptor, LicenseNotice, Signature};
pub use io::{NoVolumeProvider, VolumeProvider};
pub use limits::{ResourceLimitKind, ResourceLimits};
pub use native::{ArchiveEngine, Format7zError};
pub use operation::{
    CancellationToken, CreateOptions, ExtractOptions, OperationContext, OperationKind, OperationReport, TestOptions,
    UpdateOptions,
};
pub use password::{NoPasswordProvider, Password, PasswordProvider, PasswordReason, PasswordRequest};
pub use policy::{ExtractionPolicy, LinkPolicy, MetadataPolicy, SpecialFilePolicy};
pub use progress::{NoopProgressReporter, OperationPhase, ProgressEvent, ProgressReporter};
pub use smart_extract::{
    plan_explicit_destination, plan_smart_destination, plan_smart_destination_with_policy, CollisionPolicy,
    ExistingNameSet, ExtractDestination, ExtractPlan, PlannedEntry, PolicyWarning,
};

use vstd::prelude::*;

verus! {

/// The package name exposed by the library.
pub const PACKAGE_NAME: &'static str = "pulp";

} // verus!
