//! Operation kinds, cancellation, shared context and reports.

use vstd::prelude::*;

verus! {

/// The operation currently being performed.
#[derive(Clone, Copy, Debug, PartialEq, Eq, Structural)]
pub enum OperationKind {
    /// Detect a format.
    Detect,
    /// List metadata.
    List,
    /// Extract entries.
    Extract,
    /// Test archive data.
    Test,
    /// Create a new archive.
    Create,
    /// Update an existing archive.
    Update,
}

/// The name of an operation kind, as displayed in diagnostics.
pub open spec fn operation_name(kind: OperationKind) -> Seq<char> {
    match kind {
        OperationKind::Detect => "detect"@,
        OperationKind::List => "list"@,
        OperationKind::Extract => "extract"@,
        OperationKind::Test => "test"@,
        OperationKind::Create => "create"@,
        OperationKind::Update => "update"@,
    }
}

impl OperationKind {
    /// The stable text for this kind.
    pub fn as_str(self) -> (r: &'static str)
        ensures
            r@ == operation_name(self),
    {
        match self {
            OperationKind::Detect => "detect",
            OperationKind::List => "list",
            OperationKind::Extract => "extract",
            OperationKind::Test => "test",
            OperationKind::Create => "create",
            OperationKind::Update => "update",
        }
    }
}

} // verus!

use std::sync::Arc;
use std::sync::atomic::{AtomicBool, Ordering};
use vstd::utf8::encode_utf8;

use crate::entry::ArchiveEntry;
use crate::error::{ArchiveError, ErrorView};
use crate::format::ArchiveFormatId;
use crate::io::{NoVolumeProvider, VolumeProvider};
use crate::limits::{ResourceLimitKind, ResourceLimits};
use crate::password::{NoPasswordProvider, Password, PasswordProvider, PasswordRequest};
use crate::policy::ExtractionPolicy;
use crate::progress::{NoopProgressReporter, ProgressEvent, ProgressReporter};
use crate::text::{append_str, decimal, join2, u64_text};

verus! {

/// A shared flag, as `Arc::new(AtomicBool::new(value))`.
#[verifier::external_body]
fn shared_flag(value: bool) -> Arc<AtomicBool> {
    Arc::new(AtomicBool::new(value))
}

/// Sets the flag, as `AtomicBool::store` with release ordering.
#[verifier::external_body]
fn flag_store(flag: &AtomicBool, value: bool) {
    flag.store(value, Ordering::Release);
}

/// Reads the flag, as `AtomicBool::load` with acquire ordering. Other holders
/// of the token may change the flag at any time, so nothing is stated of the
/// value read.
#[verifier::external_body]
fn flag_load(flag: &AtomicBool) -> bool {
    flag.load(Ordering::Acquire)
}

/// Another handle to the same shared value, as `Arc::clone`.
#[verifier::external_body]
pub(crate) fn share_arc<T>(value: &Arc<T>) -> (r: Arc<T>)
    ensures
        r == *value,
{
    Arc::clone(value)
}

/// A cancellation flag safe to clone into a worker and callbacks.
#[derive(Debug)]
pub struct CancellationToken(Arc<AtomicBool>);

impl Clone for CancellationToken {
    /// Another handle to the same flag.
    fn clone(&self) -> (r: Self)
        ensures
            r == *self,
    {
        CancellationToken(share_arc(&self.0))
    }
}

impl Default for CancellationToken {
    fn default() -> Self {
        CancellationToken(shared_flag(false))
    }
}

impl CancellationToken {
    /// Creates a non-cancelled token.
    pub fn new() -> Self {
        CancellationToken(shared_flag(false))
    }

    /// Requests cancellation.
    pub fn cancel(&self) {
        flag_store(&self.0, true);
    }

    /// Returns whether cancellation has been requested.
    pub fn is_cancelled(&self) -> bool {
        flag_load(&self.0)
    }
}

/// Shared operation dependencies passed to every engine callback.
pub struct OperationContext<R = NoopProgressReporter, P = NoPasswordProvider, V = NoVolumeProvider> {
    cancellation: CancellationToken,
    progress: Arc<R>,
    password: Arc<P>,
    volumes: Arc<V>,
    limits: ResourceLimits,
    policy: ExtractionPolicy,
}

/// The message for a path over the limit.
pub open spec fn path_limit_text(bytes: nat, max: nat) -> Seq<char> {
    "entry path is "@ + decimal(bytes) + " bytes, maximum is "@ + decimal(max)
}

/// The message for a declared size over the limit.
pub open spec fn size_limit_text(size: nat, max: nat) -> Seq<char> {
    "entry declares "@ + decimal(size) + " bytes, maximum is "@ + decimal(max)
}

/// The per-entry limit check: the UTF-8 length of the name, then the declared size.
pub open spec fn entry_limit_error(entry: ArchiveEntry, limits: ResourceLimits) -> Option<ErrorView> {
    let bytes = encode_utf8(entry.name@).len() as usize;
    if bytes > limits.max_path_bytes {
        Some(ErrorView::ResourceLimit(ResourceLimitKind::PathBytes, path_limit_text(bytes as nat, limits.max_path_bytes as nat)))
    } else if entry.size is Some && entry.size.unwrap() > limits.max_entry_bytes {
        Some(ErrorView::ResourceLimit(ResourceLimitKind::EntryBytes, size_limit_text(entry.size.unwrap() as nat, limits.max_entry_bytes as nat)))
    } else {
        None
    }
}

pub(crate) fn limit_message(head: &str, n: u64, max: u64) -> (r: String)
    ensures
        r@ == head@ + decimal(n as nat) + " bytes, maximum is "@ + decimal(max as nat),
{
    let a = u64_text(n);
    let b = u64_text(max);
    let mut s = join2(head, a.as_str());
    append_str(&mut s, " bytes, maximum is ");
    append_str(&mut s, b.as_str());
    s
}

/// Checks per-entry limits against the given limit set.
pub fn check_entry_limits(entry: &ArchiveEntry, limits: &ResourceLimits) -> (r: Result<(), ArchiveError>)
    ensures
        match entry_limit_error(*entry, *limits) {
            Some(ev) => r matches Err(e) && e@ == ev,
            None => r is Ok,
        },
{
    let path_bytes = entry.name.as_str().len();
    if path_bytes > limits.max_path_bytes {
        return Err(ArchiveError::ResourceLimit {
            kind: ResourceLimitKind::PathBytes,
            message: limit_message("entry path is ", path_bytes as u64, limits.max_path_bytes as u64),
        });
    }
    if let Some(size) = entry.size {
        if size > limits.max_entry_bytes {
            return Err(ArchiveError::ResourceLimit {
                kind: ResourceLimitKind::EntryBytes,
                message: limit_message("entry declares ", size, limits.max_entry_bytes),
            });
        }
    }
    Ok(())
}

impl OperationContext {
    /// Creates a context with default limits and no-op callbacks.
    pub fn new() -> (r: Self)
        ensures
            r.limits_view() == ResourceLimits::default_spec(),
            r.policy_view() == ExtractionPolicy::default_spec(),
            r.progress_view() == NoopProgressReporter,
            r.password_view() == NoPasswordProvider,
            r.volumes_view() == NoVolumeProvider,
    {
        OperationContext {
            cancellation: CancellationToken::new(),
            progress: Arc::new(NoopProgressReporter),
            password: Arc::new(NoPasswordProvider),
            volumes: Arc::new(NoVolumeProvider),
            limits: ResourceLimits::default(),
            policy: ExtractionPolicy::default(),
        }
    }
}

impl<R: ProgressReporter, P: PasswordProvider, V: VolumeProvider> OperationContext<R, P, V> {
    /// The configured limits.
    pub closed spec fn limits_view(&self) -> ResourceLimits {
        self.limits
    }

    /// The configured extraction policy.
    pub closed spec fn policy_view(&self) -> ExtractionPolicy {
        self.policy
    }

    /// The cancellation token the operation watches.
    pub closed spec fn cancellation_view(&self) -> CancellationToken {
        self.cancellation
    }

    /// The reporter that receives progress events.
    pub closed spec fn progress_view(&self) -> R {
        *self.progress
    }

    /// The provider asked for passwords.
    pub closed spec fn password_view(&self) -> P {
        *self.password
    }

    /// The provider asked for split-archive volumes.
    pub closed spec fn volumes_view(&self) -> V {
        *self.volumes
    }

    /// Replaces the cancellation token.
    pub fn with_cancellation(self, cancellation: CancellationToken) -> (r: Self)
        ensures
            r.cancellation_view() == cancellation,
            r.progress_view() == self.progress_view(),
            r.password_view() == self.password_view(),
            r.volumes_view() == self.volumes_view(),
            r.limits_view() == self.limits_view(),
            r.policy_view() == self.policy_view(),
    {
        OperationContext { cancellation, ..self }
    }

    /// Replaces the progress reporter.
    pub fn with_progress<Q: ProgressReporter>(self, progress: Q) -> (r: OperationContext<Q, P, V>)
        ensures
            r.limits_view() == self.limits_view(),
            r.policy_view() == self.policy_view(),
    {
        OperationContext {
            cancellation: self.cancellation,
            progress: Arc::new(progress),
            password: self.password,
            volumes: self.volumes,
            limits: self.limits,
            policy: self.policy,
        }
    }

    /// Returns a copy for internal work that should not surface progress
    /// events as a separate user-visible operation.
    pub fn without_progress(&self) -> (r: OperationContext<NoopProgressReporter, P, V>)
        ensures
            r.cancellation_view() == self.cancellation_view(),
            r.progress_view() == NoopProgressReporter,
            r.password_view() == self.password_view(),
            r.volumes_view() == self.volumes_view(),
            r.limits_view() == self.limits_view(),
            r.policy_view() == self.policy_view(),
    {
        OperationContext {
            cancellation: self.cancellation.clone(),
            progress: Arc::new(NoopProgressReporter),
            password: share_arc(&self.password),
            volumes: share_arc(&self.volumes),
            limits: self.limits,
            policy: self.policy,
        }
    }

    /// Replaces the password provider.
    pub fn with_password_provider<Q: PasswordProvider>(self, password: Arc<Q>) -> (r: OperationContext<R, Q, V>)
        ensures
            r.limits_view() == self.limits_view(),
            r.policy_view() == self.policy_view(),
    {
        OperationContext {
            cancellation: self.cancellation,
            progress: self.progress,
            password,
            volumes: self.volumes,
            limits: self.limits,
            policy: self.policy,
        }
    }

    /// Replaces the resolver used for split archive volumes.
    pub fn with_volume_provider<W: VolumeProvider>(self, volumes: Arc<W>) -> (r: OperationContext<R, P, W>)
        ensures
            r.limits_view() == self.limits_view(),
            r.policy_view() == self.policy_view(),
    {
        OperationContext {
            cancellation: self.cancellation,
            progress: self.progress,
            password: self.password,
            volumes,
            limits: self.limits,
            policy: self.policy,
        }
    }

    /// Replaces the resource limits.
    pub fn with_limits(self, limits: ResourceLimits) -> (r: Self)
        ensures
            r.limits_view() == limits,
            r.policy_view() == self.policy_view(),
    {
        OperationContext { limits, ..self }
    }

    /// Replaces the extraction safety policy used by filesystem sinks.
    pub fn with_policy(self, policy: ExtractionPolicy) -> (r: Self)
        ensures
            r.limits_view() == self.limits_view(),
            r.policy_view() == policy,
    {
        OperationContext { policy, ..self }
    }

    /// Returns the cancellation token.
    pub fn cancellation(&self) -> (r: &CancellationToken)
        ensures
            *r == self.cancellation_view(),
    {
        &self.cancellation
    }

    /// Returns whether the operation should stop.
    pub fn is_cancelled(&self) -> bool {
        self.cancellation.is_cancelled()
    }

    /// Returns `Cancelled` when cancellation was requested.
    pub fn check_cancelled(&self) -> (r: Result<(), ArchiveError>)
        ensures
            r matches Err(e) ==> e@ == ErrorView::Cancelled,
    {
        if self.is_cancelled() {
            Err(ArchiveError::Cancelled)
        } else {
            Ok(())
        }
    }

    /// Emits one progress event.
    pub fn report(&self, event: ProgressEvent) {
        self.progress.report(event);
    }

    /// Requests a password from the configured provider.
    pub fn request_password(&self, request: PasswordRequest) -> (r: Result<Option<Password>, ArchiveError>)
        ensures
            self.password_view().declines_all() ==> r matches Ok(None),
    {
        self.password.request(request)
    }

    /// Opens a sibling volume requested by the native archive handler, unless
    /// the operation was cancelled.
    pub fn open_volume(&self, name: &str) -> (r: Result<V::Volume, ArchiveError>)
        ensures
            self.volumes_view().resolves_nothing() ==> (r matches Err(e)
                && (e@ == ErrorView::Cancelled || e@ == ErrorView::VolumeNotFound(name@))),
    {
        self.check_cancelled()?;
        self.volumes.open_volume(name)
    }

    /// Returns the primary archive name for the current volume resolver.
    pub fn archive_name(&self) -> (r: Option<String>)
        ensures
            self.volumes_view().resolves_nothing() ==> r is None,
    {
        self.volumes.archive_name()
    }

    /// Validates per-entry limits before an engine or adapter starts work.
    pub fn validate_entry(&self, entry: &ArchiveEntry) -> (r: Result<(), ArchiveError>)
        ensures
            match entry_limit_error(*entry, self.limits_view()) {
                Some(ev) => r matches Err(e) && e@ == ev,
                None => r is Ok,
            },
    {
        check_entry_limits(entry, &self.limits)
    }

    /// Returns the configured safety limits.
    pub fn limits(&self) -> (r: &ResourceLimits)
        ensures
            *r == self.limits_view(),
    {
        &self.limits
    }

    /// Returns the extraction safety policy.
    pub fn policy(&self) -> (r: &ExtractionPolicy)
        ensures
            *r == self.policy_view(),
    {
        &self.policy
    }
}

/// Options shared by archive creation and update operations.
#[derive(Clone, Default)]
pub struct CreateOptions {
    /// Requested method identifier, interpreted by the selected handler.
    pub compression_method: Option<String>,
    /// Requested compression level.
    pub compression_level: Option<u32>,
    /// Optional archive password.
    pub password: Option<Password>,
    /// Whether the handler should use solid mode when supported.
    pub solid: Option<bool>,
    /// Whether archive headers should be encrypted when supported.
    pub header_encryption: bool,
    /// Requested volume size for multi-volume output.
    pub volume_size: Option<u64>,
}

/// Options for extraction.
#[derive(Clone, Debug, Default)]
pub struct ExtractOptions {
    /// Selected entry IDs; `None` means all entries.
    pub selected: Option<Vec<crate::entry::EntryId>>,
    /// Whether metadata should be restored by a filesystem adapter.
    pub restore_metadata: bool,
}

/// Options for verification.
#[derive(Clone, Debug)]
pub struct TestOptions {
    /// Whether compressed data should be fully decoded.
    pub verify_data: bool,
}

impl Default for TestOptions {
    fn default() -> (r: Self)
        ensures
            r.verify_data,
    {
        TestOptions { verify_data: true }
    }
}

/// Options for updating an archive.
#[derive(Clone, Default)]
pub struct UpdateOptions {
    /// Creation/update properties.
    pub create: CreateOptions,
    /// Whether entries absent from the source may remain in an existing archive.
    pub keep_unmentioned: bool,
}

/// A compact summary of a completed operation.
#[derive(Debug, Default, PartialEq, Eq)]
pub struct OperationReport {
    /// Format processed by the operation.
    pub format: Option<ArchiveFormatId>,
    /// Operation kind.
    pub operation: Option<OperationKind>,
    /// Entries observed.
    pub entries_seen: u64,
    /// Entries completed successfully.
    pub entries_completed: u64,
    /// Bytes read from archive/source entries.
    pub bytes_read: u64,
    /// Bytes written to archive/output entries.
    pub bytes_written: u64,
    /// Non-fatal warnings.
    pub warnings: Vec<String>,
    /// Adapter diagnostics.
    pub diagnostics: Vec<String>,
}

impl Clone for OperationReport {
    fn clone(&self) -> (r: Self)
        ensures
            r.format.is_some() == self.format.is_some(),
            r.format.is_some() ==> r.format.unwrap()@ == self.format.unwrap()@,
            r.operation == self.operation,
            r.entries_seen == self.entries_seen,
            r.entries_completed == self.entries_completed,
            r.bytes_read == self.bytes_read,
            r.bytes_written == self.bytes_written,
            r.warnings@ == self.warnings@,
            r.diagnostics@ == self.diagnostics@,
    {
        OperationReport {
            format: match &self.format {
                Some(f) => Some(f.clone()),
                None => None,
            },
            operation: self.operation,
            entries_seen: self.entries_seen,
            entries_completed: self.entries_completed,
            bytes_read: self.bytes_read,
            bytes_written: self.bytes_written,
            warnings: crate::format::copy_strings(&self.warnings),
            diagnostics: crate::format::copy_strings(&self.diagnostics),
        }
    }
}

impl OperationReport {
    /// Creates an empty report for an operation.
    pub fn new(operation: OperationKind) -> (r: Self)
        ensures
            r.format is None,
            r.operation == Some(operation),
            r.entries_seen == 0,
            r.entries_completed == 0,
            r.bytes_read == 0,
            r.bytes_written == 0,
            r.warnings@.len() == 0,
            r.diagnostics@.len() == 0,
    {
        OperationReport {
            format: None,
            operation: Some(operation),
            entries_seen: 0,
            entries_completed: 0,
            bytes_read: 0,
            bytes_written: 0,
            warnings: Vec::new(),
            diagnostics: Vec::new(),
        }
    }

    /// Sets the runtime format.
    pub fn with_format(self, format: ArchiveFormatId) -> (r: Self)
        ensures
            r.format == Some(format),
            r.operation == self.operation,
            r.entries_seen == self.entries_seen,
            r.entries_completed == self.entries_completed,
            r.bytes_read == self.bytes_read,
            r.bytes_written == self.bytes_written,
            r.warnings == self.warnings,
            r.diagnostics == self.diagnostics,
    {
        OperationReport { format: Some(format), ..self }
    }
}

} // verus!
