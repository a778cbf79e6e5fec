//! The state kept while the native provider runs, and the decisions taken in
//! each of its callbacks.

use std::time::Instant;

use vstd::prelude::*;
use vstd::utf8::encode_utf8;

use crate::backend::{EntryOutcome, EntrySink, EntrySinkDecision, EntrySource, EntryVisitor};
use crate::entry::{name_error_text, parse_name, ArchiveEntry, Checksum, EntryId, EntryKind, EntryName};
use crate::error::{ArchiveError, ErrorView};
use crate::io::{NoVolumeProvider, VolumeProvider};
use crate::limits::{ResourceLimitKind, ResourceLimits};
use crate::operation::{entry_limit_error, limit_message, OperationContext, OperationKind, OperationReport};
use crate::password::{NoPasswordProvider, Password, PasswordProvider, PasswordReason, PasswordRequest};
use crate::progress::{NoopProgressReporter, ProgressEvent, ProgressReporter};
use crate::text::{decimal, join3, lossy_text, owned, u64_text, join2, utf8_lossy};

use super::ffi::{NativeEntryInfo, PULP7Z_CALLBACK_ERROR, PULP7Z_OK, PULP7Z_PASSWORD_DECLINED};

verus! {

#[verifier::external_type_specification]
#[verifier::external_body]
pub struct ExInstant(Instant);

/// The ask mode in which the provider only tests an entry.
pub const ASK_TEST: u32 = 1;

/// Progress is reported at least every this many bytes.
pub const PROGRESS_MIN_BYTES: u64 = 1048576;

/// Progress is reported at least this many milliseconds apart.
pub const PROGRESS_MIN_INTERVAL_MS: u128 = 50;

/// The current monotonic time, as `Instant::now`.
#[verifier::external_body]
fn clock_now() -> Instant {
    Instant::now()
}

/// Whole milliseconds from `last` to `now`, zero when `last` is later, as
/// `Instant::duration_since` and `Duration::as_millis`. The value depends on
/// the clock: nothing is stated of it.
#[verifier::external_body]
fn millis_between(now: &Instant, last: &Instant) -> u128 {
    now.duration_since(*last).as_millis()
}

/// Bytes completed since the last report; zero when the provider's counter
/// went back.
pub open spec fn progress_delta(last_reported: u64, completed: u64) -> u64 {
    if completed >= last_reported {
        (completed - last_reported) as u64
    } else {
        0
    }
}

/// `a + b`, held at `u64::MAX`.
pub open spec fn saturating_sum(a: u64, b: u64) -> u64 {
    if a + b > u64::MAX {
        u64::MAX
    } else {
        (a + b) as u64
    }
}

/// A report is owed whatever the clock says: the first report, a large
/// enough step, or a completed native stream.
pub open spec fn report_owed(first: bool, delta: u64, total: u64, completed: u64) -> bool {
    first || delta >= PROGRESS_MIN_BYTES || (total != 0 && completed >= total)
}

/// Whether a progress step is reported: when a report is owed, or when at
/// least `PROGRESS_MIN_INTERVAL_MS` milliseconds passed since the last one.
pub open spec fn progress_due_spec(first: bool, delta: u64, total: u64, completed: u64, elapsed_ms: Option<u128>) -> bool {
    report_owed(first, delta, total, completed) || (elapsed_ms matches Some(m) && m >= PROGRESS_MIN_INTERVAL_MS)
}

/// Decides whether a progress step is reported, given the milliseconds since
/// the last report (none before the first).
pub fn progress_due(first: bool, delta: u64, total: u64, completed: u64, elapsed_ms: Option<u128>) -> (r: bool)
    ensures
        r == progress_due_spec(first, delta, total, completed, elapsed_ms),
{
    let interval_passed = match elapsed_ms {
        Some(m) => m >= PROGRESS_MIN_INTERVAL_MS,
        None => false,
    };
    first || delta >= PROGRESS_MIN_BYTES || (total != 0 && completed >= total) || interval_passed
}

/// The byte event emitted by native progress. Native totals belong to single
/// streams that can restart during one operation, so no total is given.
pub fn bytes_event(delta: u64, processed: u64) -> (r: ProgressEvent)
    ensures
        r == (ProgressEvent::Bytes { delta, processed, total: None }),
{
    ProgressEvent::Bytes { delta, processed, total: None }
}

/// The password reason for a native reason code: 0 is the header, anything
/// else entry data.
pub fn password_reason(native_reason: u32) -> (r: PasswordReason)
    ensures
        r == (if native_reason == 0 { PasswordReason::Header } else { PasswordReason::Data }),
{
    if native_reason == 0 {
        PasswordReason::Header
    } else {
        PasswordReason::Data
    }
}

/// The error for a nonzero native extraction result.
pub open spec fn operation_error_view(result: i32) -> ErrorView {
    if result == 9 {
        ErrorView::WrongPassword
    } else if 2 <= result <= 8 && result != 4 {
        ErrorView::DataError("native extraction result "@ + decimal(result as nat))
    } else if result == 1 {
        ErrorView::UnsupportedOperation(OperationKind::Extract, None)
    } else {
        ErrorView::Native(result, "native extraction failed"@)
    }
}

/// Maps a nonzero native extraction result to an error.
pub fn native_operation_error(result: i32) -> (r: ArchiveError)
    ensures
        r@ == operation_error_view(result),
{
    if result == 9 {
        ArchiveError::WrongPassword
    } else if 2 <= result && result <= 8 && result != 4 {
        let n: u64 = result as u64;
        let text = u64_text(n);
        ArchiveError::DataError(join2("native extraction result ", text.as_str()))
    } else if result == 1 {
        ArchiveError::UnsupportedOperation { operation: OperationKind::Extract, format: None }
    } else {
        let message = owned("native extraction failed");
        proof {
            reveal_strlit("native extraction failed");
            crate::text::lemma_utf8_len_bound(message@);
        }
        ArchiveError::native(result, message)
    }
}

/// State shared by every callback of one native operation.
pub struct CallbackCommon<'a, R = NoopProgressReporter, P = NoPasswordProvider, V = NoVolumeProvider> {
    /// The operation's context.
    pub context: &'a OperationContext<R, P, V>,
    /// The report being built.
    pub report: OperationReport,
    /// The first error raised by a callback.
    pub error: Option<ArchiveError>,
    /// The provider's completed counter at the last report.
    pub last_reported_completed: u64,
    /// Bytes reported so far, summed over native streams.
    pub progress_processed: u64,
    /// When progress was last reported.
    pub last_progress_at: Option<Instant>,
    /// Unpacked bytes declared by the entries accepted so far.
    pub declared_bytes: u64,
}

/// The entry-count limit message.
pub open spec fn entries_limit_text() -> Seq<char> {
    "entry count exceeds the configured limit"@
}

/// The error, if any, raised when an entry is accepted after `seen` entries
/// declaring `declared` bytes in all.
pub open spec fn accept_error(entry: ArchiveEntry, limits: ResourceLimits, seen: u64, declared: u64) -> Option<ErrorView> {
    let size: u64 = match entry.size {
        Some(s) => s,
        None => 0,
    };
    if entry_limit_error(entry, limits) is Some {
        entry_limit_error(entry, limits)
    } else if seen >= limits.max_entries {
        Some(ErrorView::ResourceLimit(ResourceLimitKind::Entries, entries_limit_text()))
    } else if declared + size > u64::MAX {
        Some(ErrorView::ResourceLimit(ResourceLimitKind::TotalBytes, "declared byte count overflowed"@))
    } else if declared + size > limits.max_total_bytes {
        Some(ErrorView::ResourceLimit(
            ResourceLimitKind::TotalBytes,
            "entries declare "@ + decimal((declared + size) as nat) + " bytes, maximum is "@ + decimal(
                limits.max_total_bytes as nat,
            ),
        ))
    } else {
        None
    }
}

impl<'a, R: ProgressReporter, P: PasswordProvider, V: VolumeProvider> CallbackCommon<'a, R, P, V> {
    /// Fresh state for one operation.
    pub fn new(context: &'a OperationContext<R, P, V>, operation: OperationKind) -> (r: Self)
        ensures
            r.context == context,
            r.report.operation == Some(operation),
            r.report.format is None,
            r.report.entries_seen == 0,
            r.report.entries_completed == 0,
            r.report.bytes_read == 0,
            r.report.bytes_written == 0,
            r.report.warnings@.len() == 0,
            r.report.diagnostics@.len() == 0,
            r.error is None,
            r.last_reported_completed == 0,
            r.progress_processed == 0,
            r.last_progress_at is None,
            r.declared_bytes == 0,
    {
        CallbackCommon {
            context,
            report: OperationReport::new(operation),
            error: None,
            last_reported_completed: 0,
            progress_processed: 0,
            last_progress_at: None,
            declared_bytes: 0,
        }
    }

    /// Keeps the first error and returns the status that tells the provider
    /// a callback failed.
    pub fn fail(&mut self, error: ArchiveError) -> (r: i32)
        ensures
            r == PULP7Z_CALLBACK_ERROR,
            final(self).error == (if old(self).error is Some { old(self).error } else { Some(error) }),
            final(self).context == old(self).context,
            final(self).report == old(self).report,
            final(self).last_reported_completed == old(self).last_reported_completed,
            final(self).progress_processed == old(self).progress_processed,
            final(self).last_progress_at == old(self).last_progress_at,
            final(self).declared_bytes == old(self).declared_bytes,
    {
        if self.error.is_none() {
            self.error = Some(error);
        }
        PULP7Z_CALLBACK_ERROR
    }

    /// Handles a native progress callback: stops when the operation was
    /// cancelled, otherwise reports the bytes completed since the last report
    /// when a report is owed or the minimum interval has passed.
    pub fn progress(&mut self, total: u64, completed: u64, phase: u32) -> (r: i32)
        ensures
            r == PULP7Z_OK || r == PULP7Z_CALLBACK_ERROR,
            final(self).progress_processed >= old(self).progress_processed,
            final(self).context == old(self).context,
            final(self).report == old(self).report,
            final(self).declared_bytes == old(self).declared_bytes,
            r == PULP7Z_CALLBACK_ERROR ==> {
                &&& final(self).error is Some
                &&& old(self).error is Some ==> final(self).error == old(self).error
                &&& final(self).last_reported_completed == old(self).last_reported_completed
                &&& final(self).progress_processed == old(self).progress_processed
                &&& final(self).last_progress_at == old(self).last_progress_at
            },
            r == PULP7Z_OK ==> final(self).error == old(self).error && exists|elapsed_ms: Option<u128>|
                #[trigger] old(self).progress_step(*final(self), total, completed, elapsed_ms),
    {
        match self.context.check_cancelled() {
            Err(error) => {
                return self.fail(error);
            },
            Ok(()) => {},
        }
        let now = clock_now();
        let delta = completed.saturating_sub(self.last_reported_completed);
        let processed = self.progress_processed.saturating_add(delta);
        let elapsed_ms = match &self.last_progress_at {
            Some(last) => Some(millis_between(&now, last)),
            None => None,
        };
        let ghost before = *self;
        if progress_due(self.last_progress_at.is_none(), delta, total, completed, elapsed_ms) {
            self.context.report(bytes_event(delta, processed));
            self.last_reported_completed = completed;
            self.progress_processed = processed;
            self.last_progress_at = Some(now);
        }
        assert(before.progress_step(*self, total, completed, elapsed_ms));
        PULP7Z_OK
    }

    /// What a successful progress call does: with `elapsed_ms` the time since
    /// the last report (none before the first), a due step reports the bytes
    /// completed since the last report and restarts the interval; any other
    /// step leaves the counters and the interval as they were.
    pub open spec fn progress_step(self, next: Self, total: u64, completed: u64, elapsed_ms: Option<u128>) -> bool {
        let delta = progress_delta(self.last_reported_completed, completed);
        &&& (elapsed_ms is None <==> self.last_progress_at is None)
        &&& if progress_due_spec(self.last_progress_at is None, delta, total, completed, elapsed_ms) {
            &&& next.last_reported_completed == completed
            &&& next.progress_processed == saturating_sum(self.progress_processed, delta)
            &&& next.last_progress_at is Some
        } else {
            &&& next.last_reported_completed == self.last_reported_completed
            &&& next.progress_processed == self.progress_processed
            &&& next.last_progress_at == self.last_progress_at
        }
    }

    /// The report, or the first error raised by a callback.
    pub fn finish(self) -> (r: Result<OperationReport, ArchiveError>)
        ensures
            match self.error {
                Some(e) => r == Err::<OperationReport, ArchiveError>(e),
                None => r == Ok::<OperationReport, ArchiveError>(self.report),
            },
    {
        match self.error {
            Some(error) => Err(error),
            None => Ok(self.report),
        }
    }

    /// Checks one entry against the per-entry, entry-count and declared-total
    /// limits, and counts its declared bytes.
    pub fn accept_entry(&mut self, entry: &ArchiveEntry) -> (r: Result<(), ArchiveError>)
        ensures
            match accept_error(*entry, old(self).context.limits_view(), old(self).report.entries_seen, old(self).declared_bytes) {
                Some(ev) => r matches Err(e) && e@ == ev && final(self).declared_bytes == old(self).declared_bytes,
                None => r is Ok && final(self).declared_bytes == old(self).declared_bytes + match entry.size {
                    Some(s) => s,
                    None => 0u64,
                },
            },
            r is Ok ==> final(self).declared_bytes <= old(self).context.limits_view().max_total_bytes,
            final(self).context == old(self).context,
            final(self).report == old(self).report,
            final(self).error == old(self).error,
            final(self).last_reported_completed == old(self).last_reported_completed,
            final(self).progress_processed == old(self).progress_processed,
            final(self).last_progress_at == old(self).last_progress_at,
    {
        match self.context.validate_entry(entry) {
            Err(e) => {
                return Err(e);
            },
            Ok(()) => {},
        }
        let limits = self.context.limits();
        if self.report.entries_seen >= limits.max_entries {
            return Err(ArchiveError::ResourceLimit {
                kind: ResourceLimitKind::Entries,
                message: owned("entry count exceeds the configured limit"),
            });
        }
        let entry_bytes: u64 = match entry.size {
            Some(s) => s,
            None => 0,
        };
        let total = match self.declared_bytes.checked_add(entry_bytes) {
            Some(t) => t,
            None => {
                return Err(ArchiveError::ResourceLimit {
                    kind: ResourceLimitKind::TotalBytes,
                    message: owned("declared byte count overflowed"),
                });
            },
        };
        if total > limits.max_total_bytes {
            return Err(ArchiveError::ResourceLimit {
                kind: ResourceLimitKind::TotalBytes,
                message: limit_message("entries declare ", total, limits.max_total_bytes),
            });
        }
        self.declared_bytes = total;
        Ok(())
    }
}


/// The entry kind of a native item.
pub open spec fn native_kind(is_dir: u8, link_kind: u8, has_target: bool) -> EntryKind {
    if is_dir != 0 {
        EntryKind::Directory
    } else if has_target && link_kind == 2 {
        EntryKind::Hardlink
    } else if has_target {
        EntryKind::Symlink
    } else {
        EntryKind::File
    }
}

/// A native text that may be absent: empty bytes mean no text.
pub open spec fn optional_text(bytes: Seq<u8>) -> Option<Seq<char>> {
    if bytes.len() == 0 {
        None
    } else {
        Some(utf8_lossy(bytes))
    }
}

/// An optional string taken by its characters.
pub open spec fn text_view(s: Option<String>) -> Option<Seq<char>> {
    match s {
        Some(t) => Some(t@),
        None => None,
    }
}

/// A value the provider marks as present by a nonzero flag.
pub open spec fn flagged<T>(flag: u8, value: T) -> Option<T> {
    if flag != 0 {
        Some(value)
    } else {
        None
    }
}

/// The little-endian bytes of a CRC32 value.
pub open spec fn crc_bytes(crc: u32) -> Seq<u8> {
    seq![(crc % 256) as u8, ((crc / 256) % 256) as u8, ((crc / 65536) % 256) as u8, ((crc / 16777216) % 256) as u8]
}

/// `e` is the entry made of native item `info` named `name`.
pub open spec fn native_entry_matches(info: NativeEntryInfo, name: Seq<char>, e: ArchiveEntry) -> bool {
    &&& e.id == EntryId(info.index as u64)
    &&& e.name@ == name
    &&& e.kind == native_kind(info.is_dir, info.link_kind, info.link_target@.len() > 0)
    &&& e.size == flagged(info.has_size, info.size)
    &&& e.packed_size == flagged(info.has_pack_size, info.pack_size)
    &&& e.modified == flagged(info.has_mtime, info.mtime_unix_ns)
    &&& e.accessed is None
    &&& e.created is None
    &&& e.attributes == flagged(info.has_attrib, info.attrib as u64)
    &&& e.posix_attributes == flagged(info.has_posix_attrib, info.posix_attrib as u64)
    &&& (e.checksum is Some <==> info.has_crc != 0)
    &&& (e.checksum matches Some(c) ==> c.algorithm@ == "CRC32"@ && c.value@ == crc_bytes(info.crc))
    &&& e.encrypted == (info.encrypted != 0)
    &&& text_view(e.link_target) == optional_text(info.link_target@)
    &&& text_view(e.method) == optional_text(info.method@)
}

fn optional_native_text(bytes: &Vec<u8>) -> (r: Option<String>)
    ensures
        text_view(r) == optional_text(bytes@),
{
    if bytes.len() == 0 {
        None
    } else {
        Some(lossy_text(bytes.as_slice()))
    }
}

fn crc_checksum(crc: u32) -> (r: Checksum)
    ensures
        r.algorithm@ == "CRC32"@,
        r.value@ == crc_bytes(crc),
{
    let mut value: Vec<u8> = Vec::new();
    value.push((crc % 256) as u8);
    value.push(((crc / 256) % 256) as u8);
    value.push(((crc / 65536) % 256) as u8);
    value.push(((crc / 16777216) % 256) as u8);
    proof {
        assert(value@ =~= crc_bytes(crc));
    }
    Checksum { algorithm: owned("CRC32"), value }
}

/// Converts a native item into an entry, validating its name.
pub fn entry_from_native(info: &NativeEntryInfo) -> (r: Result<ArchiveEntry, ArchiveError>)
    ensures
        match parse_name(utf8_lossy(info.path@)) {
            Ok(n) => r matches Ok(e) && native_entry_matches(*info, n, e),
            Err(err) => r matches Err(e) && e@ == ErrorView::PathViolation(name_error_text(err)),
        },
{
    let path = lossy_text(info.path.as_slice());
    let name = match EntryName::parse(path.as_str()) {
        Ok(n) => n,
        Err(e) => {
            return Err(ArchiveError::from_name_error(e));
        },
    };
    let link_target = optional_native_text(&info.link_target);
    let kind = if info.is_dir != 0 {
        EntryKind::Directory
    } else if link_target.is_some() && info.link_kind == 2 {
        EntryKind::Hardlink
    } else if link_target.is_some() {
        EntryKind::Symlink
    } else {
        EntryKind::File
    };
    Ok(ArchiveEntry {
        id: EntryId::new(info.index as u64),
        name,
        kind,
        size: if info.has_size != 0 { Some(info.size) } else { None },
        packed_size: if info.has_pack_size != 0 { Some(info.pack_size) } else { None },
        modified: if info.has_mtime != 0 { Some(info.mtime_unix_ns) } else { None },
        accessed: None,
        created: None,
        attributes: if info.has_attrib != 0 { Some(info.attrib as u64) } else { None },
        posix_attributes: if info.has_posix_attrib != 0 { Some(info.posix_attrib as u64) } else { None },
        checksum: if info.has_crc != 0 { Some(crc_checksum(info.crc)) } else { None },
        encrypted: info.encrypted != 0,
        link_target,
        method: optional_native_text(&info.method),
    })
}

/// `a`, held at `u32::MAX`.
pub open spec fn clamp_u32(a: u64) -> u32 {
    if a > u32::MAX {
        u32::MAX
    } else {
        a as u32
    }
}

/// The error, if any, for offering `entry` to the provider as a source item.
pub open spec fn source_info_error(entry: ArchiveEntry) -> Option<ErrorView> {
    if entry.kind == EntryKind::Special || entry.kind == EntryKind::Hardlink || entry.kind == EntryKind::Symlink {
        Some(ErrorView::InvalidInput("entry '"@ + entry.name@ + "' uses an unsupported link or special-file kind"@))
    } else if encode_utf8(entry.name@).len() > u32::MAX {
        Some(ErrorView::InvalidInput("entry path exceeds native length limit"@))
    } else {
        None
    }
}

/// `info` is the source item offered for `entry` at `index`.
pub open spec fn source_info_matches(entry: ArchiveEntry, index: u32, info: NativeEntryInfo) -> bool {
    &&& info.index == index
    &&& info.path@ == encode_utf8(entry.name@)
    &&& info.is_dir == (if entry.kind == EntryKind::Directory { 1u8 } else { 0u8 })
    &&& info.encrypted == 0
    &&& info.link_kind == 0
    &&& info.has_size == (if entry.size is Some { 1u8 } else { 0u8 })
    &&& info.size == (match entry.size { Some(s) => s, None => 0u64 })
    &&& info.has_pack_size == 0
    &&& info.pack_size == 0
    &&& info.has_mtime == (if entry.modified is Some { 1u8 } else { 0u8 })
    &&& info.mtime_unix_ns == (match entry.modified { Some(t) => t, None => 0i64 })
    &&& info.has_attrib == (if entry.attributes is Some { 1u8 } else { 0u8 })
    &&& info.attrib == (match entry.attributes { Some(a) => clamp_u32(a), None => 0u32 })
    &&& info.has_posix_attrib == (if entry.posix_attributes is Some { 1u8 } else { 0u8 })
    &&& info.posix_attrib == (match entry.posix_attributes { Some(a) => clamp_u32(a), None => 0u32 })
    &&& info.has_crc == 0
    &&& info.crc == 0
    &&& info.method@.len() == 0
    &&& info.link_target@.len() == 0
}

fn clamp_to_u32(a: u64) -> (r: u32)
    ensures
        r == clamp_u32(a),
{
    if a > 4294967295u64 {
        4294967295u32
    } else {
        a as u32
    }
}

/// Describes a source entry to the provider. Links and special files cannot
/// be written by the native encoder.
pub fn fill_source_info(entry: &ArchiveEntry, index: u32) -> (r: Result<NativeEntryInfo, ArchiveError>)
    ensures
        match source_info_error(*entry) {
            Some(ev) => r matches Err(e) && e@ == ev,
            None => r matches Ok(info) && source_info_matches(*entry, index, info),
        },
{
    if entry.kind == EntryKind::Special || entry.kind == EntryKind::Hardlink || entry.kind == EntryKind::Symlink {
        let message = join3("entry '", entry.name.as_str(), "' uses an unsupported link or special-file kind");
        return Err(ArchiveError::InvalidInput(message));
    }
    let path = entry.name.as_str().as_bytes();
    if path.len() > 4294967295usize {
        return Err(ArchiveError::invalid_input("entry path exceeds native length limit"));
    }
    let mut output = NativeEntryInfo::empty(index);
    output.path = vstd::slice::slice_to_vec(path);
    output.is_dir = if entry.kind == EntryKind::Directory { 1 } else { 0 };
    output.encrypted = 0;
    match entry.size {
        Some(size) => {
            output.has_size = 1;
            output.size = size;
        },
        None => {},
    }
    match entry.modified {
        Some(time) => {
            output.has_mtime = 1;
            output.mtime_unix_ns = time;
        },
        None => {},
    }
    match entry.attributes {
        Some(a) => {
            output.has_attrib = 1;
            output.attrib = clamp_to_u32(a);
        },
        None => {},
    }
    match entry.posix_attributes {
        Some(a) => {
            output.has_posix_attrib = 1;
            output.posix_attrib = clamp_to_u32(a);
        },
        None => {},
    }
    Ok(output)
}


/// After a failure: the first error stays, or, when there was none, the new
/// one is `ev`.
pub open spec fn first_error_kept(before: Option<ArchiveError>, after: Option<ArchiveError>, ev: ErrorView) -> bool {
    match before {
        Some(_) => after == before,
        None => after matches Some(e) && e@ == ev,
    }
}

/// The error for a password longer than the provider's buffer.
pub open spec fn capacity_error() -> ErrorView {
    ErrorView::InvalidInput("password exceeds native callback capacity"@)
}

impl<'a, R: ProgressReporter, P: PasswordProvider, V: VolumeProvider> CallbackCommon<'a, R, P, V> {
    /// Checks that a password fits the provider's buffer of `capacity` bytes.
    pub fn write_password(&mut self, secret: &Password, capacity: u32) -> (r: i32)
        ensures
            r == PULP7Z_OK <==> secret@.len() <= capacity,
            r != PULP7Z_OK ==> r == PULP7Z_CALLBACK_ERROR && first_error_kept(old(self).error, final(self).error, capacity_error()),
            r == PULP7Z_OK ==> final(self).error == old(self).error,
            final(self).context == old(self).context,
            final(self).report == old(self).report,
            final(self).declared_bytes == old(self).declared_bytes,
    {
        if secret.len() > capacity as usize {
            return self.fail(ArchiveError::invalid_input("password exceeds native callback capacity"));
        }
        PULP7Z_OK
    }
}


impl<'a, R: ProgressReporter, P: PasswordProvider, V: VolumeProvider> CallbackCommon<'a, R, P, V> {
    /// Asks the context's provider for a password on behalf of the native
    /// provider. A declined request is remembered as `PasswordRequired` when
    /// `decline_is_error` holds and no earlier error was kept. On success the
    /// password to copy into the native buffer is returned.
    pub fn password_answer(&mut self, native_reason: u32, attempt: u32, capacity: u32, decline_is_error: bool) -> (r: (
        i32,
        Option<Password>,
    ))
        ensures
            r.0 == PULP7Z_OK || r.0 == PULP7Z_PASSWORD_DECLINED || r.0 == PULP7Z_CALLBACK_ERROR,
            r.0 == PULP7Z_OK ==> (r.1 matches Some(p) && p@.len() <= capacity && final(self).error == old(self).error),
            r.0 != PULP7Z_OK ==> r.1 is None,
            r.0 == PULP7Z_PASSWORD_DECLINED ==> final(self).error == (if decline_is_error && old(self).error is None {
                Some(ArchiveError::PasswordRequired)
            } else {
                old(self).error
            }),
            r.0 == PULP7Z_CALLBACK_ERROR ==> final(self).error is Some && (old(self).error is Some ==> final(self).error
                == old(self).error),
            final(self).context == old(self).context,
            final(self).report == old(self).report,
            final(self).declared_bytes == old(self).declared_bytes,
    {
        let reason = password_reason(native_reason);
        let requested = self.context.request_password(PasswordRequest { reason, attempt });
        match requested {
            Ok(Some(password)) => {
                let status = self.write_password(&password, capacity);
                if status == PULP7Z_OK {
                    (PULP7Z_OK, Some(password))
                } else {
                    (status, None)
                }
            },
            Ok(None) => {
                if decline_is_error && self.error.is_none() {
                    self.error = Some(ArchiveError::PasswordRequired);
                }
                (PULP7Z_PASSWORD_DECLINED, None)
            },
            Err(error) => (self.fail(error), None),
        }
    }
}

/// The error, if any, for writing `size` more bytes of `entry` after
/// `current` bytes of it and `written` bytes of the whole operation.
pub open spec fn extract_write_error(entry: ArchiveEntry, current: u64, size: u32, written: u64, limits: ResourceLimits) -> Option<ErrorView> {
    let max = limits.max_entry_bytes;
    let entry_limit: u64 = match entry.size {
        Some(s) => if s < max { s } else { max },
        None => max,
    };
    if current + size > u64::MAX {
        Some(ErrorView::ResourceLimit(ResourceLimitKind::EntryBytes, "extracted entry byte count overflowed"@))
    } else if current + size > entry_limit {
        if entry.size is Some {
            Some(ErrorView::DataError("native output for '"@ + entry.name@ + "' exceeds its declared size"@))
        } else {
            Some(ErrorView::ResourceLimit(ResourceLimitKind::EntryBytes, "extracted entry exceeds configured limit"@))
        }
    } else if written + size > u64::MAX {
        Some(ErrorView::ResourceLimit(ResourceLimitKind::TotalBytes, "extracted byte count overflowed"@))
    } else if written + size > limits.max_total_bytes {
        Some(ErrorView::ResourceLimit(ResourceLimitKind::TotalBytes, "extracted byte count exceeds configured limit"@))
    } else {
        None
    }
}

/// Why the provider may not write `size` bytes now: nothing for an empty
/// write; else no entry started, the limits of `extract_write_error`, or no
/// output selected for the entry, in that order.
pub open spec fn write_refusal(
    current: Option<ArchiveEntry>,
    writer_open: bool,
    current_bytes: u64,
    size: u32,
    written: u64,
    limits: ResourceLimits,
) -> Option<ErrorView> {
    if size == 0 {
        None
    } else {
        match current {
            None => Some(ErrorView::Internal("native wrote without a current entry"@)),
            Some(e) => match extract_write_error(e, current_bytes, size, written, limits) {
                Some(ev) => Some(ev),
                None => if writer_open {
                    None
                } else {
                    Some(ErrorView::Internal("native wrote without a selected output"@))
                },
            },
        }
    }
}

/// Checks the entry and operation limits before the provider writes `size`
/// more bytes of `entry`.
pub fn check_extract_write(entry: &ArchiveEntry, current_bytes: u64, size: u32, bytes_written: u64, limits: &ResourceLimits) -> (r: Result<(), ArchiveError>)
    ensures
        match extract_write_error(*entry, current_bytes, size, bytes_written, *limits) {
            Some(ev) => r matches Err(e) && e@ == ev,
            None => r is Ok,
        },
{
    let max = limits.max_entry_bytes;
    let entry_limit: u64 = match entry.size {
        Some(s) => if s < max { s } else { max },
        None => max,
    };
    let projected = match current_bytes.checked_add(size as u64) {
        Some(b) => b,
        None => {
            return Err(ArchiveError::ResourceLimit {
                kind: ResourceLimitKind::EntryBytes,
                message: owned("extracted entry byte count overflowed"),
            });
        },
    };
    if projected > entry_limit {
        if entry.size.is_some() {
            return Err(ArchiveError::DataError(join3("native output for '", entry.name.as_str(), "' exceeds its declared size")));
        } else {
            return Err(ArchiveError::ResourceLimit {
                kind: ResourceLimitKind::EntryBytes,
                message: owned("extracted entry exceeds configured limit"),
            });
        }
    }
    let total = match bytes_written.checked_add(size as u64) {
        Some(b) => b,
        None => {
            return Err(ArchiveError::ResourceLimit {
                kind: ResourceLimitKind::TotalBytes,
                message: owned("extracted byte count overflowed"),
            });
        },
    };
    if total > limits.max_total_bytes {
        return Err(ArchiveError::ResourceLimit {
            kind: ResourceLimitKind::TotalBytes,
            message: owned("extracted byte count exceeds configured limit"),
        });
    }
    Ok(())
}

/// The error, if any, for accepting `count` bytes read from `entry` after
/// `reader_bytes` bytes of it and `bytes_read` bytes of the whole operation.
pub open spec fn source_read_error(entry: ArchiveEntry, reader_bytes: u64, count: u64, bytes_read: u64, limits: ResourceLimits) -> Option<ErrorView> {
    if reader_bytes + count > u64::MAX {
        Some(ErrorView::ResourceLimit(ResourceLimitKind::EntryBytes, "source entry byte count overflowed"@))
    } else if entry.size matches Some(declared) && reader_bytes + count > declared {
        Some(ErrorView::InvalidInput("source entry '"@ + entry.name@ + "' produced more bytes than declared"@))
    } else if reader_bytes + count > limits.max_entry_bytes {
        Some(ErrorView::ResourceLimit(ResourceLimitKind::EntryBytes, "source entry exceeds configured limit"@))
    } else if bytes_read + count > u64::MAX {
        Some(ErrorView::ResourceLimit(ResourceLimitKind::TotalBytes, "source byte count overflowed"@))
    } else if bytes_read + count > limits.max_total_bytes {
        Some(ErrorView::ResourceLimit(ResourceLimitKind::TotalBytes, "source byte count exceeds configured limit"@))
    } else {
        None
    }
}

/// Checks the declared size and the limits for `count` bytes read from a
/// source entry; on success returns the new entry and operation byte counts.
pub fn check_source_read(entry: &ArchiveEntry, reader_bytes: u64, count: u64, bytes_read: u64, limits: &ResourceLimits) -> (r: Result<(u64, u64), ArchiveError>)
    ensures
        match source_read_error(*entry, reader_bytes, count, bytes_read, *limits) {
            Some(ev) => r matches Err(e) && e@ == ev,
            None => r == Ok::<(u64, u64), ArchiveError>(((reader_bytes + count) as u64, (bytes_read + count) as u64)),
        },
{
    let entry_bytes = match reader_bytes.checked_add(count) {
        Some(b) => b,
        None => {
            return Err(ArchiveError::ResourceLimit {
                kind: ResourceLimitKind::EntryBytes,
                message: owned("source entry byte count overflowed"),
            });
        },
    };
    match entry.size {
        Some(declared) => {
            if entry_bytes > declared {
                return Err(ArchiveError::InvalidInput(join3("source entry '", entry.name.as_str(), "' produced more bytes than declared")));
            }
        },
        None => {},
    }
    if entry_bytes > limits.max_entry_bytes {
        return Err(ArchiveError::ResourceLimit {
            kind: ResourceLimitKind::EntryBytes,
            message: owned("source entry exceeds configured limit"),
        });
    }
    let total = match bytes_read.checked_add(count) {
        Some(b) => b,
        None => {
            return Err(ArchiveError::ResourceLimit {
                kind: ResourceLimitKind::TotalBytes,
                message: owned("source byte count overflowed"),
            });
        },
    };
    if total > limits.max_total_bytes {
        return Err(ArchiveError::ResourceLimit {
            kind: ResourceLimitKind::TotalBytes,
            message: owned("source byte count exceeds configured limit"),
        });
    }
    Ok((entry_bytes, total))
}

/// The native decision for an entry: 0 skips it, 1 tests it without output,
/// 2 writes it. Tests, test-mode requests and non-file entries never write.
pub open spec fn decision_code<W>(decision: EntrySinkDecision<W>, test_mode: bool, ask_mode: u32, kind: EntryKind) -> u32 {
    match decision {
        EntrySinkDecision::Skip => 0,
        EntrySinkDecision::MetadataOnly => 1,
        EntrySinkDecision::Write(_) => if test_mode || ask_mode == ASK_TEST || kind != EntryKind::File {
            1
        } else {
            2
        },
    }
}

/// Computes the native decision for a sink's choice.
pub fn sink_decision_code<W>(decision: &EntrySinkDecision<W>, test_mode: bool, ask_mode: u32, kind: EntryKind) -> (r: u32)
    ensures
        r == decision_code(*decision, test_mode, ask_mode, kind),
{
    match decision {
        EntrySinkDecision::Skip => 0,
        EntrySinkDecision::MetadataOnly => 1,
        EntrySinkDecision::Write(_) => {
            if test_mode || ask_mode == ASK_TEST || kind != EntryKind::File {
                1
            } else {
                2
            }
        },
    }
}

/// The outcome handed to the sink when the provider finishes an entry.
pub fn finish_outcome(operation_result: i32, decision: u32, bytes: u64) -> (r: EntryOutcome)
    ensures
        r == (if operation_result != 0 {
            EntryOutcome::Failed
        } else if decision == 2 {
            EntryOutcome::Written { bytes }
        } else {
            EntryOutcome::Skipped
        }),
{
    if operation_result == 0 {
        if decision == 2 {
            EntryOutcome::Written { bytes }
        } else {
            EntryOutcome::Skipped
        }
    } else {
        EntryOutcome::Failed
    }
}


/// There is an entry made of `info` that passed the limits.
pub open spec fn native_entry_accepted(info: NativeEntryInfo, limits: ResourceLimits, seen: u64, declared: u64) -> bool {
    parse_name(utf8_lossy(info.path@)) matches Ok(n) && exists|e: ArchiveEntry|
        native_entry_matches(info, n, e) && #[trigger] accept_error(e, limits, seen, declared) is None
}

/// The `EntryStarted` event for an entry.
pub fn entry_started(entry: &ArchiveEntry) -> (r: ProgressEvent)
    ensures
        r == (ProgressEvent::EntryStarted { id: entry.id, name: entry.name, size: entry.size }),
{
    ProgressEvent::EntryStarted { id: entry.id, name: entry.name.clone(), size: entry.size }
}

/// Callback state while the provider lists an archive.
pub struct ListState<'a, R = NoopProgressReporter, P = NoPasswordProvider, V = NoVolumeProvider> {
    /// Shared callback state.
    pub common: CallbackCommon<'a, R, P, V>,
    /// The primary archive name offered to the provider for split volumes.
    pub archive_name: Option<String>,
}

impl<'a, R: ProgressReporter, P: PasswordProvider, V: VolumeProvider> ListState<'a, R, P, V> {
    /// Fresh state for a listing.
    pub fn new(context: &'a OperationContext<R, P, V>) -> (r: Self)
        ensures
            r.common.context == context,
            r.common.report.operation == Some(OperationKind::List),
            r.common.report.entries_seen == 0,
            r.common.report.entries_completed == 0,
            r.common.error is None,
            r.common.declared_bytes == 0,
    {
        ListState { common: CallbackCommon::new(context, OperationKind::List), archive_name: context.archive_name() }
    }

    /// Handles one listed native item: stops on cancellation, converts and
    /// checks the entry, counts it, reports it and hands it to the visitor.
    pub fn visit_entry<Vis: EntryVisitor>(&mut self, visitor: &mut Vis, info: &NativeEntryInfo) -> (r: i32)
        ensures
            r == PULP7Z_OK || r == PULP7Z_CALLBACK_ERROR,
            r == PULP7Z_CALLBACK_ERROR ==> final(self).common.error is Some,
            old(self).common.error is Some ==> final(self).common.error == old(self).common.error,
            parse_name(utf8_lossy(info.path@)) is Err ==> r == PULP7Z_CALLBACK_ERROR,
            r == PULP7Z_OK ==> {
                &&& native_entry_accepted(*info, old(self).common.context.limits_view(), old(self).common.report.entries_seen, old(self).common.declared_bytes)
                &&& final(self).common.report.entries_seen == saturating_sum(old(self).common.report.entries_seen, 1)
                &&& final(self).common.report.entries_completed == saturating_sum(old(self).common.report.entries_completed, 1)
                &&& final(self).common.error == old(self).common.error
            },
            final(self).common.context == old(self).common.context,
    {
        match self.common.context.check_cancelled() {
            Err(error) => {
                return self.common.fail(error);
            },
            Ok(()) => {},
        }
        let entry = match entry_from_native(info) {
            Ok(e) => e,
            Err(error) => {
                return self.common.fail(error);
            },
        };
        match self.common.accept_entry(&entry) {
            Err(error) => {
                return self.common.fail(error);
            },
            Ok(()) => {},
        }
        proof {
            let n = parse_name(utf8_lossy(info.path@))->Ok_0;
            assert(native_entry_matches(*info, n, entry));
        }
        self.common.report.entries_seen = self.common.report.entries_seen.saturating_add(1);
        self.common.context.report(entry_started(&entry));
        match visitor.visit(&entry) {
            Ok(()) => {
                self.common.report.entries_completed = self.common.report.entries_completed.saturating_add(1);
                PULP7Z_OK
            },
            Err(error) => self.common.fail(error),
        }
    }

    /// The listing's report, or the first callback error.
    pub fn finish(self) -> (r: Result<OperationReport, ArchiveError>)
        ensures
            match self.common.error {
                Some(e) => r == Err::<OperationReport, ArchiveError>(e),
                None => r == Ok::<OperationReport, ArchiveError>(self.common.report),
            },
    {
        self.common.finish()
    }
}


/// Callback state while the provider extracts or tests an archive. `W` is
/// the sink's writer.
pub struct ExtractState<'a, W, R = NoopProgressReporter, P = NoPasswordProvider, V = NoVolumeProvider> {
    /// Shared callback state.
    pub common: CallbackCommon<'a, R, P, V>,
    /// The open output of the current entry.
    pub writer: Option<W>,
    /// The entry the provider is working on.
    pub current: Option<ArchiveEntry>,
    /// The native decision for the current entry.
    pub decision: u32,
    /// Whether the operation only tests the archive.
    pub test_mode: bool,
    /// Bytes written for the current entry.
    pub current_bytes: u64,
    /// The primary archive name offered to the provider for split volumes.
    pub archive_name: Option<String>,
}

impl<'a, W, R: ProgressReporter, P: PasswordProvider, V: VolumeProvider> ExtractState<'a, W, R, P, V> {
    /// Fresh state for an extraction, or for a test when `test_mode` holds.
    pub fn new(context: &'a OperationContext<R, P, V>, test_mode: bool) -> (r: Self)
        ensures
            r.common.context == context,
            r.common.report.operation == Some(if test_mode { OperationKind::Test } else { OperationKind::Extract }),
            r.common.report.format is None,
            r.common.report.entries_seen == 0,
            r.common.report.entries_completed == 0,
            r.common.report.bytes_read == 0,
            r.common.report.bytes_written == 0,
            r.common.report.warnings@.len() == 0,
            r.common.report.diagnostics@.len() == 0,
            r.common.error is None,
            r.common.last_reported_completed == 0,
            r.common.progress_processed == 0,
            r.common.last_progress_at is None,
            r.common.declared_bytes == 0,
            r.writer is None,
            r.current is None,
            r.decision == 0,
            r.test_mode == test_mode,
            r.current_bytes == 0,
    {
        ExtractState {
            common: CallbackCommon::new(context, if test_mode { OperationKind::Test } else { OperationKind::Extract }),
            writer: None,
            current: None,
            decision: 0,
            test_mode,
            current_bytes: 0,
            archive_name: context.archive_name(),
        }
    }

    /// Handles the start of one native item: stops on cancellation or when
    /// the previous item was not finished, converts and checks the entry,
    /// asks the sink for a destination and returns the status with the native
    /// decision.
    pub fn begin_entry<S: EntrySink<Writer = W>>(&mut self, sink: &mut S, info: &NativeEntryInfo, ask_mode: u32) -> (r: (i32, u32))
        ensures
            r.0 == PULP7Z_OK || r.0 == PULP7Z_CALLBACK_ERROR,
            r.0 == PULP7Z_CALLBACK_ERROR ==> r.1 == 0 && final(self).common.error is Some,
            old(self).common.error is Some ==> final(self).common.error == old(self).common.error,
            (old(self).writer is Some || old(self).current is Some) ==> r.0 == PULP7Z_CALLBACK_ERROR,
            parse_name(utf8_lossy(info.path@)) is Err ==> r.0 == PULP7Z_CALLBACK_ERROR,
            r.0 == PULP7Z_OK ==> {
                &&& native_entry_accepted(*info, old(self).common.context.limits_view(), old(self).common.report.entries_seen, old(self).common.declared_bytes)
                &&& final(self).current matches Some(e) && parse_name(utf8_lossy(info.path@)) matches Ok(n) && native_entry_matches(*info, n, e)
                &&& r.1 <= 2
                &&& final(self).decision == r.1
                &&& (final(self).writer is Some <==> r.1 == 2)
                &&& (r.1 == 2 ==> !old(self).test_mode && ask_mode != ASK_TEST && final(self).current.unwrap().kind == EntryKind::File)
                &&& final(self).current_bytes == 0
                &&& final(self).common.report.entries_seen == saturating_sum(old(self).common.report.entries_seen, 1)
                &&& final(self).common.error == old(self).common.error
            },
            final(self).test_mode == old(self).test_mode,
            final(self).common.context == old(self).common.context,
    {
        match self.common.context.check_cancelled() {
            Err(error) => {
                return (self.common.fail(error), 0);
            },
            Ok(()) => {},
        }
        if self.writer.take().is_some() || self.current.take().is_some() {
            return (self.common.fail(ArchiveError::Internal(owned("native started an entry before finishing the previous entry"))), 0);
        }
        let entry = match entry_from_native(info) {
            Ok(e) => e,
            Err(error) => {
                return (self.common.fail(error), 0);
            },
        };
        match self.common.accept_entry(&entry) {
            Err(error) => {
                return (self.common.fail(error), 0);
            },
            Ok(()) => {},
        }
        proof {
            let n = parse_name(utf8_lossy(info.path@))->Ok_0;
            assert(native_entry_matches(*info, n, entry));
        }
        self.common.report.entries_seen = self.common.report.entries_seen.saturating_add(1);
        self.common.context.report(entry_started(&entry));
        let sink_decision = match sink.begin(&entry, self.common.context) {
            Ok(d) => d,
            Err(error) => {
                return (self.common.fail(error), 0);
            },
        };
        self.current_bytes = 0;
        let code = sink_decision_code(&sink_decision, self.test_mode, ask_mode, entry.kind);
        if code == 2 {
            match sink_decision {
                EntrySinkDecision::Write(writer) => {
                    self.writer = Some(writer);
                },
                _ => {},
            }
        }
        self.decision = code;
        self.current = Some(entry);
        (PULP7Z_OK, code)
    }

    /// Checks, before the provider writes `size` bytes, that an entry with a
    /// selected output is open and that the limits allow the bytes.
    pub fn check_write(&mut self, size: u32) -> (r: i32)
        ensures
            match write_refusal(
                old(self).current,
                old(self).writer is Some,
                old(self).current_bytes,
                size,
                old(self).common.report.bytes_written,
                old(self).common.context.limits_view(),
            ) {
                None => r == PULP7Z_OK && final(self).common.error == old(self).common.error,
                Some(ev) => r == PULP7Z_CALLBACK_ERROR && first_error_kept(old(self).common.error, final(self).common.error, ev),
            },
            final(self).writer == old(self).writer,
            final(self).current == old(self).current,
            final(self).current_bytes == old(self).current_bytes,
            final(self).common.report == old(self).common.report,
            final(self).common.context == old(self).common.context,
    {
        if size == 0 {
            return PULP7Z_OK;
        }
        let checked = match &self.current {
            None => Err(ArchiveError::Internal(owned("native wrote without a current entry"))),
            Some(entry) => check_extract_write(entry, self.current_bytes, size, self.common.report.bytes_written, self.common.context.limits()),
        };
        match checked {
            Err(error) => self.common.fail(error),
            Ok(()) => {
                if self.writer.is_none() {
                    self.common.fail(ArchiveError::Internal(owned("native wrote without a selected output")))
                } else {
                    PULP7Z_OK
                }
            },
        }
    }

    /// Counts `count` bytes that the writer accepted out of `size` offered.
    pub fn record_write(&mut self, count: usize, size: u32) -> (r: i32)
        ensures
            r == PULP7Z_OK <==> count <= size,
            r != PULP7Z_OK ==> r == PULP7Z_CALLBACK_ERROR && final(self).common.error is Some,
            r == PULP7Z_OK ==> {
                &&& final(self).current_bytes == saturating_sum(old(self).current_bytes, count as u64)
                &&& final(self).common.report.bytes_written == saturating_sum(old(self).common.report.bytes_written, count as u64)
            },
            final(self).current == old(self).current,
            final(self).common.context == old(self).common.context,
    {
        if count > size as usize {
            return self.common.fail(ArchiveError::Internal(owned("writer returned too many bytes")));
        }
        let n: u64 = count as u64;
        self.current_bytes = self.current_bytes.saturating_add(n);
        self.common.report.bytes_written = self.common.report.bytes_written.saturating_add(n);
        PULP7Z_OK
    }

    /// Handles the end of one native item: closes its output, tells the sink
    /// the outcome, and fails when the provider reported an error.
    pub fn finish_entry<S: EntrySink<Writer = W>>(&mut self, sink: &mut S, operation_result: i32, bytes: u64) -> (r: i32)
        ensures
            r == PULP7Z_OK || r == PULP7Z_CALLBACK_ERROR,
            r == PULP7Z_CALLBACK_ERROR ==> final(self).common.error is Some,
            old(self).common.error is Some ==> final(self).common.error == old(self).common.error,
            old(self).current is None ==> r == PULP7Z_CALLBACK_ERROR,
            operation_result != 0 ==> r == PULP7Z_CALLBACK_ERROR,
            old(self).current is Some ==> final(self).writer is None,
            final(self).current is None,
            r == PULP7Z_OK ==> final(self).common.report.entries_completed == saturating_sum(old(self).common.report.entries_completed, 1)
                && final(self).common.error == old(self).common.error,
            final(self).common.context == old(self).common.context,
    {
        let entry = match self.current.take() {
            Some(e) => e,
            None => {
                return self.common.fail(ArchiveError::Internal(owned("native finished an entry that was not started")));
            },
        };
        self.writer = None;
        let outcome = finish_outcome(operation_result, self.decision, bytes);
        match sink.finish(&entry, outcome, self.common.context) {
            Err(error) => {
                return self.common.fail(error);
            },
            Ok(()) => {},
        }
        if operation_result != 0 {
            return self.common.fail(native_operation_error(operation_result));
        }
        self.common.report.entries_completed = self.common.report.entries_completed.saturating_add(1);
        PULP7Z_OK
    }

    /// The operation's report, or the first callback error.
    pub fn finish(self) -> (r: Result<OperationReport, ArchiveError>)
        ensures
            match self.common.error {
                Some(e) => r == Err::<OperationReport, ArchiveError>(e),
                None => r == Ok::<OperationReport, ArchiveError>(self.common.report),
            },
    {
        self.common.finish()
    }
}


/// The error for a source index the provider should not have asked for.
pub open spec fn source_index_error() -> ErrorView {
    ErrorView::InvalidInput("native source index is out of range"@)
}

/// Callback state while the provider writes an archive from a source. `Rd`
/// is the source's reader.
pub struct SourceState<'a, Rd, R = NoopProgressReporter, P = NoPasswordProvider, V = NoVolumeProvider> {
    /// Shared callback state.
    pub common: CallbackCommon<'a, R, P, V>,
    /// The entries offered to the provider, by index.
    pub entries: Vec<ArchiveEntry>,
    /// The open reader.
    pub reader: Option<Rd>,
    /// The entry index the reader belongs to.
    pub reader_index: Option<u32>,
    /// Bytes read from the reader so far.
    pub reader_bytes: u64,
    /// The password given with the options, used instead of the provider.
    pub fixed_password: Option<Password>,
}

impl<'a, Rd, R: ProgressReporter, P: PasswordProvider, V: VolumeProvider> SourceState<'a, Rd, R, P, V> {
    /// Fresh state for writing `entries`.
    pub fn new(entries: Vec<ArchiveEntry>, context: &'a OperationContext<R, P, V>, operation: OperationKind, fixed_password: Option<Password>) -> (r: Self)
        ensures
            r.common.context == context,
            r.common.report.operation == Some(operation),
            r.common.report.bytes_read == 0,
            r.common.error is None,
            r.entries@ == entries@,
            r.reader is None,
            r.reader_index is None,
            r.reader_bytes == 0,
            r.fixed_password == fixed_password,
    {
        SourceState {
            common: CallbackCommon::new(context, operation),
            entries,
            reader: None,
            reader_index: None,
            reader_bytes: 0,
            fixed_password,
        }
    }

    /// Describes entry `index` to the provider.
    pub fn entry_info(&mut self, index: u32) -> (r: (i32, Option<NativeEntryInfo>))
        ensures
            r.0 == PULP7Z_OK || r.0 == PULP7Z_CALLBACK_ERROR,
            r.0 == PULP7Z_CALLBACK_ERROR ==> r.1 is None && final(self).common.error is Some,
            old(self).common.error is Some ==> final(self).common.error == old(self).common.error,
            index >= old(self).entries@.len() ==> r.0 == PULP7Z_CALLBACK_ERROR && first_error_kept(old(self).common.error, final(self).common.error, source_index_error()),
            index < old(self).entries@.len() ==> match source_info_error(old(self).entries@[index as int]) {
                Some(ev) => r.0 == PULP7Z_CALLBACK_ERROR && first_error_kept(old(self).common.error, final(self).common.error, ev),
                None => r.0 == PULP7Z_OK && (r.1 matches Some(info) && source_info_matches(old(self).entries@[index as int], index, info)),
            },
            final(self).entries@ == old(self).entries@,
            final(self).common.context == old(self).common.context,
    {
        if index as usize >= self.entries.len() {
            return (self.common.fail(ArchiveError::invalid_input("native source index is out of range")), None);
        }
        let filled = fill_source_info(&self.entries[index as usize], index);
        match filled {
            Ok(info) => (PULP7Z_OK, Some(info)),
            Err(error) => (self.common.fail(error), None),
        }
    }

    /// The entry offered to the provider at `index`.
    pub fn entry_at(&self, index: u32) -> (r: &ArchiveEntry)
        requires
            index < self.entries@.len(),
        ensures
            *r == self.entries@[index as int],
    {
        &self.entries[index as usize]
    }

    /// Prepares to read `size` bytes of entry `index`: starts a new reader
    /// count when the provider moves to another entry and opens the entry's
    /// content, through the source, when no reader is open for it.
    pub fn prepare_read<Src: EntrySource<Reader = Rd>>(&mut self, source: &mut Src, index: u32, size: u32) -> (r: i32)
        ensures
            r == PULP7Z_OK || r == PULP7Z_CALLBACK_ERROR,
            r == PULP7Z_CALLBACK_ERROR ==> final(self).common.error is Some,
            old(self).common.error is Some ==> final(self).common.error == old(self).common.error,
            index >= old(self).entries@.len() ==> r == PULP7Z_CALLBACK_ERROR && first_error_kept(old(self).common.error, final(self).common.error, source_index_error()),
            index < old(self).entries@.len() && size == 0 ==> {
                &&& r == PULP7Z_OK
                &&& final(self).common.error == old(self).common.error
                &&& final(self).reader_index == old(self).reader_index
                &&& final(self).reader_bytes == old(self).reader_bytes
            },
            index < old(self).entries@.len() && size != 0 ==> {
                &&& final(self).reader_index == Some(index)
                &&& final(self).reader_bytes == (if old(self).reader_index == Some(index) { old(self).reader_bytes } else { 0 })
                &&& (old(self).reader_index == Some(index) && old(self).reader is Some) ==> {
                    &&& r == PULP7Z_OK
                    &&& final(self).reader == old(self).reader
                    &&& final(self).common.error == old(self).common.error
                }
                &&& r == PULP7Z_OK ==> final(self).reader is Some
            },
            final(self).entries@ == old(self).entries@,
            final(self).common.report == old(self).common.report,
            final(self).common.context == old(self).common.context,
    {
        if index as usize >= self.entries.len() {
            return self.common.fail(ArchiveError::invalid_input("native source index is out of range"));
        }
        if size == 0 {
            return PULP7Z_OK;
        }
        let same = match self.reader_index {
            Some(i) => i == index,
            None => false,
        };
        if !same {
            self.reader = None;
            self.reader_index = Some(index);
            self.reader_bytes = 0;
        }
        if self.reader.is_none() {
            let opened = source.open(self.entry_at(index), self.common.context);
            match opened {
                Ok(reader) => {
                    self.reader = Some(reader);
                },
                Err(error) => {
                    return self.common.fail(error);
                },
            }
        }
        PULP7Z_OK
    }

    /// Accepts `count` bytes that the reader of entry `index` produced out of
    /// `size` requested, checking the declared size and the limits.
    pub fn record_read(&mut self, index: u32, count: usize, size: u32) -> (r: i32)
        ensures
            r == PULP7Z_OK || r == PULP7Z_CALLBACK_ERROR,
            r == PULP7Z_CALLBACK_ERROR ==> final(self).common.error is Some,
            old(self).common.error is Some ==> final(self).common.error == old(self).common.error,
            index >= old(self).entries@.len() ==> r == PULP7Z_CALLBACK_ERROR,
            count > size ==> r == PULP7Z_CALLBACK_ERROR,
            index < old(self).entries@.len() && count <= size ==> match source_read_error(
                old(self).entries@[index as int],
                old(self).reader_bytes,
                count as u64,
                old(self).common.report.bytes_read,
                old(self).common.context.limits_view(),
            ) {
                Some(ev) => r == PULP7Z_CALLBACK_ERROR && first_error_kept(old(self).common.error, final(self).common.error, ev),
                None => r == PULP7Z_OK && final(self).reader_bytes == old(self).reader_bytes + count
                    && final(self).common.report.bytes_read == old(self).common.report.bytes_read + count,
            },
            final(self).entries@ == old(self).entries@,
            final(self).common.context == old(self).common.context,
    {
        if index as usize >= self.entries.len() {
            return self.common.fail(ArchiveError::invalid_input("native source index is out of range"));
        }
        if count > size as usize {
            return self.common.fail(ArchiveError::Internal(owned("source reader returned too many bytes")));
        }
        let checked = check_source_read(
            &self.entries[index as usize],
            self.reader_bytes,
            count as u64,
            self.common.report.bytes_read,
            self.common.context.limits(),
        );
        match checked {
            Ok((entry_bytes, total)) => {
                self.reader_bytes = entry_bytes;
                self.common.report.bytes_read = total;
                PULP7Z_OK
            },
            Err(error) => self.common.fail(error),
        }
    }

    /// Answers a native password request: the fixed password when one was
    /// given, otherwise the context's provider, whose refusal is not an error.
    pub fn password(&mut self, native_reason: u32, attempt: u32, capacity: u32) -> (r: (i32, Option<Password>))
        ensures
            r.0 == PULP7Z_OK || r.0 == PULP7Z_PASSWORD_DECLINED || r.0 == PULP7Z_CALLBACK_ERROR,
            r.0 == PULP7Z_OK ==> (r.1 matches Some(p) && p@.len() <= capacity),
            r.0 != PULP7Z_OK ==> r.1 is None,
            old(self).fixed_password matches Some(f) ==> (r.0 == PULP7Z_OK <==> f@.len() <= capacity) && (r.0
                == PULP7Z_OK ==> r.1.unwrap()@ == f@),
            r.0 == PULP7Z_PASSWORD_DECLINED ==> final(self).common.error == old(self).common.error,
            r.0 == PULP7Z_CALLBACK_ERROR ==> final(self).common.error is Some,
            old(self).common.error is Some ==> final(self).common.error == old(self).common.error,
            final(self).common.context == old(self).common.context,
    {
        match &self.fixed_password {
            Some(secret) => {
                let copy = secret.clone();
                let status = self.common.write_password(&copy, capacity);
                if status == PULP7Z_OK {
                    (PULP7Z_OK, Some(copy))
                } else {
                    (status, None)
                }
            },
            None => self.common.password_answer(native_reason, attempt, capacity, false),
        }
    }

    /// The operation's report, or the first callback error.
    pub fn finish(self) -> (r: Result<OperationReport, ArchiveError>)
        ensures
            match self.common.error {
                Some(e) => r == Err::<OperationReport, ArchiveError>(e),
                None => r == Ok::<OperationReport, ArchiveError>(self.common.report),
            },
    {
        self.common.finish()
    }
}

} // verus!
