//! The checks and conversions made before the native provider creates or
//! rewrites an archive.

use vstd::prelude::*;
use vstd::utf8::encode_utf8;

use crate::backend::EntrySource;
use crate::entry::{ArchiveEntry, EntryKind};
use crate::error::{ArchiveError, ErrorView};
use crate::format::ArchiveFormatId;
use crate::io::VolumeProvider;
use crate::limits::ResourceLimitKind;
use crate::limits::ResourceLimits;
use crate::operation::{check_entry_limits, entry_limit_error, CreateOptions, OperationContext, OperationReport, UpdateOptions};
use crate::password::PasswordProvider;
use crate::progress::ProgressReporter;
use crate::text::{join3, owned};

use super::ffi::NativeUpdateOptions;

verus! {

/// The sum of the declared sizes of some entries.
pub open spec fn declared_total(entries: Seq<ArchiveEntry>) -> int
    decreases entries.len(),
{
    if entries.len() == 0 {
        0
    } else {
        declared_total(entries.drop_last()) + match entries.last().size {
            Some(s) => s as int,
            None => 0,
        }
    }
}

/// An entry the native encoder can write: a regular file with a declared
/// size, or a directory, within the per-entry limits.
pub open spec fn encodable_entry(e: ArchiveEntry, limits: crate::limits::ResourceLimits) -> bool {
    &&& e.kind == EntryKind::File || e.kind == EntryKind::Directory
    &&& e.kind == EntryKind::File ==> e.size is Some
    &&& entry_limit_error(e, limits) is None
}

/// The size an entry declares, or 0.
pub open spec fn declared_size(e: ArchiveEntry) -> int {
    match e.size {
        Some(s) => s as int,
        None => 0,
    }
}

/// Why the encoder refuses the next entry of a source, after `count`
/// entries declaring `total` bytes: links and special files first, then the
/// entry count, the per-entry limits, a file without a size, the total
/// (overflowing, then over its limit) and the native index range.
pub open spec fn source_entry_refusal(count: nat, total: nat, e: ArchiveEntry, limits: ResourceLimits) -> Option<ErrorView> {
    if e.kind == EntryKind::Symlink || e.kind == EntryKind::Hardlink || e.kind == EntryKind::Special {
        Some(ErrorView::InvalidInput(
            "Format7zF creation does not yet encode link or special entry '"@ + e.name@ + "'"@,
        ))
    } else if count >= limits.max_entries {
        Some(ErrorView::ResourceLimit(ResourceLimitKind::Entries, "source entry count exceeds configured limit"@))
    } else if entry_limit_error(e, limits) is Some {
        entry_limit_error(e, limits)
    } else if e.kind == EntryKind::File && e.size is None {
        Some(ErrorView::InvalidInput("regular file entry '"@ + e.name@ + "' must provide its size"@))
    } else if total + declared_size(e) > u64::MAX {
        Some(ErrorView::ResourceLimit(ResourceLimitKind::TotalBytes, "source byte count overflowed"@))
    } else if total + declared_size(e) > limits.max_total_bytes {
        Some(ErrorView::ResourceLimit(ResourceLimitKind::TotalBytes, "source byte count exceeds configured limit"@))
    } else if count >= 4294967295 {
        Some(ErrorView::InvalidInput("source contains too many entries"@))
    } else {
        None
    }
}

/// Admits the next entry of a source after `count` entries declaring
/// `total` bytes: the new total, or the refusal.
pub fn admit_source_entry(count: usize, total: u64, entry: &ArchiveEntry, limits: &ResourceLimits) -> (r: Result<u64, ArchiveError>)
    ensures
        match source_entry_refusal(count as nat, total as nat, *entry, *limits) {
            Some(ev) => r matches Err(e) && e@ == ev,
            None => r == Ok::<u64, ArchiveError>((total + declared_size(*entry)) as u64),
        },
{
    if entry.kind == EntryKind::Symlink || entry.kind == EntryKind::Hardlink || entry.kind == EntryKind::Special {
        return Err(ArchiveError::InvalidInput(join3(
            "Format7zF creation does not yet encode link or special entry '",
            entry.name.as_str(),
            "'",
        )));
    }
    if count as u64 >= limits.max_entries {
        return Err(ArchiveError::ResourceLimit {
            kind: ResourceLimitKind::Entries,
            message: owned("source entry count exceeds configured limit"),
        });
    }
    match check_entry_limits(entry, limits) {
        Err(e) => {
            return Err(e);
        },
        Ok(()) => {},
    }
    if entry.kind == EntryKind::File && entry.size.is_none() {
        return Err(ArchiveError::InvalidInput(join3("regular file entry '", entry.name.as_str(), "' must provide its size")));
    }
    let size: u64 = match entry.size {
        Some(s) => s,
        None => 0,
    };
    let sum = match total.checked_add(size) {
        Some(t) => t,
        None => {
            return Err(ArchiveError::ResourceLimit {
                kind: ResourceLimitKind::TotalBytes,
                message: owned("source byte count overflowed"),
            });
        },
    };
    if sum > limits.max_total_bytes {
        return Err(ArchiveError::ResourceLimit {
            kind: ResourceLimitKind::TotalBytes,
            message: owned("source byte count exceeds configured limit"),
        });
    }
    if count >= 4294967295usize {
        return Err(ArchiveError::InvalidInput(owned("source contains too many entries")));
    }
    Ok(sum)
}

/// Reads every entry of a source, checking each against the encoder's
/// abilities and the context's limits before any native call.
pub fn collect_entries<Src: EntrySource, R: ProgressReporter, P: PasswordProvider, V: VolumeProvider>(
    source: &mut Src,
    context: &OperationContext<R, P, V>,
) -> (r: Result<Vec<ArchiveEntry>, ArchiveError>)
    ensures
        r matches Ok(v) ==> {
            &&& v@.len() <= context.limits_view().max_entries
            &&& v@.len() <= u32::MAX
            &&& declared_total(v@) <= context.limits_view().max_total_bytes
            &&& forall|i: int| 0 <= i < v@.len() ==> encodable_entry(#[trigger] v@[i], context.limits_view())
        },
{
    let mut entries: Vec<ArchiveEntry> = Vec::new();
    let mut total_bytes: u64 = 0;
    loop
        invariant
            entries@.len() <= context.limits_view().max_entries,
            entries@.len() <= u32::MAX,
            total_bytes == declared_total(entries@),
            declared_total(entries@) <= context.limits_view().max_total_bytes,
            forall|i: int| 0 <= i < entries@.len() ==> encodable_entry(#[trigger] entries@[i], context.limits_view()),
        decreases u32::MAX - entries@.len(),
    {
        match context.check_cancelled() {
            Err(e) => {
                return Err(e);
            },
            Ok(()) => {},
        }
        let next = match source.next(context) {
            Err(e) => {
                return Err(e);
            },
            Ok(n) => n,
        };
        let entry = match next {
            None => {
                break;
            },
            Some(entry) => entry,
        };
        total_bytes = match admit_source_entry(entries.len(), total_bytes, &entry, context.limits()) {
            Ok(t) => t,
            Err(e) => {
                return Err(e);
            },
        };
        let ghost before = entries@;
        entries.push(entry);
        proof {
            assert(entries@.drop_last() =~= before);
            assert forall|i: int| 0 <= i < entries@.len() implies encodable_entry(#[trigger] entries@[i], context.limits_view()) by {
                if i < before.len() {
                    assert(entries@[i] == before[i]);
                }
            }
        }
    }
    Ok(entries)
}

/// The error for multi-volume output.
pub open spec fn multi_volume_error() -> ErrorView {
    ErrorView::Unsupported("multi-volume output is not implemented by the Format7zF Rust bridge"@)
}

/// The error for keeping entries that the source does not mention.
pub open spec fn keep_unmentioned_error() -> ErrorView {
    ErrorView::Unsupported("preserving unmentioned archive entries requires an existing-archive update adapter"@)
}

/// Refuses creation options that the native bridge cannot honour.
pub fn check_create_options(options: &CreateOptions) -> (r: Result<(), ArchiveError>)
    ensures
        options.volume_size is Some <==> r is Err,
        r matches Err(e) ==> e@ == multi_volume_error(),
{
    if options.volume_size.is_some() {
        return Err(ArchiveError::unsupported("multi-volume output is not implemented by the Format7zF Rust bridge"));
    }
    Ok(())
}

/// Refuses update options that the native bridge cannot honour.
pub fn check_update_options(options: &UpdateOptions) -> (r: Result<(), ArchiveError>)
    ensures
        options.keep_unmentioned <==> r is Err,
        r matches Err(e) ==> e@ == keep_unmentioned_error(),
{
    if options.keep_unmentioned {
        return Err(ArchiveError::unsupported(
            "preserving unmentioned archive entries requires an existing-archive update adapter",
        ));
    }
    Ok(())
}

/// A requested level as the provider reads it: the level held at
/// `i32::MAX`, or -1 for the default.
pub open spec fn native_level(level: Option<u32>) -> i32 {
    match level {
        Some(v) => if v > i32::MAX { i32::MAX } else { v as i32 },
        None => -1i32,
    }
}

/// Converts creation options into the provider's form.
pub fn native_update_options(options: &CreateOptions) -> (r: Result<NativeUpdateOptions, ArchiveError>)
    ensures
        match options.compression_method {
            Some(m) => encode_utf8(m@).len() > u32::MAX ==> (r matches Err(e) && e@ == ErrorView::InvalidInput(
                "compression method name is too long"@,
            )),
            None => true,
        },
        r matches Ok(n) ==> {
            &&& n.method@ == match options.compression_method {
                Some(m) => encode_utf8(m@),
                None => Seq::<u8>::empty(),
            }
            &&& n.method_len == n.method@.len()
            &&& n.level == native_level(options.compression_level)
            &&& n.solid == match options.solid {
                Some(b) => if b { 1i32 } else { 0i32 },
                None => -1i32,
            }
            &&& n.header_encryption == if options.header_encryption { 1i32 } else { -1i32 }
        },
        (match options.compression_method {
            Some(m) => encode_utf8(m@).len() <= u32::MAX,
            None => true,
        }) ==> r is Ok,
{
    let method: Vec<u8> = match &options.compression_method {
        Some(m) => vstd::slice::slice_to_vec(m.as_str().as_bytes()),
        None => Vec::new(),
    };
    if method.len() > 4294967295usize {
        return Err(ArchiveError::invalid_input("compression method name is too long"));
    }
    let method_len = method.len() as u32;
    let level: i32 = match options.compression_level {
        Some(v) => if v > 2147483647u32 { 2147483647i32 } else { v as i32 },
        None => -1,
    };
    let solid: i32 = match options.solid {
        Some(b) => if b { 1 } else { 0 },
        None => -1,
    };
    let header_encryption: i32 = if options.header_encryption { 1 } else { -1 };
    Ok(NativeUpdateOptions { method, method_len, level, solid, header_encryption })
}

/// The report of a finished creation or update: the handler and the bytes
/// the output received.
pub fn finish_update_report(report: OperationReport, format: ArchiveFormatId, output_bytes: u64) -> (r: OperationReport)
    ensures
        r.format == Some(format),
        r.bytes_written == output_bytes,
        r.operation == report.operation,
        r.entries_seen == report.entries_seen,
        r.entries_completed == report.entries_completed,
        r.bytes_read == report.bytes_read,
        r.warnings == report.warnings,
        r.diagnostics == report.diagnostics,
{
    let mut report = report;
    report.format = Some(format);
    report.bytes_written = output_bytes;
    report
}

} // verus!
