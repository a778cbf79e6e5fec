//! Explicit safety limits applied to archive operations.

use vstd::prelude::*;

verus! {

/// The resource category that exceeded a configured limit.
#[derive(Clone, Copy, Debug, PartialEq, Eq, Structural)]
pub enum ResourceLimitKind {
    /// Number of archive entries.
    Entries,
    /// One entry's unpacked byte count.
    EntryBytes,
    /// Total unpacked byte count.
    TotalBytes,
    /// Archive-relative path length.
    PathBytes,
    /// Recursion or nesting depth.
    Depth,
}

/// The text shown for a limit kind.
pub open spec fn limit_kind_name(kind: ResourceLimitKind) -> Seq<char> {
    match kind {
        ResourceLimitKind::Entries => "entries"@,
        ResourceLimitKind::EntryBytes => "entry-bytes"@,
        ResourceLimitKind::TotalBytes => "total-bytes"@,
        ResourceLimitKind::PathBytes => "path-bytes"@,
        ResourceLimitKind::Depth => "depth"@,
    }
}

impl ResourceLimitKind {
    /// The stable text for this kind, as displayed in diagnostics.
    pub fn as_str(&self) -> (r: &'static str)
        ensures
            r@ == limit_kind_name(*self),
    {
        match self {
            ResourceLimitKind::Entries => "entries",
            ResourceLimitKind::EntryBytes => "entry-bytes",
            ResourceLimitKind::TotalBytes => "total-bytes",
            ResourceLimitKind::PathBytes => "path-bytes",
            ResourceLimitKind::Depth => "depth",
        }
    }
}

/// Default maximum number of entries.
pub const DEFAULT_MAX_ENTRIES: u64 = 1_000_000;

/// Default maximum unpacked bytes of one entry (16 GiB).
pub const DEFAULT_MAX_ENTRY_BYTES: u64 = 17_179_869_184;

/// Default maximum unpacked bytes of an operation (64 GiB).
pub const DEFAULT_MAX_TOTAL_BYTES: u64 = 68_719_476_736;

/// Default maximum archive-relative path bytes.
pub const DEFAULT_MAX_PATH_BYTES: usize = 16384;

/// Default maximum nesting depth.
pub const DEFAULT_MAX_DEPTH: usize = 1024;

/// Explicit safety limits applied by an operation context.
#[derive(Clone, Copy, Debug, PartialEq, Eq, Structural)]
pub struct ResourceLimits {
    /// Maximum number of entries processed in one operation.
    pub max_entries: u64,
    /// Maximum unpacked bytes accepted for one entry.
    pub max_entry_bytes: u64,
    /// Maximum unpacked bytes accepted for the whole operation.
    pub max_total_bytes: u64,
    /// Maximum archive-relative path length.
    pub max_path_bytes: usize,
    /// Maximum logical nesting depth.
    pub max_depth: usize,
}

impl ResourceLimits {
    /// The default limits.
    pub open spec fn default_spec() -> ResourceLimits {
        ResourceLimits {
            max_entries: DEFAULT_MAX_ENTRIES,
            max_entry_bytes: DEFAULT_MAX_ENTRY_BYTES,
            max_total_bytes: DEFAULT_MAX_TOTAL_BYTES,
            max_path_bytes: DEFAULT_MAX_PATH_BYTES,
            max_depth: DEFAULT_MAX_DEPTH,
        }
    }
}

impl Default for ResourceLimits {
    fn default() -> (r: Self)
        ensures
            r == ResourceLimits::default_spec(),
            r.max_entries == DEFAULT_MAX_ENTRIES,
            r.max_entry_bytes == DEFAULT_MAX_ENTRY_BYTES,
            r.max_total_bytes == DEFAULT_MAX_TOTAL_BYTES,
            r.max_path_bytes == DEFAULT_MAX_PATH_BYTES,
            r.max_depth == DEFAULT_MAX_DEPTH,
    {
        ResourceLimits {
            max_entries: DEFAULT_MAX_ENTRIES,
            max_entry_bytes: DEFAULT_MAX_ENTRY_BYTES,
            max_total_bytes: DEFAULT_MAX_TOTAL_BYTES,
            max_path_bytes: DEFAULT_MAX_PATH_BYTES,
            max_depth: DEFAULT_MAX_DEPTH,
        }
    }
}

} // verus!
