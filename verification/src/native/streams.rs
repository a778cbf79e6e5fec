//! The decisions of the stream callbacks the provider reads and writes
//! through: where a seek goes, how many bytes a transfer reports, and which
//! failure is kept.

use vstd::prelude::*;

use super::ffi::PULP7Z_CALLBACK_ERROR;
use crate::error::{ArchiveError, ErrorView};
use crate::text::owned;

verus! {

/// Where the provider asks a stream to seek.
#[derive(Clone, Copy, Debug, PartialEq, Eq, Structural)]
pub enum SeekTarget {
    /// An offset from the start.
    Start(u64),
    /// An offset from the current position.
    Current(i64),
    /// An offset from the end.
    End(i64),
}

/// The target of a provider seek: origin 0 is the start, which takes no
/// negative offset, 1 the current position, 2 the end; any other origin is
/// refused.
pub fn seek_target(offset: i64, origin: u32) -> (r: Option<SeekTarget>)
    ensures
        r == (if origin == 0 && offset >= 0 {
            Some(SeekTarget::Start(offset as u64))
        } else if origin == 1 {
            Some(SeekTarget::Current(offset))
        } else if origin == 2 {
            Some(SeekTarget::End(offset))
        } else {
            None
        }),
{
    if origin == 0 && offset >= 0 {
        Some(SeekTarget::Start(offset as u64))
    } else if origin == 1 {
        Some(SeekTarget::Current(offset))
    } else if origin == 2 {
        Some(SeekTarget::End(offset))
    } else {
        None
    }
}

/// Keeps the first failure of a stream and answers the provider with a
/// callback error.
pub fn keep_first(slot: &mut Option<ArchiveError>, error: ArchiveError) -> (r: i32)
    ensures
        r == PULP7Z_CALLBACK_ERROR,
        *old(slot) is None ==> *final(slot) == Some(error),
        *old(slot) is Some ==> *final(slot) == *old(slot),
{
    if slot.is_none() {
        *slot = Some(error);
    }
    PULP7Z_CALLBACK_ERROR
}

/// The refusal of a reader or writer that claims more bytes than it was
/// given room for.
pub open spec fn overlong_text(reading: bool) -> Seq<char> {
    if reading {
        "reader returned too many bytes"@
    } else {
        "writer returned too many bytes"@
    }
}

/// The count a transfer of at most `size` bytes reports to the provider:
/// the bytes the reader or writer moved, refused when more than `size`.
pub fn transfer_count(count: usize, size: u32, reading: bool) -> (r: Result<u32, ArchiveError>)
    ensures
        count <= size ==> r == Ok::<u32, ArchiveError>(count as u32),
        count > size ==> (r matches Err(e) && e@ == ErrorView::Internal(overlong_text(reading))),
{
    if count <= size as usize {
        Ok(count as u32)
    } else if reading {
        Err(ArchiveError::Internal(owned("reader returned too many bytes")))
    } else {
        Err(ArchiveError::Internal(owned("writer returned too many bytes")))
    }
}

} // verus!
