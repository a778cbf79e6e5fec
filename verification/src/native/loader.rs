//! Diagnostics copied out of the native provider's error records.

use vstd::prelude::*;
use vstd::utf8::encode_utf8;

use crate::error::{bounded, ArchiveError};
use crate::text::{lossy_text, owned, utf8_lossy};

verus! {

/// The length of a NUL-terminated byte string: the index of the first zero
/// byte, or the whole length.
pub open spec fn c_string_len(message: Seq<u8>) -> int {
    if exists|i: int| 0 <= i < message.len() && message[i] == 0u8 {
        choose|i: int| 0 <= i < message.len() && message[i] == 0u8 && forall|j: int| 0 <= j < i ==> message[j] != 0u8
    } else {
        message.len() as int
    }
}

/// The diagnostic held by a native error record, if any.
pub open spec fn native_message(message: Seq<u8>) -> Option<Seq<char>> {
    let n = c_string_len(message);
    if n == 0 {
        None
    } else {
        Some(utf8_lossy(message.subrange(0, n)))
    }
}

proof fn lemma_first_zero(message: Seq<u8>, i: int)
    requires
        0 <= i < message.len(),
        message[i] == 0u8,
        forall|j: int| 0 <= j < i ==> message[j] != 0u8,
    ensures
        c_string_len(message) == i,
{
    let k = c_string_len(message);
    if k < i {
        assert(message[k] == 0u8);
    } else if k > i {
        assert(message[i] != 0u8);
    }
}

/// Copies the diagnostic out of a native error record.
pub fn error_message(message: &[u8]) -> (r: Option<String>)
    ensures
        match native_message(message@) {
            Some(m) => r matches Some(s) && s@ == m,
            None => r is None,
        },
        r matches Some(s) ==> encode_utf8(s@).len() <= 3 * message@.len(),
{
    let mut length: usize = 0;
    while length < message.len() && message[length] != 0
        invariant
            length <= message.len(),
            forall|j: int| 0 <= j < length ==> message@[j] != 0u8,
        decreases message.len() - length,
    {
        length = length + 1;
    }
    proof {
        if length < message.len() {
            lemma_first_zero(message@, length as int);
        }
    }
    if length == 0 {
        None
    } else {
        let prefix = vstd::slice::slice_subrange(message, 0, length);
        Some(lossy_text(prefix))
    }
}

/// Builds the error for a failed native call, from the record's diagnostic
/// or, when it has none, from `fallback`.
pub fn native_status_error(status: i32, message: &[u8; 512], fallback: &str) -> (r: ArchiveError)
    ensures
        r matches ArchiveError::Native { status: s, message: m } && s == status && match native_message(message@) {
            Some(text) => m@ == text,
            None => bounded(fallback@, m@),
        },
{
    let text = match error_message(message.as_slice()) {
        Some(text) => text,
        None => owned(fallback),
    };
    ArchiveError::native(status, text)
}

} // verus!
