//! Structured failures of archive operations.

use vstd::prelude::*;
use vstd::string::StringSliceAdditionalSpecFns;
use vstd::utf8::{encode_utf8, is_char_boundary};

use crate::entry::EntryNameError;
use crate::limits::ResourceLimitKind;
use crate::operation::OperationKind;
use crate::text::owned;

verus! {

#[verifier::external_type_specification]
#[verifier::external_body]
pub struct ExIoError(std::io::Error);

/// The largest diagnostic, in UTF-8 bytes, kept by bounded constructors.
pub const MAX_DIAGNOSTIC_BYTES: usize = 4096;

/// A structured failure from an archive operation.
#[derive(Debug)]
pub enum ArchiveError {
    /// The caller supplied an invalid operation argument.
    InvalidInput(String),
    /// No loaded handler can process the requested format.
    UnsupportedFormat(String),
    /// The selected handler does not expose this operation.
    UnsupportedOperation {
        /// Operation that was requested.
        operation: OperationKind,
        /// Optional format context.
        format: Option<String>,
    },
    /// An archive requires a password and no provider returned one.
    PasswordRequired,
    /// The supplied password was rejected by the archive.
    WrongPassword,
    /// A split archive volume could not be opened.
    VolumeNotFound(String),
    /// Archive bytes or structure are invalid.
    DataError(String),
    /// An operation exceeded an explicit safety limit.
    ResourceLimit {
        /// Limit category.
        kind: ResourceLimitKind,
        /// Human-readable detail.
        message: String,
    },
    /// An archive name or filesystem policy was violated.
    PathViolation(String),
    /// A caller-selected safety policy rejected an otherwise valid operation.
    PolicyViolation(String),
    /// The selected adapter cannot provide a requested operation.
    Unsupported(String),
    /// A supporting adapter failed outside the archive algorithm itself.
    Backend {
        /// Adapter or subsystem name.
        component: String,
        /// Bounded diagnostic.
        message: String,
    },
    /// A native provider returned an error status.
    Native {
        /// Provider status converted to a signed integer.
        status: i32,
        /// Bounded provider diagnostic.
        message: String,
    },
    /// The operation was cancelled by the caller.
    Cancelled,
    /// An invariant inside the adapter was violated.
    Internal(String),
    /// A local I/O operation failed.
    Io(std::io::Error),
}

/// An error taken by value, texts by their characters.
pub enum ErrorView {
    /// See [`ArchiveError::InvalidInput`].
    InvalidInput(Seq<char>),
    /// See [`ArchiveError::UnsupportedFormat`].
    UnsupportedFormat(Seq<char>),
    /// See [`ArchiveError::UnsupportedOperation`].
    UnsupportedOperation(OperationKind, Option<Seq<char>>),
    /// See [`ArchiveError::PasswordRequired`].
    PasswordRequired,
    /// See [`ArchiveError::WrongPassword`].
    WrongPassword,
    /// See [`ArchiveError::VolumeNotFound`].
    VolumeNotFound(Seq<char>),
    /// See [`ArchiveError::DataError`].
    DataError(Seq<char>),
    /// See [`ArchiveError::ResourceLimit`].
    ResourceLimit(ResourceLimitKind, Seq<char>),
    /// See [`ArchiveError::PathViolation`].
    PathViolation(Seq<char>),
    /// See [`ArchiveError::PolicyViolation`].
    PolicyViolation(Seq<char>),
    /// See [`ArchiveError::Unsupported`].
    Unsupported(Seq<char>),
    /// See [`ArchiveError::Backend`].
    Backend(Seq<char>, Seq<char>),
    /// See [`ArchiveError::Native`].
    Native(i32, Seq<char>),
    /// See [`ArchiveError::Cancelled`].
    Cancelled,
    /// See [`ArchiveError::Internal`].
    Internal(Seq<char>),
    /// See [`ArchiveError::Io`].
    Io,
}

impl View for ArchiveError {
    type V = ErrorView;

    open spec fn view(&self) -> ErrorView {
        match self {
            ArchiveError::InvalidInput(m) => ErrorView::InvalidInput(m@),
            ArchiveError::UnsupportedFormat(m) => ErrorView::UnsupportedFormat(m@),
            ArchiveError::UnsupportedOperation { operation, format } => ErrorView::UnsupportedOperation(
                *operation,
                match format {
                    Some(f) => Some(f@),
                    None => None,
                },
            ),
            ArchiveError::PasswordRequired => ErrorView::PasswordRequired,
            ArchiveError::WrongPassword => ErrorView::WrongPassword,
            ArchiveError::VolumeNotFound(m) => ErrorView::VolumeNotFound(m@),
            ArchiveError::DataError(m) => ErrorView::DataError(m@),
            ArchiveError::ResourceLimit { kind, message } => ErrorView::ResourceLimit(*kind, message@),
            ArchiveError::PathViolation(m) => ErrorView::PathViolation(m@),
            ArchiveError::PolicyViolation(m) => ErrorView::PolicyViolation(m@),
            ArchiveError::Unsupported(m) => ErrorView::Unsupported(m@),
            ArchiveError::Backend { component, message } => ErrorView::Backend(component@, message@),
            ArchiveError::Native { status, message } => ErrorView::Native(*status, message@),
            ArchiveError::Cancelled => ErrorView::Cancelled,
            ArchiveError::Internal(m) => ErrorView::Internal(m@),
            ArchiveError::Io(_) => ErrorView::Io,
        }
    }
}

/// The result type shared by all Pulp core operations.
pub type ArchiveResult<T> = Result<T, ArchiveError>;

/// `short` is `m` cut, at a character boundary, to its longest prefix of at
/// most `MAX_DIAGNOSTIC_BYTES` UTF-8 bytes; a diagnostic within the limit is
/// kept whole.
pub open spec fn bounded(m: Seq<char>, short: Seq<char>) -> bool {
    let bytes = encode_utf8(m);
    if bytes.len() <= MAX_DIAGNOSTIC_BYTES {
        short == m
    } else {
        let k = encode_utf8(short).len();
        &&& k <= MAX_DIAGNOSTIC_BYTES
        &&& encode_utf8(short) == bytes.subrange(0, k as int)
        &&& forall|j: int| k < j <= MAX_DIAGNOSTIC_BYTES ==> !is_char_boundary(bytes, j)
    }
}

/// The length to which a diagnostic is cut: the whole of it within the
/// limit, else the last character boundary at or below the limit.
fn diagnostic_cut(message: &str) -> (k: usize)
    ensures
        is_char_boundary(encode_utf8(message@), k as int),
        encode_utf8(message@).len() <= MAX_DIAGNOSTIC_BYTES ==> k == encode_utf8(message@).len(),
        encode_utf8(message@).len() > MAX_DIAGNOSTIC_BYTES ==> {
            &&& k <= MAX_DIAGNOSTIC_BYTES
            &&& forall|j: int| k < j <= MAX_DIAGNOSTIC_BYTES ==> !is_char_boundary(encode_utf8(message@), j)
        },
{
    let ghost bytes = encode_utf8(message@);
    proof {
        vstd::utf8::encode_utf8_valid_utf8(message@);
        vstd::utf8::is_char_boundary_start_end_of_seq(bytes);
    }
    let n = message.as_bytes().len();
    if n <= MAX_DIAGNOSTIC_BYTES {
        return n;
    }
    let mut k: usize = MAX_DIAGNOSTIC_BYTES;
    while !message.is_char_boundary(k)
        invariant
            k <= MAX_DIAGNOSTIC_BYTES,
            bytes == encode_utf8(message@),
            bytes == message.spec_bytes(),
            vstd::utf8::valid_utf8(bytes),
            is_char_boundary(bytes, 0),
            forall|j: int| k < j <= MAX_DIAGNOSTIC_BYTES ==> !is_char_boundary(bytes, j),
        decreases k,
    {
        k = k - 1;
    }
    k
}

/// Shortens a string to `n` bytes, as `String::truncate`.
#[verifier::external_body]
fn truncate_string(s: &mut String, n: usize)
    requires
        encode_utf8(old(s)@).len() <= n || is_char_boundary(encode_utf8(old(s)@), n as int),
    ensures
        encode_utf8(old(s)@).len() <= n ==> final(s)@ == old(s)@,
        encode_utf8(old(s)@).len() > n ==> encode_utf8(final(s)@) == encode_utf8(old(s)@).subrange(0, n as int),
{
    s.truncate(n);
}

impl ArchiveError {
    /// Creates an invalid-input error.
    pub fn invalid_input(message: &str) -> (r: Self)
        ensures
            r matches ArchiveError::InvalidInput(m) && m@ == message@,
    {
        ArchiveError::InvalidInput(owned(message))
    }

    /// Creates a native error with a bounded diagnostic.
    pub fn native(status: i32, message: String) -> (r: Self)
        ensures
            r matches ArchiveError::Native { status: s, message: m } && s == status && bounded(message@, m@),
    {
        let mut message = message;
        let cut = diagnostic_cut(message.as_str());
        truncate_string(&mut message, cut);
        ArchiveError::Native { status, message }
    }

    /// Creates a generic unsupported-operation error.
    pub fn unsupported(message: &str) -> (r: Self)
        ensures
            r matches ArchiveError::Unsupported(m) && m@ == message@,
    {
        ArchiveError::Unsupported(owned(message))
    }

    /// Creates an adapter error with a bounded diagnostic.
    pub fn backend(component: &str, message: String) -> (r: Self)
        ensures
            r matches ArchiveError::Backend { component: c, message: m } && c@ == component@ && bounded(message@, m@),
    {
        let mut message = message;
        let cut = diagnostic_cut(message.as_str());
        truncate_string(&mut message, cut);
        ArchiveError::Backend { component: owned(component), message }
    }

    /// Converts a name failure into a path violation carrying its description.
    pub fn from_name_error(error: EntryNameError) -> (r: Self)
        ensures
            r matches ArchiveError::PathViolation(m) && m@ == crate::entry::name_error_text(error),
    {
        ArchiveError::PathViolation(error.describe())
    }
}

impl From<std::io::Error> for ArchiveError {
    /// Wraps a local I/O failure.
    fn from(error: std::io::Error) -> (r: Self) {
        ArchiveError::Io(error)
    }
}

impl vstd::std_specs::convert::FromSpecImpl<std::io::Error> for ArchiveError {
    open spec fn obeys_from_spec() -> bool {
        true
    }

    open spec fn from_spec(v: std::io::Error) -> Self {
        ArchiveError::Io(v)
    }
}

} // verus!
