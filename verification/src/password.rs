//! Passwords and the providers that supply them.

use vstd::prelude::*;
use vstd::utf8::{decode_utf8, encode_utf8, valid_utf8};

use crate::error::ArchiveError;

verus! {

#[verifier::external_type_specification]
#[verifier::external_body]
pub struct ExUtf8Error(std::str::Utf8Error);

/// The reason a provider was asked for a password.
#[derive(Clone, Copy, Debug, PartialEq, Eq, Structural)]
pub enum PasswordReason {
    /// The archive header is encrypted.
    Header,
    /// Entry data is encrypted.
    Data,
    /// The previous password was rejected.
    Retry,
}

/// Context passed to a password provider.
#[derive(Clone, Copy, Debug, PartialEq, Eq, Structural)]
pub struct PasswordRequest {
    /// Why a password is needed.
    pub reason: PasswordReason,
    /// One-based attempt number.
    pub attempt: u32,
}

/// A short-lived password buffer that clears its bytes on drop.
pub struct Password(Vec<u8>);

impl View for Password {
    type V = Seq<u8>;

    closed spec fn view(&self) -> Seq<u8> {
        self.0@
    }
}

/// The UTF-8 bytes of a string, as `String::into_bytes`.
#[verifier::external_body]
fn string_bytes(s: String) -> (r: Vec<u8>)
    ensures
        r@ == encode_utf8(s@),
{
    s.into_bytes()
}

/// Decodes UTF-8, as `std::str::from_utf8`.
#[verifier::external_body]
fn utf8_text(bytes: &[u8]) -> (r: Result<&str, std::str::Utf8Error>)
    ensures
        r is Ok <==> valid_utf8(bytes@),
        r matches Ok(s) ==> s@ == decode_utf8(bytes@),
{
    std::str::from_utf8(bytes)
}

impl Password {
    /// Creates a password from UTF-8 text.
    pub fn new(value: String) -> (r: Self)
        ensures
            r@ == encode_utf8(value@),
    {
        Password(string_bytes(value))
    }

    /// Returns the password bytes for the duration of a callback.
    pub fn as_bytes(&self) -> (r: &[u8])
        ensures
            r@ == self@,
    {
        self.0.as_slice()
    }

    /// Returns the password as UTF-8 when it is valid text.
    pub fn as_str(&self) -> (r: Result<&str, std::str::Utf8Error>)
        ensures
            r is Ok <==> valid_utf8(self@),
            r matches Ok(s) ==> s@ == decode_utf8(self@),
    {
        utf8_text(self.0.as_slice())
    }

    /// The number of bytes.
    pub fn len(&self) -> (r: usize)
        ensures
            r == self@.len(),
    {
        self.0.len()
    }
}

impl Clone for Password {
    fn clone(&self) -> (r: Self)
        ensures
            r@ == self@,
    {
        Password(crate::entry::copy_bytes(&self.0))
    }
}

/// Overwrites every byte with zero, as `<[u8]>::fill`. `Drop` may open no
/// invariant, and vstd's `Vec` indexing does not promise that, so the loop
/// stays in std.
#[verifier::external_body]
fn zero_fill(v: &mut Vec<u8>)
    ensures
        final(v)@ == Seq::new(old(v)@.len(), |i: int| 0u8),
    opens_invariants none
    no_unwind
{
    v.fill(0);
}

impl Drop for Password {
    fn drop(&mut self)
        opens_invariants none
        no_unwind
    {
        zero_fill(&mut self.0);
    }
}

/// Supplies passwords to an archive operation.
pub trait PasswordProvider: Send + Sync {
    /// Whether this provider declines every request; a provider that does
    /// not say so promises nothing.
    open spec fn declines_all(&self) -> bool {
        false
    }

    /// Returns a password for the request, or `None` to decline.
    fn request(&self, request: PasswordRequest) -> (r: Result<Option<Password>, ArchiveError>)
        ensures
            self.declines_all() ==> r matches Ok(None),
    ;
}

/// A provider that always declines password requests.
#[derive(Clone, Copy, Debug, Default)]
pub struct NoPasswordProvider;

impl PasswordProvider for NoPasswordProvider {
    open spec fn declines_all(&self) -> bool {
        true
    }

    fn request(&self, request: PasswordRequest) -> (r: Result<Option<Password>, ArchiveError>)
        ensures
            r matches Ok(None),
    {
        Ok(None)
    }
}

} // verus!
