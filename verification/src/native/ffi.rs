//! Status codes and owned records exchanged with the native provider.

use vstd::prelude::*;

verus! {

/// The call succeeded.
pub const PULP7Z_OK: i32 = 0;
/// An argument was invalid.
pub const PULP7Z_INVALID_ARGUMENT: i32 = -1;
/// A Rust callback failed; the error is kept in the callback state.
pub const PULP7Z_CALLBACK_ERROR: i32 = -2;
/// The password callback declined to answer.
pub const PULP7Z_PASSWORD_DECLINED: i32 = -3;
/// The provider failed.
pub const PULP7Z_NATIVE_ERROR: i32 = -4;
/// The provider cannot expose a child stream.
pub const PULP7Z_STREAM_UNAVAILABLE: i32 = -5;

/// One archive item as the provider reports it, its texts copied as bytes.
/// An absent text is an empty byte string.
#[derive(Debug)]
pub struct NativeEntryInfo {
    /// Provider item index.
    pub index: u32,
    /// Item path, UTF-8 bytes.
    pub path: Vec<u8>,
    /// Nonzero for a directory.
    pub is_dir: u8,
    /// Nonzero for an encrypted item.
    pub encrypted: u8,
    /// Link kind; 2 is a hard link.
    pub link_kind: u8,
    /// Nonzero when `size` is set.
    pub has_size: u8,
    /// Nonzero when `pack_size` is set.
    pub has_pack_size: u8,
    /// Nonzero when `mtime_unix_ns` is set.
    pub has_mtime: u8,
    /// Nonzero when `attrib` is set.
    pub has_attrib: u8,
    /// Nonzero when `posix_attrib` is set.
    pub has_posix_attrib: u8,
    /// Nonzero when `crc` is set.
    pub has_crc: u8,
    /// Unpacked size.
    pub size: u64,
    /// Packed size.
    pub pack_size: u64,
    /// Modification time, signed nanoseconds since the Unix epoch.
    pub mtime_unix_ns: i64,
    /// Format attributes.
    pub attrib: u32,
    /// POSIX mode bits.
    pub posix_attrib: u32,
    /// CRC32 of the content.
    pub crc: u32,
    /// Method name, UTF-8 bytes.
    pub method: Vec<u8>,
    /// Link target, UTF-8 bytes.
    pub link_target: Vec<u8>,
}

impl NativeEntryInfo {
    /// A record with only its index set.
    pub fn empty(index: u32) -> (r: Self)
        ensures
            r.index == index,
            r.path@.len() == 0,
            r.is_dir == 0,
            r.encrypted == 0,
            r.link_kind == 0,
            r.has_size == 0,
            r.has_pack_size == 0,
            r.has_mtime == 0,
            r.has_attrib == 0,
            r.has_posix_attrib == 0,
            r.has_crc == 0,
            r.size == 0,
            r.pack_size == 0,
            r.mtime_unix_ns == 0,
            r.attrib == 0,
            r.posix_attrib == 0,
            r.crc == 0,
            r.method@.len() == 0,
            r.link_target@.len() == 0,
    {
        NativeEntryInfo {
            index,
            path: Vec::new(),
            is_dir: 0,
            encrypted: 0,
            link_kind: 0,
            has_size: 0,
            has_pack_size: 0,
            has_mtime: 0,
            has_attrib: 0,
            has_posix_attrib: 0,
            has_crc: 0,
            size: 0,
            pack_size: 0,
            mtime_unix_ns: 0,
            attrib: 0,
            posix_attrib: 0,
            crc: 0,
            method: Vec::new(),
            link_target: Vec::new(),
        }
    }
}

/// Update options in the form the provider reads them.
#[derive(Debug)]
pub struct NativeUpdateOptions {
    /// Method name bytes; empty for the provider default.
    pub method: Vec<u8>,
    /// Length of `method`.
    pub method_len: u32,
    /// Compression level, or -1 for the default.
    pub level: i32,
    /// 1 or 0 for solid mode, or -1 for the default.
    pub solid: i32,
    /// 1 to encrypt headers, -1 for the default.
    pub header_encryption: i32,
}

} // verus!
