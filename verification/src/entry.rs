//! Archive entry identity, validated archive-relative names and metadata.

use vstd::prelude::*;
use vstd::std_specs::cmp::{PartialOrdSpec, PartialOrdSpecImpl};
use vstd::utf8::encode_utf8;
use std::cmp::Ordering;

use crate::text::{
    decimal, join4, owned, u64_text, chars_of, contains_char, replace_char, replace_chars, string_of, sub_chars, trim_end_char,
    trim_end_chars,
};

verus! {

/// Maximum UTF-8 byte length of a normalized entry name.
pub const MAX_ENTRY_NAME_BYTES: usize = 16384;

/// A stable identifier for an entry within one archive operation.
#[derive(Clone, Copy, Debug, Default, PartialEq, Eq, Structural, Hash, Ord)]
pub struct EntryId(pub u64);

impl PartialOrd for EntryId {
    fn partial_cmp(&self, other: &Self) -> (r: Option<Ordering>) {
        self.0.partial_cmp(&other.0)
    }
}

impl PartialOrdSpecImpl for EntryId {
    open spec fn obeys_partial_cmp_spec() -> bool {
        true
    }

    open spec fn partial_cmp_spec(&self, other: &Self) -> Option<Ordering> {
        PartialOrdSpec::partial_cmp_spec(&self.0, &other.0)
    }
}

/// Identifiers are ordered as their numbers, and equal exactly when their
/// numbers are.
pub proof fn law_entry_id_order(a: u64, b: u64)
    ensures
        PartialOrdSpec::partial_cmp_spec(&EntryId(a), &EntryId(b)) == PartialOrdSpec::partial_cmp_spec(&a, &b),
        (EntryId(a) == EntryId(b)) <==> a == b,
{
}

impl EntryId {
    /// Creates an entry identifier from a numeric value.
    pub fn new(value: u64) -> (r: Self)
        ensures
            r.0 == value,
    {
        EntryId(value)
    }

    /// Returns the numeric representation of this identifier.
    pub fn get(self) -> (r: u64)
        ensures
            r == self.0,
    {
        self.0
    }
}

/// Explains why an archive entry name failed validation.
#[derive(Clone, Debug, PartialEq, Eq, Structural)]
pub enum EntryNameError {
    /// The name is empty or contains only separators.
    Empty,
    /// The name contains a NUL byte.
    Nul,
    /// The name is absolute or starts with a UNC separator.
    Absolute,
    /// The name contains a parent traversal component.
    ParentTraversal,
    /// The name contains a current-directory component.
    CurrentDirectory,
    /// The first component looks like a Windows drive prefix.
    DrivePrefix,
    /// The name contains an empty component between separators.
    EmptyComponent,
    /// The name exceeds the archive-relative name limit.
    TooLong {
        /// Actual UTF-8 byte length.
        bytes: usize,
        /// Maximum permitted UTF-8 byte length.
        maximum: usize,
    },
}

/// The description of a name failure.
pub open spec fn name_error_text(e: EntryNameError) -> Seq<char> {
    match e {
        EntryNameError::Empty => "entry name is empty"@,
        EntryNameError::Nul => "entry name contains a NUL byte"@,
        EntryNameError::Absolute => "entry name is absolute"@,
        EntryNameError::ParentTraversal => "entry name contains parent traversal"@,
        EntryNameError::CurrentDirectory => "entry name contains a current-directory component"@,
        EntryNameError::DrivePrefix => "entry name contains a drive prefix"@,
        EntryNameError::EmptyComponent => "entry name contains an empty component"@,
        EntryNameError::TooLong { bytes, maximum } => "entry name is "@ + decimal(bytes as nat)
            + " bytes, maximum is "@ + decimal(maximum as nat),
    }
}

impl EntryNameError {
    /// The human-readable description of this failure.
    pub fn describe(&self) -> (r: String)
        ensures
            r@ == name_error_text(*self),
    {
        match self {
            EntryNameError::Empty => owned("entry name is empty"),
            EntryNameError::Nul => owned("entry name contains a NUL byte"),
            EntryNameError::Absolute => owned("entry name is absolute"),
            EntryNameError::ParentTraversal => owned("entry name contains parent traversal"),
            EntryNameError::CurrentDirectory => owned(
                "entry name contains a current-directory component",
            ),
            EntryNameError::DrivePrefix => owned("entry name contains a drive prefix"),
            EntryNameError::EmptyComponent => owned("entry name contains an empty component"),
            EntryNameError::TooLong { bytes, maximum } => {
                let b = u64_text(*bytes as u64);
                let m = u64_text(*maximum as u64);
                join4("entry name is ", b.as_str(), " bytes, maximum is ", m.as_str())
            },
        }
    }
}

/// Offset of the first `/` in `s`, or its length when there is none.
pub open spec fn first_sep(s: Seq<char>) -> int
    decreases s.len(),
{
    if s.len() == 0 {
        0
    } else if s[0] == '/' {
        0
    } else {
        1 + first_sep(s.drop_first())
    }
}

/// `first_sep` lies within the sequence and marks the first separator.
pub proof fn lemma_first_sep(s: Seq<char>)
    ensures
        0 <= first_sep(s) <= s.len(),
        first_sep(s) < s.len() ==> s[first_sep(s)] == '/',
        forall|j: int| 0 <= j < first_sep(s) ==> s[j] != '/',
    decreases s.len(),
{
    if s.len() > 0 && s[0] != '/' {
        lemma_first_sep(s.drop_first());
        assert forall|j: int| 0 <= j < first_sep(s) implies s[j] != '/' by {
            if j > 0 {
                assert(s[j] == s.drop_first()[j - 1]);
            }
        }
    }
}

/// A separator-free prefix followed by a separator (or the end) fixes `first_sep`.
pub proof fn lemma_first_sep_at(s: Seq<char>, k: int)
    requires
        0 <= k <= s.len(),
        k < s.len() ==> s[k] == '/',
        forall|j: int| 0 <= j < k ==> s[j] != '/',
    ensures
        first_sep(s) == k,
    decreases k,
{
    if k > 0 {
        let t = s.drop_first();
        assert forall|j: int| 0 <= j < k - 1 implies t[j] != '/' by {
            assert(t[j] == s[j + 1]);
        }
        lemma_first_sep_at(t, k - 1);
    }
}

/// The `/`-separated components of `s`, as `str::split('/')`.
pub open spec fn split_components(s: Seq<char>) -> Seq<Seq<char>>
    decreases s.len(),
{
    let k = first_sep(s);
    if k < 0 || k >= s.len() {
        seq![s]
    } else {
        seq![s.subrange(0, k)] + split_components(s.subrange(k + 1, s.len() as int))
    }
}

/// The validation failure of one component, if any.
/// A path has at least one component.
pub proof fn lemma_split_components_nonempty(s: Seq<char>)
    ensures
        split_components(s).len() >= 1,
{
    lemma_first_sep(s);
}

pub open spec fn component_error(c: Seq<char>) -> Option<EntryNameError> {
    if c.len() == 0 {
        Some(EntryNameError::EmptyComponent)
    } else if c == seq!['.'] {
        Some(EntryNameError::CurrentDirectory)
    } else if c == seq!['.', '.'] {
        Some(EntryNameError::ParentTraversal)
    } else {
        None
    }
}

/// The failure of the first invalid component, scanning left to right.
pub open spec fn components_error(s: Seq<char>) -> Option<EntryNameError>
    decreases s.len(),
{
    let k = first_sep(s);
    if k < 0 || k > s.len() {
        None
    } else {
        match component_error(s.subrange(0, k)) {
            Some(e) => Some(e),
            None => if k == s.len() {
                None
            } else {
                components_error(s.subrange(k + 1, s.len() as int))
            },
        }
    }
}

/// The first component starts with a one-byte character followed by `:`.
pub open spec fn has_drive_prefix(s: Seq<char>) -> bool {
    let first = s.subrange(0, first_sep(s));
    first.len() >= 2 && (first[0] as u32) < 128 && first[1] == ':'
}

/// Backslashes become separators and trailing separators are dropped.
pub open spec fn normalize_name(v: Seq<char>) -> Seq<char> {
    trim_end_char(replace_char(v, '\\', '/'), '/')
}

/// What `EntryName::parse` yields for the characters `v`.
pub open spec fn parse_name(v: Seq<char>) -> Result<Seq<char>, EntryNameError> {
    let n = normalize_name(v);
    if v.len() == 0 {
        Err(EntryNameError::Empty)
    } else if v.contains('\0') {
        Err(EntryNameError::Nul)
    } else if v[0] == '/' || v[0] == '\\' {
        Err(EntryNameError::Absolute)
    } else if n.len() == 0 {
        Err(EntryNameError::Empty)
    } else if encode_utf8(n).len() as usize > MAX_ENTRY_NAME_BYTES {
        Err(
            EntryNameError::TooLong {
                bytes: encode_utf8(n).len() as usize,
                maximum: MAX_ENTRY_NAME_BYTES,
            },
        )
    } else if has_drive_prefix(n) {
        Err(EntryNameError::DrivePrefix)
    } else {
        match components_error(n) {
            Some(e) => Err(e),
            None => Ok(n),
        }
    }
}

/// A character sequence that `parse_name` accepts unchanged.
pub open spec fn is_valid_name(v: Seq<char>) -> bool {
    parse_name(v) == Ok::<Seq<char>, EntryNameError>(v)
}

/// A validated archive-relative entry name.
#[derive(Debug, PartialEq, Eq, Hash, PartialOrd, Ord)]
pub struct EntryName(String);

impl View for EntryName {
    type V = Seq<char>;

    closed spec fn view(&self) -> Seq<char> {
        self.0@
    }
}

/// The outcome of parsing, with a name taken by its characters.
pub open spec fn name_result(r: Result<EntryName, EntryNameError>) -> Result<Seq<char>, EntryNameError> {
    match r {
        Ok(n) => Ok(n@),
        Err(e) => Err(e),
    }
}

impl EntryName {
    #[verifier::type_invariant]
    closed spec fn wf(self) -> bool {
        is_valid_name(self.0@)
    }

    fn find_sep(v: &[char], start: usize) -> (k: usize)
        requires
            start <= v.len(),
        ensures
            start <= k <= v.len(),
            k - start == first_sep(v@.subrange(start as int, v.len() as int)),
    {
        let mut k = start;
        while k < v.len() && v[k] != '/'
            invariant
                start <= k <= v.len(),
                forall|j: int| start <= j < k ==> v@[j] != '/',
            decreases v.len() - k,
        {
            k = k + 1;
        }
        proof {
            let t = v@.subrange(start as int, v.len() as int);
            assert forall|j: int| 0 <= j < k - start implies t[j] != '/' by {
                assert(t[j] == v@[start + j]);
            }
            lemma_first_sep_at(t, (k - start) as int);
        }
        k
    }

    fn check_component(v: &[char], from: usize, to: usize) -> (r: Option<EntryNameError>)
        requires
            from <= to <= v.len(),
        ensures
            r == component_error(v@.subrange(from as int, to as int)),
    {
        let ghost c = v@.subrange(from as int, to as int);
        if from == to {
            return Some(EntryNameError::EmptyComponent);
        }
        if to - from == 1 && v[from] == '.' {
            assert(c =~= seq!['.']);
            return Some(EntryNameError::CurrentDirectory);
        }
        if to - from == 2 && v[from] == '.' && v[from + 1] == '.' {
            assert(c =~= seq!['.', '.']);
            assert(c != seq!['.']);
            return Some(EntryNameError::ParentTraversal);
        }
        assert(c.len() != 1 || c[0] != '.');
        assert(c != seq!['.']);
        assert(c.len() != 2 || c[0] != '.' || c[1] != '.');
        assert(c != seq!['.', '.']);
        None
    }

    fn scan_components(v: &[char]) -> (r: Option<EntryNameError>)
        ensures
            r == components_error(v@),
    {
        let mut start: usize = 0;
        assert(v@.subrange(0, v.len() as int) =~= v@);
        loop
            invariant
                start <= v.len(),
                components_error(v@) == components_error(v@.subrange(start as int, v.len() as int)),
            decreases v.len() - start,
        {
            let ghost t = v@.subrange(start as int, v.len() as int);
            let k = Self::find_sep(v, start);
            proof {
                lemma_first_sep(t);
                assert(t.subrange(0, (k - start) as int) =~= v@.subrange(start as int, k as int));
            }
            let e = Self::check_component(v, start, k);
            if e.is_some() {
                return e;
            }
            if k == v.len() {
                return None;
            }
            proof {
                assert(t.subrange((k - start) + 1, t.len() as int) =~= v@.subrange(k + 1, v.len() as int));
            }
            start = k + 1;
        }
    }

    /// Parses and normalizes an archive-relative name.
    pub fn parse(value: &str) -> (r: Result<EntryName, EntryNameError>)
        ensures
            name_result(r) == parse_name(value@),
    {
        let v = chars_of(value);
        if v.len() == 0 {
            return Err(EntryNameError::Empty);
        }
        if contains_char(&v, '\0') {
            return Err(EntryNameError::Nul);
        }
        if v[0] == '/' || v[0] == '\\' {
            return Err(EntryNameError::Absolute);
        }
        let replaced = replace_chars(&v, '\\', '/');
        let n = trim_end_chars(&replaced, '/');
        if n.len() == 0 {
            return Err(EntryNameError::Empty);
        }
        let s = string_of(&n);
        let bytes = s.as_str().len();
        if bytes > MAX_ENTRY_NAME_BYTES {
            return Err(EntryNameError::TooLong { bytes, maximum: MAX_ENTRY_NAME_BYTES });
        }
        let k = Self::find_sep(&n, 0);
        proof {
            assert(n@.subrange(0, n.len() as int) =~= n@);
            assert(k == first_sep(n@));
            assert(n@ == normalize_name(value@));
            assert(bytes == encode_utf8(n@).len() as usize);
            lemma_first_sep(n@);
            let first = n@.subrange(0, first_sep(n@));
            if k >= 2 {
                assert(first[0] == n@[0]);
                assert(first[1] == n@[1]);
            }
        }
        if k >= 2 && (n[0] as u32) < 128 && n[1] == ':' {
            return Err(EntryNameError::DrivePrefix);
        }
        match Self::scan_components(&n) {
            Some(e) => Err(e),
            None => {
                proof {
                    lemma_parse_idempotent(value@);
                }
                Ok(EntryName(s))
            },
        }
    }

    /// Alias for [`EntryName::parse`].
    pub fn new(value: &str) -> (r: Result<EntryName, EntryNameError>)
        ensures
            name_result(r) == parse_name(value@),
    {
        Self::parse(value)
    }

    /// Returns the normalized archive-relative name.
    pub fn as_str(&self) -> (r: &str)
        ensures
            r@ == self@,
            is_valid_name(self@),
    {
        proof {
            use_type_invariant(self);
        }
        self.0.as_str()
    }

    /// Consumes the name and returns its normalized string.
    pub fn into_string(self) -> (r: String)
        ensures
            r@ == self@,
            is_valid_name(self@),
    {
        proof {
            use_type_invariant(&self);
        }
        self.0
    }

    /// Returns the path components without converting them to host paths.
    pub fn components(&self) -> (r: Vec<String>)
        ensures
            r@.len() == split_components(self@).len(),
            forall|i: int| 0 <= i < r@.len() ==> #[trigger] r@[i]@ == split_components(self@)[i],
    {
        split_text(self.0.as_str())
    }
}

/// The components of a path: the texts between separators.
pub fn split_text(text: &str) -> (r: Vec<String>)
    ensures
        r@.len() == split_components(text@).len(),
        forall|i: int| 0 <= i < r@.len() ==> #[trigger] r@[i]@ == split_components(text@)[i],
{
    let v = chars_of(text);
    let mut out: Vec<String> = Vec::new();
    let mut start: usize = 0;
    let ghost whole = v@;
    assert(v@.subrange(0, v.len() as int) =~= v@);
    loop
        invariant
            start <= v.len(),
            v@ == whole,
            whole == text@,
            ({
                let rest = split_components(v@.subrange(start as int, v.len() as int));
                &&& out@.len() + rest.len() == split_components(whole).len()
                &&& forall|i: int| 0 <= i < out@.len() ==> #[trigger] out@[i]@ == split_components(whole)[i]
                &&& forall|i: int| 0 <= i < rest.len() ==> #[trigger] rest[i] == split_components(whole)[out@.len() + i]
            }),
        decreases v.len() - start,
    {
        let ghost t = v@.subrange(start as int, v.len() as int);
        let k = EntryName::find_sep(&v, start);
        proof {
            lemma_first_sep(t);
            assert(t.subrange(0, (k - start) as int) =~= v@.subrange(start as int, k as int));
        }
        let part = sub_chars(&v, start, k);
        let s = string_of(&part);
        let ghost before = out@;
        out.push(s);
        if k == v.len() {
            proof {
                assert(first_sep(t) == t.len());
                assert(split_components(t) == seq![t]);
                assert(out@.len() == before.len() + 1);
                assert(out@.len() == split_components(whole).len());
                assert(t =~= v@.subrange(start as int, k as int));
                assert forall|i: int| 0 <= i < out@.len() implies #[trigger] out@[i]@ == split_components(whole)[i] by {
                    if i < before.len() {
                        assert(out@[i] == before[i]);
                    } else {
                        assert(split_components(t)[0] == t);
                    }
                }
            }
            return out;
        }
        proof {
            let rest = split_components(t.subrange((k - start) + 1, t.len() as int));
            assert(t.subrange((k - start) + 1, t.len() as int) =~= v@.subrange(k + 1, v.len() as int));
            assert(split_components(t) == seq![t.subrange(0, (k - start) as int)] + rest);
            assert(split_components(t)[0] == t.subrange(0, (k - start) as int));
            assert forall|i: int| 0 <= i < rest.len() implies #[trigger] rest[i] == split_components(whole)[out@.len() + i] by {
                assert(rest[i] == split_components(t)[i + 1]);
            }
            assert forall|i: int| 0 <= i < out@.len() implies #[trigger] out@[i]@ == split_components(whole)[i] by {
                if i < before.len() {
                    assert(out@[i] == before[i]);
                }
            }
        }
        start = k + 1;
    }
}

impl Clone for EntryName {
    fn clone(&self) -> (r: Self)
        ensures
            r == *self,
    {
        proof {
            use_type_invariant(self);
        }
        EntryName(self.0.clone())
    }
}

/// The semantic kind of an archive entry.
#[derive(Clone, Copy, Debug, PartialEq, Eq, Structural)]
pub enum EntryKind {
    /// A regular file with byte content.
    File,
    /// A directory entry.
    Directory,
    /// A symbolic link.
    Symlink,
    /// A hard link.
    Hardlink,
    /// A special device, socket or other non-regular entry.
    Special,
}

/// A byte-for-byte copy of a byte vector.
pub fn copy_bytes(v: &Vec<u8>) -> (r: Vec<u8>)
    ensures
        r@ == v@,
{
    let mut out: Vec<u8> = Vec::new();
    let mut i: usize = 0;
    while i < v.len()
        invariant
            i <= v.len(),
            out@ == v@.take(i as int),
        decreases v.len() - i,
    {
        out.push(v[i]);
        i = i + 1;
        assert(v@.take(i as int) == v@.take((i - 1) as int).push(v@[i - 1]));
    }
    assert(v@.take(v.len() as int) == v@);
    out
}

/// A copy of an optional string.
pub fn copy_opt_string(s: &Option<String>) -> (r: Option<String>)
    ensures
        r == *s,
{
    match s {
        Some(t) => Some(t.clone()),
        None => None,
    }
}

/// A checksum attached to an archive entry.
#[derive(Debug, PartialEq, Eq)]
pub struct Checksum {
    /// The algorithm name as reported by the engine.
    pub algorithm: String,
    /// The raw checksum bytes in archive order.
    pub value: Vec<u8>,
}

impl Clone for Checksum {
    fn clone(&self) -> (r: Self)
        ensures
            r.algorithm == self.algorithm,
            r.value@ == self.value@,
    {
        Checksum { algorithm: self.algorithm.clone(), value: copy_bytes(&self.value) }
    }
}

/// Metadata for one archive entry. Timestamps are signed nanoseconds relative to
/// the Unix epoch.
#[derive(Debug, PartialEq, Eq)]
pub struct ArchiveEntry {
    /// Stable operation-local identifier.
    pub id: EntryId,
    /// Validated archive-relative name.
    pub name: EntryName,
    /// Semantic entry kind.
    pub kind: EntryKind,
    /// Unpacked size when the archive reports it.
    pub size: Option<u64>,
    /// Packed size when the archive reports it.
    pub packed_size: Option<u64>,
    /// Modification timestamp.
    pub modified: Option<i64>,
    /// Access timestamp.
    pub accessed: Option<i64>,
    /// Creation timestamp.
    pub created: Option<i64>,
    /// Format-specific attributes.
    pub attributes: Option<u64>,
    /// POSIX mode and file-type bits when the archive exposes them.
    pub posix_attributes: Option<u64>,
    /// Optional checksum.
    pub checksum: Option<Checksum>,
    /// Whether the entry or its header is encrypted.
    pub encrypted: bool,
    /// Link target for a link entry.
    pub link_target: Option<String>,
    /// Compression method reported for this item.
    pub method: Option<String>,
}

/// Two entries agree on every field, checksum bytes compared by value.
pub open spec fn same_entry(a: ArchiveEntry, b: ArchiveEntry) -> bool {
    &&& a.id == b.id
    &&& a.name == b.name
    &&& a.kind == b.kind
    &&& a.size == b.size
    &&& a.packed_size == b.packed_size
    &&& a.modified == b.modified
    &&& a.accessed == b.accessed
    &&& a.created == b.created
    &&& a.attributes == b.attributes
    &&& a.posix_attributes == b.posix_attributes
    &&& a.checksum.is_some() == b.checksum.is_some()
    &&& a.checksum.is_some() ==> (a.checksum.unwrap().algorithm == b.checksum.unwrap().algorithm
        && a.checksum.unwrap().value@ == b.checksum.unwrap().value@)
    &&& a.encrypted == b.encrypted
    &&& a.link_target == b.link_target
    &&& a.method == b.method
}

impl Clone for ArchiveEntry {
    fn clone(&self) -> (r: Self)
        ensures
            same_entry(r, *self),
    {
        ArchiveEntry {
            id: self.id,
            name: self.name.clone(),
            kind: self.kind,
            size: self.size,
            packed_size: self.packed_size,
            modified: self.modified,
            accessed: self.accessed,
            created: self.created,
            attributes: self.attributes,
            posix_attributes: self.posix_attributes,
            checksum: match &self.checksum {
                Some(c) => Some(c.clone()),
                None => None,
            },
            encrypted: self.encrypted,
            link_target: copy_opt_string(&self.link_target),
            method: copy_opt_string(&self.method),
        }
    }
}

impl ArchiveEntry {
    /// Creates an entry with no optional metadata.
    pub fn new(id: EntryId, name: EntryName, kind: EntryKind) -> (r: Self)
        ensures
            r.id == id,
            r.name == name,
            r.kind == kind,
            r.size is None,
            r.packed_size is None,
            r.modified is None,
            r.accessed is None,
            r.created is None,
            r.attributes is None,
            r.posix_attributes is None,
            r.checksum is None,
            !r.encrypted,
            r.link_target is None,
            r.method is None,
    {
        ArchiveEntry {
            id,
            name,
            kind,
            size: None,
            packed_size: None,
            modified: None,
            accessed: None,
            created: None,
            attributes: None,
            posix_attributes: None,
            checksum: None,
            encrypted: false,
            link_target: None,
            method: None,
        }
    }

    /// Creates a minimal regular-file entry.
    pub fn file(id: EntryId, name: EntryName, size: Option<u64>) -> (r: Self)
        ensures
            r.id == id,
            r.name == name,
            r.kind == EntryKind::File,
            r.size == size,
            r.packed_size is None,
            r.modified is None,
            r.accessed is None,
            r.created is None,
            r.attributes is None,
            r.posix_attributes is None,
            r.checksum is None,
            !r.encrypted,
            r.link_target is None,
            r.method is None,
    {
        let mut entry = Self::new(id, name, EntryKind::File);
        entry.size = size;
        entry
    }

    /// Returns whether the entry has byte content that can be streamed.
    pub fn has_content(&self) -> (r: bool)
        ensures
            r == (self.kind == EntryKind::File),
    {
        matches!(self.kind, EntryKind::File)
    }
}

proof fn lemma_trim_end_char_sub(s: Seq<char>, c: char)
    ensures
        trim_end_char(s, c).len() <= s.len(),
        trim_end_char(s, c) == s.subrange(0, trim_end_char(s, c).len() as int),
        trim_end_char(s, c).len() > 0 ==> trim_end_char(s, c).last() != c,
    decreases s.len(),
{
    if s.len() > 0 && s.last() == c {
        lemma_trim_end_char_sub(s.drop_last(), c);
        let t = trim_end_char(s.drop_last(), c);
        assert(s.drop_last().subrange(0, t.len() as int) =~= s.subrange(0, t.len() as int));
    } else {
        assert(s.subrange(0, s.len() as int) =~= s);
    }
}

/// Normalizing a normalized name changes nothing.
proof fn lemma_normalize_fixed(v: Seq<char>)
    ensures
        normalize_name(normalize_name(v)) == normalize_name(v),
{
    let r = replace_char(v, '\\', '/');
    let n = trim_end_char(r, '/');
    lemma_trim_end_char_sub(r, '/');
    assert(replace_char(n, '\\', '/') =~= n) by {
        assert forall|i: int| 0 <= i < n.len() implies n[i] != '\\' by {
            assert(n[i] == r[i]);
        }
    }
    if n.len() > 0 {
        assert(trim_end_char(n, '/') == n);
    } else {
        assert(trim_end_char(n, '/') == n);
    }
}

/// A name produced by parsing is accepted again, unchanged.
pub proof fn lemma_parse_idempotent(v: Seq<char>)
    ensures
        parse_name(v) matches Ok(n) ==> is_valid_name(n),
{
    if let Ok(n) = parse_name(v) {
        let r = replace_char(v, '\\', '/');
        lemma_trim_end_char_sub(r, '/');
        lemma_normalize_fixed(v);
        assert(n.len() > 0);
        assert(n[0] == r[0]);
        assert(n[0] != '/' && n[0] != '\\');
        assert(!n.contains('\0')) by {
            if n.contains('\0') {
                let i = choose|i: int| 0 <= i < n.len() && n[i] == '\0';
                assert(r[i] == '\0');
                assert(v[i] == '\0');
                assert(v.contains('\0'));
            }
        }
        assert(normalize_name(n) == n);
    }
}

proof fn lemma_components_clean(s: Seq<char>)
    requires
        components_error(s) is None,
    ensures
        forall|i: int| 0 <= i < split_components(s).len() ==> component_error(#[trigger] split_components(s)[i]) is None,
    decreases s.len(),
{
    lemma_first_sep(s);
    let k = first_sep(s);
    if k >= s.len() {
        assert(s.subrange(0, k) =~= s);
    } else {
        let rest = s.subrange(k + 1, s.len() as int);
        lemma_components_clean(rest);
        let parts = split_components(s);
        assert(parts == seq![s.subrange(0, k)] + split_components(rest));
        assert forall|i: int| 0 <= i < parts.len() implies component_error(#[trigger] parts[i]) is None by {
            if i > 0 {
                assert(parts[i] == split_components(rest)[i - 1]);
            }
        }
    }
}

/// Every valid entry name (and so the text of every `EntryName`) is
/// non-empty, within the byte limit, free of NUL bytes and backslashes,
/// relative, without a trailing separator or a drive prefix, and none of its
/// `/`-separated components is empty, "." or "..".
pub proof fn law_valid_name_shape(v: Seq<char>)
    requires
        is_valid_name(v),
    ensures
        v.len() > 0,
        encode_utf8(v).len() as usize <= MAX_ENTRY_NAME_BYTES,
        !v.contains('\0'),
        !v.contains('\\'),
        v[0] != '/',
        v.last() != '/',
        !has_drive_prefix(v),
        forall|i: int| 0 <= i < split_components(v).len() ==> component_error(#[trigger] split_components(v)[i]) is None,
{
    let r = replace_char(v, '\\', '/');
    lemma_trim_end_char_sub(r, '/');
    assert(normalize_name(v) == v);
    assert(!v.contains('\\')) by {
        if v.contains('\\') {
            let i = choose|i: int| 0 <= i < v.len() && v[i] == '\\';
            assert(v[i] == r[i]);
        }
    }
    lemma_components_clean(v);
}

} // verus!
