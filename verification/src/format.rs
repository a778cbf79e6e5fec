//! Runtime archive handler descriptors and their extension matching.

use vstd::prelude::*;

use crate::text::{
    chars_eq, chars_of, ends_with, has_suffix, lower_chars, lower_seq, owned, str_eq,
    str_eq_ignore_case, eq_ignore_case, string_of, sub_chars, trim, trim_chars, trim_start_char,
    trim_start_chars, trimmed_lower,
};

verus! {

/// A stable, normalized identifier for a runtime archive handler.
#[derive(Debug, PartialEq, Eq, Hash, PartialOrd, Ord)]
pub struct ArchiveFormatId(String);

impl View for ArchiveFormatId {
    type V = Seq<char>;

    closed spec fn view(&self) -> Seq<char> {
        self.0@
    }
}

/// The normalized form of an identifier: trimmed and ASCII lower-case.
pub open spec fn format_id_text(v: Seq<char>) -> Seq<char> {
    lower_seq(trim(v))
}

/// Normalizing an identifier twice is normalizing it once: an identifier
/// made from another's text is equal to it.
pub proof fn law_format_id_normalization_idempotent(v: Seq<char>)
    ensures
        format_id_text(format_id_text(v)) == format_id_text(v),
{
    let t = trim(v);
    crate::text::lemma_trim_shape(v);
    crate::text::lemma_lower_shape(t);
    let l = lower_seq(t);
    if l.len() > 0 {
        assert(!crate::text::is_white(l[0]));
        assert(l.last() == l[l.len() - 1]);
        assert(!crate::text::is_white(l.last()));
    }
    crate::text::lemma_trim_fixed(l);
}

impl ArchiveFormatId {
    /// Creates a normalized identifier.
    pub fn new(value: &str) -> (r: Self)
        ensures
            r@ == format_id_text(value@),
    {
        ArchiveFormatId(string_of(&trimmed_lower(value)))
    }

    /// Returns the identifier as text.
    pub fn as_str(&self) -> (r: &str)
        ensures
            r@ == self@,
    {
        self.0.as_str()
    }

    /// Whether two identifiers are equal.
    pub fn same(&self, other: &ArchiveFormatId) -> (r: bool)
        ensures
            r == (self@ == other@),
    {
        str_eq(self.0.as_str(), other.0.as_str())
    }
}

impl Clone for ArchiveFormatId {
    fn clone(&self) -> (r: Self)
        ensures
            r@ == self@,
    {
        ArchiveFormatId(self.0.clone())
    }
}

/// A runtime capability exposed by an archive handler.
#[derive(Clone, Copy, Debug, PartialEq, Eq, Structural, PartialOrd, Ord)]
pub enum FormatCapability {
    /// Metadata listing is supported.
    List,
    /// Extraction is supported.
    Extract,
    /// Data verification is supported.
    Test,
    /// New archive creation is supported.
    Create,
    /// Existing archive update is supported.
    Update,
    /// Password-protected archives are supported.
    Password,
    /// Header encryption is supported.
    HeaderEncryption,
    /// Solid archive mode is supported.
    Solid,
    /// Multi-volume archives are supported.
    MultiVolume,
    /// The handler accepts streaming input.
    StreamingInput,
    /// The handler produces streaming output.
    StreamingOutput,
    /// The handler requires or supports seekable input.
    SeekableInput,
    /// The handler requires or supports seekable output.
    SeekableOutput,
    /// The handler represents one decoded byte stream and may wrap another
    /// archive format.
    Transparent,
}

/// A method exposed by a runtime handler.
#[derive(Debug, PartialEq, Eq)]
pub struct CompressionMethod {
    /// Stable method identifier.
    pub id: String,
    /// Human-readable method name.
    pub name: String,
    /// Whether the loaded handler reports decoder support.
    pub can_decode: bool,
    /// Whether the loaded handler reports encoder support.
    pub can_encode: bool,
}

impl Clone for CompressionMethod {
    fn clone(&self) -> (r: Self)
        ensures
            r == *self,
    {
        CompressionMethod {
            id: self.id.clone(),
            name: self.name.clone(),
            can_decode: self.can_decode,
            can_encode: self.can_encode,
        }
    }
}

impl CompressionMethod {
    /// Creates a method descriptor that both decodes and encodes.
    pub fn new(id: &str, name: &str) -> (r: Self)
        ensures
            r.id@ == id@,
            r.name@ == name@,
            r.can_decode,
            r.can_encode,
    {
        CompressionMethod { id: owned(id), name: owned(name), can_decode: true, can_encode: true }
    }
}

/// A byte signature used for content-based format detection.
#[derive(Debug, PartialEq, Eq)]
pub struct Signature {
    /// Offset at which the signature is expected.
    pub offset: u64,
    /// Bytes expected at that offset.
    pub bytes: Vec<u8>,
}

impl Clone for Signature {
    fn clone(&self) -> (r: Self)
        ensures
            r.offset == self.offset,
            r.bytes@ == self.bytes@,
    {
        Signature { offset: self.offset, bytes: crate::entry::copy_bytes(&self.bytes) }
    }
}

/// A copy of a list of strings.
pub fn copy_strings(v: &Vec<String>) -> (r: Vec<String>)
    ensures
        r@ == v@,
{
    let mut out: Vec<String> = Vec::new();
    let mut i: usize = 0;
    while i < v.len()
        invariant
            i <= v.len(),
            out@ == v@.take(i as int),
        decreases v.len() - i,
    {
        out.push(v[i].clone());
        i = i + 1;
        assert(v@.take(i as int) == v@.take((i - 1) as int).push(v@[i - 1]));
    }
    assert(v@.take(v.len() as int) == v@);
    out
}

/// A license reference attached to an engine or runtime handler.
#[derive(Debug, PartialEq, Eq)]
pub struct LicenseNotice {
    /// Stable notice identifier.
    pub id: String,
    /// Short description of the applicable license.
    pub summary: String,
    /// Canonical upstream URL.
    pub url: String,
    /// Whether redistribution is permitted under the referenced terms.
    pub redistributable: bool,
    /// Additional restrictions that callers should display.
    pub restrictions: Vec<String>,
}

/// Two notices agree on every field.
pub open spec fn same_license(a: LicenseNotice, b: LicenseNotice) -> bool {
    &&& a.id == b.id
    &&& a.summary == b.summary
    &&& a.url == b.url
    &&& a.redistributable == b.redistributable
    &&& a.restrictions@ == b.restrictions@
}

impl Clone for LicenseNotice {
    fn clone(&self) -> (r: Self)
        ensures
            same_license(r, *self),
    {
        LicenseNotice {
            id: self.id.clone(),
            summary: self.summary.clone(),
            url: self.url.clone(),
            redistributable: self.redistributable,
            restrictions: copy_strings(&self.restrictions),
        }
    }
}

impl LicenseNotice {
    /// Creates a concise, redistributable license notice without restrictions.
    pub fn new(id: &str, summary: &str, url: &str) -> (r: Self)
        ensures
            r.id@ == id@,
            r.summary@ == summary@,
            r.url@ == url@,
            r.redistributable,
            r.restrictions@.len() == 0,
    {
        LicenseNotice {
            id: owned(id),
            summary: owned(summary),
            url: owned(url),
            redistributable: true,
            restrictions: Vec::new(),
        }
    }
}

/// All runtime metadata needed to choose an archive operation.
#[derive(Debug, PartialEq, Eq)]
pub struct FormatDescriptor {
    /// Runtime handler identifier.
    pub id: ArchiveFormatId,
    /// Display name reported by the provider.
    pub name: String,
    /// Filename extensions accepted by the handler.
    pub extensions: Vec<String>,
    /// Additional extensions used when creating archives.
    pub add_extensions: Vec<String>,
    /// Content signatures reported by the provider.
    pub signatures: Vec<Signature>,
    /// Dynamic operation and stream capabilities.
    pub capabilities: Vec<FormatCapability>,
    /// Compression methods associated with this handler.
    pub methods: Vec<CompressionMethod>,
    /// Native class identifier, when available.
    pub class_id: Option<[u8; 16]>,
    /// Handler priority used for ambiguous detection.
    pub priority: u16,
    /// Unmapped provider properties retained for diagnostics.
    pub diagnostics: Vec<String>,
    /// Applicable third-party license notice.
    pub license: Option<LicenseNotice>,
}

/// A signature taken by its offset and bytes.
pub open spec fn signature_view(s: Signature) -> (u64, Seq<u8>) {
    (s.offset, s.bytes@)
}

/// A descriptor taken by value, lists compared element by element.
pub struct FormatDescriptorView {
    /// Identifier text.
    pub id: Seq<char>,
    /// Display name.
    pub name: Seq<char>,
    /// Primary extensions.
    pub extensions: Seq<String>,
    /// Additional extensions.
    pub add_extensions: Seq<String>,
    /// Signatures by offset and bytes.
    pub signatures: Seq<(u64, Seq<u8>)>,
    /// Capabilities.
    pub capabilities: Seq<FormatCapability>,
    /// Methods.
    pub methods: Seq<CompressionMethod>,
    /// Native class identifier.
    pub class_id: Option<[u8; 16]>,
    /// Detection priority.
    pub priority: u16,
    /// Diagnostics.
    pub diagnostics: Seq<String>,
    /// License notice by value.
    pub license: Option<(String, String, String, bool, Seq<String>)>,
}

/// A license notice taken by value.
pub open spec fn license_view(l: LicenseNotice) -> (String, String, String, bool, Seq<String>) {
    (l.id, l.summary, l.url, l.redistributable, l.restrictions@)
}

impl View for FormatDescriptor {
    type V = FormatDescriptorView;

    open spec fn view(&self) -> FormatDescriptorView {
        FormatDescriptorView {
            id: self.id@,
            name: self.name@,
            extensions: self.extensions@,
            add_extensions: self.add_extensions@,
            signatures: self.signatures@.map_values(|s: Signature| signature_view(s)),
            capabilities: self.capabilities@,
            methods: self.methods@,
            class_id: self.class_id,
            priority: self.priority,
            diagnostics: self.diagnostics@,
            license: match self.license {
                Some(l) => Some(license_view(l)),
                None => None,
            },
        }
    }
}

fn copy_signatures(v: &Vec<Signature>) -> (r: Vec<Signature>)
    ensures
        r@.map_values(|s: Signature| signature_view(s)) == v@.map_values(|s: Signature| signature_view(s)),
{
    let mut out: Vec<Signature> = Vec::new();
    let mut i: usize = 0;
    while i < v.len()
        invariant
            i <= v.len(),
            out@.len() == i,
            forall|j: int| 0 <= j < i ==> signature_view(#[trigger] out@[j]) == signature_view(v@[j]),
        decreases v.len() - i,
    {
        out.push(v[i].clone());
        i = i + 1;
    }
    assert(out@.map_values(|s: Signature| signature_view(s)) =~= v@.map_values(|s: Signature| signature_view(s)));
    out
}

fn copy_methods(v: &Vec<CompressionMethod>) -> (r: Vec<CompressionMethod>)
    ensures
        r@ == v@,
{
    let mut out: Vec<CompressionMethod> = Vec::new();
    let mut i: usize = 0;
    while i < v.len()
        invariant
            i <= v.len(),
            out@ == v@.take(i as int),
        decreases v.len() - i,
    {
        out.push(v[i].clone());
        i = i + 1;
        assert(v@.take(i as int) == v@.take((i - 1) as int).push(v@[i - 1]));
    }
    assert(v@.take(v.len() as int) == v@);
    out
}

fn copy_capabilities(v: &Vec<FormatCapability>) -> (r: Vec<FormatCapability>)
    ensures
        r@ == v@,
{
    let mut out: Vec<FormatCapability> = Vec::new();
    let mut i: usize = 0;
    while i < v.len()
        invariant
            i <= v.len(),
            out@ == v@.take(i as int),
        decreases v.len() - i,
    {
        out.push(v[i]);
        i = i + 1;
        assert(v@.take(i as int) == v@.take((i - 1) as int).push(v@[i - 1]));
    }
    assert(v@.take(v.len() as int) == v@);
    out
}

impl Clone for FormatDescriptor {
    fn clone(&self) -> (r: Self)
        ensures
            r@ == self@,
    {
        let license = match &self.license {
            Some(l) => Some(l.clone()),
            None => None,
        };
        proof {
            if self.license.is_some() {
                assert(license_view(license.unwrap()) == license_view(self.license.unwrap()));
            }
        }
        let r = FormatDescriptor {
            id: self.id.clone(),
            name: self.name.clone(),
            extensions: copy_strings(&self.extensions),
            add_extensions: copy_strings(&self.add_extensions),
            signatures: copy_signatures(&self.signatures),
            capabilities: copy_capabilities(&self.capabilities),
            methods: copy_methods(&self.methods),
            class_id: self.class_id,
            priority: self.priority,
            diagnostics: copy_strings(&self.diagnostics),
            license,
        };
        proof {
            assert(r@.name == self@.name);
        }
        r
    }
}

/// The comparison key of a declared extension: trimmed, without leading dots,
/// ASCII lower-case.
pub open spec fn extension_key(e: Seq<char>) -> Seq<char> {
    lower_seq(trim_start_char(trim(e), '.'))
}

/// The comparison key of a caller's hint: trimmed, ASCII lower-case, one leading
/// dot removed.
pub open spec fn hint_key(h: Seq<char>) -> Seq<char> {
    let l = lower_seq(trim(h));
    if l.len() > 0 && l[0] == '.' {
        l.drop_first()
    } else {
        l
    }
}

/// One declared extension matches a normalized hint: the hint is the extension
/// or ends with `.` followed by it. Empty and `*` extensions never match.
pub open spec fn extension_matches_one(e: Seq<char>, hint: Seq<char>) -> bool {
    let x = extension_key(e);
    &&& x.len() > 0
    &&& x != seq!['*']
    &&& (hint == x || has_suffix(hint, seq!['.'] + x))
}

/// Some extension of the list matches the normalized hint.
pub open spec fn extensions_match(exts: Seq<String>, hint: Seq<char>) -> bool {
    exists|i: int| 0 <= i < exts.len() && extension_matches_one(#[trigger] exts[i]@, hint)
}

/// The index of the first method whose identifier equals `id` ignoring ASCII case.
pub open spec fn method_index(methods: Seq<CompressionMethod>, id: Seq<char>, i: int) -> bool {
    &&& 0 <= i < methods.len()
    &&& eq_ignore_case(methods[i].id@, id)
    &&& forall|j: int| 0 <= j < i ==> !eq_ignore_case(#[trigger] methods[j].id@, id)
}

/// The normalized key of a hint, as `matches_extension` computes it.
fn hint_chars(hint: &str) -> (r: Vec<char>)
    ensures
        r@ == hint_key(hint@),
{
    let l = trimmed_lower(hint);
    if l.len() > 0 && l[0] == '.' {
        let r = sub_chars(&l, 1, l.len());
        assert(r@ =~= l@.drop_first());
        r
    } else {
        l
    }
}

fn extension_matches_one_exec(e: &str, hint: &[char]) -> (r: bool)
    ensures
        r == extension_matches_one(e@, hint@),
{
    let x = lower_chars(&trim_start_chars(&trim_chars(&chars_of(e)), '.'));
    if x.len() == 0 {
        return false;
    }
    if x.len() == 1 && x[0] == '*' {
        assert(x@ =~= seq!['*']);
        return false;
    }
    assert(x@ != seq!['*']);
    if chars_eq(hint, &x) {
        return true;
    }
    let mut dotted: Vec<char> = Vec::new();
    dotted.push('.');
    let mut i: usize = 0;
    while i < x.len()
        invariant
            i <= x.len(),
            dotted@ =~= seq!['.'] + x@.take(i as int),
        decreases x.len() - i,
    {
        dotted.push(x[i]);
        i = i + 1;
    }
    assert(x@.take(x.len() as int) =~= x@);
    ends_with(hint, &dotted)
}

/// Whether any extension of the list matches the normalized hint.
pub fn extension_matches(extensions: &Vec<String>, hint: &[char]) -> (r: bool)
    ensures
        r == extensions_match(extensions@, hint@),
{
    let mut i: usize = 0;
    while i < extensions.len()
        invariant
            i <= extensions.len(),
            forall|j: int| 0 <= j < i ==> !extension_matches_one(#[trigger] extensions@[j]@, hint@),
        decreases extensions.len() - i,
    {
        if extension_matches_one_exec(extensions[i].as_str(), hint) {
            return true;
        }
        i = i + 1;
    }
    false
}

impl FormatDescriptor {
    /// Creates a descriptor with the given extensions and capabilities and no
    /// other metadata.
    pub fn new(
        id: ArchiveFormatId,
        name: &str,
        extensions: Vec<String>,
        capabilities: Vec<FormatCapability>,
    ) -> (r: Self)
        ensures
            r.id@ == id@,
            r.name@ == name@,
            r.extensions@ == extensions@,
            r.add_extensions@.len() == 0,
            r.signatures@.len() == 0,
            r.capabilities@ == capabilities@,
            r.methods@.len() == 0,
            r.class_id is None,
            r.priority == 0,
            r.diagnostics@.len() == 0,
            r.license is None,
    {
        FormatDescriptor {
            id,
            name: owned(name),
            extensions,
            add_extensions: Vec::new(),
            signatures: Vec::new(),
            capabilities,
            methods: Vec::new(),
            class_id: None,
            priority: 0,
            diagnostics: Vec::new(),
            license: None,
        }
    }

    /// Returns whether a capability is exposed by the handler.
    pub fn supports(&self, capability: FormatCapability) -> (r: bool)
        ensures
            r == self.capabilities@.contains(capability),
    {
        let mut i: usize = 0;
        while i < self.capabilities.len()
            invariant
                i <= self.capabilities.len(),
                forall|j: int| 0 <= j < i ==> self.capabilities@[j] != capability,
            decreases self.capabilities.len() - i,
        {
            if self.capabilities[i] == capability {
                return true;
            }
            i = i + 1;
        }
        false
    }

    /// Returns whether a path or extension string matches this descriptor.
    pub fn matches_extension(&self, hint: &str) -> (r: bool)
        ensures
            r == (extensions_match(self.extensions@, hint_key(hint@))
                || extensions_match(self.add_extensions@, hint_key(hint@))),
    {
        let h = hint_chars(hint);
        extension_matches(&self.extensions, &h) || extension_matches(&self.add_extensions, &h)
    }

    /// Returns whether a path matches one of the handler's primary extensions.
    pub fn matches_primary_extension(&self, hint: &str) -> (r: bool)
        ensures
            r == extensions_match(self.extensions@, hint_key(hint@)),
    {
        let h = hint_chars(hint);
        extension_matches(&self.extensions, &h)
    }

    /// Returns the first method with the requested identifier, ignoring ASCII case.
    pub fn method(&self, id: &str) -> (r: Option<&CompressionMethod>)
        ensures
            r is None <==> forall|j: int|
                0 <= j < self.methods@.len() ==> !eq_ignore_case(#[trigger] self.methods@[j].id@, id@),
            r matches Some(m) ==> exists|i: int| method_index(self.methods@, id@, i) && *m == self.methods@[i],
    {
        let mut i: usize = 0;
        while i < self.methods.len()
            invariant
                i <= self.methods.len(),
                forall|j: int| 0 <= j < i ==> !eq_ignore_case(#[trigger] self.methods@[j].id@, id@),
            decreases self.methods.len() - i,
        {
            if str_eq_ignore_case(self.methods[i].id.as_str(), id) {
                assert(method_index(self.methods@, id@, i as int));
                return Some(&self.methods[i]);
            }
            i = i + 1;
        }
        None
    }
}

} // verus!
