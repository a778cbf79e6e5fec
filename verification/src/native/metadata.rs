//! Turning the provider's handler and method records into format
//! descriptors and compression methods.

use vstd::prelude::*;

use crate::format::{
    format_id_text, signature_view, ArchiveFormatId, CompressionMethod, FormatCapability, FormatDescriptor, LicenseNotice, Signature,
};
use super::loader::{error_message, native_message};
use crate::text::{
    eq_ignore_case, str_eq_ignore_case, append_str, chars_of, contains_text, decimal, is_text, is_white, is_whitespace, join2, lemma_views_push, lower_chars,
    lower_seq, owned, push_char, string_of, trim, trimmed_lower, u64_text, views,
};

verus! {

/// A handler record copied out of the provider.
#[derive(Debug)]
pub struct OwnedFormat {
    /// Handler index.
    pub index: u32,
    /// Native class identifier.
    pub class_id: Option<[u8; 16]>,
    /// Handler flags.
    pub flags: u32,
    /// Whether the handler can write archives.
    pub update: bool,
    /// Handler name.
    pub name: String,
    /// Primary extensions.
    pub extensions: Vec<String>,
    /// Additional extensions.
    pub add_extensions: Vec<String>,
    /// Offset of the signatures.
    pub signature_offset: u32,
    /// The main signature.
    pub signature: Vec<u8>,
    /// Further signatures, each preceded by its length byte.
    pub multi_signature: Vec<u8>,
}

/// A method record copied out of the provider.
#[derive(Debug)]
pub struct OwnedMethod {
    /// Method index.
    pub index: u32,
    /// Native method identifier.
    pub id: Option<[u8; 16]>,
    /// Whether a decoder is available.
    pub decoder: bool,
    /// Whether an encoder is available.
    pub encoder: bool,
    /// Method name.
    pub name: String,
    /// Method description.
    pub description: String,
}

/// Metadata collected during provider initialization.
#[derive(Debug)]
pub struct RuntimeMetadata {
    /// Archive handlers.
    pub formats: Vec<FormatDescriptor>,
    /// Compression methods.
    pub methods: Vec<CompressionMethod>,
}

/// The identifier chosen for `base`: trimmed and lower-cased, with `-index`
/// appended when an earlier identifier already took it.
pub open spec fn unique_id_text(base: Seq<char>, index: u32, used: Seq<Seq<char>>) -> Seq<char> {
    let candidate = lower_seq(trim(base));
    if used.contains(candidate) {
        candidate + "-"@ + decimal(index as nat)
    } else {
        candidate
    }
}

/// Chooses an identifier for `base` and records it as used.
pub fn unique_id(base: &str, index: u32, used: &mut Vec<String>) -> (r: String)
    ensures
        r@ == unique_id_text(base@, index, views(old(used)@)),
        final(used)@ == old(used)@.push(r),
{
    let candidate = string_of(&trimmed_lower(base));
    let chosen = if contains_text(used, candidate.as_str()) {
        let mut c = join2(candidate.as_str(), "-");
        let n = u64_text(index as u64);
        append_str(&mut c, n.as_str());
        c
    } else {
        candidate
    };
    used.push(chosen.clone());
    chosen
}

/// The lower-case hexadecimal digit for `d < 16`.
pub open spec fn hex_digit(d: nat) -> char {
    if d < 10 {
        (('0' as u32) + d) as char
    } else {
        (('a' as u32) + d - 10) as char
    }
}

/// Two lower-case hexadecimal digits for each byte.
pub open spec fn hex_text(bytes: Seq<u8>) -> Seq<char>
    decreases bytes.len(),
{
    if bytes.len() == 0 {
        seq![]
    } else {
        hex_text(bytes.drop_last()).push(hex_digit((bytes.last() / 16) as nat)).push(hex_digit((bytes.last() % 16) as nat))
    }
}

fn hex_char(d: u8) -> (r: char)
    requires
        d < 16,
    ensures
        r == hex_digit(d as nat),
{
    if d < 10 {
        ((48u8 + d) as char)
    } else {
        ((87u8 + d) as char)
    }
}

/// A method identifier made of a native GUID.
pub fn guid_id(value: [u8; 16]) -> (r: String)
    ensures
        r@ == hex_text(value@),
{
    let mut result = String::new();
    let mut i: usize = 0;
    while i < 16
        invariant
            i <= 16,
            value@.len() == 16,
            result@ == hex_text(value@.take(i as int)),
        decreases 16 - i,
    {
        let b = value[i];
        push_char(&mut result, hex_char(b / 16));
        push_char(&mut result, hex_char(b % 16));
        proof {
            assert(value@.take(i as int + 1).drop_last() =~= value@.take(i as int));
        }
        i = i + 1;
    }
    proof {
        assert(value@.take(16) =~= value@);
    }
    result
}

/// Characters that separate extensions in a handler's list.
pub open spec fn is_extension_separator(c: char) -> bool {
    c == ';' || c == ',' || is_white(c)
}

/// The extensions of a list, read from the front with `current` as the
/// extension begun so far; empty pieces are dropped.
pub open spec fn extension_pieces(s: Seq<char>, current: Seq<char>) -> Seq<Seq<char>>
    decreases s.len(),
{
    if s.len() == 0 {
        if current.len() == 0 {
            seq![]
        } else {
            seq![current]
        }
    } else if is_extension_separator(s[0]) {
        (if current.len() == 0 {
            seq![]
        } else {
            seq![current]
        }) + extension_pieces(s.drop_first(), seq![])
    } else {
        extension_pieces(s.drop_first(), current.push(s[0]))
    }
}

/// Splits a handler's extension list at separators, dropping empty pieces.
pub fn split_extensions(value: String) -> (r: Vec<String>)
    ensures
        views(r@) == extension_pieces(value@, seq![]),
{
    let chars = chars_of(value.as_str());
    let mut out: Vec<String> = Vec::new();
    let mut current: Vec<char> = Vec::new();
    let mut i: usize = 0;
    proof {
        assert(chars@.subrange(0, chars@.len() as int) =~= value@);
        assert(views(out@) =~= Seq::<Seq<char>>::empty());
        assert(current@ =~= Seq::<char>::empty());
        assert(views(out@) + extension_pieces(value@, seq![]) =~= extension_pieces(value@, seq![]));
    }
    while i < chars.len()
        invariant
            i <= chars.len(),
            chars@ == value@,
            views(out@) + extension_pieces(chars@.subrange(i as int, chars@.len() as int), current@)
                == extension_pieces(value@, seq![]),
        decreases chars.len() - i,
    {
        let c = chars[i];
        let ghost rest = chars@.subrange(i as int, chars@.len() as int);
        assert(rest.drop_first() =~= chars@.subrange(i as int + 1, chars@.len() as int));
        if c == ';' || c == ',' || is_whitespace(c) {
            if current.len() > 0 {
                let piece = string_of(&current);
                proof {
                    lemma_views_push(out@, piece);
                    assert(views(out@.push(piece)) + extension_pieces(rest.drop_first(), seq![]) =~= views(out@)
                        + (seq![current@] + extension_pieces(rest.drop_first(), seq![])));
                }
                out.push(piece);
            } else {
                assert(views(out@) + (Seq::<Seq<char>>::empty() + extension_pieces(rest.drop_first(), seq![]))
                    =~= views(out@) + extension_pieces(rest.drop_first(), seq![]));
            }
            current = Vec::new();
            assert(current@ =~= Seq::<char>::empty());
        } else {
            current.push(c);
        }
        i = i + 1;
    }
    assert(chars@.subrange(i as int, chars@.len() as int) =~= Seq::<char>::empty());
    if current.len() > 0 {
        let piece = string_of(&current);
        proof {
            lemma_views_push(out@, piece);
        }
        out.push(piece);
    } else {
        assert(views(out@) + Seq::<Seq<char>>::empty() =~= views(out@));
    }
    out
}


/// The further signatures packed in `ms` from `cursor` on: each is a length
/// byte and that many bytes; reading stops at a zero length or a signature
/// that runs past the end.
pub open spec fn packed_signatures(ms: Seq<u8>, cursor: int) -> Seq<Seq<u8>>
    decreases ms.len() - cursor,
{
    if cursor < 0 || cursor >= ms.len() {
        seq![]
    } else {
        let length = ms[cursor] as int;
        let end = cursor + 1 + length;
        if end > ms.len() || length == 0 {
            seq![]
        } else {
            seq![ms.subrange(cursor + 1, end)] + packed_signatures(ms, end)
        }
    }
}

/// The signatures of a handler, by offset and bytes: the main one when it is
/// not empty, then the packed ones, all at the handler's signature offset.
pub open spec fn handler_signatures(format: OwnedFormat) -> Seq<(u64, Seq<u8>)> {
    let offset = format.signature_offset as u64;
    (if format.signature@.len() > 0 {
        seq![(offset, format.signature@)]
    } else {
        seq![]
    }) + at_offset(packed_signatures(format.multi_signature@, 0), offset)
}

/// Byte strings paired with one offset.
pub open spec fn at_offset(bs: Seq<Seq<u8>>, offset: u64) -> Seq<(u64, Seq<u8>)> {
    Seq::new(bs.len(), |i: int| (offset, bs[i]))
}

/// Signatures taken by offset and bytes.
pub open spec fn signature_views(v: Seq<Signature>) -> Seq<(u64, Seq<u8>)> {
    v.map_values(|s: Signature| signature_view(s))
}

proof fn lemma_signature_views_push(v: Seq<Signature>, s: Signature)
    ensures
        signature_views(v.push(s)) == signature_views(v).push(signature_view(s)),
{
    assert(signature_views(v.push(s)) =~= signature_views(v).push(signature_view(s)));
}

/// Reads the signatures of a handler record.
pub fn signature_list(format: &OwnedFormat) -> (r: Vec<Signature>)
    ensures
        signature_views(r@) == handler_signatures(*format),
{
    let offset = format.signature_offset as u64;
    let mut signatures: Vec<Signature> = Vec::new();
    if format.signature.len() > 0 {
        let sig = Signature { offset, bytes: crate::entry::copy_bytes(&format.signature) };
        proof {
            lemma_signature_views_push(signatures@, sig);
        }
        signatures.push(sig);
    }
    let ghost head = signature_views(signatures@);
    assert(head == (if format.signature@.len() > 0 {
        seq![(offset, format.signature@)]
    } else {
        seq![]
    })) by {
        if format.signature@.len() == 0 {
            assert(head =~= Seq::<(u64, Seq<u8>)>::empty());
        } else {
            assert(head =~= seq![(offset, format.signature@)]);
        }
    }
    let ms = &format.multi_signature;
    let mut cursor: usize = 0;
    while cursor < ms.len()
        invariant_except_break
            cursor <= ms.len(),
            signature_views(signatures@) + at_offset(packed_signatures(ms@, cursor as int), offset)
                == head + at_offset(packed_signatures(ms@, 0), offset),
        ensures
            signature_views(signatures@) == head + at_offset(packed_signatures(ms@, 0), offset),
        decreases ms.len() - cursor,
    {
        let length = ms[cursor] as usize;
        let start = cursor + 1;
        if length == 0 || length > ms.len() - start {
            assert(packed_signatures(ms@, cursor as int) =~= Seq::<Seq<u8>>::empty());
            assert(at_offset(packed_signatures(ms@, cursor as int), offset) =~= Seq::<(u64, Seq<u8>)>::empty());
            assert(signature_views(signatures@) + Seq::<(u64, Seq<u8>)>::empty() =~= signature_views(signatures@));
            break;
        }
        let end = start + length;
        let bytes = vstd::slice::slice_to_vec(vstd::slice::slice_subrange(ms.as_slice(), start, end));
        let sig = Signature { offset, bytes };
        proof {
            lemma_signature_views_push(signatures@, sig);
            let p = packed_signatures(ms@, cursor as int);
            assert(p == seq![ms@.subrange(start as int, end as int)] + packed_signatures(ms@, end as int));
            assert(at_offset(p, offset) =~= seq![(offset, ms@.subrange(start as int, end as int))] + at_offset(packed_signatures(ms@, end as int), offset));
            assert(signature_views(signatures@.push(sig)) + at_offset(packed_signatures(ms@, end as int), offset)
                =~= signature_views(signatures@) + at_offset(p, offset));
        }
        signatures.push(sig);
        cursor = end;
    }
    proof {
        if cursor >= ms.len() {
            assert(packed_signatures(ms@, cursor as int) =~= Seq::<Seq<u8>>::empty());
            assert(at_offset(packed_signatures(ms@, cursor as int), offset) =~= Seq::<(u64, Seq<u8>)>::empty());
            assert(signature_views(signatures@) + Seq::<(u64, Seq<u8>)>::empty() =~= signature_views(signatures@));
        }
    }
    signatures
}


/// "rar" starts at `i` in `s`.
pub open spec fn rar_at(s: Seq<char>, i: int) -> bool {
    0 <= i && i + 3 <= s.len() && s[i] == 'r' && s[i + 1] == 'a' && s[i + 2] == 'r'
}

/// `s` holds "rar" somewhere.
pub open spec fn mentions_rar(s: Seq<char>) -> bool {
    exists|i: int| #[trigger] rar_at(s, i)
}

fn has_rar(v: &[char]) -> (r: bool)
    ensures
        r == mentions_rar(v@),
{
    let mut i: usize = 0;
    while v.len() >= 3 && i <= v.len() - 3
        invariant
            forall|j: int| 0 <= j < i ==> !#[trigger] rar_at(v@, j),
        decreases v.len() - i,
    {
        if v[i] == 'r' && v[i + 1] == 'a' && v[i + 2] == 'r' {
            assert(rar_at(v@, i as int));
            return true;
        }
        i = i + 1;
    }
    proof {
        assert forall|j: int| !#[trigger] rar_at(v@, j) by {
            if 0 <= j && j + 3 <= v@.len() {
                assert(j < i);
            }
        }
    }
    false
}

/// The summary of the unRAR notice.
pub open spec fn unrar_summary() -> Seq<char> {
    "RAR decoding is distributed under the unRAR source license; RAR creation is not provided."@
}

/// The restriction attached to the unRAR notice.
pub open spec fn unrar_restriction() -> Seq<char> {
    "Do not use this component to create RAR archives; review the unRAR license before redistribution."@
}

/// The license notice for a handler name: the unRAR notice for names that
/// mention "rar" in any case, the LGPL notice otherwise.
pub open spec fn license_matches(name: Seq<char>, l: LicenseNotice) -> bool {
    if mentions_rar(lower_seq(name)) {
        &&& l.id@ == "unrar-restriction"@
        &&& l.summary@ == unrar_summary()
        &&& l.url@ == "https://www.rarlab.com/rar_add.htm"@
        &&& l.redistributable
        &&& views(l.restrictions@) == seq![unrar_restriction()]
    } else {
        &&& l.id@ == "7zip-lgpl"@
        &&& l.summary@ == "7-Zip components are distributed under the LGPL-2.1-or-later license."@
        &&& l.url@ == "https://www.7-zip.org/license.txt"@
        &&& l.redistributable
        &&& l.restrictions@.len() == 0
    }
}

/// Chooses the license notice of a handler.
pub fn license_for_name(name: &str) -> (r: LicenseNotice)
    ensures
        license_matches(name@, r),
{
    let lower = lower_chars(&chars_of(name));
    if has_rar(&lower) {
        let mut notice = LicenseNotice::new(
            "unrar-restriction",
            "RAR decoding is distributed under the unRAR source license; RAR creation is not provided.",
            "https://www.rarlab.com/rar_add.htm",
        );
        let restriction = owned("Do not use this component to create RAR archives; review the unRAR license before redistribution.");
        proof {
            lemma_views_push(notice.restrictions@, restriction);
            assert(views(notice.restrictions@) =~= Seq::<Seq<char>>::empty());
            assert(Seq::<Seq<char>>::empty().push(restriction@) =~= seq![restriction@]);
        }
        notice.restrictions.push(restriction);
        notice
    } else {
        LicenseNotice::new(
            "7zip-lgpl",
            "7-Zip components are distributed under the LGPL-2.1-or-later license.",
            "https://www.7-zip.org/license.txt",
        )
    }
}

/// The methods a writable handler may offer, by handler name.
pub open spec fn supported_methods(name: Seq<char>) -> Seq<Seq<char>> {
    if name == "7z"@ {
        seq!["copy"@, "deflate"@, "deflate64"@, "bzip2"@, "lzma"@, "lzma2"@, "ppmd"@, "zstd"@]
    } else if name == "zip"@ {
        seq!["copy"@, "deflate"@, "deflate64"@, "bzip2"@, "lzma"@, "ppmd"@, "zstd"@, "xz"@]
    } else if name == "gzip"@ {
        seq!["deflate"@]
    } else if name == "xz"@ {
        seq!["lzma2"@]
    } else if name == "lzma"@ {
        seq!["lzma"@]
    } else {
        seq![]
    }
}

fn supported_method_list(name: &[char]) -> (r: Vec<String>)
    ensures
        views(r@) == supported_methods(name@),
{
    let mut out: Vec<String> = Vec::new();
    let names: Vec<&str> = if is_text(name, "7z") {
        vec!["copy", "deflate", "deflate64", "bzip2", "lzma", "lzma2", "ppmd", "zstd"]
    } else if is_text(name, "zip") {
        vec!["copy", "deflate", "deflate64", "bzip2", "lzma", "ppmd", "zstd", "xz"]
    } else if is_text(name, "gzip") {
        vec!["deflate"]
    } else if is_text(name, "xz") {
        vec!["lzma2"]
    } else if is_text(name, "lzma") {
        vec!["lzma"]
    } else {
        Vec::new()
    };
    let ghost expected = supported_methods(name@);
    assert(names@.len() == expected.len() && forall|k: int| 0 <= k < names@.len() ==> names@[k]@ == expected[k]);
    let mut i: usize = 0;
    while i < names.len()
        invariant
            i <= names.len(),
            names@.len() == expected.len(),
            forall|k: int| 0 <= k < names@.len() ==> names@[k]@ == expected[k],
            views(out@) == expected.take(i as int),
        decreases names.len() - i,
    {
        let item = owned(names[i]);
        proof {
            lemma_views_push(out@, item);
            assert(expected.take(i as int + 1) =~= expected.take(i as int).push(expected[i as int]));
        }
        out.push(item);
        i = i + 1;
    }
    assert(expected.take(i as int) =~= expected);
    out
}

/// The encodable methods, in provider order, that a handler of this name
/// may offer.
pub open spec fn handler_methods(name: Seq<char>, methods: Seq<CompressionMethod>) -> Seq<CompressionMethod>
    decreases methods.len(),
{
    if methods.len() == 0 {
        seq![]
    } else {
        let rest = handler_methods(name, methods.drop_last());
        let m = methods.last();
        if m.can_encode && supported_methods(name).contains(m.id@) {
            rest.push(m)
        } else {
            rest
        }
    }
}

/// Selects the methods a writable handler named `name` offers.
pub fn format_methods(name: &[char], methods: &[CompressionMethod]) -> (r: Vec<CompressionMethod>)
    ensures
        r@ == handler_methods(name@, methods@),
{
    let supported = supported_method_list(name);
    let mut out: Vec<CompressionMethod> = Vec::new();
    let mut i: usize = 0;
    while i < methods.len()
        invariant
            i <= methods.len(),
            views(supported@) == supported_methods(name@),
            out@ == handler_methods(name@, methods@.take(i as int)),
        decreases methods.len() - i,
    {
        let m = &methods[i];
        proof {
            assert(methods@.take(i as int + 1).drop_last() =~= methods@.take(i as int));
        }
        if m.can_encode && contains_text(&supported, m.id.as_str()) {
            out.push(m.clone());
        }
        i = i + 1;
    }
    assert(methods@.take(methods@.len() as int) =~= methods@);
    out
}

/// The identifier base of a method: its lower-cased name, or when the name
/// is blank its GUID, or `method-index`.
pub open spec fn method_base(m: OwnedMethod) -> Seq<char> {
    if trim(m.name@).len() == 0 {
        match m.id {
            Some(g) => hex_text(g@),
            None => "method-"@ + decimal(m.index as nat),
        }
    } else {
        lower_seq(m.name@)
    }
}

/// The identifiers given to methods in order; each is unique against the
/// identifiers given before it.
pub open spec fn method_ids(owned: Seq<OwnedMethod>) -> Seq<Seq<char>>
    decreases owned.len(),
{
    if owned.len() == 0 {
        seq![]
    } else {
        let prev = method_ids(owned.drop_last());
        prev.push(unique_id_text(method_base(owned.last()), owned.last().index, prev))
    }
}

/// The display name of a method: its name, followed by its description
/// when it has one.
pub open spec fn method_display(m: OwnedMethod) -> Seq<char> {
    if m.description@.len() == 0 {
        m.name@
    } else {
        m.name@ + " \u{2014} "@ + m.description@
    }
}

/// `r` is method `m` given identifier `id`.
pub open spec fn method_built(m: OwnedMethod, id: Seq<char>, r: CompressionMethod) -> bool {
    &&& r.id@ == id
    &&& r.name@ == method_display(m)
    &&& r.can_decode == m.decoder
    &&& r.can_encode == m.encoder
}

proof fn lemma_method_ids_len(owned: Seq<OwnedMethod>)
    ensures
        method_ids(owned).len() == owned.len(),
    decreases owned.len(),
{
    if owned.len() > 0 {
        lemma_method_ids_len(owned.drop_last());
    }
}

fn method_base_text(m: &OwnedMethod) -> (r: String)
    ensures
        r@ == method_base(*m),
{
    let trimmed = crate::text::trim_chars(&chars_of(m.name.as_str()));
    if trimmed.len() == 0 {
        match m.id {
            Some(g) => guid_id(g),
            None => {
                let n = u64_text(m.index as u64);
                join2("method-", n.as_str())
            },
        }
    } else {
        string_of(&lower_chars(&chars_of(m.name.as_str())))
    }
}

/// Builds the compression methods from the provider's method records.
pub fn build_methods(owned: &Vec<OwnedMethod>) -> (r: Vec<CompressionMethod>)
    ensures
        r@.len() == owned@.len(),
        forall|i: int| 0 <= i < owned@.len() ==> method_built(owned@[i], method_ids(owned@)[i], #[trigger] r@[i]),
{
    let mut used: Vec<String> = Vec::new();
    let mut out: Vec<CompressionMethod> = Vec::new();
    let mut i: usize = 0;
    while i < owned.len()
        invariant
            i <= owned.len(),
            views(used@) == method_ids(owned@.take(i as int)),
            out@.len() == i,
            forall|k: int| 0 <= k < i ==> method_built(owned@[k], method_ids(owned@.take(i as int))[k], #[trigger] out@[k]),
        decreases owned.len() - i,
    {
        let m = &owned[i];
        let base = method_base_text(m);
        let ghost used_before = used@;
        let id = unique_id(base.as_str(), m.index, &mut used);
        let display = if m.description.as_str().is_empty() {
            m.name.clone()
        } else {
            let mut d = join2(m.name.as_str(), " \u{2014} ");
            append_str(&mut d, m.description.as_str());
            d
        };
        let mut result = CompressionMethod::new(id.as_str(), display.as_str());
        result.can_decode = m.decoder;
        result.can_encode = m.encoder;
        proof {
            let t = owned@.take(i as int + 1);
            assert(t.drop_last() =~= owned@.take(i as int));
            lemma_views_push(used_before, id);
            lemma_method_ids_len(owned@.take(i as int));
            assert(method_ids(t) == method_ids(owned@.take(i as int)).push(id@));
            assert forall|k: int| 0 <= k < i implies method_ids(t)[k] == method_ids(owned@.take(i as int))[k] by {}
        }
        out.push(result);
        i = i + 1;
    }
    proof {
        assert(owned@.take(owned@.len() as int) =~= owned@);
    }
    out
}


/// The identifier base of a handler: its lower-cased name, or when the name
/// is blank `handler-index`.
pub open spec fn format_base(f: OwnedFormat) -> Seq<char> {
    if trim(f.name@).len() == 0 {
        "handler-"@ + decimal(f.index as nat)
    } else {
        lower_seq(f.name@)
    }
}

/// The identifiers given to handlers in order; each is unique against the
/// identifiers given before it.
pub open spec fn format_ids(owned: Seq<OwnedFormat>) -> Seq<Seq<char>>
    decreases owned.len(),
{
    if owned.len() == 0 {
        seq![]
    } else {
        let prev = format_ids(owned.drop_last());
        prev.push(unique_id_text(format_base(owned.last()), owned.last().index, prev))
    }
}

/// RAR handlers, which may only read.
pub open spec fn is_rar_name(lower: Seq<char>) -> bool {
    lower == "rar"@ || lower == "rar5"@
}

/// Some additional extension is ".tar" in any case.
pub open spec fn wraps_tar(add_extensions: Seq<String>) -> bool {
    exists|k: int| 0 <= k < add_extensions.len() && eq_ignore_case(#[trigger] add_extensions[k]@, ".tar"@)
}

/// The capabilities of a handler: every handler lists, extracts, tests and
/// seeks its input; writable non-RAR handlers create, update and seek their
/// output; 7z encrypts headers and writes solid archives; 7z, zip and RAR
/// take passwords; the split handler and handlers that wrap a tar stream are
/// transparent.
pub open spec fn handler_capabilities(f: OwnedFormat) -> Seq<FormatCapability> {
    let lower = lower_seq(f.name@);
    let writable = f.update && !is_rar_name(lower);
    seq![FormatCapability::List, FormatCapability::Extract, FormatCapability::Test, FormatCapability::SeekableInput]
        + (if writable {
        seq![FormatCapability::Create, FormatCapability::Update, FormatCapability::SeekableOutput]
    } else {
        seq![]
    }) + (if lower == "7z"@ {
        seq![FormatCapability::HeaderEncryption, FormatCapability::Solid]
    } else {
        seq![]
    }) + (if lower == "7z"@ || lower == "zip"@ || is_rar_name(lower) {
        seq![FormatCapability::Password]
    } else {
        seq![]
    }) + (if lower == "split"@ || wraps_tar(f.add_extensions@) {
        seq![FormatCapability::Transparent]
    } else {
        seq![]
    })
}

/// A note kept when the handler sets flag `bit`.
pub open spec fn flag_note(flags: u32, bit: u32, note: Seq<char>) -> Seq<Seq<char>> {
    if flags & bit != 0 {
        seq![note]
    } else {
        seq![]
    }
}

/// The diagnostics of a handler, from its flags and name.
pub open spec fn handler_notes(f: OwnedFormat) -> Seq<Seq<char>> {
    flag_note(f.flags, 1, "handler preserves archive names"@) + flag_note(
        f.flags,
        4,
        "handler exposes NT security metadata"@,
    ) + flag_note(f.flags, 2048, "handler exposes hard-link metadata"@) + flag_note(
        f.flags,
        16,
        "handler exposes multiple signatures"@,
    ) + flag_note(f.flags, 8, "handler can search for an archive signature in a prefix"@) + flag_note(
        f.flags,
        1024,
        "handler exposes symbolic-link metadata"@,
    ) + (if is_rar_name(lower_seq(f.name@)) {
        seq!["RAR writing is disabled by the unRAR license"@]
    } else {
        seq![]
    })
}

/// `d` is the descriptor of handler `f` given identifier `id`.
pub open spec fn descriptor_built(f: OwnedFormat, id: Seq<char>, methods: Seq<CompressionMethod>, d: FormatDescriptor) -> bool {
    &&& d.id@ == format_id_text(id)
    &&& d.name@ == (if f.name@.len() == 0 { "Unnamed handler"@ } else { f.name@ })
    &&& d.extensions@ == f.extensions@
    &&& d.add_extensions@ == f.add_extensions@
    &&& d.capabilities@ == handler_capabilities(f)
    &&& d.class_id == f.class_id
    &&& d.priority == (if f.index > 65535 { 65535 } else { f.index }) as u16
    &&& d.license matches Some(l) && license_matches(f.name@, l)
    &&& d.methods@ == handler_methods(lower_seq(f.name@), methods)
    &&& signature_views(d.signatures@) == handler_signatures(f)
    &&& views(d.diagnostics@) == handler_notes(f)
}

fn push_note(notes: &mut Vec<String>, present: bool, note: &str)
    ensures
        views(final(notes)@) == views(old(notes)@) + (if present { seq![note@] } else { seq![] }),
{
    if present {
        let s = owned(note);
        proof {
            lemma_views_push(notes@, s);
            assert(views(notes@).push(s@) =~= views(notes@) + seq![s@]);
        }
        notes.push(s);
    } else {
        assert(views(notes@) + Seq::<Seq<char>>::empty() =~= views(notes@));
    }
}

fn any_tar(add_extensions: &Vec<String>) -> (r: bool)
    ensures
        r == wraps_tar(add_extensions@),
{
    let mut i: usize = 0;
    while i < add_extensions.len()
        invariant
            i <= add_extensions.len(),
            forall|k: int| 0 <= k < i ==> !eq_ignore_case(#[trigger] add_extensions@[k]@, ".tar"@),
        decreases add_extensions.len() - i,
    {
        if str_eq_ignore_case(add_extensions[i].as_str(), ".tar") {
            return true;
        }
        i = i + 1;
    }
    false
}

fn handler_capability_list(f: &OwnedFormat, lower: &Vec<char>) -> (r: Vec<FormatCapability>)
    requires
        lower@ == lower_seq(f.name@),
    ensures
        r@ == handler_capabilities(*f),
{
    let rar = is_text(lower, "rar") || is_text(lower, "rar5");
    let seven = is_text(lower, "7z");
    let zip = is_text(lower, "zip");
    let split = is_text(lower, "split");
    let mut caps: Vec<FormatCapability> = vec![
        FormatCapability::List,
        FormatCapability::Extract,
        FormatCapability::Test,
        FormatCapability::SeekableInput,
    ];
    let ghost c0 = caps@;
    if f.update && !rar {
        caps.push(FormatCapability::Create);
        caps.push(FormatCapability::Update);
        caps.push(FormatCapability::SeekableOutput);
    }
    let ghost c1 = caps@;
    if seven {
        caps.push(FormatCapability::HeaderEncryption);
        caps.push(FormatCapability::Solid);
    }
    let ghost c2 = caps@;
    if seven || zip || rar {
        caps.push(FormatCapability::Password);
    }
    let ghost c3 = caps@;
    if split || any_tar(&f.add_extensions) {
        caps.push(FormatCapability::Transparent);
    }
    proof {
        let lw = lower_seq(f.name@);
        let writable = f.update && !is_rar_name(lw);
        assert(c1 =~= c0 + (if writable {
            seq![FormatCapability::Create, FormatCapability::Update, FormatCapability::SeekableOutput]
        } else {
            seq![]
        }));
        assert(c2 =~= c1 + (if lw == "7z"@ {
            seq![FormatCapability::HeaderEncryption, FormatCapability::Solid]
        } else {
            seq![]
        }));
        assert(c3 =~= c2 + (if lw == "7z"@ || lw == "zip"@ || is_rar_name(lw) {
            seq![FormatCapability::Password]
        } else {
            seq![]
        }));
        assert(caps@ =~= c3 + (if lw == "split"@ || wraps_tar(f.add_extensions@) {
            seq![FormatCapability::Transparent]
        } else {
            seq![]
        }));
        assert(caps@ =~= handler_capabilities(*f));
    }
    caps
}

fn handler_note_list(f: &OwnedFormat, lower: &Vec<char>) -> (r: Vec<String>)
    requires
        lower@ == lower_seq(f.name@),
    ensures
        views(r@) == handler_notes(*f),
{
    let mut notes: Vec<String> = Vec::new();
    let ghost n0 = views(notes@);
    push_note(&mut notes, f.flags & 1 != 0, "handler preserves archive names");
    push_note(&mut notes, f.flags & 4 != 0, "handler exposes NT security metadata");
    push_note(&mut notes, f.flags & 2048 != 0, "handler exposes hard-link metadata");
    push_note(&mut notes, f.flags & 16 != 0, "handler exposes multiple signatures");
    push_note(&mut notes, f.flags & 8 != 0, "handler can search for an archive signature in a prefix");
    push_note(&mut notes, f.flags & 1024 != 0, "handler exposes symbolic-link metadata");
    let rar = is_text(lower, "rar") || is_text(lower, "rar5");
    push_note(&mut notes, rar, "RAR writing is disabled by the unRAR license");
    proof {
        assert(n0 =~= Seq::<Seq<char>>::empty());
        assert(views(notes@) =~= handler_notes(*f));
    }
    notes
}

/// Builds the descriptor of one handler given its identifier.
pub fn build_descriptor(f: &OwnedFormat, id: &str, methods: &[CompressionMethod]) -> (r: FormatDescriptor)
    ensures
        descriptor_built(*f, id@, methods@, r),
{
    let lower = lower_chars(&chars_of(f.name.as_str()));
    let capabilities = handler_capability_list(f, &lower);
    let name_text = if f.name.as_str().is_empty() { "Unnamed handler" } else { f.name.as_str() };
    let mut descriptor = FormatDescriptor::new(
        ArchiveFormatId::new(id),
        name_text,
        crate::format::copy_strings(&f.extensions),
        capabilities,
    );
    descriptor.add_extensions = crate::format::copy_strings(&f.add_extensions);
    descriptor.class_id = f.class_id;
    descriptor.priority = if f.index > 65535 { 65535u16 } else { f.index as u16 };
    descriptor.license = Some(license_for_name(f.name.as_str()));
    descriptor.methods = format_methods(&lower, methods);
    descriptor.signatures = signature_list(f);
    descriptor.diagnostics = handler_note_list(f, &lower);
    descriptor
}

proof fn lemma_format_ids_len(owned: Seq<OwnedFormat>)
    ensures
        format_ids(owned).len() == owned.len(),
    decreases owned.len(),
{
    if owned.len() > 0 {
        lemma_format_ids_len(owned.drop_last());
    }
}

fn format_base_text(f: &OwnedFormat) -> (r: String)
    ensures
        r@ == format_base(*f),
{
    let trimmed = crate::text::trim_chars(&chars_of(f.name.as_str()));
    if trimmed.len() == 0 {
        let n = u64_text(f.index as u64);
        join2("handler-", n.as_str())
    } else {
        string_of(&lower_chars(&chars_of(f.name.as_str())))
    }
}

/// Builds the format descriptors from the provider's handler records, each
/// with the methods it may offer.
pub fn build_formats(owned: &Vec<OwnedFormat>, methods: &[CompressionMethod]) -> (r: Vec<FormatDescriptor>)
    ensures
        r@.len() == owned@.len(),
        forall|i: int| 0 <= i < owned@.len() ==> descriptor_built(owned@[i], format_ids(owned@)[i], methods@, #[trigger] r@[i]),
{
    let mut used: Vec<String> = Vec::new();
    let mut out: Vec<FormatDescriptor> = Vec::new();
    let mut i: usize = 0;
    while i < owned.len()
        invariant
            i <= owned.len(),
            views(used@) == format_ids(owned@.take(i as int)),
            out@.len() == i,
            forall|k: int| 0 <= k < i ==> descriptor_built(owned@[k], format_ids(owned@.take(i as int))[k], methods@, #[trigger] out@[k]),
        decreases owned.len() - i,
    {
        let f = &owned[i];
        let base = format_base_text(f);
        let ghost used_before = used@;
        let id = unique_id(base.as_str(), f.index, &mut used);
        let descriptor = build_descriptor(f, id.as_str(), methods);
        proof {
            let t = owned@.take(i as int + 1);
            assert(t.drop_last() =~= owned@.take(i as int));
            lemma_views_push(used_before, id);
            lemma_format_ids_len(owned@.take(i as int));
            assert(format_ids(t) == format_ids(owned@.take(i as int)).push(id@));
            assert forall|k: int| 0 <= k < i implies format_ids(t)[k] == format_ids(owned@.take(i as int))[k] by {}
        }
        out.push(descriptor);
        i = i + 1;
    }
    proof {
        assert(owned@.take(owned@.len() as int) =~= owned@);
    }
    out
}

/// The descriptors and methods of a provider's records.
pub fn metadata_from(formats: &Vec<OwnedFormat>, methods: &Vec<OwnedMethod>) -> (r: RuntimeMetadata)
    ensures
        r.methods@.len() == methods@.len(),
        forall|i: int| 0 <= i < methods@.len() ==> method_built(methods@[i], method_ids(methods@)[i], #[trigger] r.methods@[i]),
        r.formats@.len() == formats@.len(),
        forall|i: int| 0 <= i < formats@.len() ==> descriptor_built(formats@[i], format_ids(formats@)[i], r.methods@, #[trigger] r.formats@[i]),
{
    let built_methods = build_methods(methods);
    let built_formats = build_formats(formats, built_methods.as_slice());
    RuntimeMetadata { formats: built_formats, methods: built_methods }
}


/// The diagnostic of a failed enumeration: the record's text, or
/// `fallback` when it has none.
pub fn format_error_message(message: &[u8; 512], fallback: &str) -> (r: String)
    ensures
        r@ == match native_message(message@) {
            Some(t) => t,
            None => fallback@,
        },
{
    match error_message(message.as_slice()) {
        Some(text) => text,
        None => owned(fallback),
    }
}


/// RAR handlers only read: whatever the provider reports, a handler named
/// "rar" or "rar5" in any case can neither create nor update archives.
pub proof fn law_rar_handlers_never_write(f: OwnedFormat)
    requires
        is_rar_name(lower_seq(f.name@)),
    ensures
        !handler_capabilities(f).contains(FormatCapability::Create),
        !handler_capabilities(f).contains(FormatCapability::Update),
{
    let lower = lower_seq(f.name@);
    reveal_strlit("rar");
    reveal_strlit("rar5");
    reveal_strlit("7z");
    reveal_strlit("split");
    let caps = handler_capabilities(f);
    assert(lower != "7z"@) by {
        if lower == "rar"@ {
            assert(lower[0] != "7z"@[0]);
        } else {
            assert(lower[0] != "7z"@[0]);
        }
    }
    if caps.contains(FormatCapability::Create) || caps.contains(FormatCapability::Update) {
        let k = choose|k: int| 0 <= k < caps.len() && (caps[k] == FormatCapability::Create || caps[k] == FormatCapability::Update);
        assert(caps[k] != FormatCapability::Create && caps[k] != FormatCapability::Update);
    }
}

} // verus!
