//! Format detection from signatures, filename hints and in-memory magic.

use vstd::prelude::*;
use infer::MatcherType as M;

use crate::format::{FormatDescriptor, FormatDescriptorView, extensions_match, hint_key};
use crate::text::{
    chars_of, lower_chars, lower_seq, owned, string_of, sub_chars, trim, trim_chars,
};

verus! {

/// The maximum number of bytes inspected for in-memory magic.
pub const DEFAULT_SNIFF_BYTES: usize = 65536;

/// The bounded, format-independent hint produced before a provider opens an
/// archive.
#[derive(Clone, Debug, Default, PartialEq, Eq)]
pub struct DetectionHint {
    /// Extension taken from the caller's filename hint, without a leading dot.
    pub extension: Option<String>,
    /// Original filename extension retained for mismatch diagnostics.
    pub filename_extension: Option<String>,
    /// MIME type reported by the in-memory magic matcher.
    pub mime_type: Option<String>,
    /// Broad kind reported by the in-memory magic matcher.
    pub kind: Option<String>,
}

/// Joins the parts with `sep` between neighbours.
pub open spec fn join_parts(parts: Seq<Seq<char>>, sep: Seq<char>) -> Seq<char>
    decreases parts.len(),
{
    if parts.len() == 0 {
        seq![]
    } else if parts.len() == 1 {
        parts[0]
    } else {
        join_parts(parts.drop_last(), sep) + sep + parts.last()
    }
}

/// The present parts of a hint summary: kind, MIME type, extension.
pub open spec fn summary_parts(h: DetectionHint) -> Seq<Seq<char>> {
    let a: Seq<Seq<char>> = if h.kind.is_some() { seq![h.kind.unwrap()@] } else { seq![] };
    let b: Seq<Seq<char>> = if h.mime_type.is_some() { seq![h.mime_type.unwrap()@] } else { seq![] };
    let c: Seq<Seq<char>> = if h.extension.is_some() { seq![h.extension.unwrap()@] } else { seq![] };
    a + b + c
}

impl DetectionHint {
    /// Returns whether magic bytes produced a useful hint.
    pub fn has_magic(&self) -> (r: bool)
        ensures
            r == (self.mime_type.is_some() || self.kind.is_some()),
    {
        self.mime_type.is_some() || self.kind.is_some()
    }

    /// Returns a short human-readable description: the present kind, MIME type
    /// and extension joined by ` / `.
    pub fn summary(&self) -> (r: String)
        ensures
            r@ == join_parts(summary_parts(*self), " / "@),
    {
        let mut parts: Vec<&str> = Vec::new();
        if let Some(kind) = &self.kind {
            parts.push(kind.as_str());
        }
        if let Some(mime_type) = &self.mime_type {
            parts.push(mime_type.as_str());
        }
        if let Some(extension) = &self.extension {
            parts.push(extension.as_str());
        }
        let ghost want = summary_parts(*self);
        assert(parts@.len() == want.len());
        assert forall|i: int| 0 <= i < want.len() implies #[trigger] parts@[i]@ == want[i] by {
        }
        let mut out = String::new();
        let mut i: usize = 0;
        while i < parts.len()
            invariant
                i <= parts.len(),
                parts@.len() == want.len(),
                forall|k: int| 0 <= k < want.len() ==> #[trigger] parts@[k]@ == want[k],
                out@ == join_parts(want.take(i as int), " / "@),
            decreases parts.len() - i,
        {
            if i > 0 {
                crate::text::append_str(&mut out, " / ");
            }
            crate::text::append_str(&mut out, parts[i]);
            proof {
                let t = want.take(i + 1);
                assert(t.drop_last() =~= want.take(i as int));
                assert(t.last() == want[i as int]);
                if i == 0 {
                    assert(want.take(0) =~= Seq::<Seq<char>>::empty());
                    assert(out@ =~= want[0]);
                }
            }
            i = i + 1;
        }
        assert(want.take(want.len() as int) =~= want);
        out
    }
}

/// Separator of host paths for filename hints.
pub open spec fn is_path_sep(c: char) -> bool {
    c == '/' || c == '\\'
}

/// The last offset in `s` holding a path separator, or -1.
pub open spec fn last_sep(s: Seq<char>) -> int
    decreases s.len(),
{
    if s.len() == 0 {
        -1
    } else if is_path_sep(s.last()) {
        s.len() - 1
    } else {
        last_sep(s.drop_last())
    }
}

/// The last offset in `s` holding `.`, or -1.
pub open spec fn last_dot(s: Seq<char>) -> int
    decreases s.len(),
{
    if s.len() == 0 {
        -1
    } else if s.last() == '.' {
        s.len() - 1
    } else {
        last_dot(s.drop_last())
    }
}

proof fn lemma_last_sep(s: Seq<char>)
    ensures
        -1 <= last_sep(s) < s.len(),
        last_sep(s) >= 0 ==> is_path_sep(s[last_sep(s)]),
        forall|j: int| last_sep(s) < j < s.len() ==> !is_path_sep(#[trigger] s[j]),
    decreases s.len(),
{
    if s.len() > 0 && !is_path_sep(s.last()) {
        lemma_last_sep(s.drop_last());
        assert forall|j: int| last_sep(s) < j < s.len() implies !is_path_sep(#[trigger] s[j]) by {
            if j < s.len() - 1 {
                assert(s[j] == s.drop_last()[j]);
            }
        }
    }
}

proof fn lemma_last_sep_at(s: Seq<char>, k: int)
    requires
        -1 <= k < s.len(),
        k >= 0 ==> is_path_sep(s[k]),
        forall|j: int| k < j < s.len() ==> !is_path_sep(#[trigger] s[j]),
    ensures
        last_sep(s) == k,
    decreases s.len(),
{
    if s.len() > 0 && k < s.len() - 1 {
        assert(!is_path_sep(s[s.len() - 1]));
        let t = s.drop_last();
        assert forall|j: int| k < j < t.len() implies !is_path_sep(#[trigger] t[j]) by {
            assert(t[j] == s[j]);
        }
        lemma_last_sep_at(t, k);
    }
}

proof fn lemma_last_dot_at(s: Seq<char>, k: int)
    requires
        -1 <= k < s.len(),
        k >= 0 ==> s[k] == '.',
        forall|j: int| k < j < s.len() ==> #[trigger] s[j] != '.',
    ensures
        last_dot(s) == k,
    decreases s.len(),
{
    if s.len() > 0 && k < s.len() - 1 {
        assert(s[s.len() - 1] != '.');
        let t = s.drop_last();
        assert forall|j: int| k < j < t.len() implies #[trigger] t[j] != '.' by {
            assert(t[j] == s[j]);
        }
        lemma_last_dot_at(t, k);
    }
}

/// The extension hinted by a filename: the trimmed, ASCII lower-case text after
/// the last `.` of the last path component, when it is not empty.
pub open spec fn extension_hint_text(v: Seq<char>) -> Option<Seq<char>> {
    let name = v.subrange(last_sep(v) + 1, v.len() as int);
    let dot = last_dot(name);
    if dot < 0 {
        None
    } else {
        let ext = trim(name.subrange(dot + 1, name.len() as int));
        if ext.len() == 0 {
            None
        } else {
            Some(lower_seq(ext))
        }
    }
}

/// An optional string taken by its characters.
pub open spec fn opt_text(o: Option<String>) -> Option<Seq<char>> {
    match o {
        Some(s) => Some(s@),
        None => None,
    }
}

/// Extracts the lower-case extension hinted by a filename.
pub fn extension_hint(value: &str) -> (r: Option<String>)
    ensures
        opt_text(r) == extension_hint_text(value@),
{
    let v = chars_of(value);
    let mut k: usize = v.len();
    while k > 0 && v[k - 1] != '/' && v[k - 1] != '\\'
        invariant
            k <= v.len(),
            forall|j: int| k <= j < v.len() ==> !is_path_sep(#[trigger] v@[j]),
        decreases k,
    {
        k = k - 1;
    }
    proof {
        lemma_last_sep_at(v@, k - 1);
    }
    let name = sub_chars(&v, k, v.len());
    let mut d: usize = name.len();
    while d > 0 && name[d - 1] != '.'
        invariant
            d <= name.len(),
            forall|j: int| d <= j < name.len() ==> #[trigger] name@[j] != '.',
        decreases d,
    {
        d = d - 1;
    }
    proof {
        lemma_last_dot_at(name@, d - 1);
    }
    if d == 0 {
        return None;
    }
    let ext = trim_chars(&sub_chars(&name, d, name.len()));
    if ext.len() == 0 {
        return None;
    }
    Some(string_of(&lower_chars(&ext)))
}

/// The kinds of in-memory magic recognised by the matcher.
#[derive(Clone, Copy, Debug, PartialEq, Eq, Structural)]
pub enum MagicKind {
    /// Executables and application packages.
    App,
    /// Archives and compressed streams.
    Archive,
    /// Audio.
    Audio,
    /// Electronic books.
    Book,
    /// Office documents.
    Doc,
    /// Fonts.
    Font,
    /// Images.
    Image,
    /// Text.
    Text,
    /// Video.
    Video,
    /// Matcher-defined custom kinds.
    Custom,
}

/// The lower-case name of a magic kind.
pub open spec fn magic_kind_name(k: MagicKind) -> Seq<char> {
    match k {
        MagicKind::App => "app"@,
        MagicKind::Archive => "archive"@,
        MagicKind::Audio => "audio"@,
        MagicKind::Book => "book"@,
        MagicKind::Doc => "doc"@,
        MagicKind::Font => "font"@,
        MagicKind::Image => "image"@,
        MagicKind::Text => "text"@,
        MagicKind::Video => "video"@,
        MagicKind::Custom => "custom"@,
    }
}

fn magic_kind_text(k: MagicKind) -> (r: String)
    ensures
        r@ == magic_kind_name(k),
{
    match k {
        MagicKind::App => owned("app"),
        MagicKind::Archive => owned("archive"),
        MagicKind::Audio => owned("audio"),
        MagicKind::Book => owned("book"),
        MagicKind::Doc => owned("doc"),
        MagicKind::Font => owned("font"),
        MagicKind::Image => owned("image"),
        MagicKind::Text => owned("text"),
        MagicKind::Video => owned("video"),
        MagicKind::Custom => owned("custom"),
    }
}

/// What `infer::get` reports for a byte buffer: MIME type, extension and kind.
pub uninterp spec fn infer_type(bytes: Seq<u8>) -> Option<(Seq<char>, Seq<char>, MagicKind)>;

/// Calls `infer::get`, which matches the buffer against infer's table of magic
/// signatures. The result is a function of the bytes alone; its value is
/// named by `infer_type` and not stated.
#[verifier::external_body]
fn infer_get(bytes: &[u8]) -> (r: Option<(String, String, MagicKind)>)
    ensures
        r is Some <==> infer_type(bytes@) is Some,
        r matches Some(t) ==> infer_type(bytes@) == Some((t.0@, t.1@, t.2)),
{
    infer::get(bytes).map(|t| (t.mime_type().to_owned(), t.extension().to_owned(), match t.matcher_type() {
        M::App => MagicKind::App, M::Archive => MagicKind::Archive, M::Audio => MagicKind::Audio,
        M::Book => MagicKind::Book, M::Doc => MagicKind::Doc, M::Font => MagicKind::Font,
        M::Image => MagicKind::Image, M::Text => MagicKind::Text, M::Video => MagicKind::Video,
        M::Custom => MagicKind::Custom,
    }))
}

/// The bytes inspected by the magic matcher: at most `DEFAULT_SNIFF_BYTES`.
pub open spec fn sniff_window(prefix: Seq<u8>) -> Seq<u8> {
    if prefix.len() <= DEFAULT_SNIFF_BYTES {
        prefix
    } else {
        prefix.take(DEFAULT_SNIFF_BYTES as int)
    }
}

/// The hint for a stream prefix and an optional filename.
pub open spec fn hint_spec(prefix: Seq<u8>, filename: Option<Seq<char>>, h: DetectionHint) -> bool {
    let named = match filename {
        Some(f) => extension_hint_text(f),
        None => None,
    };
    &&& opt_text(h.filename_extension) == named
    &&& match infer_type(sniff_window(prefix)) {
        Some((mime, ext, kind)) => {
            &&& opt_text(h.mime_type) == Some(mime)
            &&& opt_text(h.extension) == Some(ext)
            &&& opt_text(h.kind) == Some(magic_kind_name(kind))
        },
        None => {
            &&& h.mime_type is None
            &&& h.kind is None
            &&& opt_text(h.extension) == named
        },
    }
}

/// Produces the auxiliary magic/extension hint from a stream prefix: the
/// filename extension, overridden by what the magic matcher recognises in the
/// first `DEFAULT_SNIFF_BYTES` bytes.
pub fn hint_from_prefix(prefix: &[u8], filename_hint: Option<&str>) -> (r: DetectionHint)
    ensures
        hint_spec(prefix@, match filename_hint {
            Some(f) => Some(f@),
            None => None,
        }, r),
{
    let named = match filename_hint {
        Some(f) => extension_hint(f),
        None => None,
    };
    let window = if prefix.len() <= DEFAULT_SNIFF_BYTES {
        prefix
    } else {
        let w = vstd::slice::slice_subrange(prefix, 0, DEFAULT_SNIFF_BYTES);
        assert(w@ =~= prefix@.take(DEFAULT_SNIFF_BYTES as int));
        w
    };
    let mut hint = DetectionHint {
        extension: crate::entry::copy_opt_string(&named),
        filename_extension: named,
        mime_type: None,
        kind: None,
    };
    if let Some((mime, ext, kind)) = infer_get(window) {
        hint.mime_type = Some(mime);
        hint.extension = Some(ext);
        hint.kind = Some(magic_kind_text(kind));
    }
    hint
}

/// The method that produced a format candidate.
#[derive(Clone, Copy, Debug, PartialEq, Eq, Structural)]
pub enum DetectionMethod {
    /// The selected handler successfully opened the input.
    Provider,
    /// A handler signature matched the input bytes.
    Magic {
        /// Confidence from 0 to 100.
        confidence: u8,
    },
    /// A filename extension matched the descriptor.
    ExtensionHint,
}

/// One candidate returned by format detection.
#[derive(Debug, PartialEq, Eq)]
pub struct DetectionCandidate {
    /// Candidate descriptor.
    pub descriptor: FormatDescriptor,
    /// How it was identified.
    pub method: DetectionMethod,
}

impl View for DetectionCandidate {
    type V = (FormatDescriptorView, DetectionMethod);

    open spec fn view(&self) -> (FormatDescriptorView, DetectionMethod) {
        (self.descriptor@, self.method)
    }
}

impl Clone for DetectionCandidate {
    fn clone(&self) -> (r: Self)
        ensures
            r@ == self@,
    {
        DetectionCandidate { descriptor: self.descriptor.clone(), method: self.method }
    }
}

/// The outcome of format detection.
#[derive(Debug, PartialEq, Eq)]
pub enum DetectionResult {
    /// One best candidate.
    Detected(Box<DetectionCandidate>),
    /// Several candidates share the best score.
    Ambiguous(Vec<DetectionCandidate>),
    /// No candidate matched.
    Unknown,
}

/// The confidence of a detection method.
pub open spec fn method_confidence(m: DetectionMethod) -> int {
    match m {
        DetectionMethod::Provider => 200,
        DetectionMethod::Magic { confidence } => confidence as int,
        DetectionMethod::ExtensionHint => 0,
    }
}

/// The ordering key of a candidate: confidence first, then priority.
pub open spec fn rank_of(c: (FormatDescriptorView, DetectionMethod)) -> int {
    method_confidence(c.1) * 65536 + c.0.priority
}

/// The best rank among the candidates, or -1 when there is none.
pub open spec fn best_rank(cs: Seq<(FormatDescriptorView, DetectionMethod)>) -> int
    decreases cs.len(),
{
    if cs.len() == 0 {
        -1
    } else {
        let r = best_rank(cs.drop_last());
        if rank_of(cs.last()) > r {
            rank_of(cs.last())
        } else {
            r
        }
    }
}

/// The candidates of rank `best`, in their original order.
pub open spec fn ranked(cs: Seq<(FormatDescriptorView, DetectionMethod)>, best: int) -> Seq<(FormatDescriptorView, DetectionMethod)>
    decreases cs.len(),
{
    if cs.len() == 0 {
        seq![]
    } else {
        let t = ranked(cs.drop_last(), best);
        if rank_of(cs.last()) == best {
            t.push(cs.last())
        } else {
            t
        }
    }
}

/// The view of a detection outcome: the candidates it reports.
pub open spec fn result_view(r: DetectionResult) -> Seq<(FormatDescriptorView, DetectionMethod)> {
    match r {
        DetectionResult::Detected(c) => seq![c@],
        DetectionResult::Ambiguous(v) => v@.map_values(|c: DetectionCandidate| c@),
        DetectionResult::Unknown => seq![],
    }
}

/// `r` reports exactly the best-ranked candidates of `cs`, in order: one as
/// `Detected`, several as `Ambiguous`, none as `Unknown`.
pub open spec fn selects(cs: Seq<(FormatDescriptorView, DetectionMethod)>, r: DetectionResult) -> bool {
    let top = ranked(cs, best_rank(cs));
    &&& result_view(r) == top
    &&& (r is Detected <==> top.len() == 1)
    &&& (r is Unknown <==> top.len() == 0)
}

proof fn lemma_best_rank(cs: Seq<(FormatDescriptorView, DetectionMethod)>)
    ensures
        forall|i: int| 0 <= i < cs.len() ==> rank_of(#[trigger] cs[i]) <= best_rank(cs),
        cs.len() > 0 ==> ranked(cs, best_rank(cs)).len() > 0,
        cs.len() == 0 ==> ranked(cs, best_rank(cs)).len() == 0,
    decreases cs.len(),
{
    if cs.len() > 0 {
        let d = cs.drop_last();
        lemma_best_rank(d);
        assert forall|i: int| 0 <= i < cs.len() implies rank_of(#[trigger] cs[i]) <= best_rank(cs) by {
            if i < cs.len() - 1 {
                assert(cs[i] == d[i]);
            }
        }
        lemma_ranked_len(cs, best_rank(cs));
    }
}

proof fn lemma_ranked_len(cs: Seq<(FormatDescriptorView, DetectionMethod)>, b: int)
    requires
        cs.len() > 0,
        b == best_rank(cs),
    ensures
        ranked(cs, b).len() > 0,
    decreases cs.len(),
{
    let d = cs.drop_last();
    assert(rank_of(cs.last()) >= 0);
    if rank_of(cs.last()) != b {
        if d.len() == 0 {
            assert(best_rank(d) == -1);
        }
        lemma_ranked_len(d, b);
    }
}

fn rank_key(c: &DetectionCandidate) -> (r: u32)
    ensures
        r == rank_of(c@),
{
    let conf: u32 = match c.method {
        DetectionMethod::Provider => 200,
        DetectionMethod::Magic { confidence } => confidence as u32,
        DetectionMethod::ExtensionHint => 0,
    };
    conf * 65536 + c.descriptor.priority as u32
}

/// The ordering key of a candidate: its confidence and the handler priority.
pub fn candidate_rank(candidate: &DetectionCandidate) -> (r: (u8, u16))
    ensures
        r.0 == method_confidence(candidate.method),
        r.1 == candidate.descriptor.priority,
{
    let confidence: u8 = match candidate.method {
        DetectionMethod::Provider => 200,
        DetectionMethod::Magic { confidence } => confidence,
        DetectionMethod::ExtensionHint => 0,
    };
    (confidence, candidate.descriptor.priority)
}

/// Reduces candidates to those with the best rank, keeping their order.
pub fn select_candidates(candidates: Vec<DetectionCandidate>) -> (r: DetectionResult)
    requires
        candidates@.len() > 0,
    ensures
        selects(candidates@.map_values(|c: DetectionCandidate| c@), r),
{
    let ghost cs = candidates@.map_values(|c: DetectionCandidate| c@);
    let mut best: u32 = 0;
    let mut i: usize = 0;
    while i < candidates.len()
        invariant
            i <= candidates.len(),
            cs == candidates@.map_values(|c: DetectionCandidate| c@),
            i == 0 ==> best == 0,
            i > 0 ==> best == best_rank(cs.take(i as int)),
        decreases candidates.len() - i,
    {
        let k = rank_key(&candidates[i]);
        proof {
            assert(cs.take(i + 1).drop_last() =~= cs.take(i as int));
            assert(cs.take(i + 1).last() == candidates@[i as int]@);
            if i == 0 {
                assert(cs.take(0) =~= Seq::<(FormatDescriptorView, DetectionMethod)>::empty());
            }
        }
        let ghost old_best = best;
        if i == 0 || k > best {
            best = k;
        }
        proof {
            let t = cs.take(i + 1);
            assert(rank_of(t.last()) == k);
            assert(best_rank(t) == (if rank_of(t.last()) > best_rank(t.drop_last()) {
                rank_of(t.last())
            } else {
                best_rank(t.drop_last())
            }));
            if i == 0 {
                assert(best_rank(t.drop_last()) == -1);
            } else {
                assert(best_rank(t.drop_last()) == old_best);
            }
        }
        i = i + 1;
    }
    assert(cs.take(cs.len() as int) =~= cs);
    let mut top: Vec<DetectionCandidate> = Vec::new();
    let mut j: usize = 0;
    while j < candidates.len()
        invariant
            j <= candidates.len(),
            cs == candidates@.map_values(|c: DetectionCandidate| c@),
            best == best_rank(cs),
            top@.map_values(|c: DetectionCandidate| c@) == ranked(cs.take(j as int), best as int),
        decreases candidates.len() - j,
    {
        let k = rank_key(&candidates[j]);
        let ghost before = top@;
        proof {
            assert(cs.take(j + 1).drop_last() =~= cs.take(j as int));
            assert(cs.take(j + 1).last() == candidates@[j as int]@);
        }
        if k == best {
            top.push(candidates[j].clone());
            assert(top@.map_values(|c: DetectionCandidate| c@) =~= before.map_values(
                |c: DetectionCandidate| c@,
            ).push(candidates@[j as int]@));
        }
        j = j + 1;
    }
    proof {
        lemma_best_rank(cs);
        assert(cs.take(candidates@.len() as int) =~= cs);
    }
    if top.len() == 1 {
        let ghost tv = top@.map_values(|c: DetectionCandidate| c@);
        let c = top.remove(0);
        proof {
            assert(seq![c@] =~= tv);
        }
        DetectionResult::Detected(Box::new(c))
    } else {
        DetectionResult::Ambiguous(top)
    }
}


/// Joins strings with `sep` between neighbours.
pub fn join_texts(parts: &Vec<String>, sep: &str) -> (r: String)
    ensures
        r@ == join_parts(crate::text::views(parts@), sep@),
{
    let ghost all = crate::text::views(parts@);
    let mut out = String::new();
    let mut i: usize = 0;
    proof {
        assert(all.take(0) =~= Seq::<Seq<char>>::empty());
    }
    while i < parts.len()
        invariant
            i <= parts.len(),
            all == crate::text::views(parts@),
            out@ == join_parts(all.take(i as int), sep@),
        decreases parts.len() - i,
    {
        let ghost t = all.take(i as int + 1);
        proof {
            assert(t.drop_last() =~= all.take(i as int));
            assert(t.last() == parts@[i as int]@);
        }
        if i > 0 {
            crate::text::append_str(&mut out, sep);
        } else {
            assert(all.take(0) =~= Seq::<Seq<char>>::empty());
            assert(t.len() == 1);
            assert(out@ =~= Seq::<char>::empty());
        }
        crate::text::append_str(&mut out, parts[i].as_str());
        proof {
            if i == 0 {
                assert(out@ =~= t[0]);
            }
        }
        i = i + 1;
    }
    proof {
        assert(all.take(parts@.len() as int) =~= all);
    }
    out
}

} // verus!

verus! {

/// The bytes examined for signatures: at most `max` bytes of the input.
pub open spec fn probe_window(input: Seq<u8>, max: usize) -> Seq<u8> {
    if input.len() <= max {
        input
    } else {
        input.take(max as int)
    }
}

/// A signature (offset, bytes) occurs at its offset within `p`.
pub open spec fn signature_hits(sig: (u64, Seq<u8>), p: Seq<u8>) -> bool {
    let start = sig.0 as usize;
    let end = if start + sig.1.len() > usize::MAX { usize::MAX as int } else { start + sig.1.len() };
    end <= p.len() && p.subrange(start as int, end) == sig.1
}

/// Some signature of the descriptor occurs in `p`.
pub open spec fn magic_hit(d: FormatDescriptorView, p: Seq<u8>) -> bool {
    exists|i: int| 0 <= i < d.signatures.len() && signature_hits(#[trigger] d.signatures[i], p)
}

/// Descriptors whose signature occurs in `p`, in order, as magic candidates.
pub open spec fn magic_candidates(fs: Seq<FormatDescriptorView>, p: Seq<u8>) -> Seq<(FormatDescriptorView, DetectionMethod)>
    decreases fs.len(),
{
    if fs.len() == 0 {
        seq![]
    } else {
        let t = magic_candidates(fs.drop_last(), p);
        if magic_hit(fs.last(), p) {
            t.push((fs.last(), DetectionMethod::Magic { confidence: 100 }))
        } else {
            t
        }
    }
}

/// A descriptor's primary or additional extensions match the hint.
pub open spec fn extension_hit(d: FormatDescriptorView, hint: Seq<char>) -> bool {
    extensions_match(d.extensions, hint_key(hint)) || extensions_match(d.add_extensions, hint_key(hint))
}

/// Descriptors whose extensions match the hint, in order, as extension candidates.
pub open spec fn extension_candidates(fs: Seq<FormatDescriptorView>, hint: Seq<char>) -> Seq<(FormatDescriptorView, DetectionMethod)>
    decreases fs.len(),
{
    if fs.len() == 0 {
        seq![]
    } else {
        let t = extension_candidates(fs.drop_last(), hint);
        if extension_hit(fs.last(), hint) {
            t.push((fs.last(), DetectionMethod::ExtensionHint))
        } else {
            t
        }
    }
}

/// What detection reports for an input prefix and an optional filename hint:
/// signature matches win; the filename is consulted only when no signature
/// occurs in the probe window.
pub open spec fn detect_spec(
    fs: Seq<FormatDescriptorView>,
    max: usize,
    input: Seq<u8>,
    hint: Option<Seq<char>>,
    r: DetectionResult,
) -> bool {
    let m = magic_candidates(fs, probe_window(input, max));
    if m.len() > 0 {
        selects(m, r)
    } else {
        match hint {
            None => r is Unknown,
            Some(h) => selects(extension_candidates(fs, h), r),
        }
    }
}

/// A descriptor-based detector.
pub struct FormatDetector<'a> {
    formats: &'a [FormatDescriptor],
    max_probe_bytes: usize,
}

/// The default signature probe window in bytes.
pub const DEFAULT_PROBE_BYTES: usize = 65536;

fn signature_found(sig: &crate::format::Signature, p: &[u8]) -> (r: bool)
    ensures
        r == signature_hits(crate::format::signature_view(*sig), p@),
{
    #[verifier::truncate]
    let start = sig.offset as usize;
    let end = match start.checked_add(sig.bytes.len()) {
        Some(end) => end,
        None => {
            proof {
                assert(start + sig.bytes@.len() > usize::MAX);
                assert(start == sig.offset as usize);
                if usize::MAX <= p@.len() {
                    assert(p@.subrange(start as int, usize::MAX as int).len() < sig.bytes@.len());
                }
                assert(!signature_hits(crate::format::signature_view(*sig), p@));
            }
            return false;
        },
    };
    if end > p.len() {
        return false;
    }
    let mut i = start;
    while i < end
        invariant
            start <= i <= end <= p.len(),
            start == sig.offset as usize,
            end == start + sig.bytes@.len(),
            forall|j: int| start <= j < i ==> p@[j] == sig.bytes@[j - start],
        decreases end - i,
    {
        if p[i] != sig.bytes[i - start] {
            assert(p@.subrange(start as int, end as int)[i - start] != sig.bytes@[i - start]);
            return false;
        }
        i = i + 1;
    }
    assert(p@.subrange(start as int, end as int) =~= sig.bytes@);
    true
}

fn descriptor_hit(d: &FormatDescriptor, p: &[u8]) -> (r: bool)
    ensures
        r == magic_hit(d@, p@),
{
    let mut i: usize = 0;
    while i < d.signatures.len()
        invariant
            i <= d.signatures.len(),
            forall|j: int| 0 <= j < i ==> !signature_hits(#[trigger] d@.signatures[j], p@),
        decreases d.signatures.len() - i,
    {
        if signature_found(&d.signatures[i], p) {
            assert(signature_hits(d@.signatures[i as int], p@));
            return true;
        }
        i = i + 1;
    }
    false
}

impl<'a> FormatDetector<'a> {
    /// The descriptors this detector chooses from.
    pub closed spec fn formats_view(&self) -> Seq<FormatDescriptorView> {
        self.formats@.map_values(|d: FormatDescriptor| d@)
    }

    /// The signature probe window in bytes.
    pub closed spec fn probe_limit(&self) -> usize {
        self.max_probe_bytes
    }

    /// Creates a detector over a runtime descriptor slice.
    pub fn new(formats: &'a [FormatDescriptor]) -> (r: Self)
        ensures
            r.formats_view() == formats@.map_values(|d: FormatDescriptor| d@),
            r.probe_limit() == DEFAULT_PROBE_BYTES,
    {
        FormatDetector { formats, max_probe_bytes: DEFAULT_PROBE_BYTES }
    }

    /// Sets the bounded probe window, at least one byte.
    pub fn with_max_probe_bytes(self, bytes: usize) -> (r: Self)
        ensures
            r.formats_view() == self.formats_view(),
            r.probe_limit() == if bytes < 1 { 1 } else { bytes },
    {
        FormatDetector { formats: self.formats, max_probe_bytes: if bytes < 1 { 1 } else { bytes } }
    }

    /// The signature probe window in bytes.
    pub fn max_probe_bytes(&self) -> (r: usize)
        ensures
            r == self.probe_limit(),
    {
        self.max_probe_bytes
    }

    fn magic_list(&self, p: &[u8]) -> (r: Vec<DetectionCandidate>)
        ensures
            r@.map_values(|c: DetectionCandidate| c@) == magic_candidates(self.formats_view(), p@),
    {
        let mut out: Vec<DetectionCandidate> = Vec::new();
        let mut i: usize = 0;
        let ghost fs = self.formats_view();
        while i < self.formats.len()
            invariant
                i <= self.formats.len(),
                fs == self.formats_view(),
                fs.len() == self.formats@.len(),
                out@.map_values(|c: DetectionCandidate| c@) == magic_candidates(fs.take(i as int), p@),
            decreases self.formats.len() - i,
        {
            proof {
                assert(fs.take(i + 1).drop_last() =~= fs.take(i as int));
                assert(fs.take(i + 1).last() == self.formats@[i as int]@);
            }
            let ghost before = out@;
            if descriptor_hit(&self.formats[i], p) {
                out.push(DetectionCandidate {
                    descriptor: self.formats[i].clone(),
                    method: DetectionMethod::Magic { confidence: 100 },
                });
                assert(out@.map_values(|c: DetectionCandidate| c@) =~= before.map_values(
                    |c: DetectionCandidate| c@,
                ).push((self.formats@[i as int]@, DetectionMethod::Magic { confidence: 100 })));
            }
            i = i + 1;
        }
        assert(fs.take(fs.len() as int) =~= fs);
        out
    }

    fn extension_list(&self, hint: &str) -> (r: Vec<DetectionCandidate>)
        ensures
            r@.map_values(|c: DetectionCandidate| c@) == extension_candidates(self.formats_view(), hint@),
    {
        let mut out: Vec<DetectionCandidate> = Vec::new();
        let mut i: usize = 0;
        let ghost fs = self.formats_view();
        while i < self.formats.len()
            invariant
                i <= self.formats.len(),
                fs == self.formats_view(),
                fs.len() == self.formats@.len(),
                out@.map_values(|c: DetectionCandidate| c@) == extension_candidates(fs.take(i as int), hint@),
            decreases self.formats.len() - i,
        {
            proof {
                assert(fs.take(i + 1).drop_last() =~= fs.take(i as int));
                assert(fs.take(i + 1).last() == self.formats@[i as int]@);
            }
            let ghost before = out@;
            if self.formats[i].matches_extension(hint) {
                out.push(DetectionCandidate {
                    descriptor: self.formats[i].clone(),
                    method: DetectionMethod::ExtensionHint,
                });
                assert(out@.map_values(|c: DetectionCandidate| c@) =~= before.map_values(
                    |c: DetectionCandidate| c@,
                ).push((self.formats@[i as int]@, DetectionMethod::ExtensionHint)));
            }
            i = i + 1;
        }
        assert(fs.take(fs.len() as int) =~= fs);
        out
    }

    /// Detects a format from the bytes at the start of the input and an optional
    /// filename hint. Only the first `max_probe_bytes` bytes are examined.
    pub fn detect(&self, input: &[u8], hint: Option<&str>) -> (r: DetectionResult)
        ensures
            detect_spec(self.formats_view(), self.probe_limit(), input@, match hint {
                Some(h) => Some(h@),
                None => None,
            }, r),
    {
        let window = if input.len() <= self.max_probe_bytes {
            input
        } else {
            let w = vstd::slice::slice_subrange(input, 0, self.max_probe_bytes);
            assert(w@ =~= input@.take(self.max_probe_bytes as int));
            w
        };
        let magic = self.magic_list(window);
        if magic.len() > 0 {
            return select_candidates(magic);
        }
        match hint {
            None => DetectionResult::Unknown,
            Some(h) => {
                let by_extension = self.extension_list(h);
                if by_extension.len() == 0 {
                    proof {
                        lemma_best_rank(by_extension@.map_values(|c: DetectionCandidate| c@));
                    }
                    DetectionResult::Unknown
                } else {
                    select_candidates(by_extension)
                }
            },
        }
    }

    /// Detects from an already prepared hint without reading a stream: the
    /// descriptors whose extensions match the hint's extension.
    pub fn detect_hint(&self, hint: &DetectionHint) -> (r: DetectionResult)
        ensures
            match hint.extension {
                None => r is Unknown,
                Some(e) => selects(extension_candidates(self.formats_view(), e@), r),
            },
    {
        match &hint.extension {
            None => DetectionResult::Unknown,
            Some(e) => {
                let by_extension = self.extension_list(e.as_str());
                if by_extension.len() == 0 {
                    proof {
                        lemma_best_rank(by_extension@.map_values(|c: DetectionCandidate| c@));
                    }
                    DetectionResult::Unknown
                } else {
                    select_candidates(by_extension)
                }
            },
        }
    }
}

} // verus!

verus! {

proof fn lemma_magic_methods(fs: Seq<FormatDescriptorView>, p: Seq<u8>)
    ensures
        forall|i: int| 0 <= i < magic_candidates(fs, p).len() ==> (#[trigger] magic_candidates(fs, p)[i]).1 is Magic,
    decreases fs.len(),
{
    if fs.len() > 0 {
        lemma_magic_methods(fs.drop_last(), p);
    }
}

proof fn lemma_ranked_from(cs: Seq<(FormatDescriptorView, DetectionMethod)>, best: int)
    ensures
        forall|i: int| 0 <= i < ranked(cs, best).len() ==> cs.contains(#[trigger] ranked(cs, best)[i]),
        forall|i: int| 0 <= i < ranked(cs, best).len() ==> rank_of(#[trigger] ranked(cs, best)[i]) == best,
    decreases cs.len(),
{
    if cs.len() > 0 {
        let d = cs.drop_last();
        lemma_ranked_from(d, best);
        assert forall|i: int| 0 <= i < ranked(cs, best).len() implies cs.contains(#[trigger] ranked(cs, best)[i]) by {
            if i < ranked(d, best).len() {
                let x = ranked(d, best)[i];
                assert(d.contains(x));
                let k = choose|k: int| 0 <= k < d.len() && d[k] == x;
                assert(cs[k] == x);
            } else {
                assert(cs[cs.len() - 1] == cs.last());
            }
        }
    }
}

/// A signature found in the probe window decides detection: every
/// candidate reported then was found by its signature, none by the filename.
pub proof fn law_signatures_take_precedence(
    fs: Seq<FormatDescriptorView>,
    max: usize,
    input: Seq<u8>,
    hint: Option<Seq<char>>,
    r: DetectionResult,
)
    requires
        detect_spec(fs, max, input, hint, r),
        magic_candidates(fs, probe_window(input, max)).len() > 0,
    ensures
        forall|i: int| 0 <= i < result_view(r).len() ==> (#[trigger] result_view(r)[i]).1 is Magic,
{
    let m = magic_candidates(fs, probe_window(input, max));
    lemma_magic_methods(fs, probe_window(input, max));
    lemma_ranked_from(m, best_rank(m));
    assert forall|i: int| 0 <= i < result_view(r).len() implies (#[trigger] result_view(r)[i]).1 is Magic by {
        let x = result_view(r)[i];
        assert(m.contains(x));
        let k = choose|k: int| 0 <= k < m.len() && m[k] == x;
        assert(m[k].1 is Magic);
    }
}

/// Every candidate reported by detection has the best rank among those
/// considered, so an ambiguous result is a tie.
pub proof fn law_reported_candidates_tie(cs: Seq<(FormatDescriptorView, DetectionMethod)>, r: DetectionResult)
    requires
        selects(cs, r),
    ensures
        forall|i: int| 0 <= i < result_view(r).len() ==> rank_of(#[trigger] result_view(r)[i]) == best_rank(cs),
        forall|i: int| 0 <= i < cs.len() ==> rank_of(#[trigger] cs[i]) <= best_rank(cs),
{
    lemma_ranked_from(cs, best_rank(cs));
    lemma_best_rank(cs);
}

proof fn lemma_ranked_has_all(cs: Seq<(FormatDescriptorView, DetectionMethod)>, best: int, k: int)
    requires
        0 <= k < cs.len(),
        rank_of(cs[k]) == best,
    ensures
        ranked(cs, best).contains(cs[k]),
    decreases cs.len(),
{
    let d = cs.drop_last();
    if k == cs.len() - 1 {
        let t = ranked(d, best);
        assert(ranked(cs, best) == t.push(cs.last()));
        assert(ranked(cs, best)[t.len() as int] == cs[k]);
    } else {
        assert(d[k] == cs[k]);
        lemma_ranked_has_all(d, best, k);
        let t = ranked(d, best);
        let j = choose|j: int| 0 <= j < t.len() && t[j] == cs[k];
        if rank_of(cs.last()) == best {
            assert(ranked(cs, best)[j] == t.push(cs.last())[j]);
        }
        assert(ranked(cs, best)[j] == cs[k]);
    }
}

proof fn lemma_rank_order(a: int, pa: int, b: int, pb: int)
    requires
        0 <= a,
        0 <= b,
        0 <= pa < 65536,
        0 <= pb < 65536,
    ensures
        a * 65536 + pa >= b * 65536 + pb <==> (a > b || (a == b && pa >= pb)),
        a * 65536 + pa == b * 65536 + pb <==> (a == b && pa == pb),
{
    if a > b {
        assert(a * 65536 >= b * 65536 + 65536) by (nonlinear_arith)
            requires a > b;
    } else if a < b {
        assert(b * 65536 >= a * 65536 + 65536) by (nonlinear_arith)
            requires a < b;
    }
}

/// Detection reports the candidates with the highest confidence and, among
/// those, the highest handler priority: every reported candidate is at
/// least as confident as any candidate considered, at least as high in
/// priority as any candidate of equal confidence, and every candidate with
/// the same confidence and priority as a reported one is reported too.
pub proof fn law_detection_prefers_confidence_then_priority(
    cs: Seq<(FormatDescriptorView, DetectionMethod)>,
    r: DetectionResult,
)
    requires
        selects(cs, r),
    ensures
        forall|i: int, j: int| 0 <= i < result_view(r).len() && 0 <= j < cs.len() ==> {
            let x = #[trigger] result_view(r)[i];
            let c = #[trigger] cs[j];
            method_confidence(x.1) > method_confidence(c.1)
                || (method_confidence(x.1) == method_confidence(c.1) && x.0.priority >= c.0.priority)
        },
        forall|i: int, j: int| 0 <= i < result_view(r).len() && 0 <= j < cs.len()
            && method_confidence((#[trigger] result_view(r)[i]).1) == method_confidence((#[trigger] cs[j]).1)
            && result_view(r)[i].0.priority == cs[j].0.priority ==> result_view(r).contains(cs[j]),
{
    lemma_ranked_from(cs, best_rank(cs));
    lemma_best_rank(cs);
    assert forall|m: DetectionMethod| method_confidence(m) >= 0 by {}
    assert forall|i: int, j: int| 0 <= i < result_view(r).len() && 0 <= j < cs.len() implies {
        let x = #[trigger] result_view(r)[i];
        let c = #[trigger] cs[j];
        method_confidence(x.1) > method_confidence(c.1)
            || (method_confidence(x.1) == method_confidence(c.1) && x.0.priority >= c.0.priority)
    } by {
        let x = result_view(r)[i];
        let c = cs[j];
        assert(rank_of(x) >= rank_of(c));
        lemma_rank_order(method_confidence(x.1), x.0.priority as int, method_confidence(c.1), c.0.priority as int);
    }
    assert forall|i: int, j: int| 0 <= i < result_view(r).len() && 0 <= j < cs.len()
        && method_confidence((#[trigger] result_view(r)[i]).1) == method_confidence((#[trigger] cs[j]).1)
        && result_view(r)[i].0.priority == cs[j].0.priority implies result_view(r).contains(cs[j]) by {
        let x = result_view(r)[i];
        assert(rank_of(x) == best_rank(cs));
        assert(rank_of(cs[j]) == rank_of(x));
        lemma_ranked_has_all(cs, best_rank(cs), j);
    }
}

/// Bytes past the probe window never change what detection reports.
pub proof fn law_only_probe_window_matters(
    fs: Seq<FormatDescriptorView>,
    max: usize,
    a: Seq<u8>,
    b: Seq<u8>,
    hint: Option<Seq<char>>,
    r: DetectionResult,
)
    requires
        probe_window(a, max) == probe_window(b, max),
    ensures
        detect_spec(fs, max, a, hint, r) == detect_spec(fs, max, b, hint, r),
{
}

} // verus!
