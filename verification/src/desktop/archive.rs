//! Archive data projected for the desktop workspace.

use std::hash::{Hash, Hasher};

use vstd::prelude::*;

use crate::backend::{EntryOutcome, EntrySink, EntrySinkDecision};
use crate::entry::{ArchiveEntry, EntryId, EntryName};
use crate::native::metadata::hex_digit;
use crate::error::ArchiveError;
use crate::format::{ArchiveFormatId, CompressionMethod, FormatCapability, FormatDescriptor};
use crate::io::VolumeProvider;
use crate::native::decoder::ArchiveEngine;
use crate::operation::OperationContext;
use crate::password::PasswordProvider;
use crate::progress::ProgressReporter;
use crate::text::{
    chars_of, has_prefix, is_text, lemma_views_push, owned, string_of, trim_start_char, trim_start_chars, views,
};

verus! {

/// Metadata loaded from one archive.
#[derive(Debug)]
pub struct LoadedArchive {
    /// Host path of the archive.
    pub path: String,
    /// All archive entries in provider order.
    pub entries: Vec<ArchiveEntry>,
}

/// A writable handler exposed to archive-creation controls.
#[derive(Debug, PartialEq, Eq)]
pub struct FormatOption {
    /// Handler identifier.
    pub id: ArchiveFormatId,
    /// Provider display name.
    pub name: String,
    /// Preferred filename extension.
    pub extension: String,
    /// Writable compression methods.
    pub methods: Vec<String>,
}

/// `name` is `parent` or lies below it, at a `/` boundary.
pub open spec fn is_same_or_descendant(name: Seq<char>, parent: Seq<char>) -> bool {
    name == parent || (has_prefix(name, parent) && name.len() > parent.len() && name[parent.len() as int] == '/')
}

/// Whether `name` is `parent` or one of its descendants.
pub fn same_or_descendant(name: &str, parent: &str) -> (r: bool)
    ensures
        r == is_same_or_descendant(name@, parent@),
{
    let n = chars_of(name);
    let p = chars_of(parent);
    if crate::text::chars_eq(&n, &p) {
        return true;
    }
    crate::text::starts_with(&n, &p) && n.len() > p.len() && n[p.len()] == '/'
}

/// A name is extracted when nothing was selected, or when it lies on the
/// path of a selected name: the same, an ancestor, or a descendant.
pub open spec fn selection_covers(selected: Seq<Seq<char>>, name: Seq<char>) -> bool {
    selected.len() == 0 || exists|k: int|
        0 <= k < selected.len() && (is_same_or_descendant(name, #[trigger] selected[k]) || is_same_or_descendant(
            selected[k],
            name,
        ))
}

/// Whether a selection covers `name`.
pub fn selection_includes(selected: &Vec<String>, name: &str) -> (r: bool)
    ensures
        r == selection_covers(views(selected@), name@),
{
    if selected.len() == 0 {
        return true;
    }
    let mut i: usize = 0;
    while i < selected.len()
        invariant
            i <= selected.len(),
            forall|k: int| 0 <= k < i ==> !(is_same_or_descendant(name@, #[trigger] views(selected@)[k]) || is_same_or_descendant(
                views(selected@)[k],
                name@,
            )),
        decreases selected.len() - i,
    {
        let s = selected[i].as_str();
        assert(views(selected@)[i as int] == s@);
        if same_or_descendant(name, s) || same_or_descendant(s, name) {
            return true;
        }
        i = i + 1;
    }
    false
}

/// An extraction sink that passes only selected entries to `inner`.
pub struct SelectionSink<S> {
    /// The sink that receives selected entries.
    pub inner: S,
    /// Selected names; empty selects everything.
    pub selected: Vec<String>,
}

impl<S: EntrySink> SelectionSink<S> {
    /// Selects `selected` names for `inner`.
    pub fn new(inner: S, selected: Vec<String>) -> (r: Self)
        ensures
            r.inner == inner,
            r.selected@ == selected@,
    {
        SelectionSink { inner, selected }
    }

    /// Whether the selection covers `name`.
    pub fn includes(&self, name: &str) -> (r: bool)
        ensures
            r == selection_covers(views(self.selected@), name@),
    {
        selection_includes(&self.selected, name)
    }
}

impl<S: EntrySink> EntrySink for SelectionSink<S> {
    type Writer = S::Writer;

    fn begin<R: ProgressReporter, P: PasswordProvider, V: VolumeProvider>(
        &mut self,
        entry: &ArchiveEntry,
        context: &OperationContext<R, P, V>,
    ) -> (r: Result<EntrySinkDecision<S::Writer>, ArchiveError>)
        ensures
            !selection_covers(views(old(self).selected@), entry.name@) ==> (r matches Ok(EntrySinkDecision::Skip)
                && *final(self) == *old(self)),
            final(self).selected == old(self).selected,
    {
        if self.includes(entry.name.as_str()) {
            self.inner.begin(entry, context)
        } else {
            Ok(EntrySinkDecision::Skip)
        }
    }

    fn finish<R: ProgressReporter, P: PasswordProvider, V: VolumeProvider>(
        &mut self,
        entry: &ArchiveEntry,
        outcome: EntryOutcome,
        context: &OperationContext<R, P, V>,
    ) -> (r: Result<(), ArchiveError>)
        ensures
            final(self).selected == old(self).selected,
    {
        self.inner.finish(entry, outcome, context)
    }
}

/// Lexicographic order of character sequences, as `String`'s order.
pub open spec fn text_lt(a: Seq<char>, b: Seq<char>) -> bool
    decreases a.len(),
{
    if a.len() == 0 {
        b.len() > 0
    } else if b.len() == 0 {
        false
    } else if a[0] != b[0] {
        a[0] < b[0]
    } else {
        text_lt(a.drop_first(), b.drop_first())
    }
}

pub(crate) proof fn lemma_text_lt_transitive(a: Seq<char>, b: Seq<char>, c: Seq<char>)
    requires
        text_lt(a, b),
        text_lt(b, c),
    ensures
        text_lt(a, c),
    decreases a.len(),
{
    if a.len() > 0 && b.len() > 0 && c.len() > 0 && a[0] == b[0] && b[0] == c[0] {
        lemma_text_lt_transitive(a.drop_first(), b.drop_first(), c.drop_first());
    }
}

pub(crate) proof fn lemma_text_lt_irreflexive(a: Seq<char>)
    ensures
        !text_lt(a, a),
    decreases a.len(),
{
    if a.len() > 0 {
        lemma_text_lt_irreflexive(a.drop_first());
    }
}

pub(crate) proof fn lemma_text_lt_asymmetric(a: Seq<char>, b: Seq<char>)
    requires
        text_lt(a, b),
    ensures
        !text_lt(b, a),
{
    if text_lt(b, a) {
        lemma_text_lt_transitive(a, b, a);
        lemma_text_lt_irreflexive(a);
    }
}

pub(crate) proof fn lemma_text_lt_total(a: Seq<char>, b: Seq<char>)
    ensures
        text_lt(a, b) || text_lt(b, a) || a == b,
    decreases a.len(),
{
    if a.len() > 0 && b.len() > 0 && a[0] == b[0] {
        lemma_text_lt_total(a.drop_first(), b.drop_first());
        if a.drop_first() == b.drop_first() {
            assert(a =~= seq![a[0]] + a.drop_first());
            assert(b =~= seq![b[0]] + b.drop_first());
        }
    } else if a.len() == 0 && b.len() == 0 {
        assert(a =~= b);
    }
}

/// Whether `a` sorts before `b`.
pub fn text_less(a: &str, b: &str) -> (r: bool)
    ensures
        r == text_lt(a@, b@),
{
    let x = chars_of(a);
    let y = chars_of(b);
    let mut i: usize = 0;
    assert(x@.subrange(0, x@.len() as int) =~= x@);
    assert(y@.subrange(0, y@.len() as int) =~= y@);
    while i < x.len() && i < y.len() && x[i] == y[i]
        invariant
            i <= x.len(),
            i <= y.len(),
            text_lt(x@, y@) == text_lt(x@.subrange(i as int, x@.len() as int), y@.subrange(i as int, y@.len() as int)),
        decreases x.len() - i,
    {
        let ghost xs = x@.subrange(i as int, x@.len() as int);
        let ghost ys = y@.subrange(i as int, y@.len() as int);
        assert(xs.drop_first() =~= x@.subrange(i as int + 1, x@.len() as int));
        assert(ys.drop_first() =~= y@.subrange(i as int + 1, y@.len() as int));
        i = i + 1;
    }
    let ghost xs = x@.subrange(i as int, x@.len() as int);
    let ghost ys = y@.subrange(i as int, y@.len() as int);
    if i == x.len() {
        i < y.len()
    } else if i == y.len() {
        false
    } else {
        assert(xs[0] == x@[i as int] && ys[0] == y@[i as int]);
        x[i] < y[i]
    }
}

/// Options sorted by identifier, equal identifiers in any order.
pub open spec fn sorted_by_id(v: Seq<FormatOption>) -> bool {
    forall|a: int, b: int| 0 <= a < b < v.len() ==> !text_lt(#[trigger] v[b].id@, #[trigger] v[a].id@)
}

/// The position at which `x` joins `s`: before the first option whose
/// identifier sorts after `x`'s, else at the end.
pub open spec fn insertion_point(s: Seq<FormatOption>, x: FormatOption) -> int
    decreases s.len(),
{
    if s.len() == 0 {
        0
    } else if text_lt(x.id@, s[0].id@) {
        0
    } else {
        1 + insertion_point(s.drop_first(), x)
    }
}

/// The stable sort of `v` by identifier: each option, in input order, goes
/// after every option already placed whose identifier does not sort after it.
pub open spec fn stable_sort_by_id(v: Seq<FormatOption>) -> Seq<FormatOption>
    decreases v.len(),
{
    if v.len() == 0 {
        Seq::empty()
    } else {
        let rest = stable_sort_by_id(v.drop_last());
        rest.insert(insertion_point(rest, v.last()), v.last())
    }
}

proof fn lemma_insertion_point(s: Seq<FormatOption>, x: FormatOption, p: int)
    requires
        0 <= p <= s.len(),
        forall|k: int| 0 <= k < p ==> !text_lt(x.id@, #[trigger] s[k].id@),
        p == s.len() || text_lt(x.id@, s[p].id@),
    ensures
        insertion_point(s, x) == p,
    decreases p,
{
    if p > 0 {
        assert(!text_lt(x.id@, s[0].id@));
        assert forall|k: int| 0 <= k < p - 1 implies !text_lt(x.id@, #[trigger] s.drop_first()[k].id@) by {
            assert(s.drop_first()[k] == s[k + 1]);
        }
        if p < s.len() {
            assert(s.drop_first()[p - 1] == s[p]);
        }
        lemma_insertion_point(s.drop_first(), x, p - 1);
    }
}

/// Sorts options by identifier, keeping equal identifiers in order.
pub fn sort_by_id(v: Vec<FormatOption>) -> (r: Vec<FormatOption>)
    ensures
        r@ == stable_sort_by_id(v@),
        sorted_by_id(r@),
        r@.to_multiset() == v@.to_multiset(),
{
    broadcast use vstd::seq_lib::group_to_multiset_ensures, vstd::multiset::group_multiset_axioms;
    let mut input = v;
    let mut out: Vec<FormatOption> = Vec::new();
    let ghost original = input@;
    proof {
        vstd::multiset::lemma_multiset_empty_len(out@.to_multiset());
        assert(out@.to_multiset() =~= vstd::multiset::Multiset::empty());
        assert(input@.to_multiset() =~= out@.to_multiset().add(input@.to_multiset()));
    }
    let ghost mut done: int = 0;
    while input.len() > 0
        invariant
            sorted_by_id(out@),
            original.to_multiset() == out@.to_multiset().add(input@.to_multiset()),
            0 <= done <= original.len(),
            input@ == original.subrange(done, original.len() as int),
            out@ == stable_sort_by_id(original.subrange(0, done)),
        decreases input.len(),
    {
        let ghost before_in = input@;
        let x = input.remove(0);
        let mut p: usize = 0;
        while p < out.len() && !text_less(x.id.as_str(), out[p].id.as_str())
            invariant
                p <= out.len(),
                forall|k: int| 0 <= k < p ==> !text_lt(x.id@, #[trigger] out@[k].id@),
            decreases out.len() - p,
        {
            p = p + 1;
        }
        let ghost before = out@;
        out.insert(p, x);
        proof {
            lemma_insertion_point(before, x, p as int);
            let taken = original.subrange(0, done + 1);
            assert(before_in[0] == original[done]);
            assert(taken.drop_last() =~= original.subrange(0, done));
            assert(taken.last() == x);
            done = done + 1;
            assert(input@ =~= original.subrange(done, original.len() as int));
        }
        proof {
            vstd::seq_lib::to_multiset_remove(before_in, 0);
            vstd::seq_lib::to_multiset_insert(before, p as int, x);
            assert(input@ == before_in.remove(0));
            assert(out@ == before.insert(p as int, x));
            vstd::seq_lib::to_multiset_contains(before_in, x);
            assert(before_in[0] == x);
            assert(before_in.contains(x));
            assert(before_in.to_multiset().count(x) > 0);
            assert(original.to_multiset() =~= out@.to_multiset().add(input@.to_multiset()));
            assert forall|a: int, b: int| 0 <= a < b < out@.len() implies !text_lt(#[trigger] out@[b].id@, #[trigger] out@[a].id@) by {
                if b < p {
                    assert(out@[a] == before[a] && out@[b] == before[b]);
                } else if b == p {
                    assert(out@[a] == before[a]);
                } else if a == p {
                    assert(out@[b] == before[b - 1]);
                    assert(out@[a] == x);
                    assert(text_lt(x.id@, before[p as int].id@));
                    if b - 1 > p {
                        if text_lt(before[b - 1].id@, x.id@) {
                            lemma_text_lt_transitive(before[b - 1].id@, x.id@, before[p as int].id@);
                        }
                    } else {
                        lemma_text_lt_asymmetric(x.id@, before[p as int].id@);
                    }
                } else if a < p {
                    assert(out@[a] == before[a] && out@[b] == before[b - 1]);
                } else {
                    assert(out@[a] == before[a - 1] && out@[b] == before[b - 1]);
                }
            }
        }
    }
    proof {
        vstd::multiset::lemma_multiset_empty_len(input@.to_multiset());
        assert(input@.to_multiset() =~= vstd::multiset::Multiset::empty());
        assert(out@.to_multiset().add(input@.to_multiset()) =~= out@.to_multiset());
        assert(original.subrange(0, done) =~= original);
    }
    out
}

/// The extension shown for a handler: the first of its extensions, then its
/// additional extensions, with leading dots removed, that is neither empty
/// nor "*"; else the identifier.
pub open spec fn preferred_extension(d: FormatDescriptor) -> Seq<char> {
    let all = views(d.extensions@ + d.add_extensions@);
    let usable = |e: Seq<char>| trim_start_char(e, '.').len() > 0 && trim_start_char(e, '.') != "*"@;
    if exists|k: int| 0 <= k < all.len() && usable(#[trigger] all[k]) {
        let k = choose|k: int| 0 <= k < all.len() && usable(#[trigger] all[k]) && forall|j: int| 0 <= j < k ==> !usable(#[trigger] all[j]);
        trim_start_char(all[k], '.')
    } else {
        d.id@
    }
}

/// The encodable methods' identifiers, in order.
pub open spec fn encodable_ids(methods: Seq<CompressionMethod>) -> Seq<Seq<char>>
    decreases methods.len(),
{
    if methods.len() == 0 {
        seq![]
    } else if methods.last().can_encode {
        encodable_ids(methods.drop_last()).push(methods.last().id@)
    } else {
        encodable_ids(methods.drop_last())
    }
}

/// `o` is the option shown for handler `d`.
pub open spec fn option_of(d: FormatDescriptor, o: FormatOption) -> bool {
    &&& o.id@ == d.id@
    &&& o.name@ == d.name@
    &&& o.extension@ == preferred_extension(d)
    &&& views(o.methods@) == encodable_ids(d.methods@)
}

fn first_usable_extension(d: &FormatDescriptor) -> (r: String)
    ensures
        r@ == preferred_extension(*d),
{
    let ghost all = views(d.extensions@ + d.add_extensions@);
    let ghost usable = |e: Seq<char>| trim_start_char(e, '.').len() > 0 && trim_start_char(e, '.') != "*"@;
    let n1 = d.extensions.len();
    let mut i: usize = 0;
    while i < n1
        invariant
            i <= n1,
            n1 == d.extensions@.len(),
            all == views(d.extensions@ + d.add_extensions@),
            usable == (|e: Seq<char>| trim_start_char(e, '.').len() > 0 && trim_start_char(e, '.') != "*"@),
            forall|j: int| 0 <= j < i ==> !usable(#[trigger] all[j]),
        decreases n1 - i,
    {
        let e: &str = d.extensions[i].as_str();
        assert(all[i as int] == e@);
        let trimmed = trim_start_chars(&chars_of(e), '.');
        if trimmed.len() > 0 && !is_text(&trimmed, "*") {
            assert(usable(all[i as int]));
            return string_of(&trimmed);
        }
        i = i + 1;
    }
    let n2 = d.add_extensions.len();
    let mut k: usize = 0;
    while k < n2
        invariant
            k <= n2,
            n1 == d.extensions@.len(),
            n2 == d.add_extensions@.len(),
            all == views(d.extensions@ + d.add_extensions@),
            usable == (|e: Seq<char>| trim_start_char(e, '.').len() > 0 && trim_start_char(e, '.') != "*"@),
            forall|j: int| 0 <= j < n1 + k ==> !usable(#[trigger] all[j]),
        decreases n2 - k,
    {
        let e: &str = d.add_extensions[k].as_str();
        assert(all[n1 + k] == e@);
        let trimmed = trim_start_chars(&chars_of(e), '.');
        if trimmed.len() > 0 && !is_text(&trimmed, "*") {
            assert(usable(all[n1 + k]));
            return string_of(&trimmed);
        }
        k = k + 1;
    }
    owned(d.id.as_str())
}

fn encodable_method_ids(methods: &Vec<CompressionMethod>) -> (r: Vec<String>)
    ensures
        views(r@) == encodable_ids(methods@),
{
    let mut out: Vec<String> = Vec::new();
    let mut i: usize = 0;
    while i < methods.len()
        invariant
            i <= methods.len(),
            views(out@) == encodable_ids(methods@.take(i as int)),
        decreases methods.len() - i,
    {
        proof {
            assert(methods@.take(i as int + 1).drop_last() =~= methods@.take(i as int));
        }
        if methods[i].can_encode {
            let id = methods[i].id.clone();
            proof {
                lemma_views_push(out@, id);
            }
            out.push(id);
        }
        i = i + 1;
    }
    assert(methods@.take(methods@.len() as int) =~= methods@);
    out
}

/// The handlers that can create archives, in order.
pub open spec fn creatable(formats: Seq<FormatDescriptor>) -> Seq<FormatDescriptor>
    decreases formats.len(),
{
    if formats.len() == 0 {
        seq![]
    } else if formats.last().capabilities@.contains(FormatCapability::Create) {
        creatable(formats.drop_last()).push(formats.last())
    } else {
        creatable(formats.drop_last())
    }
}

/// The options of the writable handlers, in handler order.
pub open spec fn writable_options(formats: Seq<FormatDescriptor>, options: Seq<FormatOption>) -> bool {
    let picked = creatable(formats);
    picked.len() == options.len() && forall|k: int| 0 <= k < options.len() ==> option_of(picked[k], #[trigger] options[k])
}

/// The archive-creation choices of an engine: one option per writable
/// handler, sorted by identifier.
pub fn creation_formats(engine: &ArchiveEngine) -> (r: Vec<FormatOption>)
    ensures
        sorted_by_id(r@),
        exists|options: Seq<FormatOption>| writable_options(engine.formats_view(), options) && r@.to_multiset() == options.to_multiset(),
{
    let formats = engine.formats();
    let mut options: Vec<FormatOption> = Vec::new();
    let ghost mut picked: Seq<FormatDescriptor> = Seq::empty();
    let mut i: usize = 0;
    while i < formats.len()
        invariant
            i <= formats.len(),
            formats@ == engine.formats_view(),
            picked == creatable(formats@.take(i as int)),
            picked.len() == options@.len(),
            forall|k: int| 0 <= k < options@.len() ==> option_of(picked[k], #[trigger] options@[k]),
        decreases formats.len() - i,
    {
        let d = &formats[i];
        proof {
            let t = formats@.take(i as int + 1);
            assert(t.drop_last() =~= formats@.take(i as int));
        }
        if d.supports(FormatCapability::Create) {
            let option = FormatOption {
                id: d.id.clone(),
                name: d.name.clone(),
                extension: first_usable_extension(d),
                methods: encodable_method_ids(&d.methods),
            };
            proof {
                picked = picked.push(*d);
            }
            options.push(option);
        }
        i = i + 1;
    }
    proof {
        assert(formats@.take(formats@.len() as int) =~= formats@);
        assert(writable_options(engine.formats_view(), options@));
    }
    let ghost unsorted = options@;
    let sorted = sort_by_id(options);
    sorted
}


/// Lower-case hexadecimal digits of `n`, without leading zeros.
pub open spec fn hex_of(n: nat) -> Seq<char>
    decreases n,
{
    if n < 16 {
        seq![hex_digit(n)]
    } else {
        hex_of(n / 16).push(hex_digit(n % 16))
    }
}

fn push_hex(s: &mut String, n: u64)
    ensures
        final(s)@ == old(s)@ + hex_of(n as nat),
    decreases n,
{
    if n >= 16 {
        push_hex(s, n / 16);
    }
    let d = (n % 16) as u8;
    let c = if d < 10 { ((48u8 + d) as char) } else { ((87u8 + d) as char) };
    crate::text::push_char(s, c);
    proof {
        if n < 16 {
            assert(hex_of(n as nat) =~= seq![hex_digit(n as nat)]);
        }
    }
}

/// A hash of an entry's number and name text, as `DefaultHasher` fed with
/// both (the same bytes the derived hashes of `EntryId` and `EntryName`
/// feed) and finished. The hashing algorithm is not specified by the
/// standard library and may change between releases: nothing is stated.
#[verifier::external_body]
fn entry_hash(id: u64, name: &str) -> u64 {
    let mut hasher = std::collections::hash_map::DefaultHasher::new();
    id.hash(&mut hasher);
    name.hash(&mut hasher);
    hasher.finish()
}

/// The row identifier for a hash: "entry-" and the hash in lowercase
/// hexadecimal without leading zeros.
pub fn row_id_of_hash(h: u64) -> (r: String)
    ensures
        r@ == "entry-"@ + hex_of(h as nat),
{
    let mut s = owned("entry-");
    push_hex(&mut s, h);
    s
}

/// A stable identifier for a list row: "entry-" and the hexadecimal hash of
/// the entry's identifier and name.
pub fn row_id(entry: &ArchiveEntry) -> (r: String)
    ensures
        exists|h: u64| r@ == "entry-"@ + hex_of(h as nat),
{
    row_id_of_hash(entry_hash(entry.id.get(), entry.name.as_str()))
}

} // verus!
