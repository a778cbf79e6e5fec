//! The archive browser: the children of a folder, the selection, the folder
//! tree's expansion and the progress of a running operation.

use vstd::prelude::*;

use crate::desktop::i18n::MessageKey;
use crate::entry::{
    first_sep, lemma_first_sep_at, parse_name, same_entry, split_components, split_text, ArchiveEntry, EntryId, EntryKind,
    EntryName, EntryNameError,
};
use crate::locale::{to_lowercase, unicode_lowercase};
use crate::operation::OperationKind;
use crate::progress::ProgressEvent;
use crate::text::{
    chars_of, contains_text, decimal, has_prefix, join3, lemma_views_push, owned, starts_with, string_of, sub_chars,
    u64_text, views,
};
use super::archive::{
    lemma_text_lt_irreflexive, lemma_text_lt_total, lemma_text_lt_transitive, text_lt,
    LoadedArchive,
};
use super::workspace::{names_between, range_names};

verus! {

/// The text of `name` below the folder `prefix`: the whole name at the top
/// level, else what follows the folder and a separator.
pub open spec fn below(prefix: Seq<char>, name: Seq<char>) -> Option<Seq<char>> {
    if prefix.len() == 0 {
        Some(name)
    } else if has_prefix(name, prefix.push('/')) {
        Some(name.subrange(prefix.len() as int + 1, name.len() as int))
    } else {
        None
    }
}

/// The path of the child `component` of the folder `prefix`.
pub open spec fn child_path(prefix: Seq<char>, component: Seq<char>) -> Seq<char> {
    if prefix.len() == 0 {
        component
    } else {
        prefix.push('/') + component
    }
}

/// The child of the folder `prefix` that holds the entry `name`: its first
/// component below the folder, when there is a non-empty rest.
pub open spec fn child_of(prefix: Seq<char>, name: Seq<char>) -> Option<Seq<char>> {
    match below(prefix, name) {
        Some(rest) => if rest.len() == 0 {
            None
        } else {
            Some(child_path(prefix, rest.subrange(0, first_sep(rest))))
        },
        None => None,
    }
}

/// The rest of `name` below `prefix`, with the position of its first separator.
fn split_below(prefix: &str, name: &str) -> (r: Option<(Vec<char>, usize)>)
    ensures
        match below(prefix@, name@) {
            None => r is None,
            Some(rest) => r matches Some((v, k)) && v@ == rest && k == first_sep(rest) && k <= v@.len(),
        },
{
    let n = chars_of(name);
    let p = chars_of(prefix);
    let rest: Vec<char> = if p.len() == 0 {
        n
    } else {
        let mut head = chars_of(prefix);
        head.push('/');
        if !starts_with(&n, &head) {
            return None;
        }
        sub_chars(&n, head.len(), n.len())
    };
    let mut k: usize = 0;
    while k < rest.len() && rest[k] != '/'
        invariant
            k <= rest.len(),
            forall|j: int| 0 <= j < k ==> rest@[j] != '/',
        decreases rest.len() - k,
    {
        k = k + 1;
    }
    proof {
        lemma_first_sep_at(rest@, k as int);
    }
    Some((rest, k))
}

/// The child of the folder `prefix` that holds the entry `name`, if any.
pub fn child_name(prefix: &str, name: &str) -> (r: Option<String>)
    ensures
        match child_of(prefix@, name@) {
            Some(c) => r matches Some(s) && s@ == c,
            None => r is None,
        },
{
    let (rest, k) = match split_below(prefix, name) {
        None => {
            return None;
        },
        Some(x) => x,
    };
    if rest.len() == 0 {
        return None;
    }
    let component = string_of(&sub_chars(&rest, 0, k));
    if chars_of(prefix).len() == 0 {
        Some(component)
    } else {
        let full = join3(prefix, "/", component.as_str());
        proof {
            reveal_strlit("/");
            assert(full@ =~= prefix@.push('/') + component@);
        }
        Some(full)
    }
}

/// `s` is the child of `prefix` holding one of the entries.
pub open spec fn is_level_name(entries: Seq<ArchiveEntry>, prefix: Seq<char>, s: Seq<char>) -> bool {
    exists|i: int| 0 <= i < entries.len() && child_of(prefix, #[trigger] entries[i].name@) == Some(s)
}

/// The distinct children of the folder `prefix` that hold entries, each once.
pub fn level_names(entries: &Vec<ArchiveEntry>, prefix: &str) -> (r: Vec<String>)
    ensures
        forall|s: Seq<char>| views(r@).contains(s) <==> is_level_name(entries@, prefix@, s),
        views(r@).no_duplicates(),
{
    let mut out: Vec<String> = Vec::new();
    let mut i: usize = 0;
    while i < entries.len()
        invariant
            i <= entries.len(),
            forall|s: Seq<char>| views(out@).contains(s) <==> is_level_name(entries@.take(i as int), prefix@, s),
            views(out@).no_duplicates(),
        decreases entries.len() - i,
    {
        let ghost before = views(out@);
        let ghost taken = entries@.take(i as int);
        let ghost next = entries@.take(i + 1);
        let ghost child = child_of(prefix@, entries@[i as int].name@);
        assert(next =~= taken.push(entries@[i as int]));
        match child_name(prefix, entries[i].name.as_str()) {
            Some(c) => {
                if !contains_text(&out, c.as_str()) {
                    proof {
                        lemma_views_push(out@, c);
                        assert forall|a: int, b: int| 0 <= a < b < views(out@).push(c@).len() implies views(out@).push(c@)[a]
                            != views(out@).push(c@)[b] by {
                            if b == views(out@).len() {
                                assert(views(out@)[a] == views(out@).push(c@)[a]);
                            }
                        }
                    }
                    out.push(c);
                }
            },
            None => {},
        }
        proof {
            assert forall|s: Seq<char>| views(out@).contains(s) <==> (before.contains(s) || child == Some(s)) by {
                if child == Some(s) && !before.contains(s) {
                    assert(views(out@)[before.len() as int] == s);
                }
                if views(out@).contains(s) && !before.contains(s) {
                    let k = choose|k: int| 0 <= k < views(out@).len() && views(out@)[k] == s;
                    if k < before.len() {
                        assert(before[k] == s);
                    }
                }
                if before.contains(s) {
                    let k = choose|k: int| 0 <= k < before.len() && before[k] == s;
                    assert(views(out@)[k] == s);
                }
            }
            assert forall|s: Seq<char>| views(out@).contains(s) <==> is_level_name(next, prefix@, s) by {
                assert(before.contains(s) <==> is_level_name(taken, prefix@, s));
                if is_level_name(next, prefix@, s) {
                    let j = choose|j: int| 0 <= j < next.len() && child_of(prefix@, #[trigger] next[j].name@) == Some(s);
                    if j < i {
                        assert(taken[j] == next[j]);
                        assert(is_level_name(taken, prefix@, s));
                    } else {
                        assert(next[j] == entries@[i as int]);
                    }
                }
                if is_level_name(taken, prefix@, s) {
                    let j = choose|j: int| 0 <= j < taken.len() && child_of(prefix@, #[trigger] taken[j].name@) == Some(s);
                    assert(next[j] == taken[j]);
                    assert(child_of(prefix@, next[j].name@) == Some(s));
                }
                if child == Some(s) {
                    assert(next[i as int] == entries@[i as int]);
                    assert(child_of(prefix@, next[i as int].name@) == Some(s));
                }
            }
        }
        i = i + 1;
    }
    assert(entries@.take(entries.len() as int) =~= entries@);
    out
}

/// The names in a list, as a set.
pub open spec fn name_set(v: Seq<String>) -> Set<Seq<char>> {
    views(v).to_set()
}

/// `s` with `x` added when absent and removed when present.
pub open spec fn toggled(s: Set<Seq<char>>, x: Seq<char>) -> Set<Seq<char>> {
    if s.contains(x) {
        s.remove(x)
    } else {
        s.insert(x)
    }
}

/// What "select all" leaves selected: nothing when the level has names and
/// all of them were selected, else the selection with all of them added.
pub open spec fn select_all_result(selected: Set<Seq<char>>, names: Set<Seq<char>>) -> Set<Seq<char>> {
    if names != Set::<Seq<char>>::empty() && names.subset_of(selected) {
        Set::empty()
    } else {
        selected.union(names)
    }
}

proof fn lemma_name_set_push(v: Seq<String>, s: String)
    ensures
        name_set(v.push(s)) == name_set(v).insert(s@),
{
    lemma_views_push(v, s);
    assert forall|x: Seq<char>| name_set(v.push(s)).contains(x) == name_set(v).insert(s@).contains(x) by {
        assert(views(v.push(s)) == views(v).push(s@));
        if views(v).push(s@).contains(x) && x != s@ {
            let k = choose|k: int| 0 <= k < views(v).push(s@).len() && views(v).push(s@)[k] == x;
            assert(views(v)[k] == x);
        }
        if views(v).contains(x) {
            let k = choose|k: int| 0 <= k < views(v).len() && views(v)[k] == x;
            assert(views(v).push(s@)[k] == x);
        }
        assert(views(v).push(s@)[views(v).len() as int] == s@);
    }
    assert(name_set(v.push(s)) =~= name_set(v).insert(s@));
}

proof fn lemma_name_set_empty(v: Seq<String>)
    requires
        v.len() == 0,
    ensures
        name_set(v) == Set::<Seq<char>>::empty(),
{
    assert(name_set(v) =~= Set::<Seq<char>>::empty());
}

/// The list without any string equal to `s`.
fn without(v: &Vec<String>, s: &str) -> (r: Vec<String>)
    ensures
        name_set(r@) == name_set(v@).remove(s@),
{
    let mut out: Vec<String> = Vec::new();
    let mut i: usize = 0;
    proof {
        lemma_name_set_empty(out@);
        assert(name_set(v@.take(0)) =~= Set::<Seq<char>>::empty());
    }
    while i < v.len()
        invariant
            i <= v.len(),
            name_set(out@) == name_set(v@.take(i as int)).remove(s@),
        decreases v.len() - i,
    {
        let ghost next = v@.take(i + 1);
        assert(next =~= v@.take(i as int).push(v@[i as int]));
        proof {
            lemma_name_set_push(v@.take(i as int), v@[i as int]);
        }
        if !crate::text::str_eq(v[i].as_str(), s) {
            let t = v[i].clone();
            proof {
                lemma_name_set_push(out@, t);
            }
            out.push(t);
            assert(name_set(out@) =~= name_set(next).remove(s@));
        } else {
            assert(name_set(out@) =~= name_set(next).remove(s@));
        }
        i = i + 1;
    }
    assert(v@.take(v.len() as int) =~= v@);
    out
}

/// The list as a set, each name once.
fn as_list(v: &Vec<String>) -> (r: Vec<String>)
    ensures
        name_set(r@) == name_set(v@),
{
    let mut out: Vec<String> = Vec::new();
    let mut i: usize = 0;
    proof {
        lemma_name_set_empty(out@);
        assert(name_set(v@.take(0)) =~= Set::<Seq<char>>::empty());
    }
    while i < v.len()
        invariant
            i <= v.len(),
            name_set(out@) == name_set(v@.take(i as int)),
        decreases v.len() - i,
    {
        assert(v@.take(i + 1) =~= v@.take(i as int).push(v@[i as int]));
        proof {
            lemma_name_set_push(v@.take(i as int), v@[i as int]);
        }
        let t = v[i].clone();
        proof {
            lemma_name_set_push(out@, t);
        }
        out.push(t);
        i = i + 1;
    }
    assert(v@.take(v.len() as int) =~= v@);
    out
}

/// Adds every name of `names` to `v`.
fn add_all(v: &mut Vec<String>, names: &Vec<String>)
    ensures
        name_set(final(v)@) == name_set(old(v)@).union(name_set(names@)),
{
    let mut i: usize = 0;
    proof {
        assert(name_set(names@.take(0)) =~= Set::<Seq<char>>::empty());
        assert(name_set(v@) =~= name_set(old(v)@).union(name_set(names@.take(0))));
    }
    while i < names.len()
        invariant
            i <= names.len(),
            name_set(v@) == name_set(old(v)@).union(name_set(names@.take(i as int))),
        decreases names.len() - i,
    {
        assert(names@.take(i + 1) =~= names@.take(i as int).push(names@[i as int]));
        proof {
            lemma_name_set_push(names@.take(i as int), names@[i as int]);
        }
        let t = names[i].clone();
        proof {
            lemma_name_set_push(v@, t);
        }
        v.push(t);
        assert(name_set(v@) =~= name_set(old(v)@).union(name_set(names@.take(i + 1))));
        i = i + 1;
    }
    assert(names@.take(names.len() as int) =~= names@);
}

/// Whether every name of `names` is in `v`.
fn all_in(names: &Vec<String>, v: &Vec<String>) -> (r: bool)
    ensures
        r == name_set(names@).subset_of(name_set(v@)),
{
    let mut i: usize = 0;
    while i < names.len()
        invariant
            i <= names.len(),
            forall|j: int| 0 <= j < i ==> name_set(v@).contains(#[trigger] names@[j]@),
        decreases names.len() - i,
    {
        if !contains_text(v, names[i].as_str()) {
            proof {
                assert(views(names@)[i as int] == names@[i as int]@);
                assert(name_set(names@).contains(names@[i as int]@));
            }
            return false;
        }
        i = i + 1;
    }
    proof {
        assert forall|x: Seq<char>| name_set(names@).contains(x) implies name_set(v@).contains(x) by {
            let k = choose|k: int| 0 <= k < views(names@).len() && views(names@)[k] == x;
            assert(names@[k]@ == x);
        }
    }
    true
}

/// The selection in the archive list and the state of a pointer gesture.
pub struct Selection {
    /// The selected entry paths.
    pub selected: Vec<String>,
    /// Where a range selection starts.
    pub anchor: Option<String>,
    /// Whether a pointer drag extends the selection.
    pub dragging: bool,
}

impl Selection {
    /// The selected paths as a set.
    pub open spec fn selected_set(&self) -> Set<Seq<char>> {
        name_set(self.selected@)
    }

    /// Nothing selected, no gesture.
    pub fn new() -> (r: Self)
        ensures
            r.selected_set() == Set::<Seq<char>>::empty(),
            r.anchor is None,
            !r.dragging,
    {
        let r = Selection { selected: Vec::new(), anchor: None, dragging: false };
        proof {
            lemma_name_set_empty(r.selected@);
        }
        r
    }

    /// Forgets the selection and the gesture, as when the folder changes.
    pub fn clear(&mut self)
        ensures
            final(self).selected_set() == Set::<Seq<char>>::empty(),
            final(self).anchor is None,
            !final(self).dragging,
    {
        self.selected = Vec::new();
        self.anchor = None;
        self.dragging = false;
        proof {
            lemma_name_set_empty(self.selected@);
        }
    }

    /// Selects every name of the level, or nothing when all were selected.
    pub fn select_all(&mut self, names: &Vec<String>)
        ensures
            final(self).selected_set() == select_all_result(old(self).selected_set(), name_set(names@)),
            final(self).anchor is None,
            !final(self).dragging,
    {
        let every = all_in(names, &self.selected);
        if names.len() > 0 && every {
            self.selected = Vec::new();
            proof {
                lemma_name_set_empty(self.selected@);
                assert(views(names@)[0] == names@[0]@);
                assert(name_set(names@).contains(names@[0]@));
            }
        } else {
            add_all(&mut self.selected, names);
            proof {
                if names@.len() == 0 {
                    assert(name_set(names@) =~= Set::<Seq<char>>::empty());
                }
            }
        }
        self.anchor = None;
        self.dragging = false;
    }

    /// Starts a pointer gesture on `name`: a range from the anchor with
    /// shift, a toggle with the additive modifier, else `name` alone.
    pub fn begin(&mut self, name: &str, visible: &Vec<String>, range: bool, additive: bool)
        ensures
            final(self).dragging,
            range ==> {
                let anchor = match old(self).anchor {
                    Some(a) => a@,
                    None => name@,
                };
                &&& final(self).selected_set() == range_names(views(visible@), anchor, name@).to_set()
                &&& final(self).anchor matches Some(a) && a@ == anchor
            },
            !range && additive ==> final(self).selected_set() == toggled(old(self).selected_set(), name@),
            !range && !additive ==> final(self).selected_set() == set![name@],
            !range ==> (final(self).anchor matches Some(a) && a@ == name@),
    {
        if range {
            let anchor = match &self.anchor {
                Some(a) => a.clone(),
                None => owned(name),
            };
            let between = names_between(visible, anchor.as_str(), name);
            self.selected = as_list(&between);
            self.anchor = Some(anchor);
        } else if additive {
            if contains_text(&self.selected, name) {
                self.selected = without(&self.selected, name);
                proof {
                    assert(name_set(old(self).selected@).contains(name@));
                }
            } else {
                let t = owned(name);
                proof {
                    lemma_name_set_push(self.selected@, t);
                    assert(!name_set(old(self).selected@).contains(name@));
                }
                self.selected.push(t);
            }
            self.anchor = Some(owned(name));
        } else {
            let mut one: Vec<String> = Vec::new();
            let t = owned(name);
            proof {
                lemma_name_set_empty(one@);
                lemma_name_set_push(one@, t);
                assert(Set::<Seq<char>>::empty().insert(name@) =~= set![name@]);
            }
            one.push(t);
            self.selected = one;
            self.anchor = Some(owned(name));
        }
        self.dragging = true;
    }

    /// Extends a running pointer gesture to `name`: the range from the anchor.
    pub fn extend(&mut self, name: &str, visible: &Vec<String>)
        ensures
            (old(self).dragging && old(self).anchor is Some) ==> final(self).selected_set() == range_names(
                views(visible@),
                old(self).anchor.unwrap()@,
                name@,
            ).to_set(),
            !(old(self).dragging && old(self).anchor is Some) ==> final(self).selected@ == old(self).selected@,
            final(self).anchor == old(self).anchor,
            final(self).dragging == old(self).dragging,
    {
        if !self.dragging {
            return;
        }
        match &self.anchor {
            None => {},
            Some(anchor) => {
                let between = names_between(visible, anchor.as_str(), name);
                self.selected = as_list(&between);
            },
        }
    }

    /// Ends a pointer gesture.
    pub fn end(&mut self)
        ensures
            !final(self).dragging,
            final(self).selected@ == old(self).selected@,
            final(self).anchor == old(self).anchor,
    {
        self.dragging = false;
    }
}

/// Expands a collapsed folder of the tree or collapses an expanded one; the
/// root is always shown.
pub fn toggle_folder(expanded: &mut Vec<String>, prefix: &str)
    ensures
        prefix@.len() == 0 ==> final(expanded)@ == old(expanded)@,
        prefix@.len() > 0 ==> name_set(final(expanded)@) == toggled(name_set(old(expanded)@), prefix@),
{
    if chars_of(prefix).len() == 0 {
        return;
    }
    if contains_text(expanded, prefix) {
        let kept = without(expanded, prefix);
        *expanded = kept;
    } else {
        let t = owned(prefix);
        proof {
            lemma_name_set_push(expanded@, t);
        }
        expanded.push(t);
    }
}

/// Selecting all twice leaves exactly the level's names when all of them
/// were selected, and nothing otherwise.
pub proof fn law_select_all_twice(selected: Set<Seq<char>>, names: Set<Seq<char>>)
    requires
        names != Set::<Seq<char>>::empty(),
    ensures
        select_all_result(select_all_result(selected, names), names) == (if names.subset_of(selected) {
            names
        } else {
            Set::<Seq<char>>::empty()
        }),
{
    if names.subset_of(selected) {
        assert(!names.subset_of(Set::<Seq<char>>::empty())) by {
            let x = names.choose();
            assert(names.contains(x)) by {
                if !names.contains(x) {
                    assert(names =~= Set::<Seq<char>>::empty());
                }
            }
        }
        assert(Set::<Seq<char>>::empty().union(names) =~= names);
    } else {
        assert(names.subset_of(selected.union(names)));
    }
}

/// Toggling a folder twice restores whether it was expanded.
pub proof fn law_toggle_twice(expanded: Set<Seq<char>>, prefix: Seq<char>)
    ensures
        toggled(toggled(expanded, prefix), prefix) == expanded,
{
    if expanded.contains(prefix) {
        assert(expanded.remove(prefix).insert(prefix) =~= expanded);
    } else {
        assert(expanded.insert(prefix).remove(prefix) =~= expanded);
    }
}

/// The progress of a running operation as the status bar shows it.
pub struct JobProgress {
    /// The operation being run.
    pub kind: OperationKind,
    /// Bytes processed so far.
    pub processed: u64,
    /// Total bytes, when known.
    pub total: Option<u64>,
    /// The entry being worked on.
    pub current: Option<String>,
}

impl JobProgress {
    /// Applies one progress event; a warning leaves the progress unchanged
    /// and is returned for the status line.
    pub fn apply(&mut self, event: ProgressEvent) -> (warning: Option<String>)
        ensures
            match event {
                ProgressEvent::Started { operation, total_bytes } => {
                    &&& final(self).kind == operation
                    &&& final(self).processed == 0
                    &&& final(self).total == total_bytes
                    &&& final(self).current == old(self).current
                    &&& warning is None
                },
                ProgressEvent::EntryStarted { name, .. } => {
                    &&& final(self).current matches Some(c) && c@ == name@
                    &&& final(self).kind == old(self).kind
                    &&& final(self).processed == old(self).processed
                    &&& final(self).total == old(self).total
                    &&& warning is None
                },
                ProgressEvent::Bytes { processed, total, .. } => {
                    &&& final(self).processed == processed
                    &&& final(self).total == (if total is Some { total } else { old(self).total })
                    &&& final(self).kind == old(self).kind
                    &&& final(self).current == old(self).current
                    &&& warning is None
                },
                ProgressEvent::Warning(message) => {
                    &&& warning == Some(message)
                    &&& *final(self) == *old(self)
                },
                ProgressEvent::Finished(report) => {
                    &&& final(self).processed == (if report.bytes_read >= report.bytes_written {
                        report.bytes_read
                    } else {
                        report.bytes_written
                    })
                    &&& final(self).kind == old(self).kind
                    &&& final(self).total == old(self).total
                    &&& final(self).current == old(self).current
                    &&& warning is None
                },
            },
    {
        match event {
            ProgressEvent::Started { operation, total_bytes } => {
                self.kind = operation;
                self.processed = 0;
                self.total = total_bytes;
                None
            },
            ProgressEvent::EntryStarted { name, .. } => {
                self.current = Some(name.into_string());
                None
            },
            ProgressEvent::Bytes { processed, total, .. } => {
                self.processed = processed;
                if total.is_some() {
                    self.total = total;
                }
                None
            },
            ProgressEvent::Warning(message) => Some(message),
            ProgressEvent::Finished(report) => {
                self.processed = if report.bytes_read >= report.bytes_written {
                    report.bytes_read
                } else {
                    report.bytes_written
                };
                None
            },
        }
    }
}

/// The message shown when an operation of `kind` completes.
pub fn completed_message_key(kind: OperationKind) -> (r: MessageKey)
    ensures
        r == match kind {
            OperationKind::Extract => MessageKey::ExtractionCompleted,
            OperationKind::Create | OperationKind::Update => MessageKey::CreationCompleted,
            OperationKind::Test => MessageKey::TestCompleted,
            OperationKind::List | OperationKind::Detect => MessageKey::ArchiveOpened,
        },
{
    match kind {
        OperationKind::Extract => MessageKey::ExtractionCompleted,
        OperationKind::Create | OperationKind::Update => MessageKey::CreationCompleted,
        OperationKind::Test => MessageKey::TestCompleted,
        OperationKind::List | OperationKind::Detect => MessageKey::ArchiveOpened,
    }
}

/// Whether a failed operation ended by cancellation: the token was set or
/// the failure is the cancellation message.
pub fn is_cancellation(cancelled: bool, error: &str) -> (r: bool)
    ensures
        r == (cancelled || error@ == "operation cancelled"@),
{
    cancelled || crate::text::str_eq(error, "operation cancelled")
}

/// A count of objects, as "`count` `objects`".
pub fn count_text(count: u64, objects: &str) -> (r: String)
    ensures
        r@ == decimal(count as nat) + " "@ + objects@,
{
    let n = u64_text(count);
    join3(n.as_str(), " ", objects)
}

/// The order of rows in the list: case-insensitively by name, then by name.
pub open spec fn name_key(name: Seq<char>) -> (Seq<char>, Seq<char>) {
    (unicode_lowercase(name), name)
}

/// `a` sorts strictly before `b`.
pub open spec fn key_lt(a: (Seq<char>, Seq<char>), b: (Seq<char>, Seq<char>)) -> bool {
    text_lt(a.0, b.0) || (a.0 == b.0 && text_lt(a.1, b.1))
}

proof fn lemma_key_lt_transitive(a: (Seq<char>, Seq<char>), b: (Seq<char>, Seq<char>), c: (Seq<char>, Seq<char>))
    requires
        key_lt(a, b),
        key_lt(b, c),
    ensures
        key_lt(a, c),
{
    if text_lt(a.0, b.0) && text_lt(b.0, c.0) {
        lemma_text_lt_transitive(a.0, b.0, c.0);
    } else if a.0 == b.0 && b.0 == c.0 {
        lemma_text_lt_transitive(a.1, b.1, c.1);
    }
}

proof fn lemma_key_lt_irreflexive(a: (Seq<char>, Seq<char>))
    ensures
        !key_lt(a, a),
{
    lemma_text_lt_irreflexive(a.0);
    lemma_text_lt_irreflexive(a.1);
}

proof fn lemma_key_lt_total(a: (Seq<char>, Seq<char>), b: (Seq<char>, Seq<char>))
    ensures
        key_lt(a, b) || key_lt(b, a) || a == b,
{
    lemma_text_lt_total(a.0, b.0);
    lemma_text_lt_total(a.1, b.1);
}

/// The name of a file directly in the folder `prefix`, when the entry is one.
pub open spec fn direct_file(prefix: Seq<char>, e: ArchiveEntry) -> Option<Seq<char>> {
    match below(prefix, e.name@) {
        Some(rest) => if rest.len() > 0 && first_sep(rest) == rest.len() && e.kind != EntryKind::Directory {
            Some(rest)
        } else {
            None
        },
        None => None,
    }
}

/// The files directly in the folder, with the positions of their entries, in
/// entry order.
pub open spec fn direct_files(entries: Seq<ArchiveEntry>, prefix: Seq<char>) -> Seq<(int, Seq<char>)>
    decreases entries.len(),
{
    if entries.len() == 0 {
        Seq::empty()
    } else {
        let prev = direct_files(entries.drop_last(), prefix);
        match direct_file(prefix, entries.last()) {
            Some(c) => prev.push((entries.len() - 1, c)),
            None => prev,
        }
    }
}

/// The name of the child folder that an entry below `prefix` makes visible:
/// the entry is that folder, or lies deeper inside it.
pub open spec fn folder_child(prefix: Seq<char>, e: ArchiveEntry) -> Option<Seq<char>> {
    match below(prefix, e.name@) {
        Some(rest) => if rest.len() > 0 && (first_sep(rest) < rest.len() || e.kind == EntryKind::Directory) {
            Some(rest.subrange(0, first_sep(rest)))
        } else {
            None
        },
        None => None,
    }
}

/// `c` names a child folder of some entry.
pub open spec fn has_folder_child(entries: Seq<ArchiveEntry>, prefix: Seq<char>, c: Seq<char>) -> bool {
    exists|i: int| 0 <= i < entries.len() && folder_child(prefix, #[trigger] entries[i]) == Some(c)
}

/// A child folder listed in the folder `prefix`: one that some entry makes
/// visible and whose path is a valid entry name.
pub open spec fn is_listed_folder(entries: Seq<ArchiveEntry>, prefix: Seq<char>, c: Seq<char>) -> bool {
    has_folder_child(entries, prefix, c) && parse_name(child_path(prefix, c)) is Ok
}

/// One row of the archive list.
#[derive(Debug)]
pub struct DisplayRow {
    /// The entry, or a folder made up for a path that has none.
    pub entry: ArchiveEntry,
    /// The name shown.
    pub name: String,
}

/// A folder row: a fresh directory entry for the folder's path.
pub open spec fn is_folder_row(row: DisplayRow, prefix: Seq<char>) -> bool {
    let e = row.entry;
    &&& parse_name(child_path(prefix, row.name@)) == Ok::<Seq<char>, EntryNameError>(e.name@)
    &&& e.id == EntryId(u64::MAX)
    &&& e.kind == EntryKind::Directory
    &&& e.size is None && e.packed_size is None
    &&& e.modified is None && e.accessed is None && e.created is None
    &&& e.attributes is None && e.posix_attributes is None && e.checksum is None
    &&& !e.encrypted && e.link_target is None && e.method is None
}

/// The rows `r` are `nd` listed folders in strict name order, then the
/// direct files `g` (entry positions and names) sorted by name, files of the
/// same name in entry order.
pub open spec fn rows_split(
    r: Seq<DisplayRow>,
    entries: Seq<ArchiveEntry>,
    prefix: Seq<char>,
    nd: int,
    g: Seq<(int, Seq<char>)>,
) -> bool {
    &&& 0 <= nd <= r.len()
    &&& g.len() == r.len() - nd
    &&& forall|k: int| 0 <= k < nd ==> is_folder_row(#[trigger] r[k], prefix) && is_listed_folder(entries, prefix, r[k].name@)
    &&& forall|c: Seq<char>| is_listed_folder(entries, prefix, c) ==> exists|k: int| 0 <= k < nd && #[trigger] r[k].name@ == c
    &&& forall|a: int, b: int| 0 <= a < b < nd ==> key_lt(name_key(#[trigger] r[a].name@), name_key(#[trigger] r[b].name@))
    &&& forall|k: int| 0 <= k < g.len() ==> {
        &&& 0 <= #[trigger] g[k].0 < entries.len()
        &&& same_entry(r[nd + k].entry, entries[g[k].0])
        &&& r[nd + k].name@ == g[k].1
    }
    &&& forall|a: int, b: int| 0 <= a < b < g.len() ==> !key_lt(name_key(#[trigger] g[b].1), name_key(#[trigger] g[a].1))
    &&& forall|c: Seq<char>| #[trigger] named(g, c) == named(direct_files(entries, prefix), c)
}

/// Whether a listed file has the name `c`.
pub open spec fn has_name(c: Seq<char>) -> spec_fn((int, Seq<char>)) -> bool {
    |x: (int, Seq<char>)| x.1 == c
}

/// The files of a list that have the name `c`, in list order.
pub open spec fn named(s: Seq<(int, Seq<char>)>, c: Seq<char>) -> Seq<(int, Seq<char>)> {
    s.filter(has_name(c))
}

/// A file waiting for its row: entry position, name and lower-cased name.
pub open spec fn file_plan(v: Seq<(usize, String, String)>) -> Seq<(int, Seq<char>)> {
    v.map_values(|t: (usize, String, String)| (t.0 as int, t.1@))
}

/// Files sorted by name, each with its lower-cased name.
pub open spec fn files_sorted(v: Seq<(usize, String, String)>) -> bool {
    &&& forall|k: int| 0 <= k < v.len() ==> #[trigger] v[k].2@ == unicode_lowercase(v[k].1@)
    &&& forall|a: int, b: int| 0 <= a < b < v.len() ==> !key_lt(name_key(#[trigger] v[b].1@), name_key(#[trigger] v[a].1@))
}

proof fn lemma_named_single(x: (int, Seq<char>), c: Seq<char>)
    ensures
        named(seq![x], c) == (if x.1 == c {
            seq![x]
        } else {
            Seq::<(int, Seq<char>)>::empty()
        }),
{
    reveal(Seq::filter);
    assert(seq![x].drop_last() =~= Seq::<(int, Seq<char>)>::empty());
    assert(seq![x].last() == x);
    assert(named(Seq::<(int, Seq<char>)>::empty(), c) =~= Seq::<(int, Seq<char>)>::empty());
    if x.1 == c {
        assert(named(seq![x], c) =~= Seq::<(int, Seq<char>)>::empty().push(x));
        assert(Seq::<(int, Seq<char>)>::empty().push(x) =~= seq![x]);
    }
}

proof fn lemma_filter_insert(s: Seq<(int, Seq<char>)>, p: int, x: (int, Seq<char>), c: Seq<char>)
    requires
        0 <= p <= s.len(),
        forall|k: int| p <= k < s.len() ==> #[trigger] s[k].1 != x.1,
    ensures
        named(s.insert(p, x), c) == (if x.1 == c {
            named(s, c).push(x)
        } else {
            named(s, c)
        }),
{
    broadcast use Seq::filter_distributes_over_add;
    let front = s.take(p);
    let back = s.skip(p);
    assert(s =~= front + back);
    assert(s.insert(p, x) =~= front + seq![x] + back);
    assert(named(front + seq![x] + back, c) == named(front + seq![x], c) + named(back, c));
    assert(named(front + seq![x], c) == named(front, c) + named(seq![x], c));
    assert(named(front + back, c) == named(front, c) + named(back, c));
    lemma_named_single(x, c);
    if x.1 == c {
        assert(back.all(|y: (int, Seq<char>)| !has_name(c)(y))) by {
            assert forall|k: int| 0 <= k < back.len() implies !has_name(c)(#[trigger] back[k]) by {
                assert(back[k] == s[p + k]);
            }
        }
        back.lemma_all_neg_filter_empty(has_name(c));
        assert(named(back, c) =~= Seq::<(int, Seq<char>)>::empty());
        assert(named(s.insert(p, x), c) =~= named(s, c).push(x));
    } else {
        assert(named(s.insert(p, x), c) =~= named(s, c));
    }
}

/// Inserts a file after every file whose name sorts before it or equals it.
fn insert_file(files: &mut Vec<(usize, String, String)>, x: (usize, String, String))
    requires
        files_sorted(old(files)@),
        x.2@ == unicode_lowercase(x.1@),
    ensures
        files_sorted(final(files)@),
        exists|p: int| #![trigger file_plan(old(files)@).insert(p, (x.0 as int, x.1@))]
            0 <= p <= old(files)@.len()
            && file_plan(final(files)@) == file_plan(old(files)@).insert(p, (x.0 as int, x.1@))
            && forall|k: int| p <= k < old(files)@.len() ==> #[trigger] old(files)@[k].1@ != x.1@,
{
    let ghost key = name_key(x.1@);
    let mut p: usize = 0;
    while p < files.len() && !(crate::desktop::archive::text_less(x.2.as_str(), files[p].2.as_str()) || (
    crate::text::str_eq(x.2.as_str(), files[p].2.as_str()) && crate::desktop::archive::text_less(
        x.1.as_str(),
        files[p].1.as_str(),
    )))
        invariant
            p <= files.len(),
            files_sorted(files@),
            files@ == old(files)@,
            x.2@ == unicode_lowercase(x.1@),
            key == name_key(x.1@),
            forall|k: int| 0 <= k < p ==> !key_lt(key, name_key(#[trigger] files@[k].1@)),
        decreases files.len() - p,
    {
        assert(files@[p as int].2@ == unicode_lowercase(files@[p as int].1@));
        p = p + 1;
    }
    let ghost before = files@;
    proof {
        if p < before.len() {
            assert(key_lt(key, name_key(before[p as int].1@)));
        }
        assert forall|k: int| p <= k < before.len() implies key_lt(key, name_key(#[trigger] before[k].1@)) by {
            if k > p {
                lemma_key_lt_total(name_key(before[p as int].1@), name_key(before[k].1@));
                if key_lt(name_key(before[k].1@), name_key(before[p as int].1@)) {
                    assert(!key_lt(name_key(before[k].1@), name_key(before[p as int].1@)));
                }
                if name_key(before[p as int].1@) != name_key(before[k].1@) {
                    lemma_key_lt_transitive(key, name_key(before[p as int].1@), name_key(before[k].1@));
                }
            }
        }
        assert forall|k: int| p <= k < before.len() implies #[trigger] before[k].1@ != x.1@ by {
            if before[k].1@ == x.1@ {
                lemma_key_lt_irreflexive(key);
            }
        }
    }
    files.insert(p, x);
    proof {
        let old_plan = file_plan(before);
        assert(file_plan(files@) =~= old_plan.insert(p as int, (x.0 as int, x.1@)));
        assert forall|a: int, b: int| 0 <= a < b < files@.len() implies !key_lt(
            name_key(#[trigger] files@[b].1@),
            name_key(#[trigger] files@[a].1@),
        ) by {
            if b < p {
                assert(files@[a] == before[a] && files@[b] == before[b]);
            } else if b == p {
                assert(files@[a] == before[a]);
                assert(files@[b] == x);
                assert(!key_lt(key, name_key(before[a].1@)));
            } else if a == p {
                assert(files@[b] == before[b - 1]);
                assert(files@[a] == x);
                assert(key_lt(key, name_key(before[b - 1].1@)));
                lemma_key_lt_asymmetric_keys(key, name_key(before[b - 1].1@));
            } else if a < p {
                assert(files@[a] == before[a] && files@[b] == before[b - 1]);
            } else {
                assert(files@[a] == before[a - 1] && files@[b] == before[b - 1]);
            }
        }
        assert forall|k: int| 0 <= k < files@.len() implies #[trigger] files@[k].2@ == unicode_lowercase(files@[k].1@) by {
            if k < p {
                assert(files@[k] == before[k]);
            } else if k > p {
                assert(files@[k] == before[k - 1]);
            }
        }
    }
}

proof fn lemma_key_lt_asymmetric_keys(a: (Seq<char>, Seq<char>), b: (Seq<char>, Seq<char>))
    requires
        key_lt(a, b),
    ensures
        !key_lt(b, a),
{
    if key_lt(b, a) {
        lemma_key_lt_transitive(a, b, a);
        lemma_key_lt_irreflexive(a);
    }
}

proof fn lemma_direct_files_step(entries: Seq<ArchiveEntry>, prefix: Seq<char>, i: int)
    requires
        0 <= i < entries.len(),
    ensures
        direct_files(entries.take(i + 1), prefix) == match direct_file(prefix, entries[i]) {
            Some(c) => direct_files(entries.take(i), prefix).push((i, c)),
            None => direct_files(entries.take(i), prefix),
        },
{
    let t = entries.take(i + 1);
    assert(t.drop_last() =~= entries.take(i));
    assert(t.last() == entries[i]);
}

/// The child folders (each once) and the direct files (sorted, with their
/// lower-cased names) of the folder `prefix`.
fn collect_children(entries: &Vec<ArchiveEntry>, prefix: &str) -> (r: (Vec<String>, Vec<(usize, String, String)>))
    ensures
        forall|c: Seq<char>| views(r.0@).contains(c) <==> has_folder_child(entries@, prefix@, c),
        views(r.0@).no_duplicates(),
        files_sorted(r.1@),
        forall|k: int| 0 <= k < r.1@.len() ==> #[trigger] r.1@[k].0 < entries@.len(),
        forall|c: Seq<char>| #[trigger] named(file_plan(r.1@), c) == named(direct_files(entries@, prefix@), c),
{
    let mut folders: Vec<String> = Vec::new();
    let mut files: Vec<(usize, String, String)> = Vec::new();
    let mut i: usize = 0;
    proof {
        assert forall|c: Seq<char>| #[trigger] named(file_plan(files@), c) == named(direct_files(entries@.take(0), prefix@), c) by {
            assert(file_plan(files@) =~= Seq::<(int, Seq<char>)>::empty());
            assert(entries@.take(0) =~= Seq::<ArchiveEntry>::empty());
        }
    }
    while i < entries.len()
        invariant
            i <= entries.len(),
            forall|c: Seq<char>| views(folders@).contains(c) <==> has_folder_child(entries@.take(i as int), prefix@, c),
            views(folders@).no_duplicates(),
            files_sorted(files@),
            forall|k: int| 0 <= k < files@.len() ==> #[trigger] files@[k].0 < i,
            forall|c: Seq<char>| #[trigger] named(file_plan(files@), c) == named(direct_files(entries@.take(i as int), prefix@), c),
        decreases entries.len() - i,
    {
        let ghost before = views(folders@);
        let ghost old_files = files@;
        let ghost taken = entries@.take(i as int);
        let ghost next = entries@.take(i + 1);
        let ghost e = entries@[i as int];
        let ghost folder = folder_child(prefix@, e);
        assert(next =~= taken.push(e));
        proof {
            lemma_direct_files_step(entries@, prefix@, i as int);
        }
        match split_below(prefix, entries[i].name.as_str()) {
            None => {},
            Some((rest, k)) => {
                if rest.len() > 0 {
                    let comp = string_of(&sub_chars(&rest, 0, k));
                    if k < rest.len() || entries[i].kind == EntryKind::Directory {
                        if !contains_text(&folders, comp.as_str()) {
                            proof {
                                lemma_views_push(folders@, comp);
                                assert forall|a: int, b: int| 0 <= a < b < views(folders@).push(comp@).len() implies views(
                                    folders@,
                                ).push(comp@)[a] != views(folders@).push(comp@)[b] by {
                                    if b == views(folders@).len() {
                                        assert(views(folders@)[a] == views(folders@).push(comp@)[a]);
                                    }
                                }
                            }
                            folders.push(comp);
                        }
                    } else {
                        let lower = to_lowercase(comp.as_str());
                        proof {
                            assert(rest@.subrange(0, k as int) =~= rest@);
                        }
                        insert_file(&mut files, (i, comp, lower));
                        proof {
                            let x = (i as int, rest@);
                            let p = choose|p: int| #![trigger file_plan(old_files).insert(p, x)] 0 <= p <= old_files.len()
                                && file_plan(files@) == file_plan(old_files).insert(p, x)
                                && forall|k: int| p <= k < old_files.len() ==> #[trigger] old_files[k].1@ != x.1;
                            assert forall|c: Seq<char>| #[trigger] named(file_plan(files@), c) == (if x.1 == c {
                                named(file_plan(old_files), c).push(x)
                            } else {
                                named(file_plan(old_files), c)
                            }) by {
                                assert forall|k: int| p <= k < file_plan(old_files).len() implies #[trigger] file_plan(old_files)[k].1 != x.1 by {
                                    assert(file_plan(old_files)[k].1 == old_files[k].1@);
                                }
                                lemma_filter_insert(file_plan(old_files), p, x, c);
                            }
                            assert(file_plan(files@).len() == files@.len());
                            assert(file_plan(old_files).len() == old_files.len());
                            assert(files@.len() == old_files.len() + 1);
                            assert forall|k: int| 0 <= k < files@.len() implies #[trigger] files@[k].0 < i + 1 by {
                                assert(file_plan(files@)[k].0 == files@[k].0 as int);
                                if k < p {
                                    assert(file_plan(files@)[k] == file_plan(old_files)[k]);
                                    assert(file_plan(old_files)[k].0 == old_files[k].0 as int);
                                } else if k > p {
                                    assert(file_plan(files@)[k] == file_plan(old_files)[k - 1]);
                                    assert(file_plan(old_files)[k - 1].0 == old_files[k - 1].0 as int);
                                }
                            }
                        }
                    }
                }
            },
        }
        proof {
            broadcast use Seq::lemma_filter_push;
            assert forall|c: Seq<char>| views(folders@).contains(c) <==> (before.contains(c) || folder == Some(c)) by {
                if folder == Some(c) && !before.contains(c) {
                    assert(views(folders@)[before.len() as int] == c);
                }
                if views(folders@).contains(c) && !before.contains(c) {
                    let k = choose|k: int| 0 <= k < views(folders@).len() && views(folders@)[k] == c;
                    if k < before.len() {
                        assert(before[k] == c);
                    }
                }
                if before.contains(c) {
                    let k = choose|k: int| 0 <= k < before.len() && before[k] == c;
                    assert(views(folders@)[k] == c);
                }
            }
            assert forall|c: Seq<char>| views(folders@).contains(c) <==> has_folder_child(next, prefix@, c) by {
                assert(before.contains(c) <==> has_folder_child(taken, prefix@, c));
                if has_folder_child(next, prefix@, c) {
                    let j = choose|j: int| 0 <= j < next.len() && folder_child(prefix@, #[trigger] next[j]) == Some(c);
                    if j < i {
                        assert(taken[j] == next[j]);
                        assert(has_folder_child(taken, prefix@, c));
                    } else {
                        assert(next[j] == e);
                    }
                }
                if has_folder_child(taken, prefix@, c) {
                    let j = choose|j: int| 0 <= j < taken.len() && folder_child(prefix@, #[trigger] taken[j]) == Some(c);
                    assert(next[j] == taken[j]);
                    assert(folder_child(prefix@, next[j]) == Some(c));
                }
                if folder == Some(c) {
                    assert(next[i as int] == e);
                    assert(folder_child(prefix@, next[i as int]) == Some(c));
                }
            }
            assert forall|c: Seq<char>| #[trigger] named(file_plan(files@), c) == named(direct_files(next, prefix@), c) by {
                assert(named(file_plan(old_files), c) == named(direct_files(taken, prefix@), c));
                match direct_file(prefix@, e) {
                    Some(f) => {
                        assert(direct_files(next, prefix@) == direct_files(taken, prefix@).push((i as int, f)));
                        assert(named(direct_files(taken, prefix@).push((i as int, f)), c) == (if has_name(c)((i as int, f)) {
                            named(direct_files(taken, prefix@), c).push((i as int, f))
                        } else {
                            named(direct_files(taken, prefix@), c)
                        }));
                    },
                    None => {
                        assert(direct_files(next, prefix@) == direct_files(taken, prefix@));
                    },
                }
            }
        }
        i = i + 1;
    }
    assert(entries@.take(entries.len() as int) =~= entries@);
    (folders, files)
}

/// The text of the child `component` of the folder `prefix`.
fn child_text(prefix: &str, component: &str) -> (r: String)
    ensures
        r@ == child_path(prefix@, component@),
{
    if chars_of(prefix).len() == 0 {
        owned(component)
    } else {
        let full = join3(prefix, "/", component);
        proof {
            reveal_strlit("/");
            assert(full@ =~= prefix@.push('/') + component@);
        }
        full
    }
}

/// Folders sorted strictly by name, each with its lower-cased name and the
/// entry name of its path.
pub open spec fn folders_sorted(v: Seq<(String, String, EntryName)>, prefix: Seq<char>) -> bool {
    &&& forall|k: int| 0 <= k < v.len() ==> #[trigger] v[k].1@ == unicode_lowercase(v[k].0@)
        && parse_name(child_path(prefix, v[k].0@)) == Ok::<Seq<char>, EntryNameError>(v[k].2@)
    &&& forall|a: int, b: int| 0 <= a < b < v.len() ==> key_lt(name_key(#[trigger] v[a].0@), name_key(#[trigger] v[b].0@))
}

/// `v` holds the folder named `c`.
pub open spec fn lists_folder(v: Seq<(String, String, EntryName)>, c: Seq<char>) -> bool {
    exists|k: int| 0 <= k < v.len() && #[trigger] v[k].0@ == c
}

/// Inserts a folder that is not there yet at its place in name order.
fn insert_folder(out: &mut Vec<(String, String, EntryName)>, x: (String, String, EntryName), Ghost(prefix): Ghost<Seq<char>>)
    requires
        folders_sorted(old(out)@, prefix),
        x.1@ == unicode_lowercase(x.0@),
        parse_name(child_path(prefix, x.0@)) == Ok::<Seq<char>, EntryNameError>(x.2@),
        !lists_folder(old(out)@, x.0@),
    ensures
        folders_sorted(final(out)@, prefix),
        forall|c: Seq<char>| lists_folder(final(out)@, c) <==> (lists_folder(old(out)@, c) || c == x.0@),
{
    let ghost before = out@;
    let ghost key = name_key(x.0@);
    let mut p: usize = 0;
    while p < out.len() && (crate::desktop::archive::text_less(out[p].1.as_str(), x.1.as_str()) || (crate::text::str_eq(
        out[p].1.as_str(),
        x.1.as_str(),
    ) && crate::desktop::archive::text_less(out[p].0.as_str(), x.0.as_str())))
        invariant
            p <= out.len(),
            out@ == before,
            folders_sorted(out@, prefix),
            key == name_key(x.0@),
            x.1@ == unicode_lowercase(x.0@),
            forall|k: int| 0 <= k < p ==> key_lt(name_key(#[trigger] out@[k].0@), key),
        decreases out.len() - p,
    {
        assert(out@[p as int].1@ == unicode_lowercase(out@[p as int].0@));
        p = p + 1;
    }
    proof {
        if p < before.len() {
            assert(before[p as int].1@ == unicode_lowercase(before[p as int].0@));
            assert(before[p as int].0@ != x.0@);
            lemma_key_lt_total(key, name_key(before[p as int].0@));
        }
        assert forall|k: int| p <= k < before.len() implies key_lt(key, name_key(#[trigger] before[k].0@)) by {
            if k > p {
                lemma_key_lt_transitive(key, name_key(before[p as int].0@), name_key(before[k].0@));
            }
        }
    }
    let ghost xv = x;
    out.insert(p, x);
    proof {
        assert(out@[p as int] == xv);
        assert forall|a: int, b: int| 0 <= a < b < out@.len() implies key_lt(
            name_key(#[trigger] out@[a].0@),
            name_key(#[trigger] out@[b].0@),
        ) by {
            if b < p {
                assert(out@[a] == before[a] && out@[b] == before[b]);
            } else if b == p {
                assert(out@[a] == before[a]);
            } else if a == p {
                assert(out@[b] == before[b - 1]);
            } else if a < p {
                assert(out@[a] == before[a] && out@[b] == before[b - 1]);
                lemma_key_lt_transitive(name_key(before[a].0@), key, name_key(before[b - 1].0@));
            } else {
                assert(out@[a] == before[a - 1] && out@[b] == before[b - 1]);
            }
        }
        assert forall|k: int| 0 <= k < out@.len() implies #[trigger] out@[k].1@ == unicode_lowercase(out@[k].0@)
            && parse_name(child_path(prefix, out@[k].0@)) == Ok::<Seq<char>, EntryNameError>(out@[k].2@) by {
            if k < p {
                assert(out@[k] == before[k]);
            } else if k > p {
                assert(out@[k] == before[k - 1]);
            }
        }
        assert forall|c: Seq<char>| lists_folder(out@, c) <==> (lists_folder(before, c) || c == xv.0@) by {
            if lists_folder(out@, c) {
                let k = choose|k: int| 0 <= k < out@.len() && #[trigger] out@[k].0@ == c;
                if k < p {
                    assert(out@[k] == before[k]);
                } else if k > p {
                    assert(out@[k] == before[k - 1]);
                }
            }
            if lists_folder(before, c) {
                let k = choose|k: int| 0 <= k < before.len() && #[trigger] before[k].0@ == c;
                if k < p {
                    assert(out@[k] == before[k]);
                } else {
                    assert(out@[k + 1] == before[k]);
                }
            }
        }
    }
}

/// The folders whose paths are valid entry names, sorted by name.
fn sorted_folders(prefix: &str, folders: &Vec<String>) -> (r: Vec<(String, String, EntryName)>)
    requires
        views(folders@).no_duplicates(),
    ensures
        folders_sorted(r@, prefix@),
        forall|c: Seq<char>| lists_folder(r@, c) <==> (views(folders@).contains(c) && parse_name(child_path(prefix@, c)) is Ok),
{
    let mut out: Vec<(String, String, EntryName)> = Vec::new();
    let mut i: usize = 0;
    while i < folders.len()
        invariant
            i <= folders.len(),
            views(folders@).no_duplicates(),
            folders_sorted(out@, prefix@),
            forall|c: Seq<char>| lists_folder(out@, c) <==> (views(folders@).take(i as int).contains(c) && parse_name(
                child_path(prefix@, c),
            ) is Ok),
        decreases folders.len() - i,
    {
        let ghost before = out@;
        let ghost done = views(folders@).take(i as int);
        let ghost next = views(folders@).take(i + 1);
        let ghost name = folders@[i as int]@;
        assert(views(folders@)[i as int] == name);
        assert(next =~= done.push(name));
        assert(!done.contains(name)) by {
            if done.contains(name) {
                let j = choose|j: int| 0 <= j < done.len() && done[j] == name;
                assert(views(folders@)[j] == views(folders@)[i as int]);
            }
        }
        let full = child_text(prefix, folders[i].as_str());
        match EntryName::new(full.as_str()) {
            Ok(n) => {
                let comp = folders[i].clone();
                let lower = to_lowercase(comp.as_str());
                proof {
                    assert(parse_name(child_path(prefix@, comp@)) == Ok::<Seq<char>, EntryNameError>(n@));
                    assert(!lists_folder(out@, comp@));
                }
                insert_folder(&mut out, (comp, lower, n), Ghost(prefix@));
                proof {
                    assert forall|c: Seq<char>| lists_folder(out@, c) <==> (lists_folder(before, c) || (c == name && parse_name(
                        child_path(prefix@, c),
                    ) is Ok)) by {}
                }
            },
            Err(_) => {
                proof {
                    assert(parse_name(child_path(prefix@, name)) is Err);
                    assert forall|c: Seq<char>| lists_folder(out@, c) <==> (lists_folder(before, c) || (c == name && parse_name(
                        child_path(prefix@, c),
                    ) is Ok)) by {}
                }
            },
        }
        proof {
            assert forall|c: Seq<char>| lists_folder(out@, c) <==> (next.contains(c) && parse_name(child_path(prefix@, c)) is Ok) by {
                assert(lists_folder(before, c) <==> (done.contains(c) && parse_name(child_path(prefix@, c)) is Ok));
                assert(lists_folder(out@, c) <==> (lists_folder(before, c) || (c == name && parse_name(child_path(prefix@, c)) is Ok)));
                if c == name {
                    assert(next[i as int] == c);
                }
                if next.contains(c) {
                    let m = choose|m: int| 0 <= m < next.len() && next[m] == c;
                    if m < i {
                        assert(done[m] == c);
                    }
                }
                if done.contains(c) {
                    let m = choose|m: int| 0 <= m < done.len() && done[m] == c;
                    assert(next[m] == c);
                }
            }
        }
        i = i + 1;
    }
    proof {
        assert(views(folders@).take(i as int) =~= views(folders@));
    }
    out
}

/// The rows of the archive list inside the folder `prefix`: its child
/// folders, then the files directly in it, each group sorted by name.
pub fn visible_rows(archive: &LoadedArchive, prefix: &str) -> (r: Vec<DisplayRow>)
    ensures
        exists|nd: int, g: Seq<(int, Seq<char>)>| rows_split(r@, archive.entries@, prefix@, nd, g),
{
    let (folders, files) = collect_children(&archive.entries, prefix);
    let dirs = sorted_folders(prefix, &folders);
    let mut out: Vec<DisplayRow> = Vec::new();
    let mut i: usize = 0;
    while i < dirs.len()
        invariant
            i <= dirs.len(),
            out@.len() == i,
            folders_sorted(dirs@, prefix@),
            forall|k: int| 0 <= k < i ==> is_folder_row(#[trigger] out@[k], prefix@) && out@[k].name@ == dirs@[k].0@,
        decreases dirs.len() - i,
    {
        let entry = ArchiveEntry::new(EntryId::new(18446744073709551615u64), dirs[i].2.clone(), EntryKind::Directory);
        let row = DisplayRow { entry, name: dirs[i].0.clone() };
        assert(dirs@[i as int].1@ == unicode_lowercase(dirs@[i as int].0@));
        out.push(row);
        i = i + 1;
    }
    let nd = out.len();
    let mut j: usize = 0;
    while j < files.len()
        invariant
            j <= files.len(),
            nd == dirs.len(),
            out@.len() == nd + j,
            forall|k: int| 0 <= k < nd ==> is_folder_row(#[trigger] out@[k], prefix@) && out@[k].name@ == dirs@[k].0@,
            forall|k: int| 0 <= k < files@.len() ==> #[trigger] files@[k].0 < archive.entries@.len(),
            forall|k: int| 0 <= k < j ==> same_entry(#[trigger] out@[nd + k].entry, archive.entries@[files@[k].0 as int])
                && out@[nd + k].name@ == files@[k].1@,
        decreases files.len() - j,
    {
        assert(files@[j as int].0 < archive.entries@.len());
        let row = DisplayRow { entry: archive.entries[files[j].0].clone(), name: files[j].1.clone() };
        out.push(row);
        j = j + 1;
    }
    proof {
        let g = file_plan(files@);
        assert(g.len() == files@.len());
        assert forall|k: int| 0 <= k < nd implies is_listed_folder(archive.entries@, prefix@, #[trigger] out@[k].name@) by {
            assert(out@[k].name@ == dirs@[k].0@);
            assert(lists_folder(dirs@, dirs@[k].0@));
        }
        assert forall|c: Seq<char>| is_listed_folder(archive.entries@, prefix@, c) implies exists|k: int| 0 <= k < nd && #[trigger] out@[k].name@ == c by {
            assert(lists_folder(dirs@, c));
            let k = choose|k: int| 0 <= k < dirs@.len() && #[trigger] dirs@[k].0@ == c;
            assert(out@[k].name@ == c);
        }
        assert forall|a: int, b: int| 0 <= a < b < nd implies key_lt(name_key(#[trigger] out@[a].name@), name_key(#[trigger] out@[b].name@)) by {
            assert(out@[a].name@ == dirs@[a].0@ && out@[b].name@ == dirs@[b].0@);
        }
        assert forall|k: int| 0 <= k < g.len() implies {
            &&& 0 <= #[trigger] g[k].0 < archive.entries@.len()
            &&& same_entry(out@[nd + k].entry, archive.entries@[g[k].0])
            &&& out@[nd + k].name@ == g[k].1
        } by {
            assert(g[k] == (files@[k].0 as int, files@[k].1@));
        }
        assert forall|a: int, b: int| 0 <= a < b < g.len() implies !key_lt(name_key(#[trigger] g[b].1), name_key(#[trigger] g[a].1)) by {
            assert(g[a].1 == files@[a].1@ && g[b].1 == files@[b].1@);
        }
        assert(rows_split(out@, archive.entries@, prefix@, nd as int, g));
    }
    out
}

/// The path made of the components `cs`: a separator between each
/// component and the text before it, once that text is not empty.
pub open spec fn joined(cs: Seq<Seq<char>>) -> Seq<char>
    decreases cs.len(),
{
    if cs.len() == 0 {
        Seq::empty()
    } else {
        let head = joined(cs.drop_last());
        if head.len() == 0 {
            cs.last()
        } else {
            head.push('/') + cs.last()
        }
    }
}

/// The folder `prefix` shows in the tree: every folder above it is expanded.
pub open spec fn ancestors_shown(prefix: Seq<char>, expanded: Set<Seq<char>>) -> bool {
    forall|j: int| 1 <= j < split_components(prefix).len() ==> expanded.contains(
        #[trigger] joined(split_components(prefix).take(j)),
    )
}

/// Appends a component to a path under construction.
pub(crate) fn push_component(path: &mut String, component: &str, Ghost(cs): Ghost<Seq<Seq<char>>>)
    requires
        old(path)@ == joined(cs),
    ensures
        final(path)@ == joined(cs.push(component@)),
{
    proof {
        assert(cs.push(component@).drop_last() =~= cs);
        assert(cs.push(component@).last() == component@);
    }
    if chars_of(path.as_str()).len() != 0 {
        crate::text::push_char(path, '/');
    }
    crate::text::append_str(path, component);
}

/// Whether every folder above `prefix` is expanded.
pub fn ancestors_expanded(prefix: &str, expanded: &Vec<String>) -> (r: bool)
    ensures
        r == ancestors_shown(prefix@, name_set(expanded@)),
{
    let parts = split_text(prefix);
    let ghost cs = split_components(prefix@);
    let mut parent = String::new();
    let mut j: usize = 0;
    assert(parts@.len() >= 1) by {
        crate::entry::lemma_split_components_nonempty(prefix@);
    }
    assert(cs.take(0) =~= Seq::<Seq<char>>::empty());
    while j + 1 < parts.len()
        invariant
            j + 1 <= parts.len(),
            parts@.len() == cs.len(),
            cs == split_components(prefix@),
            forall|i: int| 0 <= i < parts@.len() ==> #[trigger] parts@[i]@ == cs[i],
            parent@ == joined(cs.take(j as int)),
            forall|k: int| 1 <= k <= j ==> name_set(expanded@).contains(#[trigger] joined(cs.take(k))),
        decreases parts.len() - j,
    {
        assert(cs.take(j as int).push(parts@[j as int]@) =~= cs.take(j + 1));
        push_component(&mut parent, parts[j].as_str(), Ghost(cs.take(j as int)));
        j = j + 1;
        if !contains_text(expanded, parent.as_str()) {
            proof {
                assert(!name_set(expanded@).contains(joined(cs.take(j as int))));
            }
            return false;
        }
    }
    true
}

/// One folder of the tree.
#[derive(Debug)]
pub struct FolderRow {
    /// The folder's path.
    pub prefix: String,
    /// Its last component.
    pub label: String,
    /// How many folders it is below the root.
    pub depth: usize,
    /// Whether its children show.
    pub expanded: bool,
}

/// A tree row describes its folder: the last component, the depth and
/// whether the folder is expanded.
pub open spec fn describes(row: FolderRow, expanded: Set<Seq<char>>) -> bool {
    &&& row.label@ == split_components(row.prefix@).last()
    &&& row.depth == split_components(row.prefix@).len() - 1
    &&& row.expanded == expanded.contains(row.prefix@)
}

/// The folders an entry puts in the tree: the paths of its first
/// components, all of them for a directory and all but the last otherwise.
pub open spec fn is_tree_path_of(e: ArchiveEntry, p: Seq<char>) -> bool {
    let cs = split_components(e.name@);
    let limit = if e.kind == EntryKind::Directory {
        cs.len() as int
    } else {
        cs.len() - 1
    };
    exists|j: int| 1 <= j <= limit && p == #[trigger] joined(cs.take(j))
}

/// `p` is a folder of the tree of `entries`.
pub open spec fn in_tree(entries: Seq<ArchiveEntry>, p: Seq<char>) -> bool {
    exists|i: int| 0 <= i < entries.len() && is_tree_path_of(#[trigger] entries[i], p)
}

/// A list of paths in strictly increasing order.
pub open spec fn strictly_sorted(v: Seq<String>) -> bool {
    forall|a: int, b: int| 0 <= a < b < v.len() ==> text_lt(#[trigger] v[a]@, #[trigger] v[b]@)
}

/// Adds a path to a strictly sorted list unless it is there.
fn insert_path(v: &mut Vec<String>, path: String)
    requires
        strictly_sorted(old(v)@),
    ensures
        strictly_sorted(final(v)@),
        name_set(final(v)@) == name_set(old(v)@).insert(path@),
{
    let mut p: usize = 0;
    while p < v.len() && crate::desktop::archive::text_less(v[p].as_str(), path.as_str())
        invariant
            p <= v.len(),
            v@ == old(v)@,
            strictly_sorted(v@),
            forall|k: int| 0 <= k < p ==> text_lt(#[trigger] v@[k]@, path@),
        decreases v.len() - p,
    {
        p = p + 1;
    }
    if p < v.len() && crate::text::str_eq(v[p].as_str(), path.as_str()) {
        proof {
            assert(views(v@)[p as int] == path@);
            assert(name_set(v@).contains(path@));
            assert(name_set(v@).insert(path@) =~= name_set(v@));
        }
        return;
    }
    let ghost before = v@;
    proof {
        assert forall|k: int| p <= k < before.len() implies text_lt(path@, #[trigger] before[k]@) by {
            lemma_text_lt_total(before[p as int]@, path@);
            if k > p {
                lemma_text_lt_transitive(path@, before[p as int]@, before[k]@);
            }
        }
    }
    let ghost s = path@;
    v.insert(p, path);
    proof {
        assert(v@ == before.insert(p as int, v@[p as int]));
        assert forall|a: int, b: int| 0 <= a < b < v@.len() implies text_lt(#[trigger] v@[a]@, #[trigger] v@[b]@) by {
            if b < p {
                assert(v@[a] == before[a] && v@[b] == before[b]);
            } else if b == p {
                assert(v@[a] == before[a]);
            } else if a == p {
                assert(v@[b] == before[b - 1]);
            } else if a < p {
                assert(v@[a] == before[a] && v@[b] == before[b - 1]);
                lemma_text_lt_transitive(before[a]@, s, before[b - 1]@);
            } else {
                assert(v@[a] == before[a - 1] && v@[b] == before[b - 1]);
            }
        }
        assert forall|x: Seq<char>| name_set(v@).contains(x) == name_set(before).insert(s).contains(x) by {
            if name_set(v@).contains(x) {
                let k = choose|k: int| 0 <= k < views(v@).len() && views(v@)[k] == x;
                if k < p {
                    assert(views(before)[k] == x);
                } else if k > p {
                    assert(views(before)[k - 1] == x);
                }
            }
            if name_set(before).contains(x) {
                let k = choose|k: int| 0 <= k < views(before).len() && views(before)[k] == x;
                if k < p {
                    assert(views(v@)[k] == x);
                } else {
                    assert(views(v@)[k + 1] == x);
                }
            }
            if x == s {
                assert(views(v@)[p as int] == x);
            }
        }
        assert(name_set(v@) =~= name_set(before).insert(s));
    }
}

/// The paths of the first one to `j` components.
pub open spec fn first_paths(cs: Seq<Seq<char>>, j: int) -> Set<Seq<char>>
    decreases j,
{
    if j <= 0 {
        Set::empty()
    } else {
        first_paths(cs, j - 1).insert(joined(cs.take(j)))
    }
}

proof fn lemma_first_paths(cs: Seq<Seq<char>>, j: int)
    requires
        0 <= j,
    ensures
        forall|p: Seq<char>| first_paths(cs, j).contains(p) <==> exists|k: int| 1 <= k <= j && p == #[trigger] joined(cs.take(k)),
    decreases j,
{
    if j > 0 {
        lemma_first_paths(cs, j - 1);
        assert forall|p: Seq<char>| first_paths(cs, j).contains(p) <==> exists|k: int| 1 <= k <= j && p == #[trigger] joined(cs.take(k)) by {
            if exists|k: int| 1 <= k <= j && p == #[trigger] joined(cs.take(k)) {
                let k = choose|k: int| 1 <= k <= j && p == #[trigger] joined(cs.take(k));
                if k < j {
                    assert(first_paths(cs, j - 1).contains(p));
                }
            }
            if first_paths(cs, j - 1).contains(p) {
                let k = choose|k: int| 1 <= k <= j - 1 && p == #[trigger] joined(cs.take(k));
                assert(1 <= k <= j);
            }
        }
    }
}

/// Every folder of the tree of `entries`, in path order, each once.
fn tree_paths(entries: &Vec<ArchiveEntry>) -> (r: Vec<String>)
    ensures
        strictly_sorted(r@),
        forall|p: Seq<char>| name_set(r@).contains(p) <==> in_tree(entries@, p),
{
    let mut all: Vec<String> = Vec::new();
    let mut i: usize = 0;
    proof {
        lemma_name_set_empty(all@);
    }
    while i < entries.len()
        invariant
            i <= entries.len(),
            strictly_sorted(all@),
            forall|p: Seq<char>| name_set(all@).contains(p) <==> in_tree(entries@.take(i as int), p),
        decreases entries.len() - i,
    {
        let ghost before = name_set(all@);
        let ghost e = entries@[i as int];
        let ghost cs = split_components(e.name@);
        let parts = entries[i].name.components();
        assert(parts@.len() >= 1) by {
            crate::entry::lemma_split_components_nonempty(e.name@);
        }
        let limit = if entries[i].kind == EntryKind::Directory { parts.len() } else { parts.len() - 1 };
        let mut path = String::new();
        let mut j: usize = 0;
        assert(cs.take(0) =~= Seq::<Seq<char>>::empty());
        assert(name_set(all@) =~= before.union(first_paths(cs, 0)));
        while j < limit
            invariant
                j <= limit <= parts@.len(),
                parts@.len() == cs.len(),
                forall|k: int| 0 <= k < parts@.len() ==> #[trigger] parts@[k]@ == cs[k],
                path@ == joined(cs.take(j as int)),
                strictly_sorted(all@),
                name_set(all@) == before.union(first_paths(cs, j as int)),
            decreases limit - j,
        {
            assert(cs.take(j as int).push(parts@[j as int]@) =~= cs.take(j + 1));
            push_component(&mut path, parts[j].as_str(), Ghost(cs.take(j as int)));
            insert_path(&mut all, path.clone());
            j = j + 1;
            proof {
                assert(first_paths(cs, j as int) == first_paths(cs, j - 1).insert(joined(cs.take(j as int))));
                assert(name_set(all@) =~= before.union(first_paths(cs, j as int)));
            }
        }
        proof {
            lemma_first_paths(cs, j as int);
        }
        proof {
            let taken = entries@.take(i as int);
            let next = entries@.take(i + 1);
            assert(next =~= taken.push(e));
            assert forall|p: Seq<char>| name_set(all@).contains(p) <==> in_tree(next, p) by {
                assert(before.contains(p) <==> in_tree(taken, p));
                assert(name_set(all@).contains(p) <==> (before.contains(p) || first_paths(cs, j as int).contains(p)));
                if in_tree(next, p) {
                    let m = choose|m: int| 0 <= m < next.len() && is_tree_path_of(#[trigger] next[m], p);
                    if m < i {
                        assert(taken[m] == next[m]);
                        assert(in_tree(taken, p));
                    } else {
                        assert(next[m] == e);
                        let k = choose|k: int| 1 <= k <= limit && p == #[trigger] joined(cs.take(k));
                        assert(1 <= k <= j);
                    }
                }
                if in_tree(taken, p) {
                    let m = choose|m: int| 0 <= m < taken.len() && is_tree_path_of(#[trigger] taken[m], p);
                    assert(next[m] == taken[m]);
                    assert(is_tree_path_of(next[m], p));
                }
                if exists|k: int| 1 <= k <= j && p == #[trigger] joined(cs.take(k)) {
                    assert(next[i as int] == e);
                    assert(is_tree_path_of(next[i as int], p));
                }
            }
        }
        i = i + 1;
    }
    assert(entries@.take(entries.len() as int) =~= entries@);
    all
}

/// The rows of the folder tree: every folder of the archive whose
/// ancestors are all expanded, in path order, with its last component,
/// depth and expansion.
pub fn folder_rows(archive: &LoadedArchive, expanded: &Vec<String>) -> (r: Vec<FolderRow>)
    ensures
        forall|a: int, b: int| 0 <= a < b < r@.len() ==> text_lt(#[trigger] r@[a].prefix@, #[trigger] r@[b].prefix@),
        forall|p: Seq<char>| (exists|k: int| 0 <= k < r@.len() && #[trigger] r@[k].prefix@ == p) <==> (in_tree(
            archive.entries@,
            p,
        ) && ancestors_shown(p, name_set(expanded@))),
        forall|k: int| 0 <= k < r@.len() ==> describes(#[trigger] r@[k], name_set(expanded@)),
{
    let all = tree_paths(&archive.entries);
    let mut out: Vec<FolderRow> = Vec::new();
    let ghost mut idx: Seq<int> = Seq::empty();
    let ghost shown = |p: Seq<char>| ancestors_shown(p, name_set(expanded@));
    let mut i: usize = 0;
    while i < all.len()
        invariant
            i <= all.len(),
            strictly_sorted(all@),
            shown == (|p: Seq<char>| ancestors_shown(p, name_set(expanded@))),
            idx.len() == out@.len(),
            forall|k: int| 0 <= k < idx.len() ==> 0 <= #[trigger] idx[k] < i && out@[k].prefix@ == all@[idx[k]]@,
            forall|a: int, b: int| 0 <= a < b < idx.len() ==> #[trigger] idx[a] < #[trigger] idx[b],
            forall|m: int| 0 <= m < i ==> (shown(#[trigger] all@[m]@) <==> exists|k: int| 0 <= k < idx.len() && idx[k] == m),
            forall|k: int| 0 <= k < out@.len() ==> describes(#[trigger] out@[k], name_set(expanded@)),
        decreases all.len() - i,
    {
        let ghost before = out@;
        let ghost idx0 = idx;
        if ancestors_expanded(all[i].as_str(), expanded) {
            let parts = split_text(all[i].as_str());
            proof {
                crate::entry::lemma_split_components_nonempty(all@[i as int]@);
            }
            let label = parts[parts.len() - 1].clone();
            let row = FolderRow {
                prefix: all[i].clone(),
                label,
                depth: parts.len() - 1,
                expanded: contains_text(expanded, all[i].as_str()),
            };
            proof {
                assert(parts@[parts@.len() - 1]@ == split_components(all@[i as int]@)[parts@.len() - 1]);
                assert(row.label@ == split_components(row.prefix@).last());
                assert(row.depth == split_components(row.prefix@).len() - 1);
                assert(name_set(expanded@).contains(row.prefix@) == views(expanded@).contains(row.prefix@));
                assert(describes(row, name_set(expanded@)));
            }
            let ghost new_row = row;
            out.push(row);
            proof {
                assert(out@[before.len() as int] == new_row);
                idx = idx.push(i as int);
                assert forall|k: int| 0 <= k < out@.len() implies describes(#[trigger] out@[k], name_set(expanded@)) by {
                    if k < before.len() {
                        assert(out@[k] == before[k]);
                    } else {
                        assert(out@[k] == new_row);
                    }
                }
                assert forall|k: int| 0 <= k < idx.len() implies 0 <= #[trigger] idx[k] < i + 1 && out@[k].prefix@ == all@[idx[k]]@ by {
                    if k < before.len() {
                        assert(out@[k] == before[k] && idx[k] == idx0[k]);
                    }
                }
                assert forall|m: int| 0 <= m < i + 1 implies (shown(#[trigger] all@[m]@) <==> exists|k: int| 0 <= k < idx.len() && idx[k] == m) by {
                    if m < i {
                        if exists|k: int| 0 <= k < idx0.len() && idx0[k] == m {
                            let k = choose|k: int| 0 <= k < idx0.len() && idx0[k] == m;
                            assert(idx[k] == m);
                        }
                        if exists|k: int| 0 <= k < idx.len() && idx[k] == m {
                            let k = choose|k: int| 0 <= k < idx.len() && idx[k] == m;
                            assert(k < idx0.len() && idx0[k] == m);
                        }
                    } else {
                        assert(idx[idx0.len() as int] == m);
                    }
                }
            }
        } else {
            proof {
                assert forall|m: int| 0 <= m < i + 1 implies (shown(#[trigger] all@[m]@) <==> exists|k: int| 0 <= k < idx.len() && idx[k] == m) by {
                    if m == i {
                        if exists|k: int| 0 <= k < idx.len() && idx[k] == m {
                            let k = choose|k: int| 0 <= k < idx.len() && idx[k] == m;
                        }
                    }
                }
            }
        }
        i = i + 1;
    }
    proof {
        assert forall|a: int, b: int| 0 <= a < b < out@.len() implies text_lt(#[trigger] out@[a].prefix@, #[trigger] out@[b].prefix@) by {
            assert(idx[a] < idx[b]);
            assert(out@[a].prefix@ == all@[idx[a]]@ && out@[b].prefix@ == all@[idx[b]]@);
        }
        assert forall|p: Seq<char>| (exists|k: int| 0 <= k < out@.len() && #[trigger] out@[k].prefix@ == p) <==> (in_tree(
            archive.entries@,
            p,
        ) && ancestors_shown(p, name_set(expanded@))) by {
            assert(name_set(all@).contains(p) <==> in_tree(archive.entries@, p));
            if exists|k: int| 0 <= k < out@.len() && #[trigger] out@[k].prefix@ == p {
                let k = choose|k: int| 0 <= k < out@.len() && #[trigger] out@[k].prefix@ == p;
                let m = idx[k];
                assert(views(all@)[m] == p);
                assert(name_set(all@).contains(p));
                assert(shown(all@[m]@));
            }
            if in_tree(archive.entries@, p) && ancestors_shown(p, name_set(expanded@)) {
                assert(name_set(all@).contains(p));
                let m = choose|m: int| 0 <= m < views(all@).len() && #[trigger] views(all@)[m] == p;
                assert(all@[m]@ == p);
                assert(shown(all@[m]@));
                let k = choose|k: int| 0 <= k < idx.len() && idx[k] == m;
                assert(out@[k].prefix@ == p);
            }
        }
    }
    out
}

} // verus!
