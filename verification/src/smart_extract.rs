//! Preflight planning of where extracted entries go.

use vstd::prelude::*;

use crate::entry::{
    ArchiveEntry, EntryId, EntryKind, EntryName, EntryNameError, first_sep,
    name_error_text, parse_name, same_entry,
};
use crate::error::{ArchiveError, ErrorView};
use crate::text::{
    chars_of, contains_char, decimal, join2, join3, owned, str_eq, string_of, trim, trim_chars,
    u64_text,
};

verus! {

/// Where an extraction operation should place the archive's entries.
#[derive(Clone, Debug, PartialEq, Eq)]
pub enum ExtractDestination {
    /// Choose a destination from the archive contents.
    Smart,
    /// Use a caller-selected, already validated display name.
    Explicit(String),
}

/// How a caller wants existing names to be handled during extraction.
#[derive(Clone, Copy, Debug, Default, PartialEq, Eq, Structural)]
pub enum CollisionPolicy {
    /// Ask the UI or caller when a collision is found.
    #[default]
    Ask,
    /// Keep the existing destination and skip the entry.
    Skip,
    /// Replace the existing destination after policy checks.
    Overwrite,
    /// Pick a free suffixed name.
    AutoRename,
}

/// A non-fatal condition found while building an extraction plan.
#[derive(Clone, Debug, PartialEq, Eq)]
pub struct PolicyWarning {
    /// Stable warning code for UI and CLI filtering.
    pub code: String,
    /// Human-readable explanation.
    pub message: String,
    /// Related entry, when the warning is entry-specific.
    pub entry: Option<EntryId>,
}

/// An entry and its archive-relative destination name.
#[derive(Debug, PartialEq, Eq)]
pub struct PlannedEntry {
    /// Original archive entry metadata.
    pub entry: ArchiveEntry,
    /// Destination name relative to the chosen extraction root.
    pub destination_name: EntryName,
}

/// A preflight result for an extraction operation.
#[derive(Debug, PartialEq, Eq)]
pub struct ExtractPlan {
    /// Directory name selected relative to the caller's destination parent.
    /// An empty string means the caller's current directory.
    pub destination_name: String,
    /// Entries mapped into that destination.
    pub entries: Vec<PlannedEntry>,
    /// Non-fatal information the caller may show before execution.
    pub warnings: Vec<PolicyWarning>,
    /// Collision behavior selected for execution.
    pub collision_policy: CollisionPolicy,
}

/// Supplies names already present in the caller's destination directory.
pub trait ExistingNameSet {
    /// Whether the name is occupied.
    spec fn has_name(&self, name: Seq<char>) -> bool;

    /// Returns whether a name is occupied.
    fn contains(&self, name: &str) -> (r: bool)
        ensures
            r == self.has_name(name@);
}

impl ExistingNameSet for Vec<String> {
    open spec fn has_name(&self, name: Seq<char>) -> bool {
        exists|i: int| 0 <= i < self@.len() && #[trigger] self@[i]@ == name
    }

    fn contains(&self, name: &str) -> (r: bool) {
        let mut i: usize = 0;
        while i < self.len()
            invariant
                i <= self.len(),
                forall|j: int| 0 <= j < i ==> #[trigger] self@[j]@ != name@,
            decreases self.len() - i,
        {
            if str_eq(self[i].as_str(), name) {
                return true;
            }
            i = i + 1;
        }
        false
    }
}

/// Number of entries of kind `File`.
pub open spec fn count_files(es: Seq<PlannedEntry>) -> nat
    decreases es.len(),
{
    if es.len() == 0 {
        0
    } else {
        count_files(es.drop_last()) + if es.last().entry.kind == EntryKind::File { 1nat } else { 0nat }
    }
}

/// Sum of the known sizes, saturating at `u64::MAX`.
pub open spec fn declared_sum(es: Seq<PlannedEntry>) -> u64
    decreases es.len(),
{
    if es.len() == 0 {
        0
    } else {
        let s = declared_sum(es.drop_last());
        match es.last().entry.size {
            Some(n) => if s + n > u64::MAX { u64::MAX } else { (s + n) as u64 },
            None => s,
        }
    }
}

impl ExtractPlan {
    /// Returns the number of regular files in this plan.
    pub fn file_count(&self) -> (r: usize)
        ensures
            r == count_files(self.entries@),
    {
        let mut n: usize = 0;
        let mut i: usize = 0;
        while i < self.entries.len()
            invariant
                i <= self.entries.len(),
                n == count_files(self.entries@.take(i as int)),
                n <= i,
            decreases self.entries.len() - i,
        {
            proof {
                assert(self.entries@.take(i + 1).drop_last() =~= self.entries@.take(i as int));
            }
            if self.entries[i].entry.kind == EntryKind::File {
                n = n + 1;
            }
            i = i + 1;
        }
        assert(self.entries@.take(self.entries@.len() as int) =~= self.entries@);
        n
    }

    /// Returns the sum of known unpacked bytes, saturating.
    pub fn declared_bytes(&self) -> (r: u64)
        ensures
            r == declared_sum(self.entries@),
    {
        let mut total: u64 = 0;
        let mut i: usize = 0;
        while i < self.entries.len()
            invariant
                i <= self.entries.len(),
                total == declared_sum(self.entries@.take(i as int)),
            decreases self.entries.len() - i,
        {
            proof {
                assert(self.entries@.take(i + 1).drop_last() =~= self.entries@.take(i as int));
            }
            if let Some(size) = self.entries[i].entry.size {
                total = total.saturating_add(size);
            }
            i = i + 1;
        }
        assert(self.entries@.take(self.entries@.len() as int) =~= self.entries@);
        total
    }
}

/// Entry `i` has the same name as an earlier entry.
pub open spec fn seen_before(es: Seq<ArchiveEntry>, i: int) -> bool {
    exists|j: int| 0 <= j < i && #[trigger] es[j].name@ == es[i].name@
}

/// The policy violation of the first rejected entry: a repeated name or a
/// special file.
pub open spec fn entries_problem(es: Seq<ArchiveEntry>) -> Option<Seq<char>>
    decreases es.len(),
{
    if es.len() == 0 {
        None
    } else {
        match entries_problem(es.drop_last()) {
            Some(m) => Some(m),
            None => {
                let i = es.len() - 1;
                if seen_before(es, i) {
                    Some("duplicate archive entry: "@ + es[i].name@)
                } else if es[i].kind == EntryKind::Special {
                    Some("special archive entry is not allowed: "@ + es[i].name@)
                } else {
                    None
                }
            },
        }
    }
}

/// The message for a stem holding a separator.
pub open spec fn stem_separator_text() -> Seq<char> {
    "archive stem must not contain a path separator"@
}

/// The directory stem used for a plan: the trimmed stem, `archive` when it is
/// empty; stems with separators or invalid names are rejected.
pub open spec fn stem_result(stem: Seq<char>) -> Result<Seq<char>, ErrorView> {
    let t = trim(stem);
    if t.len() == 0 {
        Ok("archive"@)
    } else if t.contains('/') || t.contains('\\') {
        Err(ErrorView::InvalidInput(stem_separator_text()))
    } else {
        match parse_name(t) {
            Err(e) => Err(ErrorView::PathViolation(name_error_text(e))),
            Ok(n) => Ok(n),
        }
    }
}

/// The first component of a name.
pub open spec fn top_component(n: Seq<char>) -> Seq<char> {
    n.subrange(0, first_sep(n))
}

/// There is at least one entry and all entries share their first component.
pub open spec fn shares_top(es: Seq<ArchiveEntry>) -> bool {
    es.len() > 0 && forall|i: int| 0 <= i < es.len() ==> top_component(#[trigger] es[i].name@) == top_component(es[0].name@)
}

/// `stem (n)`.
pub open spec fn suffixed(stem: Seq<char>, n: nat) -> Seq<char> {
    stem + " ("@ + decimal(n) + ")"@
}

/// The least `k >= n`, `k <= u32::MAX`, whose suffixed name is free; -1 if none.
pub open spec fn first_free<E: ExistingNameSet + ?Sized>(set: &E, stem: Seq<char>, n: int) -> int
    decreases u32::MAX + 1 - n,
{
    if n < 0 || n > u32::MAX {
        -1
    } else if !set.has_name(suffixed(stem, n as nat)) {
        n
    } else {
        first_free(set, stem, n + 1)
    }
}

/// The stem itself when free, else the first free `stem (n)` for `n >= 2`, else
/// `stem (2)`.
pub open spec fn free_name<E: ExistingNameSet + ?Sized>(set: &E, stem: Seq<char>) -> Seq<char> {
    if !set.has_name(stem) {
        stem
    } else {
        let k = first_free(set, stem, 2);
        if k < 0 {
            suffixed(stem, 2)
        } else {
            suffixed(stem, k as nat)
        }
    }
}

/// The message for an occupied destination.
pub open spec fn occupied_text(name: Seq<char>) -> Seq<char> {
    "extraction destination already exists: "@ + name
}

/// The chosen destination directory: none when all entries share a top
/// component, otherwise the stem (renamed when the policy asks for it).
pub open spec fn destination_result<E: ExistingNameSet + ?Sized>(
    stem: Seq<char>,
    es: Seq<ArchiveEntry>,
    set: &E,
    policy: CollisionPolicy,
) -> Result<Seq<char>, ErrorView> {
    if shares_top(es) {
        Ok(seq![])
    } else {
        let candidate = if policy == CollisionPolicy::AutoRename {
            free_name(set, stem)
        } else {
            stem
        };
        if policy == CollisionPolicy::Ask && set.has_name(candidate) {
            Err(ErrorView::PolicyViolation(occupied_text(candidate)))
        } else {
            Ok(candidate)
        }
    }
}

/// The destination names of the entries below `dest`, or the first name failure.
pub open spec fn planned_names(dest: Seq<char>, es: Seq<ArchiveEntry>) -> Result<Seq<Seq<char>>, EntryNameError>
    decreases es.len(),
{
    if es.len() == 0 {
        Ok(seq![])
    } else {
        match planned_names(dest, es.drop_last()) {
            Err(e) => Err(e),
            Ok(v) => if dest.len() == 0 {
                Ok(v.push(es.last().name@))
            } else {
                match parse_name(dest + "/"@ + es.last().name@) {
                    Err(e) => Err(e),
                    Ok(n) => Ok(v.push(n)),
                }
            },
        }
    }
}

/// The planned entries copy the archive entries and carry the given names.
pub open spec fn planned_match(p: Seq<PlannedEntry>, es: Seq<ArchiveEntry>, names: Seq<Seq<char>>) -> bool {
    &&& p.len() == es.len()
    &&& names.len() == es.len()
    &&& forall|i: int| 0 <= i < p.len() ==> same_entry(#[trigger] p[i].entry, es[i]) && p[i].destination_name@ == names[i]
}

/// A warning taken by its code, message and entry.
pub open spec fn warning_view(w: PolicyWarning) -> (Seq<char>, Seq<char>, Option<EntryId>) {
    (w.code@, w.message@, w.entry)
}

/// The warnings of a smart plan: an empty archive, and entries that are not
/// regular files.
pub open spec fn smart_warnings(es: Seq<ArchiveEntry>) -> Seq<(Seq<char>, Seq<char>, Option<EntryId>)> {
    let a: Seq<(Seq<char>, Seq<char>, Option<EntryId>)> = if es.len() == 0 {
        seq![("empty-archive"@, "The archive does not contain extractable entries"@, None)]
    } else {
        seq![]
    };
    let b: Seq<(Seq<char>, Seq<char>, Option<EntryId>)> = if exists|i: int| 0 <= i < es.len() && #[trigger] es[i].kind != EntryKind::File {
        seq![("non-regular-entry"@, "The archive contains directories or links; extraction safety policy still applies"@, None)]
    } else {
        seq![]
    };
    a + b
}

/// What a plan holds once every check has passed.
pub open spec fn plan_holds(
    p: ExtractPlan,
    dest: Seq<char>,
    es: Seq<ArchiveEntry>,
    names: Seq<Seq<char>>,
    warnings: Seq<(Seq<char>, Seq<char>, Option<EntryId>)>,
    policy: CollisionPolicy,
) -> bool {
    &&& p.destination_name@ == dest
    &&& planned_match(p.entries@, es, names)
    &&& p.warnings@.map_values(|w: PolicyWarning| warning_view(w)) == warnings
    &&& p.collision_policy == policy
}

/// The outcome of smart planning: entry checks, then the stem, then the
/// destination choice, then the destination names.
pub open spec fn smart_plan_spec<E: ExistingNameSet + ?Sized>(
    stem: Seq<char>,
    es: Seq<ArchiveEntry>,
    set: &E,
    policy: CollisionPolicy,
    r: Result<ExtractPlan, ArchiveError>,
) -> bool {
    match entries_problem(es) {
        Some(m) => r matches Err(e) && e@ == ErrorView::PolicyViolation(m),
        None => match stem_result(stem) {
            Err(ev) => r matches Err(e) && e@ == ev,
            Ok(s) => match destination_result(s, es, set, policy) {
                Err(ev) => r matches Err(e) && e@ == ev,
                Ok(d) => match planned_names(d, es) {
                    Err(ne) => r matches Err(e) && e@ == ErrorView::PathViolation(name_error_text(ne)),
                    Ok(names) => r matches Ok(p) && plan_holds(p, d, es, names, smart_warnings(es), policy),
                },
            },
        },
    }
}

proof fn lemma_problem_prefix(s: Seq<ArchiveEntry>, k: int)
    requires
        0 <= k <= s.len(),
        entries_problem(s.take(k)) is Some,
    ensures
        entries_problem(s) == entries_problem(s.take(k)),
    decreases s.len() - k,
{
    if k == s.len() {
        assert(s.take(k) =~= s);
    } else {
        let d = s.drop_last();
        assert(d.take(k) =~= s.take(k));
        lemma_problem_prefix(d, k);
    }
}

proof fn lemma_names_prefix(dest: Seq<char>, s: Seq<ArchiveEntry>, k: int)
    requires
        0 <= k <= s.len(),
        planned_names(dest, s.take(k)) is Err,
    ensures
        planned_names(dest, s) == planned_names(dest, s.take(k)),
    decreases s.len() - k,
{
    if k == s.len() {
        assert(s.take(k) =~= s);
    } else {
        let d = s.drop_last();
        assert(d.take(k) =~= s.take(k));
        lemma_names_prefix(dest, d, k);
    }
}

fn validate_entries(entries: &[ArchiveEntry]) -> (r: Result<(), ArchiveError>)
    ensures
        match entries_problem(entries@) {
            Some(m) => r matches Err(e) && e@ == ErrorView::PolicyViolation(m),
            None => r is Ok,
        },
{
    let mut i: usize = 0;
    while i < entries.len()
        invariant
            i <= entries.len(),
            entries_problem(entries@.take(i as int)) is None,
        decreases entries.len() - i,
    {
        let ghost t = entries@.take(i + 1);
        proof {
            assert(t.drop_last() =~= entries@.take(i as int));
        }
        let name = entries[i].name.as_str();
        let mut j: usize = 0;
        while j < i
            invariant
                j <= i < entries.len(),
                t == entries@.take(i + 1),
                name@ == entries@[i as int].name@,
                entries_problem(entries@.take(i as int)) is None,
                t.drop_last() == entries@.take(i as int),
                forall|k: int| 0 <= k < j ==> #[trigger] entries@[k].name@ != entries@[i as int].name@,
            decreases i - j,
        {
            if str_eq(entries[j].name.as_str(), name) {
                proof {
                    assert(t[j as int] == entries@[j as int]);
                    assert(t[i as int] == entries@[i as int]);
                    assert(t[j as int].name@ == t[i as int].name@);
                    assert(seen_before(t, i as int));
                    lemma_problem_prefix(entries@, i + 1);
                }
                return Err(ArchiveError::PolicyViolation(join2("duplicate archive entry: ", name)));
            }
            j = j + 1;
        }
        proof {
            assert forall|k: int| 0 <= k < i implies #[trigger] t[k].name@ != t[i as int].name@ by {
                assert(t[k] == entries@[k]);
            }
            assert(!seen_before(t, i as int));
        }
        if entries[i].kind == EntryKind::Special {
            proof {
                lemma_problem_prefix(entries@, i + 1);
            }
            return Err(ArchiveError::PolicyViolation(join2("special archive entry is not allowed: ", name)));
        }
        i = i + 1;
    }
    assert(entries@.take(entries@.len() as int) =~= entries@);
    Ok(())
}

fn validate_stem(value: &str) -> (r: Result<String, ArchiveError>)
    ensures
        match stem_result(value@) {
            Ok(s) => r matches Ok(x) && x@ == s,
            Err(ev) => r matches Err(e) && e@ == ev,
        },
{
    let t = trim_chars(&chars_of(value));
    if t.len() == 0 {
        return Ok(owned("archive"));
    }
    if contains_char(&t, '/') || contains_char(&t, '\\') {
        return Err(ArchiveError::invalid_input("archive stem must not contain a path separator"));
    }
    let s = string_of(&t);
    match EntryName::new(s.as_str()) {
        Ok(n) => Ok(n.into_string()),
        Err(e) => Err(ArchiveError::from_name_error(e)),
    }
}

fn top_of(n: &EntryName) -> (r: Vec<char>)
    ensures
        r@ == top_component(n@),
{
    let v = chars_of(n.as_str());
    let mut k: usize = 0;
    while k < v.len() && v[k] != '/'
        invariant
            k <= v.len(),
            forall|j: int| 0 <= j < k ==> v@[j] != '/',
        decreases v.len() - k,
    {
        k = k + 1;
    }
    proof {
        crate::entry::lemma_first_sep_at(v@, k as int);
    }
    crate::text::sub_chars(&v, 0, k)
}

fn all_share_top(entries: &[ArchiveEntry]) -> (r: bool)
    ensures
        r == shares_top(entries@),
{
    if entries.len() == 0 {
        return false;
    }
    let first = top_of(&entries[0].name);
    let mut i: usize = 0;
    while i < entries.len()
        invariant
            0 < entries.len(),
            i <= entries.len(),
            first@ == top_component(entries@[0].name@),
            forall|j: int| 0 <= j < i ==> top_component(#[trigger] entries@[j].name@) == top_component(entries@[0].name@),
        decreases entries.len() - i,
    {
        let t = top_of(&entries[i].name);
        if !crate::text::chars_eq(&t, &first) {
            return false;
        }
        i = i + 1;
    }
    true
}

fn suffixed_text(stem: &str, n: u64) -> (r: String)
    ensures
        r@ == suffixed(stem@, n as nat),
{
    let number = u64_text(n);
    let mut s = join3(stem, " (", number.as_str());
    crate::text::append_str(&mut s, ")");
    s
}

fn free_suffix<E: ExistingNameSet + ?Sized>(stem: &str, existing: &E) -> (r: String)
    ensures
        r@ == free_name(existing, stem@),
{
    if !existing.contains(stem) {
        return owned(stem);
    }
    let mut n: u64 = 2;
    while n <= 4294967295
        invariant
            2 <= n <= 4294967296,
            existing.has_name(stem@),
            first_free(existing, stem@, 2) == first_free(existing, stem@, n as int),
        decreases 4294967296 - n,
    {
        let candidate = suffixed_text(stem, n);
        if !existing.contains(candidate.as_str()) {
            assert(first_free(existing, stem@, n as int) == n);
            return candidate;
        }
        n = n + 1;
    }
    assert(first_free(existing, stem@, n as int) == -1);
    suffixed_text(stem, 2)
}

fn choose_destination<E: ExistingNameSet + ?Sized>(
    stem: &str,
    entries: &[ArchiveEntry],
    existing: &E,
    policy: CollisionPolicy,
) -> (r: Result<String, ArchiveError>)
    ensures
        match destination_result(stem@, entries@, existing, policy) {
            Ok(d) => r matches Ok(x) && x@ == d,
            Err(ev) => r matches Err(e) && e@ == ev,
        },
{
    if all_share_top(entries) {
        return Ok(String::new());
    }
    let candidate = match policy {
        CollisionPolicy::AutoRename => free_suffix(stem, existing),
        _ => owned(stem),
    };
    if policy == CollisionPolicy::Ask && existing.contains(candidate.as_str()) {
        return Err(ArchiveError::PolicyViolation(
            join2("extraction destination already exists: ", candidate.as_str()),
        ));
    }
    Ok(candidate)
}

fn plan_entries(dest: &str, entries: &[ArchiveEntry]) -> (r: Result<Vec<PlannedEntry>, ArchiveError>)
    ensures
        match planned_names(dest@, entries@) {
            Err(ne) => r matches Err(e) && e@ == ErrorView::PathViolation(name_error_text(ne)),
            Ok(names) => r matches Ok(p) && planned_match(p@, entries@, names),
        },
{
    let mut out: Vec<PlannedEntry> = Vec::new();
    let mut i: usize = 0;
    let ghost mut names: Seq<Seq<char>> = seq![];
    while i < entries.len()
        invariant
            i <= entries.len(),
            planned_names(dest@, entries@.take(i as int)) == Ok::<Seq<Seq<char>>, EntryNameError>(names),
            planned_match(out@, entries@.take(i as int), names),
        decreases entries.len() - i,
    {
        let ghost t = entries@.take(i + 1);
        proof {
            assert(t.drop_last() =~= entries@.take(i as int));
            assert(t.last() == entries@[i as int]);
        }
        let destination = if dest.is_empty() {
            entries[i].name.clone()
        } else {
            let joined = join3(dest, "/", entries[i].name.as_str());
            match EntryName::new(joined.as_str()) {
                Ok(n) => n,
                Err(e) => {
                    proof {
                        lemma_names_prefix(dest@, entries@, i + 1);
                    }
                    return Err(ArchiveError::from_name_error(e));
                },
            }
        };
        let ghost before = out@;
        out.push(PlannedEntry { entry: entries[i].clone(), destination_name: destination });
        proof {
            names = names.push(destination@);
            assert forall|k: int| 0 <= k < out@.len() implies same_entry(#[trigger] out@[k].entry, t[k]) && out@[k].destination_name@ == names[k] by {
                if k < i {
                    assert(out@[k] == before[k]);
                    assert(t[k] == entries@.take(i as int)[k]);
                }
            }
        }
        i = i + 1;
    }
    assert(entries@.take(entries@.len() as int) =~= entries@);
    Ok(out)
}

fn has_non_file(entries: &[ArchiveEntry]) -> (r: bool)
    ensures
        r == exists|i: int| 0 <= i < entries@.len() && #[trigger] entries@[i].kind != EntryKind::File,
{
    let mut i: usize = 0;
    while i < entries.len()
        invariant
            i <= entries.len(),
            forall|j: int| 0 <= j < i ==> #[trigger] entries@[j].kind == EntryKind::File,
        decreases entries.len() - i,
    {
        if entries[i].kind != EntryKind::File {
            return true;
        }
        i = i + 1;
    }
    false
}

fn warning(code: &str, message: &str) -> (r: PolicyWarning)
    ensures
        warning_view(r) == (code@, message@, None::<EntryId>),
{
    PolicyWarning { code: owned(code), message: owned(message), entry: None }
}

/// Builds the default smart-extraction plan, renaming a colliding destination.
pub fn plan_smart_destination<E: ExistingNameSet + ?Sized>(
    archive_stem: &str,
    entries: &[ArchiveEntry],
    existing_names: &E,
) -> (r: Result<ExtractPlan, ArchiveError>)
    ensures
        smart_plan_spec(archive_stem@, entries@, existing_names, CollisionPolicy::AutoRename, r),
{
    plan_smart_destination_with_policy(archive_stem, entries, existing_names, CollisionPolicy::AutoRename)
}

/// Builds a smart-extraction plan with an explicit collision policy.
pub fn plan_smart_destination_with_policy<E: ExistingNameSet + ?Sized>(
    archive_stem: &str,
    entries: &[ArchiveEntry],
    existing_names: &E,
    collision_policy: CollisionPolicy,
) -> (r: Result<ExtractPlan, ArchiveError>)
    ensures
        smart_plan_spec(archive_stem@, entries@, existing_names, collision_policy, r),
{
    validate_entries(entries)?;
    let stem = validate_stem(archive_stem)?;
    let destination_name = choose_destination(stem.as_str(), entries, existing_names, collision_policy)?;
    let planned = plan_entries(destination_name.as_str(), entries)?;
    let mut warnings: Vec<PolicyWarning> = Vec::new();
    if entries.len() == 0 {
        warnings.push(warning("empty-archive", "The archive does not contain extractable entries"));
    }
    if has_non_file(entries) {
        warnings.push(warning(
            "non-regular-entry",
            "The archive contains directories or links; extraction safety policy still applies",
        ));
    }
    assert(warnings@.map_values(|w: PolicyWarning| warning_view(w)) =~= smart_warnings(entries@));
    Ok(ExtractPlan { destination_name, entries: planned, warnings, collision_policy })
}

/// The destination of an explicit plan: empty for a blank name, else the
/// parsed name.
pub open spec fn explicit_destination(name: Seq<char>) -> Result<Seq<char>, EntryNameError> {
    if trim(name).len() == 0 {
        Ok(seq![])
    } else {
        parse_name(name)
    }
}

/// Builds a plan rooted at a caller-selected relative display name.
pub fn plan_explicit_destination(
    destination_name: &str,
    entries: &[ArchiveEntry],
    collision_policy: CollisionPolicy,
) -> (r: Result<ExtractPlan, ArchiveError>)
    ensures
        match entries_problem(entries@) {
            Some(m) => r matches Err(e) && e@ == ErrorView::PolicyViolation(m),
            None => match explicit_destination(destination_name@) {
                Err(ne) => r matches Err(e) && e@ == ErrorView::PathViolation(name_error_text(ne)),
                Ok(d) => match planned_names(d, entries@) {
                    Err(ne) => r matches Err(e) && e@ == ErrorView::PathViolation(name_error_text(ne)),
                    Ok(names) => r matches Ok(p) && plan_holds(p, d, entries@, names, seq![], collision_policy),
                },
            },
        },
{
    validate_entries(entries)?;
    let trimmed = trim_chars(&chars_of(destination_name));
    let destination = if trimmed.len() == 0 {
        String::new()
    } else {
        match EntryName::new(destination_name) {
            Ok(n) => n.into_string(),
            Err(e) => return Err(ArchiveError::from_name_error(e)),
        }
    };
    let planned = plan_entries(destination.as_str(), entries)?;
    let warnings: Vec<PolicyWarning> = Vec::new();
    assert(warnings@.map_values(|w: PolicyWarning| warning_view(w)) =~= Seq::<(Seq<char>, Seq<char>, Option<EntryId>)>::empty());
    Ok(ExtractPlan { destination_name: destination, entries: planned, warnings, collision_policy })
}

} // verus!

verus! {

proof fn lemma_first_free<E: ExistingNameSet + ?Sized>(set: &E, stem: Seq<char>, n: int)
    requires
        n >= 0,
    ensures
        first_free(set, stem, n) >= 0 ==> !set.has_name(suffixed(stem, first_free(set, stem, n) as nat)),
        first_free(set, stem, n) >= 0 ==> n <= first_free(set, stem, n) <= u32::MAX,
        (exists|m: int| n <= m <= u32::MAX && 0 <= m && !set.has_name(#[trigger] suffixed(stem, m as nat)))
            ==> first_free(set, stem, n) >= 0,
    decreases u32::MAX + 1 - n,
{
    if 0 <= n <= u32::MAX && set.has_name(suffixed(stem, n as nat)) {
        lemma_first_free(set, stem, n + 1);
        if exists|m: int| n <= m <= u32::MAX && 0 <= m && !set.has_name(#[trigger] suffixed(stem, m as nat)) {
            let m = choose|m: int| n <= m <= u32::MAX && 0 <= m && !set.has_name(#[trigger] suffixed(stem, m as nat));
            assert(m != n);
            assert(n + 1 <= m);
            assert(!set.has_name(suffixed(stem, m as nat)));
        }
    }
}

/// With automatic renaming, the destination chosen for a stem is not an
/// occupied name whenever the stem or one of its numbered variants
/// `stem (2)` … `stem (4294967295)` is free.
pub proof fn law_auto_rename_avoids_collisions<E: ExistingNameSet + ?Sized>(set: &E, stem: Seq<char>)
    requires
        !set.has_name(stem) || exists|m: int| 2 <= m <= u32::MAX && !set.has_name(#[trigger] suffixed(stem, m as nat)),
    ensures
        !set.has_name(free_name(set, stem)),
        free_name(set, stem) == stem || exists|m: int| 2 <= m <= u32::MAX && free_name(set, stem) == #[trigger] suffixed(stem, m as nat),
{
    lemma_first_free(set, stem, 2);
    if set.has_name(stem) {
        let k = first_free(set, stem, 2);
        assert(free_name(set, stem) == suffixed(stem, k as nat));
    }
}

/// A smart plan never extracts into an occupied directory: when it succeeds
/// with a non-empty destination under the `Ask` policy, the destination name is
/// not in the set of existing names.
pub proof fn law_ask_never_reuses_existing<E: ExistingNameSet + ?Sized>(
    stem: Seq<char>,
    es: Seq<ArchiveEntry>,
    set: &E,
    r: Result<ExtractPlan, ArchiveError>,
)
    requires
        smart_plan_spec(stem, es, set, CollisionPolicy::Ask, r),
        r is Ok,
    ensures
        r->Ok_0.destination_name@.len() > 0 ==> !set.has_name(r->Ok_0.destination_name@),
{
}

proof fn lemma_no_entries_problem(es: Seq<ArchiveEntry>)
    requires
        forall|i: int, j: int| 0 <= i < j < es.len() ==> (#[trigger] es[i]).name@ != (#[trigger] es[j]).name@,
        forall|i: int| 0 <= i < es.len() ==> (#[trigger] es[i]).kind != EntryKind::Special,
    ensures
        entries_problem(es) is None,
    decreases es.len(),
{
    if es.len() > 0 {
        let d = es.drop_last();
        assert forall|i: int, j: int| 0 <= i < j < d.len() implies (#[trigger] d[i]).name@ != (#[trigger] d[j]).name@ by {
            assert(d[i] == es[i] && d[j] == es[j]);
        }
        assert forall|i: int| 0 <= i < d.len() implies (#[trigger] d[i]).kind != EntryKind::Special by {
            assert(d[i] == es[i]);
        }
        lemma_no_entries_problem(d);
        let last = es.len() - 1;
        assert(!seen_before(es, last)) by {
            if seen_before(es, last) {
                let j = choose|j: int| 0 <= j < last && #[trigger] es[j].name@ == es[last].name@;
                assert(es[j].name@ != es[last].name@);
            }
        }
        assert(es[last].kind != EntryKind::Special);
    }
}

proof fn lemma_names_in_place(es: Seq<ArchiveEntry>)
    ensures
        planned_names(seq![], es) matches Ok(v) && v.len() == es.len()
            && forall|i: int| 0 <= i < es.len() ==> #[trigger] v[i] == es[i].name@,
    decreases es.len(),
{
    if es.len() > 0 {
        lemma_names_in_place(es.drop_last());
        let v = planned_names(seq![], es.drop_last())->Ok_0;
        let w = v.push(es.last().name@);
        assert(planned_names(seq![], es) == Ok::<Seq<Seq<char>>, EntryNameError>(w));
        assert forall|i: int| 0 <= i < es.len() implies #[trigger] w[i] == es[i].name@ by {
            if i < es.len() - 1 {
                assert(w[i] == v[i]);
                assert(es.drop_last()[i] == es[i]);
            }
        }
    }
}

/// An archive whose entries all lie in one top-level folder is extracted in
/// place: that folder is kept as it is, no wrapping folder is added and
/// every entry lands at its own name, whatever the entries' kinds. When the
/// entries do not share their first component, a successful plan extracts
/// into a named folder.
pub proof fn law_single_top_folder_is_not_wrapped<E: ExistingNameSet + ?Sized>(
    stem: Seq<char>,
    es: Seq<ArchiveEntry>,
    set: &E,
    policy: CollisionPolicy,
    r: Result<ExtractPlan, ArchiveError>,
)
    requires
        smart_plan_spec(stem, es, set, policy, r),
        stem_result(stem) is Ok,
        forall|i: int, j: int| 0 <= i < j < es.len() ==> (#[trigger] es[i]).name@ != (#[trigger] es[j]).name@,
        forall|i: int| 0 <= i < es.len() ==> (#[trigger] es[i]).kind != EntryKind::Special,
    ensures
        es.len() > 0 && (forall|i: int| 0 <= i < es.len() ==>
            (#[trigger] es[i]).name@.subrange(0, first_sep(es[i].name@)) == es[0].name@.subrange(0, first_sep(es[0].name@)))
            ==> (r matches Ok(p) && p.destination_name@.len() == 0 && p.entries@.len() == es.len()
                && forall|i: int| 0 <= i < es.len() ==> (#[trigger] p.entries@[i]).destination_name@ == es[i].name@),
        (exists|i: int| 0 <= i < es.len()
            && (#[trigger] es[i]).name@.subrange(0, first_sep(es[i].name@)) != es[0].name@.subrange(0, first_sep(es[0].name@)))
            && r is Ok ==> r->Ok_0.destination_name@.len() > 0,
{
    lemma_no_entries_problem(es);
    lemma_names_in_place(es);
    let s = stem_result(stem)->Ok_0;
    assert(s.len() > 0) by {
        reveal_strlit("archive");
    }
    if es.len() > 0 && (forall|i: int| 0 <= i < es.len() ==>
        (#[trigger] es[i]).name@.subrange(0, first_sep(es[i].name@)) == es[0].name@.subrange(0, first_sep(es[0].name@))) {
        assert(shares_top(es));
        let names = planned_names(seq![], es)->Ok_0;
        assert(destination_result(s, es, set, policy) == Ok::<Seq<char>, ErrorView>(seq![]));
        let p = r->Ok_0;
        assert(plan_holds(p, seq![], es, names, smart_warnings(es), policy));
        assert forall|i: int| 0 <= i < es.len() implies (#[trigger] p.entries@[i]).destination_name@ == es[i].name@ by {
            assert(names[i] == es[i].name@);
            assert(same_entry(p.entries@[i].entry, es[i]));
        }
    }
    if exists|i: int| 0 <= i < es.len()
        && (#[trigger] es[i]).name@.subrange(0, first_sep(es[i].name@)) != es[0].name@.subrange(0, first_sep(es[0].name@))
    {
        let i = choose|i: int| 0 <= i < es.len()
            && (#[trigger] es[i]).name@.subrange(0, first_sep(es[i].name@)) != es[0].name@.subrange(0, first_sep(es[0].name@));
        assert(top_component(es[i].name@) != top_component(es[0].name@));
        assert(!shares_top(es));
        if policy == CollisionPolicy::AutoRename && set.has_name(s) {
            let k = first_free(set, s, 2);
            assert(suffixed(s, 2).len() > 0);
            if k >= 0 {
                assert(suffixed(s, k as nat).len() > 0);
            }
        }
    }
}

} // verus!
