//! The archive engine's handler registry and the decisions taken around
//! native listing, extraction, testing and detection.

use vstd::prelude::*;

use crate::backend::{EntryOutcome, EntrySink, EntrySinkDecision, EntryVisitor};
use crate::detect::{DetectionCandidate, DetectionHint, DetectionResult};
use crate::engine::EngineInfo;
use crate::entry::{ArchiveEntry, EntryId, EntryKind};
use crate::error::{ArchiveError, ErrorView};
use crate::format::{
    extensions_match, hint_key, ArchiveFormatId, CompressionMethod, FormatCapability, FormatDescriptor, LicenseNotice,
};
use crate::io::VolumeProvider;
use crate::limits::{ResourceLimitKind, ResourceLimits};
use crate::operation::{ExtractOptions, OperationContext, OperationKind, OperationReport};
use crate::password::PasswordProvider;
use crate::progress::ProgressReporter;
use crate::text::{lemma_views_push, views, decimal, eq_ignore_case, join3, owned, str_eq_ignore_case, u64_text, append_str};

use super::error::Format7zError;
use super::ffi::{PULP7Z_OK, PULP7Z_PASSWORD_DECLINED, PULP7Z_STREAM_UNAVAILABLE};
use super::loader::{native_message, native_status_error};
use crate::error::bounded;
use super::metadata::RuntimeMetadata;

verus! {

/// The capability an operation needs from a handler.
pub open spec fn capability_of(operation: OperationKind) -> FormatCapability {
    match operation {
        OperationKind::List => FormatCapability::List,
        OperationKind::Extract => FormatCapability::Extract,
        OperationKind::Test => FormatCapability::Test,
        OperationKind::Create => FormatCapability::Create,
        OperationKind::Update => FormatCapability::Update,
        OperationKind::Detect => FormatCapability::List,
    }
}

/// Returns the capability an operation needs from a handler.
pub fn capability_for(operation: OperationKind) -> (r: FormatCapability)
    ensures
        r == capability_of(operation),
{
    match operation {
        OperationKind::List => FormatCapability::List,
        OperationKind::Extract => FormatCapability::Extract,
        OperationKind::Test => FormatCapability::Test,
        OperationKind::Create => FormatCapability::Create,
        OperationKind::Update => FormatCapability::Update,
        OperationKind::Detect => FormatCapability::List,
    }
}

/// The message for an archive nested too deeply.
pub open spec fn depth_error_text(max: usize) -> Seq<char> {
    "archive nesting exceeds the configured limit of "@ + decimal(max as nat) + " layers"@
}

/// Refuses to open a nested archive layer at `depth` or deeper than the
/// configured limit.
pub fn ensure_depth<R: ProgressReporter, P: PasswordProvider, V: VolumeProvider>(context: &OperationContext<R, P, V>, depth: usize) -> (r: Result<(), ArchiveError>)
    ensures
        depth >= context.limits_view().max_depth ==> (r matches Err(e) && e@ == ErrorView::ResourceLimit(
            ResourceLimitKind::Depth,
            depth_error_text(context.limits_view().max_depth),
        )),
        depth < context.limits_view().max_depth ==> r is Ok,
{
    let max = context.limits().max_depth;
    if depth >= max {
        let n = u64_text(max as u64);
        return Err(ArchiveError::ResourceLimit {
            kind: ResourceLimitKind::Depth,
            message: join3("archive nesting exceeds the configured limit of ", n.as_str(), " layers"),
        });
    }
    Ok(())
}

/// The single regular-file entry of a transparent layer, whose content is
/// the next archive; `None` for any other layer.
pub fn transparent_content<'a>(descriptor: Option<&FormatDescriptor>, entries: &'a [ArchiveEntry]) -> (r: Option<&'a ArchiveEntry>)
    ensures
        r is Some <==> (descriptor matches Some(d) && d.capabilities@.contains(FormatCapability::Transparent)
            && entries@.len() == 1 && entries@[0].kind == EntryKind::File),
        r matches Some(e) ==> *e == entries@[0],
{
    let d = match descriptor {
        Some(d) => d,
        None => {
            return None;
        },
    };
    if !d.supports(FormatCapability::Transparent) || entries.len() != 1 {
        return None;
    }
    let entry = &entries[0];
    if entry.kind == EntryKind::File {
        Some(entry)
    } else {
        None
    }
}

/// The values of a sequence of identifiers as a set.
pub open spec fn id_values(ids: Seq<EntryId>) -> Set<u64> {
    Set::new(|x: u64| exists|k: int| 0 <= k < ids.len() && ids[k].0 == x)
}

/// Strictly increasing.
pub open spec fn strictly_increasing(v: Seq<u32>) -> bool {
    forall|a: int, b: int| 0 <= a < b < v.len() ==> v[a] < v[b]
}

/// The error for a selected identifier beyond the native index range.
pub open spec fn selection_range_error() -> ErrorView {
    ErrorView::InvalidInput("selected entry identifier exceeds native index range"@)
}

fn insert_sorted(v: &mut Vec<u32>, x: u32)
    requires
        strictly_increasing(old(v)@),
    ensures
        strictly_increasing(final(v)@),
        forall|y: u32| final(v)@.contains(y) <==> (old(v)@.contains(y) || y == x),
{
    let mut p: usize = 0;
    while p < v.len() && v[p] < x
        invariant
            p <= v.len(),
            forall|k: int| 0 <= k < p ==> v@[k] < x,
        decreases v.len() - p,
    {
        p = p + 1;
    }
    if p < v.len() && v[p] == x {
        assert(v@[p as int] == x);
        return;
    }
    let ghost before = v@;
    v.insert(p, x);
    proof {
        assert(v@ == before.insert(p as int, x));
        assert forall|k: int| 0 <= k < p implies v@[k] == before[k] by {}
        assert(v@[p as int] == x);
        assert forall|k: int| p < k < v@.len() implies v@[k] == before[k - 1] by {}
        assert forall|a: int, b: int| 0 <= a < b < v@.len() implies v@[a] < v@[b] by {
            if b < p {
            } else if b == p {
            } else if a == p {
                assert(before[b - 1] >= x);
                assert(before[b - 1] != x) by {
                    if b - 1 > p {
                        assert(before[p as int] < before[b - 1]);
                    }
                }
            } else if a < p {
                assert(v@[a] < x);
                if b - 1 > p {
                    assert(before[p as int] < before[b - 1]);
                }
            } else {
            }
        }
        assert forall|y: u32| v@.contains(y) implies (before.contains(y) || y == x) by {
            let k = choose|k: int| 0 <= k < v@.len() && v@[k] == y;
            if k < p {
                assert(before[k] == y);
            } else if k > p {
                assert(before[k - 1] == y);
            }
        }
        assert forall|y: u32| (before.contains(y) || y == x) implies v@.contains(y) by {
            if y == x {
                assert(v@[p as int] == x);
            } else {
                let k = choose|k: int| 0 <= k < before.len() && before[k] == y;
                if k < p {
                    assert(v@[k] == y);
                } else {
                    assert(v@[k + 1] == y);
                }
            }
        }
    }
}

/// The native indices of the selected entries: sorted, without repeats, or
/// an error when an identifier does not fit a native index. No selection
/// gives an empty list, which the provider reads as every entry.
pub fn selected_indices(options: &ExtractOptions) -> (r: Result<Vec<u32>, ArchiveError>)
    ensures
        match options.selected {
            None => r matches Ok(v) && v@.len() == 0,
            Some(ids) => if exists|k: int| 0 <= k < ids@.len() && #[trigger] ids@[k].0 > u32::MAX {
                r matches Err(e) && e@ == selection_range_error()
            } else {
                r matches Ok(v) && strictly_increasing(v@) && forall|x: u32| v@.contains(x) <==> id_values(ids@).contains(x as u64)
            },
        },
{
    let selected = match &options.selected {
        None => {
            return Ok(Vec::new());
        },
        Some(ids) => ids,
    };
    let mut indices: Vec<u32> = Vec::new();
    let mut i: usize = 0;
    while i < selected.len()
        invariant
            i <= selected.len(),
            options.selected matches Some(ids) && ids@ == selected@,
            strictly_increasing(indices@),
            forall|k: int| 0 <= k < i ==> #[trigger] selected@[k].0 <= u32::MAX,
            forall|x: u32| indices@.contains(x) <==> id_values(selected@.take(i as int)).contains(x as u64),
        decreases selected.len() - i,
    {
        let id = selected[i].get();
        if id > 4294967295u64 {
            assert(selected@[i as int].0 > u32::MAX);
            return Err(ArchiveError::invalid_input("selected entry identifier exceeds native index range"));
        }
        let ghost before = indices@;
        insert_sorted(&mut indices, id as u32);
        proof {
            assert forall|x: u32| indices@.contains(x) <==> id_values(selected@.take(i as int + 1)).contains(x as u64) by {
                let t = selected@.take(i as int + 1);
                if id_values(t).contains(x as u64) {
                    let k = choose|k: int| 0 <= k < t.len() && t[k].0 == x as u64;
                    if k < i {
                        assert(selected@.take(i as int)[k].0 == x as u64);
                        assert(id_values(selected@.take(i as int)).contains(x as u64));
                    }
                }
                if id_values(selected@.take(i as int)).contains(x as u64) {
                    let k = choose|k: int| 0 <= k < i && selected@.take(i as int)[k].0 == x as u64;
                    assert(t[k].0 == x as u64);
                }
                if x == id as u32 {
                    assert(t[i as int].0 == x as u64);
                }
            }
        }
        i = i + 1;
    }
    proof {
        assert(selected@.take(selected@.len() as int) =~= selected@);
        assert(!exists|k: int| 0 <= k < selected@.len() && #[trigger] selected@[k].0 > u32::MAX);
    }
    Ok(indices)
}

/// The identifiers of some candidates, in order.
pub open spec fn candidate_ids(cs: Seq<DetectionCandidate>) -> Seq<Seq<char>> {
    Seq::new(cs.len(), |i: int| cs[i].descriptor.id@)
}

/// Identifiers taken by their text.
pub open spec fn id_texts(v: Seq<ArchiveFormatId>) -> Seq<Seq<char>> {
    Seq::new(v.len(), |i: int| v[i]@)
}

/// The identifiers of a detection outcome's candidates, in order.
pub open spec fn detected_ids(result: DetectionResult) -> Seq<Seq<char>> {
    match result {
        DetectionResult::Detected(c) => seq![c.descriptor.id@],
        DetectionResult::Ambiguous(cs) => candidate_ids(cs@),
        DetectionResult::Unknown => seq![],
    }
}

/// The identifiers of a detection outcome's candidates, in order.
pub fn detection_ids(result: DetectionResult) -> (r: Vec<ArchiveFormatId>)
    ensures
        id_texts(r@) == detected_ids(result),
{
    match result {
        DetectionResult::Detected(candidate) => {
            let mut v: Vec<ArchiveFormatId> = Vec::new();
            v.push(candidate.descriptor.id);
            assert(id_texts(v@) =~= detected_ids(result));
            v
        },
        DetectionResult::Ambiguous(candidates) => {
            let mut v: Vec<ArchiveFormatId> = Vec::new();
            let mut i: usize = 0;
            while i < candidates.len()
                invariant
                    i <= candidates.len(),
                    v@.len() == i,
                    id_texts(v@) =~= candidate_ids(candidates@.take(i as int)),
                decreases candidates.len() - i,
            {
                let ghost prev = v@;
                let id = candidates[i].descriptor.id.clone();
                v.push(id);
                proof {
                    let t = candidates@.take(i as int + 1);
                    assert forall|k: int| 0 <= k < i + 1 implies #[trigger] id_texts(v@)[k] == candidate_ids(t)[k] by {
                        if k < i {
                            assert(v@[k] == prev[k]);
                            assert(id_texts(prev)[k] == candidate_ids(candidates@.take(i as int))[k]);
                        }
                    }
                }
                i = i + 1;
                assert(id_texts(v@) =~= candidate_ids(candidates@.take(i as int)));
            }
            assert(candidates@.take(i as int) =~= candidates@);
            v
        },
        DetectionResult::Unknown => {
            let v: Vec<ArchiveFormatId> = Vec::new();
            assert(id_texts(v@) =~= detected_ids(result));
            v
        },
    }
}

/// The outcome of probing: no handler, exactly one, or several that opened
/// the archive.
pub open spec fn probe_outcome(opened: Seq<DetectionCandidate>, r: DetectionResult) -> bool {
    if opened.len() == 0 {
        r is Unknown
    } else if opened.len() == 1 {
        r matches DetectionResult::Detected(c) && *c == opened[0]
    } else {
        r matches DetectionResult::Ambiguous(cs) && cs@ == opened
    }
}

/// Classifies the handlers that opened an archive.
pub fn detection_from_opened(opened: Vec<DetectionCandidate>) -> (r: DetectionResult)
    ensures
        probe_outcome(opened@, r),
{
    let mut opened = opened;
    if opened.len() == 0 {
        DetectionResult::Unknown
    } else if opened.len() == 1 {
        let first = opened.remove(0);
        DetectionResult::Detected(Box::new(first))
    } else {
        DetectionResult::Ambiguous(opened)
    }
}

/// The index of the first identifier equal to `id`, or -1.
pub open spec fn position_of(ids: Seq<Seq<char>>, id: Seq<char>) -> int
    decreases ids.len(),
{
    if ids.len() == 0 {
        -1
    } else if position_of(ids.drop_last(), id) >= 0 {
        position_of(ids.drop_last(), id)
    } else if ids.last() == id {
        ids.len() - 1
    } else {
        -1
    }
}

/// Handler identifiers of a registry.
pub open spec fn registry_ids(formats: Seq<FormatDescriptor>) -> Seq<Seq<char>> {
    formats.map_values(|d: FormatDescriptor| d.id@)
}

/// The handlers to probe for `ids`, in order, skipping unknown identifiers
/// and handlers already tested; with the tested marks after them.
pub open spec fn untested_run(fids: Seq<Seq<char>>, ids: Seq<Seq<char>>, tested: Seq<bool>) -> (Seq<usize>, Seq<bool>)
    decreases ids.len(),
{
    if ids.len() == 0 {
        (seq![], tested)
    } else {
        let (out, t) = untested_run(fids, ids.drop_last(), tested);
        let k = position_of(fids, ids.last());
        if k < 0 || t[k] {
            (out, t)
        } else {
            (out.push(k as usize), t.update(k, true))
        }
    }
}

proof fn lemma_position_bounds(ids: Seq<Seq<char>>, id: Seq<char>)
    ensures
        -1 <= position_of(ids, id) < ids.len(),
        position_of(ids, id) >= 0 ==> ids[position_of(ids, id)] == id,
        position_of(ids, id) < 0 ==> !ids.contains(id),
        forall|j: int| 0 <= j < position_of(ids, id) ==> ids[j] != id,
    decreases ids.len(),
{
    if ids.len() > 0 {
        lemma_position_bounds(ids.drop_last(), id);
        let p = position_of(ids.drop_last(), id);
        if p < 0 {
            assert forall|j: int| 0 <= j < ids.len() - 1 implies ids[j] != id by {
                assert(ids.drop_last()[j] == ids[j]);
                if ids[j] == id {
                    assert(ids.drop_last().contains(id));
                }
            }
            if ids.last() != id {
                assert forall|j: int| 0 <= j < ids.len() implies ids[j] != id by {}
            }
        } else {
            assert forall|j: int| 0 <= j < p implies ids[j] != id by {
                assert(ids.drop_last()[j] == ids[j]);
            }
        }
    }
}

proof fn lemma_untested_len(fids: Seq<Seq<char>>, ids: Seq<Seq<char>>, tested: Seq<bool>)
    requires
        tested.len() == fids.len(),
    ensures
        untested_run(fids, ids, tested).1.len() == tested.len(),
    decreases ids.len(),
{
    if ids.len() > 0 {
        lemma_untested_len(fids, ids.drop_last(), tested);
        lemma_position_bounds(fids, ids.last());
    }
}

fn find_format(formats: &[FormatDescriptor], id: &ArchiveFormatId) -> (r: Option<usize>)
    ensures
        match r {
            Some(k) => position_of(registry_ids(formats@), id@) == k as int && k < formats@.len(),
            None => position_of(registry_ids(formats@), id@) < 0,
        },
{
    let ghost fids = registry_ids(formats@);
    proof {
        lemma_position_bounds(fids, id@);
    }
    let mut i: usize = 0;
    while i < formats.len()
        invariant
            i <= formats.len(),
            fids == registry_ids(formats@),
            forall|j: int| 0 <= j < i ==> fids[j] != id@,
            -1 <= position_of(fids, id@) < fids.len(),
            position_of(fids, id@) >= 0 ==> fids[position_of(fids, id@)] == id@,
            position_of(fids, id@) < 0 ==> !fids.contains(id@),
            forall|j: int| 0 <= j < position_of(fids, id@) ==> fids[j] != id@,
        decreases formats.len() - i,
    {
        if formats[i].id.same(id) {
            assert(fids[i as int] == id@);
            return Some(i);
        }
        i = i + 1;
    }
    None
}

/// Selects the handlers to probe for `ids` that were not tested yet, and
/// marks them tested.
pub fn untested_indices(formats: &[FormatDescriptor], ids: &[ArchiveFormatId], tested: &mut Vec<bool>) -> (r: Vec<usize>)
    requires
        old(tested)@.len() == formats@.len(),
    ensures
        (r@, final(tested)@) == untested_run(registry_ids(formats@), ids@.map_values(|f: ArchiveFormatId| f@), old(tested)@),
{
    let ghost fids = registry_ids(formats@);
    let ghost all = ids@.map_values(|f: ArchiveFormatId| f@);
    let mut indices: Vec<usize> = Vec::new();
    let mut i: usize = 0;
    proof {
        assert(all.take(0) =~= Seq::<Seq<char>>::empty());
    }
    while i < ids.len()
        invariant
            i <= ids.len(),
            fids == registry_ids(formats@),
            all == ids@.map_values(|f: ArchiveFormatId| f@),
            tested@.len() == formats@.len(),
            (indices@, tested@) == untested_run(fids, all.take(i as int), old(tested)@),
        decreases ids.len() - i,
    {
        proof {
            assert(all.take(i as int + 1).drop_last() =~= all.take(i as int));
            assert(all.take(i as int + 1).last() == ids@[i as int]@);
            lemma_position_bounds(fids, ids@[i as int]@);
        }
        match find_format(formats, &ids[i]) {
            None => {},
            Some(k) => {
                if !tested[k] {
                    tested.set(k, true);
                    indices.push(k);
                }
            },
        }
        i = i + 1;
    }
    proof {
        assert(all.take(ids@.len() as int) =~= all);
    }
    indices
}

/// The positions not yet tested, in order.
pub open spec fn untested_positions(tested: Seq<bool>) -> Seq<usize>
    decreases tested.len(),
{
    if tested.len() == 0 {
        seq![]
    } else if tested.last() {
        untested_positions(tested.drop_last())
    } else {
        untested_positions(tested.drop_last()).push((tested.len() - 1) as usize)
    }
}

/// The handlers left to probe after the signature and hint candidates.
pub fn remaining_indices(tested: &Vec<bool>) -> (r: Vec<usize>)
    ensures
        r@ == untested_positions(tested@),
{
    let mut out: Vec<usize> = Vec::new();
    let mut i: usize = 0;
    while i < tested.len()
        invariant
            i <= tested.len(),
            out@ == untested_positions(tested@.take(i as int)),
        decreases tested.len() - i,
    {
        proof {
            assert(tested@.take(i as int + 1).drop_last() =~= tested@.take(i as int));
        }
        if !tested[i] {
            out.push(i);
        }
        i = i + 1;
    }
    assert(tested@.take(tested@.len() as int) =~= tested@);
    out
}

/// The warning given when the caller's filename extension differs from the
/// extension hint and the detected handler does not claim it.
pub open spec fn mismatch_warning(hint: Option<DetectionHint>, result: DetectionResult) -> Option<Seq<char>> {
    match (hint, result) {
        (Some(h), DetectionResult::Detected(c)) => match (h.filename_extension, h.extension) {
            (Some(fe), Some(e)) => if !eq_ignore_case(e@, fe@) && !(extensions_match(c.descriptor.extensions@, hint_key(fe@))
                || extensions_match(c.descriptor.add_extensions@, hint_key(fe@))) {
                Some("filename extension '."@ + fe@ + "' does not match the detected "@ + c.descriptor.name@ + " handler"@)
            } else {
                None
            },
            _ => None,
        },
        _ => None,
    }
}

/// Builds the extension mismatch warning of a detection, if any.
pub fn extension_warning(hint: Option<&DetectionHint>, result: &DetectionResult) -> (r: Option<String>)
    ensures
        match mismatch_warning(match hint { Some(h) => Some(*h), None => None }, *result) {
            Some(w) => r matches Some(s) && s@ == w,
            None => r is None,
        },
{
    let h = match hint {
        Some(h) => h,
        None => {
            return None;
        },
    };
    let candidate = match result {
        DetectionResult::Detected(c) => c,
        _ => {
            return None;
        },
    };
    match (&h.filename_extension, &h.extension) {
        (Some(fe), Some(e)) => {
            if !str_eq_ignore_case(e.as_str(), fe.as_str()) && !candidate.descriptor.matches_extension(fe.as_str()) {
                let mut w = join3("filename extension '.", fe.as_str(), "' does not match the detected ");
                append_str(&mut w, candidate.descriptor.name.as_str());
                append_str(&mut w, " handler");
                Some(w)
            } else {
                None
            }
        },
        _ => None,
    }
}

/// The limit on a nested archive stream copied to a temporary file.
pub fn nested_stream_limit(limits: &ResourceLimits) -> (r: u64)
    ensures
        r == (if limits.max_entry_bytes < limits.max_total_bytes { limits.max_entry_bytes } else { limits.max_total_bytes }),
{
    if limits.max_entry_bytes < limits.max_total_bytes {
        limits.max_entry_bytes
    } else {
        limits.max_total_bytes
    }
}

/// A visitor that keeps every listed entry.
#[derive(Debug, Default)]
pub struct LayerEntries {
    /// The entries seen, in order.
    pub entries: Vec<ArchiveEntry>,
}

impl EntryVisitor for LayerEntries {
    fn visit(&mut self, entry: &ArchiveEntry) -> (r: Result<(), ArchiveError>)
        ensures
            r is Ok,
            final(self).entries@.len() == old(self).entries@.len() + 1,
            final(self).entries@.drop_last() == old(self).entries@,
            crate::entry::same_entry(final(self).entries@.last(), *entry),
    {
        self.entries.push(entry.clone());
        Ok(())
    }
}

/// A sink that writes only the regular-file entry at native `index` to one
/// output, for copying a nested archive out of its layer.
pub struct SingleEntrySink<W> {
    /// The native index of the wanted entry.
    pub index: u32,
    /// The output, until the wanted entry takes it.
    pub output: Option<W>,
    /// Whether the wanted entry was written.
    pub completed: bool,
}

impl<W> SingleEntrySink<W> {
    /// A sink for entry `index` writing to `output`.
    pub fn new(index: u32, output: W) -> (r: Self)
        ensures
            r.index == index,
            r.output == Some(output),
            !r.completed,
    {
        SingleEntrySink { index, output: Some(output), completed: false }
    }
}

impl<W> EntrySink for SingleEntrySink<W> {
    type Writer = W;

    fn begin<R: ProgressReporter, P: PasswordProvider, V: VolumeProvider>(
        &mut self,
        entry: &ArchiveEntry,
        context: &OperationContext<R, P, V>,
    ) -> (r: Result<EntrySinkDecision<W>, ArchiveError>)
        ensures
            (entry.id.0 != old(self).index as u64 || entry.kind != EntryKind::File) ==> (r matches Ok(
                EntrySinkDecision::Skip,
            ) && final(self).output == old(self).output),
            (entry.id.0 == old(self).index as u64 && entry.kind == EntryKind::File) ==> match old(self).output {
                Some(w) => r == Ok::<EntrySinkDecision<W>, ArchiveError>(EntrySinkDecision::Write(w)) && final(self).output is None,
                None => r matches Err(e) && e@ == ErrorView::Internal("nested archive entry stream was opened twice"@),
            },
            final(self).index == old(self).index,
            final(self).completed == old(self).completed,
    {
        if entry.id.get() != self.index as u64 || entry.kind != EntryKind::File {
            return Ok(EntrySinkDecision::Skip);
        }
        match self.output.take() {
            Some(output) => Ok(EntrySinkDecision::Write(output)),
            None => Err(ArchiveError::Internal(owned("nested archive entry stream was opened twice"))),
        }
    }

    fn finish<R: ProgressReporter, P: PasswordProvider, V: VolumeProvider>(
        &mut self,
        entry: &ArchiveEntry,
        outcome: EntryOutcome,
        context: &OperationContext<R, P, V>,
    ) -> (r: Result<(), ArchiveError>)
        ensures
            r is Ok,
            final(self).completed == (old(self).completed || (entry.id.0 == old(self).index as u64 && outcome is Written)),
            final(self).index == old(self).index,
            final(self).output == old(self).output,
    {
        if entry.id.get() == self.index as u64 {
            match outcome {
                EntryOutcome::Written { .. } => {
                    self.completed = true;
                },
                _ => {},
            }
        }
        Ok(())
    }
}

/// The message of the engine loaded without handlers.
pub open spec fn no_handlers_text() -> Seq<char> {
    "Format7zF did not expose any archive handlers"@
}

/// A Format7zF-backed archive engine: its identity and the handlers and
/// methods the provider exposed.
pub struct ArchiveEngine {
    info: EngineInfo,
    formats: Vec<FormatDescriptor>,
    methods: Vec<CompressionMethod>,
}

impl ArchiveEngine {
    /// The handlers of the engine.
    pub closed spec fn formats_view(&self) -> Seq<FormatDescriptor> {
        self.formats@
    }

    /// The identity of the engine.
    pub closed spec fn info_view(&self) -> EngineInfo {
        self.info
    }

    /// The methods of the engine.
    pub closed spec fn methods_view(&self) -> Seq<CompressionMethod> {
        self.methods@
    }

    /// Assembles an engine from the provider's metadata; a provider without
    /// handlers is refused.
    pub fn from_metadata(metadata: RuntimeMetadata) -> (r: Result<ArchiveEngine, Format7zError>)
        ensures
            metadata.formats@.len() == 0 <==> r is Err,
            r matches Err(e) ==> (e matches Format7zError::Metadata(m) && m@ == no_handlers_text()),
            r matches Ok(engine) ==> engine.formats_view() == metadata.formats@ && engine.methods_view() == metadata.methods@
                && engine.info_view().name@ == "Format7zF"@ && engine.info_view().version is None
                && engine.info_view().library_path is None && views(engine.info_view().diagnostics@) == seq![
                "handler and method capabilities were queried from the embedded provider"@,
                "the native provider is statically linked through the Pulp C ABI bridge"@,
            ],
    {
        if metadata.formats.len() == 0 {
            return Err(Format7zError::Metadata(owned("Format7zF did not expose any archive handlers")));
        }
        let mut diagnostics: Vec<String> = Vec::new();
        let d0 = owned("handler and method capabilities were queried from the embedded provider");
        let d1 = owned("the native provider is statically linked through the Pulp C ABI bridge");
        proof {
            lemma_views_push(diagnostics@, d0);
            lemma_views_push(diagnostics@.push(d0), d1);
            assert(views(diagnostics@) =~= Seq::<Seq<char>>::empty());
        }
        diagnostics.push(d0);
        diagnostics.push(d1);
        let info = EngineInfo {
            name: owned("Format7zF"),
            version: None,
            library_path: None,
            license: LicenseNotice::new(
                "7zip-lgpl",
                "7-Zip components are distributed under the LGPL-2.1-or-later license.",
                "https://www.7-zip.org/license.txt",
            ),
            diagnostics,
        };
        Ok(ArchiveEngine { info, formats: metadata.formats, methods: metadata.methods })
    }

    /// Returns all compression methods reported by the loaded provider.
    pub fn methods(&self) -> (r: &[CompressionMethod])
        ensures
            r@ == self.methods_view(),
    {
        self.methods.as_slice()
    }

    /// Returns engine identity and native build diagnostics.
    pub fn info(&self) -> (r: &EngineInfo)
        ensures
            *r == self.info_view(),
    {
        &self.info
    }

    /// Returns every archive handler exposed by the embedded provider.
    pub fn formats(&self) -> (r: &[FormatDescriptor])
        ensures
            r@ == self.formats_view(),
    {
        self.formats.as_slice()
    }

    /// Finds the first handler with the given identifier.
    pub fn format(&self, id: &ArchiveFormatId) -> (r: Option<&FormatDescriptor>)
        ensures
            match r {
                Some(d) => {
                    let k = position_of(registry_ids(self.formats_view()), id@);
                    0 <= k < self.formats_view().len() && *d == self.formats_view()[k]
                },
                None => position_of(registry_ids(self.formats_view()), id@) < 0,
            },
    {
        match find_format(self.formats.as_slice(), id) {
            Some(k) => Some(&self.formats[k]),
            None => None,
        }
    }

    /// The handler with the given identifier, when it supports the
    /// operation.
    pub fn require_format(&self, format: &ArchiveFormatId, operation: OperationKind) -> (r: Result<&FormatDescriptor, ArchiveError>)
        ensures
            ({
                let k = position_of(registry_ids(self.formats_view()), format@);
                if k < 0 || k >= self.formats_view().len() {
                    r matches Err(e) && e@ == ErrorView::UnsupportedFormat(format@)
                } else if !self.formats_view()[k].capabilities@.contains(capability_of(operation)) {
                    r matches Err(e) && e@ == ErrorView::UnsupportedOperation(operation, Some(self.formats_view()[k].name@))
                } else {
                    r matches Ok(d) && *d == self.formats_view()[k]
                }
            }),
    {
        let descriptor = match self.format(format) {
            Some(d) => d,
            None => {
                return Err(ArchiveError::UnsupportedFormat(owned(format.as_str())));
            },
        };
        if !descriptor.supports(capability_for(operation)) {
            return Err(ArchiveError::UnsupportedOperation { operation, format: Some(descriptor.name.clone()) });
        }
        Ok(descriptor)
    }
}

/// The refusal of an archive no handler opened.
pub open spec fn no_handler_opened_text() -> Seq<char> {
    "no Format7zF handler could open the archive"@
}

/// The refusal of an archive several handlers opened.
pub open spec fn several_handlers_opened_text() -> Seq<char> {
    "multiple Format7zF handlers opened the archive"@
}

/// The handler an archive is read with, from what the probes found: the
/// one handler that opened it; none, or several, are refused.
pub fn detected_format(result: DetectionResult) -> (r: Result<ArchiveFormatId, ArchiveError>)
    ensures
        match result {
            DetectionResult::Detected(c) => r == Ok::<ArchiveFormatId, ArchiveError>(c.descriptor.id),
            DetectionResult::Ambiguous(_) => r matches Err(e) && e@ == ErrorView::UnsupportedFormat(several_handlers_opened_text()),
            DetectionResult::Unknown => r matches Err(e) && e@ == ErrorView::UnsupportedFormat(no_handler_opened_text()),
        },
{
    match result {
        DetectionResult::Detected(c) => Ok(c.descriptor.id),
        DetectionResult::Ambiguous(_) => Err(ArchiveError::UnsupportedFormat(owned("multiple Format7zF handlers opened the archive"))),
        DetectionResult::Unknown => Err(ArchiveError::UnsupportedFormat(owned("no Format7zF handler could open the archive"))),
    }
}

/// The handler of the archive inside a transparent layer: the one handler
/// that opened it, or none, in which case the layer is read as it is.
pub fn inner_format(result: DetectionResult) -> (r: Option<ArchiveFormatId>)
    ensures
        match result {
            DetectionResult::Detected(c) => r == Some(c.descriptor.id),
            _ => r is None,
        },
{
    match result {
        DetectionResult::Detected(c) => Some(c.descriptor.id),
        _ => None,
    }
}

/// Whether a probe opened the archive: the handler accepted it, or only
/// lacked a password, and the callbacks recorded no failure.
pub fn probe_opened(status: i32, callbacks_ok: bool) -> (r: bool)
    ensures
        r == ((status == PULP7Z_OK || status == PULP7Z_PASSWORD_DECLINED) && callbacks_ok),
{
    (status == PULP7Z_OK || status == PULP7Z_PASSWORD_DECLINED) && callbacks_ok
}

/// A native call that lists, extracts or writes a whole archive.
#[derive(Clone, Copy, Debug, PartialEq, Eq, Structural)]
pub enum NativeCall {
    /// Listing the entries.
    List,
    /// Extracting or testing the entries.
    Extract,
    /// Writing a new archive.
    Create,
}

/// The diagnostic used when a failed call left none.
pub open spec fn call_fallback(call: NativeCall) -> Seq<char> {
    match call {
        NativeCall::List => "Format7zF listing failed"@,
        NativeCall::Extract => "Format7zF extraction failed"@,
        NativeCall::Create => "Format7zF archive creation failed"@,
    }
}

fn fallback_text(call: NativeCall) -> (r: &'static str)
    ensures
        r@ == call_fallback(call),
{
    proof {
        reveal_strlit("Format7zF listing failed");
        reveal_strlit("Format7zF extraction failed");
        reveal_strlit("Format7zF archive creation failed");
    }
    match call {
        NativeCall::List => "Format7zF listing failed",
        NativeCall::Extract => "Format7zF extraction failed",
        NativeCall::Create => "Format7zF archive creation failed",
    }
}

/// The report of a native call once it returned: the failure of the stream
/// the provider read or wrote first, then the callbacks', then the
/// provider's own status.
pub fn native_call_outcome(
    call: NativeCall,
    stream_error: Option<ArchiveError>,
    state: Result<OperationReport, ArchiveError>,
    status: i32,
    message: &[u8; 512],
) -> (r: Result<OperationReport, ArchiveError>)
    ensures
        stream_error matches Some(e) ==> r == Err::<OperationReport, ArchiveError>(e),
        stream_error is None && state is Err ==> r == state,
        stream_error is None && state is Ok && status == PULP7Z_OK ==> r == state,
        stream_error is None && state is Ok && status != PULP7Z_OK ==> (r matches Err(ArchiveError::Native { status: s, message: m })
            && s == status && match native_message(message@) {
            Some(text) => m@ == text,
            None => bounded(call_fallback(call), m@),
        }),
{
    if let Some(e) = stream_error {
        return Err(e);
    }
    let report = match state {
        Ok(report) => report,
        Err(e) => {
            return Err(e);
        },
    };
    if status != PULP7Z_OK {
        return Err(native_status_error(status, message, fallback_text(call)));
    }
    Ok(report)
}

/// The refusal of a nested archive stream longer than the limit.
pub open spec fn nested_limit_text(limit: u64) -> Seq<char> {
    "nested archive stream exceeds the configured limit of "@ + decimal(limit as nat) + " bytes"@
}

/// The diagnostic used when a failed stream copy left none.
pub open spec fn copy_fallback() -> Seq<char> {
    "Format7z entry stream copy failed"@
}

/// Whether an entry's stream was copied, once the native copy returned:
/// the input's failure first, then the limit, the output's failure and the
/// callbacks'; then a handler without streams asks for an extraction
/// instead, and any other failed status is refused.
pub fn stream_copy_outcome(
    input_error: Option<ArchiveError>,
    limit_hit: bool,
    limit: u64,
    output_error: Option<ArchiveError>,
    state: Result<OperationReport, ArchiveError>,
    status: i32,
    message: &[u8; 512],
) -> (r: Result<bool, ArchiveError>)
    ensures
        input_error matches Some(e) ==> r == Err::<bool, ArchiveError>(e),
        input_error is None && limit_hit ==> (r matches Err(e) && e@ == ErrorView::ResourceLimit(
            ResourceLimitKind::EntryBytes,
            nested_limit_text(limit),
        )),
        input_error is None && !limit_hit ==> {
            &&& output_error matches Some(e) ==> r == Err::<bool, ArchiveError>(e)
            &&& output_error is None ==> (state matches Err(e) ==> r == Err::<bool, ArchiveError>(e))
            &&& output_error is None && state is Ok ==> {
                &&& status == PULP7Z_STREAM_UNAVAILABLE ==> r == Ok::<bool, ArchiveError>(false)
                &&& status == PULP7Z_OK ==> r == Ok::<bool, ArchiveError>(true)
                &&& status != PULP7Z_OK && status != PULP7Z_STREAM_UNAVAILABLE ==> (r matches Err(
                    ArchiveError::Native { status: s, message: m },
                ) && s == status && match native_message(message@) {
                    Some(text) => m@ == text,
                    None => bounded(copy_fallback(), m@),
                })
            }
        },
{
    if let Some(e) = input_error {
        return Err(e);
    }
    if limit_hit {
        let n = u64_text(limit);
        return Err(ArchiveError::ResourceLimit {
            kind: ResourceLimitKind::EntryBytes,
            message: join3("nested archive stream exceeds the configured limit of ", n.as_str(), " bytes"),
        });
    }
    if let Some(e) = output_error {
        return Err(e);
    }
    if let Err(e) = state {
        return Err(e);
    }
    if status == PULP7Z_STREAM_UNAVAILABLE {
        return Ok(false);
    }
    if status != PULP7Z_OK {
        proof {
            reveal_strlit("Format7z entry stream copy failed");
        }
        return Err(native_status_error(status, message, "Format7z entry stream copy failed"));
    }
    Ok(true)
}

} // verus!
