//! What the command line prints: the handler and method tables, one line
//! per listed entry, the answer of a detection and the summary of a
//! finished operation.

use vstd::prelude::*;

use crate::detect::{join_parts, join_texts, DetectionResult};
use crate::entry::{ArchiveEntry, EntryKind};
use crate::error::{ArchiveError, ErrorView};
use crate::format::{ArchiveFormatId, CompressionMethod, FormatCapability, FormatDescriptor};
use crate::native::decoder::candidate_ids;
use crate::text::{append_str, decimal, join2, lemma_views_push, owned, u64_text, views};

verus! {

/// The name a capability is printed by.
pub open spec fn capability_name(c: FormatCapability) -> Seq<char> {
    match c {
        FormatCapability::List => "List"@,
        FormatCapability::Extract => "Extract"@,
        FormatCapability::Test => "Test"@,
        FormatCapability::Create => "Create"@,
        FormatCapability::Update => "Update"@,
        FormatCapability::Password => "Password"@,
        FormatCapability::HeaderEncryption => "HeaderEncryption"@,
        FormatCapability::Solid => "Solid"@,
        FormatCapability::MultiVolume => "MultiVolume"@,
        FormatCapability::StreamingInput => "StreamingInput"@,
        FormatCapability::StreamingOutput => "StreamingOutput"@,
        FormatCapability::SeekableInput => "SeekableInput"@,
        FormatCapability::SeekableOutput => "SeekableOutput"@,
        FormatCapability::Transparent => "Transparent"@,
    }
}

/// The name of a capability.
pub fn capability_text(c: FormatCapability) -> (r: &'static str)
    ensures
        r@ == capability_name(c),
{
    match c {
        FormatCapability::List => "List",
        FormatCapability::Extract => "Extract",
        FormatCapability::Test => "Test",
        FormatCapability::Create => "Create",
        FormatCapability::Update => "Update",
        FormatCapability::Password => "Password",
        FormatCapability::HeaderEncryption => "HeaderEncryption",
        FormatCapability::Solid => "Solid",
        FormatCapability::MultiVolume => "MultiVolume",
        FormatCapability::StreamingInput => "StreamingInput",
        FormatCapability::StreamingOutput => "StreamingOutput",
        FormatCapability::SeekableInput => "SeekableInput",
        FormatCapability::SeekableOutput => "SeekableOutput",
        FormatCapability::Transparent => "Transparent",
    }
}

/// The first line of the handler table.
pub open spec fn provider_header_text(count: nat) -> Seq<char> {
    "Format7zF: embedded static provider ("@ + decimal(count) + " formats)"@
}

/// The first line of the handler table, for `count` handlers.
pub fn provider_header(count: usize) -> (r: String)
    ensures
        r@ == provider_header_text(count as nat),
{
    let n = u64_text(count as u64);
    let mut r = owned("Format7zF: embedded static provider (");
    append_str(&mut r, n.as_str());
    append_str(&mut r, " formats)");
    r
}

/// The line of a handler: identifier, name, extensions in brackets and
/// capabilities, separated by tabs.
pub open spec fn format_line_text(d: FormatDescriptor) -> Seq<char> {
    d.id@ + "\t"@ + d.name@ + "\t["@ + join_parts(views(d.extensions@), ","@) + "]\t"@ + join_parts(
        d.capabilities@.map_values(|c: FormatCapability| capability_name(c)),
        ","@,
    )
}

/// The line of a handler.
pub fn format_line(d: &FormatDescriptor) -> (r: String)
    ensures
        r@ == format_line_text(*d),
{
    let mut names: Vec<String> = Vec::new();
    let mut i: usize = 0;
    while i < d.capabilities.len()
        invariant
            i <= d.capabilities@.len(),
            views(names@) == d.capabilities@.take(i as int).map_values(|c: FormatCapability| capability_name(c)),
        decreases d.capabilities.len() - i,
    {
        let ghost before = names@;
        names.push(owned(capability_text(d.capabilities[i])));
        proof {
            lemma_views_push(before, names@.last());
            assert(d.capabilities@.take(i + 1).map_values(|c: FormatCapability| capability_name(c))
                =~= d.capabilities@.take(i as int).map_values(|c: FormatCapability| capability_name(c)).push(
                capability_name(d.capabilities@[i as int]),
            ));
        }
        i = i + 1;
    }
    proof {
        assert(d.capabilities@.take(d.capabilities@.len() as int) =~= d.capabilities@);
    }
    let extensions = join_texts(&d.extensions, ",");
    let capabilities = join_texts(&names, ",");
    let mut r = owned(d.id.as_str());
    append_str(&mut r, "\t");
    append_str(&mut r, d.name.as_str());
    append_str(&mut r, "\t[");
    append_str(&mut r, extensions.as_str());
    append_str(&mut r, "]\t");
    append_str(&mut r, capabilities.as_str());
    r
}

/// How a flag is printed.
pub open spec fn bool_text(b: bool) -> Seq<char> {
    if b {
        "true"@
    } else {
        "false"@
    }
}

/// The line of a compression method: identifier, whether it decodes and
/// encodes, and its name.
pub open spec fn method_line_text(m: CompressionMethod) -> Seq<char> {
    m.id@ + "\tdecode="@ + bool_text(m.can_decode) + " encode="@ + bool_text(m.can_encode) + "\t"@ + m.name@
}

fn flag_text(b: bool) -> (r: &'static str)
    ensures
        r@ == bool_text(b),
{
    if b {
        "true"
    } else {
        "false"
    }
}

/// The line of a compression method.
pub fn method_line(m: &CompressionMethod) -> (r: String)
    ensures
        r@ == method_line_text(*m),
{
    let mut r = owned(m.id.as_str());
    append_str(&mut r, "\tdecode=");
    append_str(&mut r, flag_text(m.can_decode));
    append_str(&mut r, " encode=");
    append_str(&mut r, flag_text(m.can_encode));
    append_str(&mut r, "\t");
    append_str(&mut r, m.name.as_str());
    r
}

/// The name an entry kind is printed by.
pub open spec fn kind_name(k: EntryKind) -> Seq<char> {
    match k {
        EntryKind::File => "File"@,
        EntryKind::Directory => "Directory"@,
        EntryKind::Symlink => "Symlink"@,
        EntryKind::Hardlink => "Hardlink"@,
        EntryKind::Special => "Special"@,
    }
}

/// The line of a listed entry: its kind, its size or "-", and its name.
pub open spec fn entry_line_text(e: ArchiveEntry) -> Seq<char> {
    kind_name(e.kind) + "\t"@ + match e.size {
        Some(s) => decimal(s as nat),
        None => "-"@,
    } + "\t"@ + e.name@
}

/// The line of a listed entry.
pub fn entry_line(e: &ArchiveEntry) -> (r: String)
    ensures
        r@ == entry_line_text(*e),
{
    let kind = match e.kind {
        EntryKind::File => "File",
        EntryKind::Directory => "Directory",
        EntryKind::Symlink => "Symlink",
        EntryKind::Hardlink => "Hardlink",
        EntryKind::Special => "Special",
    };
    let size = match e.size {
        Some(s) => u64_text(s),
        None => owned("-"),
    };
    let mut r = owned(kind);
    append_str(&mut r, "\t");
    append_str(&mut r, size.as_str());
    append_str(&mut r, "\t");
    append_str(&mut r, e.name.as_str());
    r
}

/// The answer of a detection: the identifier of the one handler found; a
/// choice between several, or none, is refused.
pub fn detection_answer(result: DetectionResult, shown_path: &str) -> (r: Result<String, ArchiveError>)
    ensures
        match result {
            DetectionResult::Detected(c) => r matches Ok(t) && t@ == c.descriptor.id@,
            DetectionResult::Ambiguous(cs) => r matches Err(e) && e@ == ErrorView::InvalidInput(
                "archive format is ambiguous: "@ + join_parts(candidate_ids(cs@), ", "@),
            ),
            DetectionResult::Unknown => r matches Err(e) && e@ == ErrorView::UnsupportedFormat(
                "could not detect archive format for "@ + shown_path@,
            ),
        },
{
    match result {
        DetectionResult::Detected(c) => Ok(owned(c.descriptor.id.as_str())),
        DetectionResult::Ambiguous(cs) => {
            let mut ids: Vec<String> = Vec::new();
            let mut i: usize = 0;
            while i < cs.len()
                invariant
                    i <= cs@.len(),
                    views(ids@) == candidate_ids(cs@).take(i as int),
                decreases cs.len() - i,
            {
                let ghost before = ids@;
                ids.push(owned(cs[i].descriptor.id.as_str()));
                proof {
                    lemma_views_push(before, ids@.last());
                    assert(candidate_ids(cs@).take(i + 1) =~= candidate_ids(cs@).take(i as int).push(
                        cs@[i as int].descriptor.id@,
                    ));
                }
                i = i + 1;
            }
            proof {
                assert(candidate_ids(cs@).take(cs@.len() as int) =~= candidate_ids(cs@));
            }
            let joined = join_texts(&ids, ", ");
            Err(ArchiveError::InvalidInput(join2("archive format is ambiguous: ", joined.as_str())))
        },
        DetectionResult::Unknown => Err(
            ArchiveError::UnsupportedFormat(join2("could not detect archive format for ", shown_path)),
        ),
    }
}

/// The count of listed entries.
pub fn entries_line(count: u64) -> (r: String)
    ensures
        r@ == decimal(count as nat) + " entries"@,
{
    let n = u64_text(count);
    join2(n.as_str(), " entries")
}

/// The summary of a test: the archive and the handler that read it, or
/// "unknown".
pub fn verified_line(shown_path: &str, format: Option<&ArchiveFormatId>) -> (r: String)
    ensures
        r@ == "verified: "@ + shown_path@ + " ("@ + match format {
            Some(f) => f@,
            None => "unknown"@,
        } + ")"@,
{
    let mut r = owned("verified: ");
    append_str(&mut r, shown_path);
    append_str(&mut r, " (");
    match format {
        Some(f) => append_str(&mut r, f.as_str()),
        None => append_str(&mut r, "unknown"),
    }
    append_str(&mut r, ")");
    r
}

/// The summary of an extraction: the archive and where it went.
pub fn extracted_line(shown_path: &str, shown_destination: &str) -> (r: String)
    ensures
        r@ == "extracted: "@ + shown_path@ + " -> "@ + shown_destination@,
{
    let mut r = owned("extracted: ");
    append_str(&mut r, shown_path);
    append_str(&mut r, " -> ");
    append_str(&mut r, shown_destination);
    r
}

/// The summary of a creation: the archive, its handler and its size.
pub fn created_line(shown_path: &str, format: &ArchiveFormatId, bytes: u64) -> (r: String)
    ensures
        r@ == "created: "@ + shown_path@ + " ("@ + format@ + ", "@ + decimal(bytes as nat) + " bytes)"@,
{
    let n = u64_text(bytes);
    let mut r = owned("created: ");
    append_str(&mut r, shown_path);
    append_str(&mut r, " (");
    append_str(&mut r, format.as_str());
    append_str(&mut r, ", ");
    append_str(&mut r, n.as_str());
    append_str(&mut r, " bytes)");
    r
}

} // verus!
