//! Choices made by the desktop workspace: range selections, status labels,
//! and the format and name offered for a new archive.

use vstd::prelude::*;

use crate::desktop::archive::FormatOption;
use crate::desktop::i18n::MessageKey;
use crate::entry::EntryKind;
use crate::format::{format_id_text, ArchiveFormatId};
use crate::operation::OperationKind;
use crate::text::{
    eq_ignore_case, join2, lemma_views_push, lower_chars, lower_seq, owned, str_eq, str_eq_ignore_case, string_of,
    views, chars_of,
};

verus! {

/// The index of the first name equal to `name`, or -1.
pub open spec fn first_position(names: Seq<Seq<char>>, name: Seq<char>) -> int
    decreases names.len(),
{
    if names.len() == 0 {
        -1
    } else if names[0] == name {
        0
    } else if first_position(names.drop_first(), name) < 0 {
        -1
    } else {
        first_position(names.drop_first(), name) + 1
    }
}

proof fn lemma_first_position(names: Seq<Seq<char>>, name: Seq<char>)
    ensures
        -1 <= first_position(names, name) < names.len(),
        first_position(names, name) >= 0 ==> names[first_position(names, name)] == name,
        first_position(names, name) < 0 ==> !names.contains(name),
        forall|j: int| 0 <= j < first_position(names, name) ==> names[j] != name,
    decreases names.len(),
{
    if names.len() > 0 && names[0] != name {
        lemma_first_position(names.drop_first(), name);
        let p = first_position(names.drop_first(), name);
        assert forall|j: int| 0 < j < names.len() implies names[j] == names.drop_first()[j - 1] by {}
        if p < 0 {
            if names.contains(name) {
                let k = choose|k: int| 0 <= k < names.len() && names[k] == name;
                assert(names.drop_first()[k - 1] == name);
            }
        }
    }
}

/// The names selected by a range from `first` to `last`: every name
/// between their first occurrences, both included, in list order; only the
/// known one when the other is not listed.
pub open spec fn range_names(names: Seq<Seq<char>>, first: Seq<char>, last: Seq<char>) -> Seq<Seq<char>> {
    let a = first_position(names, first);
    let b = first_position(names, last);
    if a < 0 {
        seq![last]
    } else if b < 0 {
        seq![first]
    } else if a <= b {
        names.subrange(a, b + 1)
    } else {
        names.subrange(b, a + 1)
    }
}

fn position(names: &Vec<String>, name: &str) -> (r: Option<usize>)
    ensures
        match r {
            Some(i) => i as int == first_position(views(names@), name@),
            None => first_position(views(names@), name@) < 0,
        },
{
    proof {
        lemma_first_position(views(names@), name@);
    }
    let mut i: usize = 0;
    while i < names.len()
        invariant
            i <= names.len(),
            forall|j: int| 0 <= j < i ==> views(names@)[j] != name@,
            -1 <= first_position(views(names@), name@) < names@.len(),
            first_position(views(names@), name@) >= 0 ==> views(names@)[first_position(views(names@), name@)] == name@,
            forall|j: int| 0 <= j < first_position(views(names@), name@) ==> views(names@)[j] != name@,
        decreases names.len() - i,
    {
        if str_eq(names[i].as_str(), name) {
            proof {
                let p = first_position(views(names@), name@);
                assert(views(names@)[i as int] == name@);
                if p < 0 {
                    assert(views(names@).contains(name@));
                    lemma_first_position(views(names@), name@);
                } else if p < i {
                    assert(views(names@)[p] != name@);
                }
            }
            return Some(i);
        }
        i = i + 1;
    }
    None
}

/// The names selected by a shift-click range from `first` to `last`.
pub fn names_between(names: &Vec<String>, first: &str, last: &str) -> (r: Vec<String>)
    ensures
        views(r@) == range_names(views(names@), first@, last@),
{
    let a = match position(names, first) {
        Some(a) => a,
        None => {
            let v = vec![owned(last)];
            assert(views(v@) =~= seq![last@]);
            return v;
        },
    };
    let b = match position(names, last) {
        Some(b) => b,
        None => {
            let v = vec![owned(first)];
            assert(views(v@) =~= seq![first@]);
            return v;
        },
    };
    proof {
        lemma_first_position(views(names@), first@);
        lemma_first_position(views(names@), last@);
    }
    let (start, end) = if a <= b { (a, b) } else { (b, a) };
    let mut out: Vec<String> = Vec::new();
    let mut i = start;
    assert(views(out@) =~= views(names@).subrange(start as int, i as int));
    while i <= end
        invariant
            start <= i <= end + 1,
            end < names.len(),
            views(out@) == views(names@).subrange(start as int, i as int),
        decreases end + 1 - i,
    {
        let s = names[i].clone();
        proof {
            lemma_views_push(out@, s);
            assert(views(names@).subrange(start as int, i + 1) =~= views(names@).subrange(start as int, i as int).push(s@));
        }
        out.push(s);
        i = i + 1;
    }
    out
}

/// A range selection is the same set whichever end the user started from,
/// and it holds both ends.
pub proof fn law_range_selection_symmetric(names: Seq<Seq<char>>, first: Seq<char>, last: Seq<char>)
    requires
        names.contains(first),
        names.contains(last),
    ensures
        range_names(names, first, last) == range_names(names, last, first),
        range_names(names, first, last).contains(first),
        range_names(names, first, last).contains(last),
{
    lemma_first_position(names, first);
    lemma_first_position(names, last);
    let a = first_position(names, first);
    let b = first_position(names, last);
    if a <= b {
        assert(names.subrange(a, b + 1)[0] == first);
        assert(names.subrange(a, b + 1)[b - a] == last);
    } else {
        assert(names.subrange(b, a + 1)[a - b] == first);
        assert(names.subrange(b, a + 1)[0] == last);
    }
}

/// The label of an entry kind.
pub fn kind_message_key(kind: EntryKind) -> (r: MessageKey)
    ensures
        r == match kind {
            EntryKind::Directory => MessageKey::Directory,
            EntryKind::File => MessageKey::FileEntry,
            EntryKind::Symlink => MessageKey::SymbolicLink,
            EntryKind::Hardlink => MessageKey::HardLink,
            EntryKind::Special => MessageKey::SpecialFile,
        },
{
    match kind {
        EntryKind::Directory => MessageKey::Directory,
        EntryKind::File => MessageKey::FileEntry,
        EntryKind::Symlink => MessageKey::SymbolicLink,
        EntryKind::Hardlink => MessageKey::HardLink,
        EntryKind::Special => MessageKey::SpecialFile,
    }
}

/// The status label of a running operation of `kind`.
pub open spec fn operation_key(kind: OperationKind) -> MessageKey {
    match kind {
        OperationKind::List | OperationKind::Detect => MessageKey::OpeningArchive,
        OperationKind::Extract => MessageKey::Extracting,
        OperationKind::Create | OperationKind::Update => MessageKey::Creating,
        OperationKind::Test => MessageKey::Testing,
    }
}

/// The message shown when an operation of `kind` completes.
pub open spec fn completed_key(kind: OperationKind) -> MessageKey {
    match kind {
        OperationKind::Extract => MessageKey::ExtractionCompleted,
        OperationKind::Create | OperationKind::Update => MessageKey::CreationCompleted,
        OperationKind::Test => MessageKey::TestCompleted,
        OperationKind::List | OperationKind::Detect => MessageKey::ArchiveOpened,
    }
}

/// The status label of a running operation.
pub fn operation_message_key(kind: OperationKind) -> (r: MessageKey)
    ensures
        r == operation_key(kind),
{
    match kind {
        OperationKind::List | OperationKind::Detect => MessageKey::OpeningArchive,
        OperationKind::Extract => MessageKey::Extracting,
        OperationKind::Create | OperationKind::Update => MessageKey::Creating,
        OperationKind::Test => MessageKey::Testing,
    }
}

/// An option's identifier is `id`, exactly or ignoring ASCII case.
pub open spec fn id_matches(o: FormatOption, id: Seq<char>, ignore_case: bool) -> bool {
    if ignore_case {
        eq_ignore_case(o.id@, id)
    } else {
        o.id@ == id
    }
}

/// The index of the first option whose identifier matches, or -1.
pub open spec fn option_index(options: Seq<FormatOption>, id: Seq<char>, ignore_case: bool) -> int
    decreases options.len(),
{
    if options.len() == 0 {
        -1
    } else if id_matches(options[0], id, ignore_case) {
        0
    } else if option_index(options.drop_first(), id, ignore_case) < 0 {
        -1
    } else {
        option_index(options.drop_first(), id, ignore_case) + 1
    }
}

/// The index of the first option whose extension equals `extension`
/// ignoring ASCII case, or -1.
pub open spec fn extension_index(options: Seq<FormatOption>, extension: Seq<char>) -> int
    decreases options.len(),
{
    if options.len() == 0 {
        -1
    } else if eq_ignore_case(options[0].extension@, extension) {
        0
    } else if extension_index(options.drop_first(), extension) < 0 {
        -1
    } else {
        extension_index(options.drop_first(), extension) + 1
    }
}

proof fn lemma_option_index(options: Seq<FormatOption>, id: Seq<char>, ignore_case: bool)
    ensures
        -1 <= option_index(options, id, ignore_case) < options.len(),
        option_index(options, id, ignore_case) >= 0 ==> id_matches(options[option_index(options, id, ignore_case)], id, ignore_case),
        forall|j: int| 0 <= j < options.len() && (option_index(options, id, ignore_case) < 0 || j < option_index(options, id, ignore_case))
            ==> !id_matches(#[trigger] options[j], id, ignore_case),
    decreases options.len(),
{
    if options.len() > 0 && !id_matches(options[0], id, ignore_case) {
        lemma_option_index(options.drop_first(), id, ignore_case);
        assert forall|j: int| 0 < j < options.len() implies options[j] == options.drop_first()[j - 1] by {}
    }
}

proof fn lemma_extension_index(options: Seq<FormatOption>, extension: Seq<char>)
    ensures
        -1 <= extension_index(options, extension) < options.len(),
        extension_index(options, extension) >= 0 ==> eq_ignore_case(options[extension_index(options, extension)].extension@, extension),
        forall|j: int| 0 <= j < options.len() && (extension_index(options, extension) < 0 || j < extension_index(options, extension))
            ==> !eq_ignore_case(#[trigger] options[j].extension@, extension),
    decreases options.len(),
{
    if options.len() > 0 && !eq_ignore_case(options[0].extension@, extension) {
        let rest = options.drop_first();
        lemma_extension_index(rest, extension);
        let k = extension_index(options, extension);
        assert forall|j: int|
            0 <= j < options.len() && (k < 0 || j < k) implies !eq_ignore_case(
            #[trigger] options[j].extension@,
            extension,
        ) by {
            if j > 0 {
                assert(options[j] == rest[j - 1]);
                assert(!eq_ignore_case(rest[j - 1].extension@, extension));
            }
        }
    }
}

proof fn lemma_first_is_index_ext(options: Seq<FormatOption>, extension: Seq<char>, i: int)
    requires
        0 <= i < options.len(),
        eq_ignore_case(options[i].extension@, extension),
        forall|j: int| 0 <= j < i ==> !eq_ignore_case(#[trigger] options[j].extension@, extension),
    ensures
        extension_index(options, extension) == i,
{
    lemma_extension_index(options, extension);
}

proof fn lemma_first_is_index_id(options: Seq<FormatOption>, id: Seq<char>, ignore_case: bool, i: int)
    requires
        0 <= i < options.len(),
        id_matches(options[i], id, ignore_case),
        forall|j: int| 0 <= j < i ==> !id_matches(#[trigger] options[j], id, ignore_case),
    ensures
        option_index(options, id, ignore_case) == i,
{
    lemma_option_index(options, id, ignore_case);
}

/// The handler for a new archive's path: the first option whose extension
/// equals the path's, ignoring ASCII case, else the default format.
pub open spec fn output_format_id(options: Seq<FormatOption>, extension: Option<Seq<char>>, default_format: Seq<char>) -> Seq<char> {
    match extension {
        Some(e) => if extension_index(options, lower_seq(e)) >= 0 {
            options[extension_index(options, lower_seq(e))].id@
        } else {
            format_id_text(default_format)
        },
        None => format_id_text(default_format),
    }
}

/// Chooses the handler for a new archive from its path's extension.
pub fn format_for_output(options: &Vec<FormatOption>, extension: Option<&str>, default_format: &str) -> (r: ArchiveFormatId)
    ensures
        r@ == output_format_id(options@, match extension {
            Some(e) => Some(e@),
            None => None,
        }, default_format@),
{
    match extension {
        Some(e) => {
            let lower = string_of(&lower_chars(&chars_of(e)));
            proof {
                lemma_extension_index(options@, lower_seq(e@));
            }
            let mut i: usize = 0;
            while i < options.len()
                invariant
                    i <= options.len(),
                    extension == Some(e),
                    lower@ == lower_seq(e@),
                    forall|j: int| 0 <= j < i ==> !eq_ignore_case(#[trigger] options@[j].extension@, lower_seq(e@)),
                decreases options.len() - i,
            {
                if str_eq_ignore_case(options[i].extension.as_str(), lower.as_str()) {
                    proof {
                        lemma_first_is_index_ext(options@, lower_seq(e@), i as int);
                    }
                    let id = options[i].id.clone();
                    assert(id@ == options@[extension_index(options@, lower_seq(e@))].id@);
                    return id;
                }
                i = i + 1;
            }
            ArchiveFormatId::new(default_format)
        },
        None => ArchiveFormatId::new(default_format),
    }
}

/// The suggested name of a new archive: "archive." and the extension of
/// the default format's option (or, failing that, zip's), or the default
/// format itself when that option has no extension.
pub open spec fn default_name(options: Seq<FormatOption>, default_format: Seq<char>) -> Seq<char> {
    let by_default = option_index(options, default_format, true);
    let k = if by_default >= 0 { by_default } else { option_index(options, "zip"@, false) };
    let extension = if k >= 0 && options[k].extension@.len() > 0 { options[k].extension@ } else { default_format };
    "archive."@ + extension
}

pub(crate) fn find_option(options: &Vec<FormatOption>, id: &str, ignore_case: bool) -> (r: Option<usize>)
    ensures
        match r {
            Some(k) => k as int == option_index(options@, id@, ignore_case) && k < options.len(),
            None => option_index(options@, id@, ignore_case) < 0,
        },
{
    proof {
        lemma_option_index(options@, id@, ignore_case);
    }
    let mut i: usize = 0;
    while i < options.len()
        invariant
            i <= options.len(),
            forall|j: int| 0 <= j < i ==> !id_matches(#[trigger] options@[j], id@, ignore_case),
        decreases options.len() - i,
    {
        let hit = if ignore_case {
            str_eq_ignore_case(options[i].id.as_str(), id)
        } else {
            str_eq(options[i].id.as_str(), id)
        };
        if hit {
            proof {
                lemma_first_is_index_id(options@, id@, ignore_case, i as int);
            }
            return Some(i);
        }
        i = i + 1;
    }
    None
}

/// Suggests the name of a new archive.
pub fn default_archive_name(options: &Vec<FormatOption>, default_format: &str) -> (r: String)
    ensures
        r@ == default_name(options@, default_format@),
{
    proof {
        lemma_option_index(options@, default_format@, true);
        lemma_option_index(options@, "zip"@, false);
    }
    let found = match find_option(options, default_format, true) {
        Some(k) => Some(k),
        None => find_option(options, "zip", false),
    };
    let extension: &str = match found {
        Some(k) => if options[k].extension.as_str().is_empty() { default_format } else { options[k].extension.as_str() },
        None => default_format,
    };
    join2("archive.", extension)
}

} // verus!
