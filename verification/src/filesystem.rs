//! The decisions of the filesystem adapters: split-volume names, source
//! names, and what an extraction sink does with each entry given what
//! already exists at its destination.

use vstd::prelude::*;

use crate::entry::{name_error_text, parse_name, ArchiveEntry, EntryId, EntryKind, EntryName};
use crate::error::{ArchiveError, ErrorView};
use crate::limits::ResourceLimitKind;
use crate::policy::{ExtractionPolicy, LinkPolicy, MetadataPolicy, SpecialFilePolicy};
use crate::backend::EntryOutcome;
use crate::text::{join3, str_eq,
    all_digits, chars_of, eq_ignore_case, has_suffix, is_digit, join2, lower_chars, lower_seq, owned,
    push_char, str_eq_ignore_case, string_of, sub_chars, append_str,
};

verus! {

/// The index of the last `c` in `s`, or -1.
pub open spec fn last_index(s: Seq<char>, c: char) -> int
    decreases s.len(),
{
    if s.len() == 0 {
        -1
    } else if s.last() == c {
        s.len() - 1
    } else {
        last_index(s.drop_last(), c)
    }
}

proof fn lemma_last_index(s: Seq<char>, c: char)
    ensures
        -1 <= last_index(s, c) < s.len(),
        last_index(s, c) >= 0 ==> s[last_index(s, c)] == c,
        forall|j: int| last_index(s, c) < j < s.len() ==> s[j] != c,
    decreases s.len(),
{
    if s.len() > 0 && s.last() != c {
        lemma_last_index(s.drop_last(), c);
        assert forall|j: int| last_index(s, c) < j < s.len() implies s[j] != c by {
            if j < s.len() - 1 {
                assert(s.drop_last()[j] == s[j]);
            }
        }
    }
}

fn find_last(s: &[char], c: char) -> (r: Option<usize>)
    ensures
        match r {
            Some(i) => i as int == last_index(s@, c),
            None => last_index(s@, c) < 0,
        },
{
    proof {
        lemma_last_index(s@, c);
    }
    let mut i = s.len();
    while i > 0
        invariant
            i <= s.len(),
            forall|j: int| i <= j < s@.len() ==> s@[j] != c,
            -1 <= last_index(s@, c) < s@.len(),
            last_index(s@, c) >= 0 ==> s@[last_index(s@, c)] == c,
            forall|j: int| last_index(s@, c) < j < s@.len() ==> s@[j] != c,
        decreases i,
    {
        if s[i - 1] == c {
            return Some(i - 1);
        }
        i = i - 1;
    }
    None
}

/// The index of the last dot in `s`.
pub fn find_last_dot(s: &[char]) -> (r: Option<usize>)
    ensures
        match r {
            Some(i) => i as int == last_index(s@, '.') && i < s@.len(),
            None => last_index(s@, '.') < 0,
        },
{
    proof {
        lemma_last_index(s@, '.');
    }
    find_last(s, '.')
}

/// `s` split at its last `c`, as `str::rsplit_once`.
pub open spec fn split_last(s: Seq<char>, c: char) -> Option<(Seq<char>, Seq<char>)> {
    let i = last_index(s, c);
    if i < 0 {
        None
    } else {
        Some((s.subrange(0, i), s.subrange(i + 1, s.len() as int)))
    }
}

/// The decimal one written with at least `width` digits, as
/// `format!("{:0width$}", 1)`.
pub open spec fn padded_one(width: nat) -> Seq<char> {
    if width <= 1 {
        seq!['1']
    } else {
        Seq::new((width - 1) as nat, |i: int| '0').push('1')
    }
}

fn padded_one_text(width: usize) -> (r: String)
    ensures
        r@ == padded_one(width as nat),
{
    let mut s = String::new();
    let mut i: usize = 1;
    while i < width
        invariant
            1 <= i,
            i <= width || i == 1,
            s@ == Seq::new((i - 1) as nat, |k: int| '0'),
        decreases width - i,
    {
        push_char(&mut s, '0');
        i = i + 1;
        assert(s@ =~= Seq::new((i - 1) as nat, |k: int| '0'));
    }
    let ghost before = s@;
    push_char(&mut s, '1');
    proof {
        if width <= 1 {
            assert(before.len() == 0);
            assert(s@ =~= seq!['1']);
        } else {
            assert(i == width);
            assert(s@ =~= Seq::new((width - 1) as nat, |k: int| '0').push('1'));
        }
    }
    s
}

/// ".part" starts at `i` in `s`.
pub open spec fn part_at(s: Seq<char>, i: int) -> bool {
    0 <= i && i + 5 <= s.len() && s.subrange(i, i + 5) == ".part"@
}

/// The last position of ".part" in `s`, or -1.
pub open spec fn last_part(s: Seq<char>) -> int
    decreases s.len(),
{
    if s.len() < 5 {
        -1
    } else if part_at(s, s.len() - 5) {
        s.len() - 5
    } else {
        last_part(s.drop_last())
    }
}

proof fn lemma_last_part(s: Seq<char>)
    ensures
        -1 <= last_part(s),
        last_part(s) >= 0 ==> part_at(s, last_part(s)),
    decreases s.len(),
{
    if s.len() >= 5 && !part_at(s, s.len() - 5) {
        lemma_last_part(s.drop_last());
        let k = last_part(s.drop_last());
        if k >= 0 {
            assert(s.drop_last().subrange(k, k + 5) =~= s.subrange(k, k + 5));
        }
    }
}

fn find_last_part(s: &[char]) -> (r: Option<usize>)
    ensures
        match r {
            Some(i) => i as int == last_part(s@),
            None => last_part(s@) < 0,
        },
{
    let ghost full = s@;
    let mut n = s.len();
    assert(s@.subrange(0, n as int) =~= full);
    while n >= 5
        invariant
            n <= s.len(),
            last_part(s@.subrange(0, n as int)) == last_part(full),
            full == s@,
        decreases n,
    {
        let ghost t = s@.subrange(0, n as int);
        if s[n - 5] == '.' && s[n - 4] == 'p' && s[n - 3] == 'a' && s[n - 2] == 'r' && s[n - 1] == 't' {
            proof {
                assert(t.subrange(n - 5, n as int) =~= ".part"@) by {
                    reveal_strlit(".part");
                }
                assert(part_at(t, n - 5));
            }
            return Some(n - 5);
        }
        proof {
            reveal_strlit(".part");
            if part_at(t, n - 5) {
                assert(t.subrange(n - 5, n as int)[0] == '.');
                assert(t.subrange(n - 5, n as int)[4] == 't');
                assert(t.subrange(n - 5, n as int)[1] == 'p');
                assert(t.subrange(n - 5, n as int)[2] == 'a');
                assert(t.subrange(n - 5, n as int)[3] == 'r');
            }
            assert(t.drop_last() =~= s@.subrange(0, n - 1));
        }
        n = n - 1;
    }
    proof {
        assert(s@.subrange(0, n as int).len() < 5);
    }
    None
}

fn digit_chars(v: &[char]) -> (r: bool)
    ensures
        r == all_digits(v@),
{
    let mut i: usize = 0;
    while i < v.len()
        invariant
            i <= v.len(),
            forall|j: int| 0 <= j < i ==> is_digit(#[trigger] v@[j]),
        decreases v.len() - i,
    {
        if !(v[i] >= '0' && v[i] <= '9') {
            assert(!is_digit(v@[i as int]));
            return false;
        }
        i = i + 1;
    }
    true
}

/// The primary volume of a split ".7z" archive: a numeric extension of at
/// least three digits after a base ending in ".7z".
pub open spec fn seven_zip_volume(base: Seq<char>, ext: Seq<char>) -> bool {
    has_suffix(lower_seq(base), ".7z"@) && ext.len() >= 3 && all_digits(ext)
}

/// A numbered extension: `letter` followed by at least two digits, in any
/// case.
pub open spec fn lettered_volume(ext: Seq<char>, letter: char) -> bool {
    let l = lower_seq(ext);
    l.len() >= 3 && l[0] == letter && all_digits(l.drop_first())
}

/// The ".partN.rar" form: after the last ".part", digits, a dot and "rar"
/// in any case.
pub open spec fn part_volume(name: Seq<char>) -> Option<Seq<char>> {
    let m = last_part(lower_seq(name));
    if m < 0 {
        None
    } else {
        let prefix = name.subrange(0, m);
        let suffix = name.subrange(m + 5, name.len() as int);
        match split_last(suffix, '.') {
            Some((number, ext)) => if number.len() > 0 && all_digits(number) && eq_ignore_case(ext, "rar"@) {
                Some(prefix + ".part"@ + padded_one(number.len()) + "."@ + ext)
            } else {
                None
            },
            None => None,
        }
    }
}

/// The file a user should open for a split volume they selected: the
/// first volume of ".7z.NNN", ".zNN", ".partN.rar", ".rNN" and numeric
/// ".NNN" sets, tried in that order; `None` when the name is no volume.
pub open spec fn primary_volume(name: Seq<char>) -> Option<Seq<char>> {
    match split_last(name, '.') {
        None => None,
        Some((base, ext)) => if seven_zip_volume(base, ext) {
            Some(base + "."@ + padded_one(ext.len()))
        } else if lettered_volume(ext, 'z') {
            Some(base + ".zip"@)
        } else if part_volume(name) is Some {
            part_volume(name)
        } else if lettered_volume(ext, 'r') {
            Some(base + ".rar"@)
        } else if ext.len() >= 3 && all_digits(ext) {
            Some(base + "."@ + padded_one(ext.len()))
        } else {
            None
        },
    }
}

proof fn lemma_last_index_at(s: Seq<char>, c: char, k: int)
    requires
        0 <= k < s.len(),
        s[k] == c,
        forall|j: int| k < j < s.len() ==> s[j] != c,
    ensures
        last_index(s, c) == k,
{
    lemma_last_index(s, c);
}

proof fn lemma_lower_digit(c: char)
    requires
        '0' <= c <= '9',
    ensures
        crate::text::lower_char(c) == c,
{
}

proof fn lemma_lower_keeps_dot(c: char)
    ensures
        crate::text::lower_char(c) == '.' <==> c == '.',
        '0' <= c <= '9' ==> crate::text::lower_char(c) == c,
        crate::text::lower_char(c) == 'p' || crate::text::lower_char(c) == 'a' || crate::text::lower_char(c) == 'r'
            || crate::text::lower_char(c) == 't' ==> c != '.' && !('0' <= c <= '9'),
{
}

proof fn lemma_no_part_volume(base: Seq<char>, ext: Seq<char>)
    requires
        forall|j: int| 0 <= j < ext.len() ==> #[trigger] ext[j] != '.',
        ext.len() > 0 ==> crate::text::lower_char(ext[0]) != 'p',
        !eq_ignore_case(ext, "rar"@),
    ensures
        part_volume(base + "."@ + ext) is None,
{
    reveal_strlit(".");
    reveal_strlit(".part");
    let name = base + "."@ + ext;
    let dot = base.len() as int;
    assert(name[dot] == '.');
    assert forall|j: int| dot < j < name.len() implies name[j] != '.' by {
        assert(name[j] == ext[j - dot - 1]);
    }
    let low = lower_seq(name);
    let m = last_part(low);
    lemma_last_part(low);
    if m >= 0 {
        assert(low.subrange(m, m + 5) == ".part"@);
        assert(low[m] == '.' && low[m + 1] == 'p' && low[m + 2] == 'a' && low[m + 3] == 'r' && low[m + 4] == 't') by {
            assert(low.subrange(m, m + 5)[0] == '.');
            assert(low.subrange(m, m + 5)[1] == 'p');
            assert(low.subrange(m, m + 5)[2] == 'a');
            assert(low.subrange(m, m + 5)[3] == 'r');
            assert(low.subrange(m, m + 5)[4] == 't');
        }
        lemma_lower_keeps_dot(name[m]);
        lemma_lower_keeps_dot(name[m + 1]);
        lemma_lower_keeps_dot(name[m + 2]);
        lemma_lower_keeps_dot(name[m + 3]);
        lemma_lower_keeps_dot(name[m + 4]);
        assert(name[m] == '.');
        assert(m <= dot);
        if m == dot {
            assert(name[m + 1] == ext[0]);
        }
        assert(m + 5 <= dot);
        let suffix = name.subrange(m + 5, name.len() as int);
        let k = dot - (m + 5);
        assert(suffix[k] == '.');
        assert forall|j: int| k < j < suffix.len() implies suffix[j] != '.' by {
            assert(suffix[j] == name[j + m + 5]);
        }
        lemma_last_index_at(suffix, '.', k);
        let e2 = suffix.subrange(k + 1, suffix.len() as int);
        assert(e2 =~= ext);
    }
}

/// A name whose last extension is three or more ASCII digits is a numbered
/// volume whose set opens at volume one: the same base, a dot, and `1`
/// zero-padded to the extension's width (`backup.zip.002` gives
/// `backup.zip.001`, `data.0007` gives `data.0001`).
pub proof fn law_numbered_volumes_open_at_one(base: Seq<char>, ext: Seq<char>)
    requires
        ext.len() >= 3,
        forall|i: int| 0 <= i < ext.len() ==> '0' <= #[trigger] ext[i] <= '9',
    ensures
        primary_volume(base + "."@ + ext) == Some(base + "."@ + Seq::new((ext.len() - 1) as nat, |i: int| '0').push('1')),
{
    reveal_strlit(".");
    reveal_strlit(".part");
    reveal_strlit("rar");
    let name = base + "."@ + ext;
    let dot = base.len() as int;
    assert(name[dot] == '.');
    assert forall|j: int| dot < j < name.len() implies name[j] != '.' by {
        assert(name[j] == ext[j - dot - 1]);
    }
    lemma_last_index_at(name, '.', dot);
    assert(name.subrange(0, dot) =~= base);
    assert(name.subrange(dot + 1, name.len() as int) =~= ext);
    assert(split_last(name, '.') == Some((base, ext)));
    assert(all_digits(ext)) by {
        assert forall|i: int| 0 <= i < ext.len() implies is_digit(#[trigger] ext[i]) by {
            assert('0' <= ext[i] <= '9');
        }
    }
    lemma_lower_keeps_dot(ext[0]);
    assert(lower_seq(ext)[0] == ext[0]);
    assert(!lettered_volume(ext, 'z'));
    assert(!lettered_volume(ext, 'r'));
    reveal_strlit("rar");
    assert(lower_seq("rar"@)[0] == 'r');
    assert(!eq_ignore_case(ext, "rar"@)) by {
        if eq_ignore_case(ext, "rar"@) {
            assert(lower_seq(ext)[0] == lower_seq("rar"@)[0]);
        }
    }
    lemma_no_part_volume(base, ext);
    assert(padded_one(ext.len()) == Seq::new((ext.len() - 1) as nat, |i: int| '0').push('1'));
}

/// A name ending in `.z` or `.Z` and two or more ASCII digits is a split
/// zip volume whose set opens at `base.zip`; one ending in `.r` or `.R` and
/// two or more digits is an old-style split rar volume opening at
/// `base.rar`.
pub proof fn law_lettered_volumes_open_their_archive(base: Seq<char>, letter: char, digits: Seq<char>)
    requires
        letter == 'z' || letter == 'Z' || letter == 'r' || letter == 'R',
        digits.len() >= 2,
        forall|i: int| 0 <= i < digits.len() ==> '0' <= #[trigger] digits[i] <= '9',
    ensures
        (letter == 'z' || letter == 'Z') ==> primary_volume(base + "."@ + seq![letter] + digits) == Some(base + ".zip"@),
        (letter == 'r' || letter == 'R') ==> primary_volume(base + "."@ + seq![letter] + digits) == Some(base + ".rar"@),
{
    reveal_strlit(".");
    reveal_strlit("rar");
    let ext = seq![letter] + digits;
    let name = base + "."@ + ext;
    assert(name =~= base + "."@ + seq![letter] + digits);
    let dot = base.len() as int;
    assert(name[dot] == '.');
    assert forall|j: int| dot < j < name.len() implies name[j] != '.' by {
        assert(name[j] == ext[j - dot - 1]);
        if j > dot + 1 {
            assert(ext[j - dot - 1] == digits[j - dot - 2]);
        }
    }
    lemma_last_index_at(name, '.', dot);
    assert(name.subrange(0, dot) =~= base);
    assert(name.subrange(dot + 1, name.len() as int) =~= ext);
    let l = lower_seq(ext);
    assert forall|i: int| 0 <= i < l.drop_first().len() implies is_digit(#[trigger] l.drop_first()[i]) by {
        assert(l.drop_first()[i] == l[i + 1]);
        assert(ext[i + 1] == digits[i]);
        lemma_lower_keeps_dot(ext[i + 1]);
    }
    assert(all_digits(l.drop_first()));
    assert(l[1] == ext[1]) by {
        assert(ext[1] == digits[0]);
        lemma_lower_keeps_dot(ext[1]);
    }
    assert(!seven_zip_volume(base, ext)) by {
        assert(!is_digit(ext[0]));
    }
    if letter == 'r' || letter == 'R' {
        assert(l[0] == 'r');
        assert(!lettered_volume(ext, 'z'));
        assert forall|j: int| 0 <= j < ext.len() implies #[trigger] ext[j] != '.' by {
            if j > 0 {
                assert(ext[j] == digits[j - 1]);
            }
        }
        assert(lower_seq("rar"@)[1] == 'a');
        assert(!eq_ignore_case(ext, "rar"@)) by {
            if eq_ignore_case(ext, "rar"@) {
                assert(lower_seq(ext)[1] == lower_seq("rar"@)[1]);
            }
        }
        lemma_no_part_volume(base, ext);
    }
}

/// A name is no volume when it has no dot, or when its last extension holds
/// no digit and ".part" appears nowhere in it in any case: `archive.zip`
/// and `notes` open as they are.
pub proof fn law_plain_names_are_no_volume(name: Seq<char>)
    requires
        (forall|j: int| 0 <= j < name.len() ==> #[trigger] name[j] != '.') || {
            let k = last_index(name, '.');
            &&& forall|j: int| k < j < name.len() ==> !('0' <= #[trigger] name[j] <= '9')
            &&& forall|i: int| !part_at(lower_seq(name), i)
        },
    ensures
        primary_volume(name) is None,
{
    lemma_last_index(name, '.');
    let k = last_index(name, '.');
    if k >= 0 {
        let ext = name.subrange(k + 1, name.len() as int);
        lemma_last_part(lower_seq(name));
        if ext.len() > 0 {
            assert(!is_digit(ext[0])) by {
                assert(ext[0] == name[k + 1]);
            }
        }
        let l = lower_seq(ext);
        if ext.len() >= 2 {
            assert(l.drop_first()[0] == l[1]);
            assert(ext[1] == name[k + 2]);
            lemma_lower_keeps_dot(ext[1]);
            if '0' <= l[1] <= '9' {
                assert(crate::text::is_ascii_upper(ext[1]) || l[1] == ext[1]);
            }
            assert(!is_digit(l.drop_first()[0]));
        }
    }
}

fn lettered(ext: &[char], letter: char) -> (r: bool)
    ensures
        r == lettered_volume(ext@, letter),
{
    let l = lower_chars(ext);
    if l.len() < 3 || l[0] != letter {
        return false;
    }
    let rest = sub_chars(&l, 1, l.len());
    proof {
        assert(rest@ =~= l@.drop_first());
    }
    digit_chars(&rest)
}

fn part_volume_text(name: &[char]) -> (r: Option<String>)
    ensures
        match part_volume(name@) {
            Some(t) => r matches Some(s) && s@ == t,
            None => r is None,
        },
{
    let lower = lower_chars(name);
    let m = match find_last_part(&lower) {
        Some(m) => m,
        None => {
            return None;
        },
    };
    proof {
        lemma_last_part(lower@);
        assert(lower@.len() == name@.len());
        assert(m + 5 <= name@.len());
    }
    let n = name.len();
    assert(m + 5 <= n);
    let prefix = sub_chars(name, 0, m);
    let suffix = sub_chars(name, m + 5, name.len());
    let dot = match find_last(&suffix, '.') {
        Some(d) => d,
        None => {
            return None;
        },
    };
    proof {
        lemma_last_index(suffix@, '.');
    }
    let number = sub_chars(&suffix, 0, dot);
    let ext = sub_chars(&suffix, dot + 1, suffix.len());
    let ext_text = string_of(&ext);
    if number.len() > 0 && digit_chars(&number) && str_eq_ignore_case(ext_text.as_str(), "rar") {
        let mut out = string_of(&prefix);
        append_str(&mut out, ".part");
        let pad = padded_one_text(number.len());
        append_str(&mut out, pad.as_str());
        append_str(&mut out, ".");
        append_str(&mut out, ext_text.as_str());
        Some(out)
    } else {
        None
    }
}

/// The primary volume for a selected split-volume file name.
pub fn primary_volume_name(file_name: &str) -> (r: Option<String>)
    ensures
        match primary_volume(file_name@) {
            Some(t) => r matches Some(s) && s@ == t,
            None => r is None,
        },
{
    let name = chars_of(file_name);
    let dot = match find_last(&name, '.') {
        Some(d) => d,
        None => {
            return None;
        },
    };
    proof {
        lemma_last_index(name@, '.');
    }
    let base = sub_chars(&name, 0, dot);
    let ext = sub_chars(&name, dot + 1, name.len());
    let base_text = string_of(&base);
    let lower_base = lower_chars(&base);
    let seven = chars_of(".7z");
    if crate::text::ends_with(&lower_base, &seven) && ext.len() >= 3 && digit_chars(&ext) {
        let mut out = join2(base_text.as_str(), ".");
        let pad = padded_one_text(ext.len());
        append_str(&mut out, pad.as_str());
        return Some(out);
    }
    if lettered(&ext, 'z') {
        return Some(join2(base_text.as_str(), ".zip"));
    }
    match part_volume_text(&name) {
        Some(s) => {
            return Some(s);
        },
        None => {},
    }
    if lettered(&ext, 'r') {
        return Some(join2(base_text.as_str(), ".rar"));
    }
    if ext.len() >= 3 && digit_chars(&ext) {
        let mut out = join2(base_text.as_str(), ".");
        let pad = padded_one_text(ext.len());
        append_str(&mut out, pad.as_str());
        return Some(out);
    }
    None
}


/// Policy for an existing extraction destination.
#[derive(Clone, Copy, Debug, PartialEq, Eq, Structural)]
pub enum OverwritePolicy {
    /// Refuse to replace an existing path.
    Error,
    /// Replace an existing regular file or link.
    Replace,
    /// Leave an existing path untouched.
    Skip,
}

impl Default for OverwritePolicy {
    fn default() -> (r: Self)
        ensures
            r == OverwritePolicy::Error,
    {
        OverwritePolicy::Error
    }
}

/// What is found at a destination path without following a final link.
#[derive(Clone, Copy, Debug, PartialEq, Eq, Structural)]
pub enum PathState {
    /// Nothing exists there.
    Missing,
    /// A real directory, not a link to one.
    Directory,
    /// A file, a link or another kind of node.
    Other,
}

/// How a directory entry's destination is prepared.
#[derive(Clone, Copy, Debug, PartialEq, Eq, Structural)]
pub enum DirectoryAction {
    /// The directory exists, or the existing node is kept.
    Keep,
    /// The directory tree is created.
    Create,
    /// The existing node is removed and the directory tree created.
    ReplaceNode,
}

/// What an extraction sink does with one entry.
#[derive(Debug)]
pub enum SinkPlan {
    /// Write the content to a temporary file published at the destination.
    WriteFile,
    /// Leave the existing destination and skip the entry.
    Skip,
    /// Prepare the destination directory.
    Directory(DirectoryAction),
    /// Create a link to `target`, removing the existing node first when
    /// `replace` holds.
    Link {
        /// The validated link target.
        target: EntryName,
        /// A hard link when set, a symbolic link otherwise.
        hard: bool,
        /// Whether an existing node is removed first.
        replace: bool,
    },
}

/// The message for an existing destination.
pub open spec fn existing_text(destination: Seq<char>) -> Seq<char> {
    "destination already exists: "@ + destination
}

/// The refusal of an existing destination.
pub fn existing_path_error(destination: &str) -> (r: ArchiveError)
    ensures
        r@ == ErrorView::PolicyViolation(existing_text(destination@)),
{
    ArchiveError::PolicyViolation(join2("destination already exists: ", destination))
}

/// The outcome for a link destination, given what exists there: `Ok(true)`
/// when an existing node is replaced.
pub open spec fn link_destination(destination: Seq<char>, existing: PathState, overwrite: OverwritePolicy) -> Result<bool, ErrorView> {
    if existing == PathState::Missing {
        Ok(false)
    } else {
        match overwrite {
            OverwritePolicy::Error => Err(ErrorView::PolicyViolation(existing_text(destination))),
            OverwritePolicy::Skip => Err(ErrorView::PolicyViolation(
                "link destination already exists and cannot be selected: "@ + destination,
            )),
            OverwritePolicy::Replace => if existing == PathState::Directory {
                Err(ErrorView::PolicyViolation("cannot replace directory with link: "@ + destination))
            } else {
                Ok(true)
            },
        }
    }
}

/// The outcome for a directory destination.
pub open spec fn directory_destination(destination: Seq<char>, existing: PathState, overwrite: OverwritePolicy) -> Result<DirectoryAction, ErrorView> {
    match existing {
        PathState::Missing => Ok(DirectoryAction::Create),
        PathState::Directory => Ok(DirectoryAction::Keep),
        PathState::Other => match overwrite {
            OverwritePolicy::Error => Err(ErrorView::PolicyViolation(existing_text(destination))),
            OverwritePolicy::Skip => Ok(DirectoryAction::Keep),
            OverwritePolicy::Replace => Ok(DirectoryAction::ReplaceNode),
        },
    }
}

/// The outcome for a regular file destination: `Ok(true)` to write,
/// `Ok(false)` to skip.
pub open spec fn file_destination(destination: Seq<char>, existing: PathState, overwrite: OverwritePolicy) -> Result<bool, ErrorView> {
    if existing == PathState::Missing {
        Ok(true)
    } else {
        match overwrite {
            OverwritePolicy::Error => Err(ErrorView::PolicyViolation(existing_text(destination))),
            OverwritePolicy::Skip => Ok(false),
            OverwritePolicy::Replace => if existing == PathState::Directory {
                Err(ErrorView::PolicyViolation("cannot replace directory with file: "@ + destination))
            } else {
                Ok(true)
            },
        }
    }
}

/// Decides how a link destination is prepared.
pub fn prepare_link_destination(destination: &str, existing: PathState, overwrite: OverwritePolicy) -> (r: Result<bool, ArchiveError>)
    ensures
        match link_destination(destination@, existing, overwrite) {
            Ok(b) => r == Ok::<bool, ArchiveError>(b),
            Err(ev) => r matches Err(e) && e@ == ev,
        },
{
    if existing == PathState::Missing {
        return Ok(false);
    }
    match overwrite {
        OverwritePolicy::Error => Err(existing_path_error(destination)),
        OverwritePolicy::Skip => Err(ArchiveError::PolicyViolation(
            join2("link destination already exists and cannot be selected: ", destination),
        )),
        OverwritePolicy::Replace => {
            if existing == PathState::Directory {
                Err(ArchiveError::PolicyViolation(join2("cannot replace directory with link: ", destination)))
            } else {
                Ok(true)
            }
        },
    }
}

/// Decides how a directory destination is prepared.
pub fn ensure_directory_entry(destination: &str, existing: PathState, overwrite: OverwritePolicy) -> (r: Result<DirectoryAction, ArchiveError>)
    ensures
        match directory_destination(destination@, existing, overwrite) {
            Ok(a) => r == Ok::<DirectoryAction, ArchiveError>(a),
            Err(ev) => r matches Err(e) && e@ == ev,
        },
{
    match existing {
        PathState::Missing => Ok(DirectoryAction::Create),
        PathState::Directory => Ok(DirectoryAction::Keep),
        PathState::Other => match overwrite {
            OverwritePolicy::Error => Err(existing_path_error(destination)),
            OverwritePolicy::Skip => Ok(DirectoryAction::Keep),
            OverwritePolicy::Replace => Ok(DirectoryAction::ReplaceNode),
        },
    }
}

/// The plan for one entry, or the error that refuses it. `destination` is
/// the entry's path as shown in messages; `existing` is what is there.
pub open spec fn sink_plan_holds(
    entry: ArchiveEntry,
    policy: ExtractionPolicy,
    destination: Seq<char>,
    existing: PathState,
    overwrite: OverwritePolicy,
    r: Result<SinkPlan, ArchiveError>,
) -> bool {
    match entry.kind {
        EntryKind::File => match file_destination(destination, existing, overwrite) {
            Ok(true) => r matches Ok(SinkPlan::WriteFile),
            Ok(false) => r matches Ok(SinkPlan::Skip),
            Err(ev) => r matches Err(e) && e@ == ev,
        },
        EntryKind::Directory => match directory_destination(destination, existing, overwrite) {
            Ok(a) => r matches Ok(SinkPlan::Directory(b)) && a == b,
            Err(ev) => r matches Err(e) && e@ == ev,
        },
        EntryKind::Symlink | EntryKind::Hardlink => {
            let hard = entry.kind == EntryKind::Hardlink;
            let what = if hard { "hard link"@ } else { "symbolic link"@ };
            if policy.links != LinkPolicy::Preserve {
                r matches Err(e) && e@ == ErrorView::PolicyViolation(what + " extraction is disabled: "@ + entry.name@)
            } else {
                match entry.link_target {
                    None => r matches Err(e) && e@ == ErrorView::InvalidInput(what + " has no target"@),
                    Some(t) => match parse_name(t@) {
                        Err(ne) => r matches Err(e) && e@ == ErrorView::PathViolation(name_error_text(ne)),
                        Ok(n) => match link_destination(destination, existing, overwrite) {
                            Err(ev) => r matches Err(e) && e@ == ev,
                            Ok(replace) => r matches Ok(SinkPlan::Link { target, hard: h, replace: rp })
                                && target@ == n && h == hard && rp == replace,
                        },
                    },
                }
            }
        },
        EntryKind::Special => if policy.special_files == SpecialFilePolicy::Reject {
            r matches Err(e) && e@ == ErrorView::PolicyViolation("special-file extraction is disabled: "@ + entry.name@)
        } else {
            r matches Err(e) && e@ == ErrorView::Unsupported(
                "creating special files is not implemented by the filesystem adapter"@,
            )
        },
    }
}

/// Decides what an extraction sink does with an entry whose destination is
/// `destination`, given what exists there, the overwrite policy and the
/// link and special-file policies.
pub fn plan_sink_entry(
    entry: &ArchiveEntry,
    policy: &ExtractionPolicy,
    destination: &str,
    existing: PathState,
    overwrite: OverwritePolicy,
) -> (r: Result<SinkPlan, ArchiveError>)
    ensures
        sink_plan_holds(*entry, *policy, destination@, existing, overwrite, r),
{
    match entry.kind {
        EntryKind::File => {
            if existing == PathState::Missing {
                return Ok(SinkPlan::WriteFile);
            }
            match overwrite {
                OverwritePolicy::Error => Err(existing_path_error(destination)),
                OverwritePolicy::Skip => Ok(SinkPlan::Skip),
                OverwritePolicy::Replace => {
                    if existing == PathState::Directory {
                        Err(ArchiveError::PolicyViolation(join2("cannot replace directory with file: ", destination)))
                    } else {
                        Ok(SinkPlan::WriteFile)
                    }
                },
            }
        },
        EntryKind::Directory => match ensure_directory_entry(destination, existing, overwrite) {
            Ok(a) => Ok(SinkPlan::Directory(a)),
            Err(e) => Err(e),
        },
        EntryKind::Symlink | EntryKind::Hardlink => {
            let hard = entry.kind == EntryKind::Hardlink;
            let what = if hard { "hard link" } else { "symbolic link" };
            if policy.links != LinkPolicy::Preserve {
                return Err(ArchiveError::PolicyViolation(join3(what, " extraction is disabled: ", entry.name.as_str())));
            }
            let target_text = match &entry.link_target {
                None => {
                    return Err(ArchiveError::InvalidInput(join2(what, " has no target")));
                },
                Some(t) => t,
            };
            let target = match EntryName::parse(target_text.as_str()) {
                Ok(n) => n,
                Err(e) => {
                    return Err(ArchiveError::from_name_error(e));
                },
            };
            match prepare_link_destination(destination, existing, overwrite) {
                Ok(replace) => Ok(SinkPlan::Link { target, hard, replace }),
                Err(e) => Err(e),
            }
        },
        EntryKind::Special => {
            if policy.special_files == SpecialFilePolicy::Reject {
                Err(ArchiveError::PolicyViolation(join2("special-file extraction is disabled: ", entry.name.as_str())))
            } else {
                Err(ArchiveError::unsupported("creating special files is not implemented by the filesystem adapter"))
            }
        },
    }
}

/// How the overwrite policy treats an existing destination. A regular file
/// is written when nothing is there; over an existing node that is not a
/// directory, `Replace` writes it and `Skip` keeps the node, so the two never
/// agree; `Error` refuses any existing node, and no policy puts a file in
/// place of a directory. A directory entry creates a missing directory, keeps
/// an existing one, and over another node is kept, replaced or refused as
/// `Skip`, `Replace` and `Error` say.
pub proof fn law_overwrite_policy(
    entry: ArchiveEntry,
    policy: ExtractionPolicy,
    destination: Seq<char>,
    existing: PathState,
    overwrite: OverwritePolicy,
    r: Result<SinkPlan, ArchiveError>,
)
    requires
        sink_plan_holds(entry, policy, destination, existing, overwrite, r),
    ensures
        entry.kind == EntryKind::File ==> {
            &&& existing == PathState::Missing ==> (r matches Ok(SinkPlan::WriteFile))
            &&& existing == PathState::Other && overwrite == OverwritePolicy::Replace ==> (r matches Ok(SinkPlan::WriteFile))
            &&& existing != PathState::Missing && overwrite == OverwritePolicy::Skip ==> (r matches Ok(SinkPlan::Skip))
            &&& existing != PathState::Missing && overwrite == OverwritePolicy::Error ==> r is Err
            &&& existing == PathState::Directory ==> !(r matches Ok(SinkPlan::WriteFile))
        },
        entry.kind == EntryKind::Directory ==> {
            &&& existing == PathState::Missing ==> (r matches Ok(SinkPlan::Directory(DirectoryAction::Create)))
            &&& existing == PathState::Directory ==> (r matches Ok(SinkPlan::Directory(DirectoryAction::Keep)))
            &&& existing == PathState::Other && overwrite == OverwritePolicy::Skip ==> (r matches Ok(SinkPlan::Directory(DirectoryAction::Keep)))
            &&& existing == PathState::Other && overwrite == OverwritePolicy::Replace ==> (r matches Ok(SinkPlan::Directory(DirectoryAction::ReplaceNode)))
            &&& existing == PathState::Other && overwrite == OverwritePolicy::Error ==> r is Err
        },
        (entry.kind == EntryKind::Symlink || entry.kind == EntryKind::Hardlink) ==> {
            &&& policy.links != LinkPolicy::Preserve ==> r is Err
            &&& existing != PathState::Missing && overwrite != OverwritePolicy::Replace ==> r is Err
            &&& existing == PathState::Directory ==> r is Err
            &&& r matches Ok(SinkPlan::Link { hard, replace, .. }) ==> hard == (entry.kind == EntryKind::Hardlink)
                && replace == (existing != PathState::Missing)
        },
        entry.kind == EntryKind::Special ==> r is Err,
{
}

/// What a sink holds between `begin` and `finish`.
#[derive(Clone, Copy, Debug, PartialEq, Eq, Structural)]
pub enum PendingKind {
    /// Nothing.
    Nothing,
    /// A temporary file for a regular file.
    File,
    /// A prepared directory.
    Directory,
}

/// What a sink does when an entry finishes.
#[derive(Clone, Copy, Debug, PartialEq, Eq, Structural)]
pub enum FinishPlan {
    /// Nothing to do.
    Nothing,
    /// Move the temporary file to its destination and restore metadata.
    Publish,
    /// Remove the temporary file: the destination appeared meanwhile.
    RefuseExisting,
    /// Restore the directory's metadata.
    DirectoryMetadata,
    /// Remove the temporary file and forget the pending entry.
    Cleanup,
}

/// Decides what a sink does when an entry finishes, given whether the
/// destination exists by now.
pub fn finish_plan(outcome: EntryOutcome, pending: PendingKind, overwrite: OverwritePolicy, destination_exists: bool) -> (r: FinishPlan)
    ensures
        r == (match outcome {
            EntryOutcome::Written { .. } => match pending {
                PendingKind::File => if overwrite == OverwritePolicy::Error && destination_exists {
                    FinishPlan::RefuseExisting
                } else {
                    FinishPlan::Publish
                },
                PendingKind::Directory => FinishPlan::DirectoryMetadata,
                PendingKind::Nothing => FinishPlan::Nothing,
            },
            _ => FinishPlan::Cleanup,
        }),
{
    match outcome {
        EntryOutcome::Written { .. } => match pending {
            PendingKind::File => {
                if overwrite == OverwritePolicy::Error && destination_exists {
                    FinishPlan::RefuseExisting
                } else {
                    FinishPlan::Publish
                }
            },
            PendingKind::Directory => FinishPlan::DirectoryMetadata,
            PendingKind::Nothing => FinishPlan::Nothing,
        },
        _ => FinishPlan::Cleanup,
    }
}

/// The metadata to restore on an extracted path: the POSIX permission bits
/// and the modification time, when the extraction asks for metadata and the
/// policy restores safe metadata; nothing otherwise.
pub fn restore_plan(entry: &ArchiveEntry, policy: &ExtractionPolicy, restore_metadata: bool) -> (r: (Option<u32>, Option<i64>))
    ensures
        !restore_metadata ==> r == (None::<u32>, None::<i64>),
        policy.metadata != MetadataPolicy::RestoreSafe ==> r == (None::<u32>, None::<i64>),
        restore_metadata && policy.metadata == MetadataPolicy::RestoreSafe ==> r.1 == entry.modified && r.0 == match entry.posix_attributes {
            Some(m) => Some(((m as u32) & 4095u32)),
            None => None::<u32>,
        },
{
    if !restore_metadata || policy.metadata != MetadataPolicy::RestoreSafe {
        return (None, None);
    }
    let mode = match entry.posix_attributes {
        Some(m) => {
            #[verifier::truncate]
            let low = m as u32;
            Some(low & 4095u32)
        },
        None => None,
    };
    (mode, entry.modified)
}

/// Nanoseconds since the Unix epoch split into whole seconds, rounded down,
/// and the nanoseconds past them.
pub fn split_unix_nanos(nanos: i64) -> (r: (i64, u32))
    ensures
        r.0 * 1_000_000_000 + r.1 == nanos,
        r.1 < 1_000_000_000,
{
    let mut seconds = nanos / 1_000_000_000;
    let mut rest = nanos % 1_000_000_000;
    if rest < 0 {
        seconds = seconds - 1;
        rest = rest + 1_000_000_000;
    }
    (seconds, rest as u32)
}

/// A time as nanoseconds since the Unix epoch, negative before it, from its
/// distance to the epoch, saturated at the `i64` range.
pub fn unix_nanos(after_epoch: bool, distance: u128) -> (r: i64)
    ensures
        r == (if after_epoch {
            if distance > i64::MAX { i64::MAX as int } else { distance as int }
        } else {
            if distance > i64::MAX { -(i64::MAX as int) } else { -(distance as int) }
        }),
{
    let clamped: i64 = if distance > i64::MAX as u128 {
        i64::MAX
    } else {
        distance as i64
    };
    if after_epoch {
        clamped
    } else {
        -clamped
    }
}

/// The archive name of a source root: its file name, or "content" when it
/// has none usable.
pub open spec fn source_name_text(file_name: Option<Seq<char>>) -> Seq<char> {
    match file_name {
        Some(n) => if n == "."@ || n == ".."@ || n.len() == 0 {
            "content"@
        } else {
            n
        },
        None => "content"@,
    }
}

/// Names a source root in the archive.
pub fn source_name(file_name: Option<&str>) -> (r: String)
    ensures
        r@ == source_name_text(match file_name {
            Some(n) => Some(n@),
            None => None,
        }),
{
    match file_name {
        Some(n) => {
            if str_eq(n, ".") || str_eq(n, "..") || n.is_empty() {
                owned("content")
            } else {
                owned(n)
            }
        },
        None => owned("content"),
    }
}

/// Hands out the next source entry identifier.
pub fn next_entry_id(next_id: &mut u64) -> (r: Result<EntryId, ArchiveError>)
    ensures
        *old(next_id) < u64::MAX ==> r == Ok::<EntryId, ArchiveError>(EntryId(*old(next_id))) && *final(next_id) == *old(next_id) + 1,
        *old(next_id) == u64::MAX ==> (r matches Err(e) && e@ == ErrorView::ResourceLimit(
            ResourceLimitKind::Entries,
            "source entry identifier overflowed"@,
        )) && *final(next_id) == *old(next_id),
{
    let id = EntryId::new(*next_id);
    match next_id.checked_add(1) {
        Some(n) => {
            *next_id = n;
            Ok(id)
        },
        None => Err(ArchiveError::ResourceLimit {
            kind: ResourceLimitKind::Entries,
            message: owned("source entry identifier overflowed"),
        }),
    }
}

} // verus!
