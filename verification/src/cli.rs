//! The decisions of the command-line application: level parsing, output
//! format resolution and archive stems.

use vstd::prelude::*;

use crate::detect::{join_parts, join_texts};
use crate::error::{ArchiveError, ErrorView};
use crate::filesystem::{last_index, PathState};
use crate::format::{
    extensions_match, format_id_text, hint_key, ArchiveFormatId, FormatCapability, FormatDescriptor,
};
use crate::native::decoder::ArchiveEngine;
use crate::text::{all_digits, decimal, join2, owned, string_of, sub_chars, chars_of, u64_text, views, lemma_views_push};

verus! {

/// The value of a string of decimal digits.
pub open spec fn digits_value(s: Seq<char>) -> nat
    decreases s.len(),
{
    if s.len() == 0 {
        0
    } else {
        digits_value(s.drop_last()) * 10 + ((s.last() as nat) - ('0' as nat)) as nat
    }
}

/// What `u32::from_str` accepts: an optional `+` and at least one decimal
/// digit, with a value that fits.
pub open spec fn parsed_u32(s: Seq<char>) -> Option<u32> {
    let d = if s.len() > 0 && s[0] == '+' { s.drop_first() } else { s };
    if d.len() > 0 && all_digits(d) && digits_value(d) <= u32::MAX {
        Some(digits_value(d) as u32)
    } else {
        None
    }
}

proof fn lemma_digits_prefix(d: Seq<char>, k: int)
    requires
        all_digits(d),
        0 <= k <= d.len(),
    ensures
        digits_value(d.subrange(0, k)) <= digits_value(d),
    decreases d.len(),
{
    if k < d.len() {
        assert(d.drop_last().subrange(0, k) =~= d.subrange(0, k));
        assert(crate::text::is_digit(d[d.len() - 1]));
        lemma_digits_prefix(d.drop_last(), k);
    } else {
        assert(d.subrange(0, k) =~= d);
    }
}

/// The value of the decimal digits `v[start..]`, or none when there is no
/// digit, a character is not a digit, or the value exceeds `max`.
pub(crate) fn bounded_digits(v: &Vec<char>, start: usize, max: u64) -> (r: Option<u64>)
    requires
        start <= v.len(),
        max <= u32::MAX,
    ensures
        ({
            let d = v@.subrange(start as int, v@.len() as int);
            r == if d.len() > 0 && all_digits(d) && digits_value(d) <= max {
                Some(digits_value(d) as u64)
            } else {
                None::<u64>
            }
        }),
{
    let ghost d = v@.subrange(start as int, v@.len() as int);
    if start == v.len() {
        return None;
    }
    let mut acc: u64 = 0;
    let mut i: usize = start;
    while i < v.len()
        invariant
            start <= i <= v.len(),
            max <= u32::MAX,
            d == v@.subrange(start as int, v@.len() as int),
            all_digits(v@.subrange(start as int, i as int)),
            acc == digits_value(v@.subrange(start as int, i as int)),
            acc <= max,
        decreases v.len() - i,
    {
        let c = v[i];
        if !('0' <= c && c <= '9') {
            assert(d[i - start] == c);
            return None;
        }
        let ghost before = v@.subrange(start as int, i as int);
        let ghost after = v@.subrange(start as int, i + 1);
        assert(after.drop_last() =~= before);
        assert(after.last() == c);
        acc = acc * 10 + ((c as u32) - ('0' as u32)) as u64;
        i = i + 1;
        if acc > max {
            proof {
                if all_digits(d) {
                    assert(d.subrange(0, i - start) =~= after);
                    lemma_digits_prefix(d, i - start);
                }
            }
            return None;
        }
    }
    assert(v@.subrange(start as int, i as int) =~= d);
    Some(acc)
}

/// Parses a decimal `u32`, as `str::parse::<u32>`: an optional `+` sign
/// followed by digits, the value fitting in 32 bits.
fn parse_u32(s: &str) -> (r: Option<u32>)
    ensures
        r == parsed_u32(s@),
{
    let v = chars_of(s);
    let start: usize = if v.len() > 0 && v[0] == '+' { 1 } else { 0 };
    assert(start == 1 ==> v@.subrange(1, v@.len() as int) =~= s@.drop_first());
    assert(start == 0 ==> v@.subrange(0, v@.len() as int) =~= s@);
    match bounded_digits(&v, start, 4294967295) {
        Some(n) => Some(n as u32),
        None => None,
    }
}

/// The text that `{:?}` makes of a string: quoted, with escapes.
pub uninterp spec fn debug_quoted(s: Seq<char>) -> Seq<char>;

/// Quotes a string as its `Debug` rendering does.
#[verifier::external_body]
fn debug_text(s: &str) -> (r: String)
    ensures
        r@ == debug_quoted(s@),
{
    format!("{s:?}")
}

/// The message for a compression level outside 0 to 9.
pub open spec fn level_error_text(got: Seq<char>) -> Seq<char> {
    "compression level must be an integer from 0 to 9, got "@ + got
}

/// The outcome of parsing a compression level from `value`.
pub open spec fn level_outcome(value: Seq<char>, r: Result<u32, String>) -> bool {
    match parsed_u32(value) {
        None => r matches Err(m) && m@ == level_error_text(debug_quoted(value)),
        Some(n) => if n > 9 {
            r matches Err(m) && m@ == level_error_text(decimal(n as nat))
        } else {
            r == Ok::<u32, String>(n)
        },
    }
}

/// Parses a compression level from 0 to 9.
pub fn parse_compression_level(value: &str) -> (r: Result<u32, String>)
    ensures
        level_outcome(value@, r),
{
    let level = match parse_u32(value) {
        Some(n) => n,
        None => {
            let q = debug_text(value);
            return Err(join2("compression level must be an integer from 0 to 9, got ", q.as_str()));
        },
    };
    if level > 9 {
        let n = u64_text(level as u64);
        return Err(join2("compression level must be an integer from 0 to 9, got ", n.as_str()));
    }
    Ok(level)
}

/// Some handler has identifier `id`.
pub open spec fn has_format(formats: Seq<FormatDescriptor>, id: Seq<char>) -> bool {
    exists|k: int| 0 <= k < formats.len() && (#[trigger] formats[k]).id@ == id
}

/// Accepts a format named by the user when the engine has a handler with
/// that identifier.
pub fn require_format(engine: &ArchiveEngine, value: &str) -> (r: Result<ArchiveFormatId, ArchiveError>)
    ensures
        has_format(engine.formats_view(), format_id_text(value@)) ==> (r matches Ok(f) && f@ == format_id_text(value@)),
        !has_format(engine.formats_view(), format_id_text(value@)) ==> (r matches Err(e) && e@ == ErrorView::UnsupportedFormat(value@)),
{
    let format = ArchiveFormatId::new(value);
    let formats = engine.formats();
    let mut i: usize = 0;
    while i < formats.len()
        invariant
            i <= formats.len(),
            formats@ == engine.formats_view(),
            format@ == format_id_text(value@),
            forall|k: int| 0 <= k < i ==> (#[trigger] formats@[k]).id@ != format@,
        decreases formats.len() - i,
    {
        if formats[i].id.same(&format) {
            return Ok(format);
        }
        i = i + 1;
    }
    Err(ArchiveError::UnsupportedFormat(owned(value)))
}

/// The writable handlers, in order, whose primary extensions match `hint`,
/// or with `any` whose primary or additional extensions match it.
pub open spec fn writable_matches(formats: Seq<FormatDescriptor>, hint: Seq<char>, any: bool) -> Seq<FormatDescriptor>
    decreases formats.len(),
{
    if formats.len() == 0 {
        seq![]
    } else {
        let rest = writable_matches(formats.drop_last(), hint, any);
        let d = formats.last();
        let key = hint_key(hint);
        let hit = extensions_match(d.extensions@, key) || (any && extensions_match(d.add_extensions@, key));
        if hit && d.capabilities@.contains(FormatCapability::Create) {
            rest.push(d)
        } else {
            rest
        }
    }
}

/// The candidates for an output path: primary-extension matches, or when
/// there are none, matches on any extension.
pub open spec fn output_candidates(formats: Seq<FormatDescriptor>, hint: Seq<char>) -> Seq<FormatDescriptor> {
    if writable_matches(formats, hint, false).len() > 0 {
        writable_matches(formats, hint, false)
    } else {
        writable_matches(formats, hint, true)
    }
}

fn writable_list<'a>(formats: &'a [FormatDescriptor], hint: &str, any: bool) -> (r: Vec<&'a FormatDescriptor>)
    ensures
        r@.len() == writable_matches(formats@, hint@, any).len(),
        forall|k: int| 0 <= k < r@.len() ==> *r@[k] == writable_matches(formats@, hint@, any)[k],
{
    let mut out: Vec<&FormatDescriptor> = Vec::new();
    let mut i: usize = 0;
    while i < formats.len()
        invariant
            i <= formats.len(),
            out@.len() == writable_matches(formats@.take(i as int), hint@, any).len(),
            forall|k: int| 0 <= k < out@.len() ==> *out@[k] == writable_matches(formats@.take(i as int), hint@, any)[k],
        decreases formats.len() - i,
    {
        let d = &formats[i];
        proof {
            assert(formats@.take(i as int + 1).drop_last() =~= formats@.take(i as int));
        }
        let hit = if any { d.matches_extension(hint) } else { d.matches_primary_extension(hint) };
        if hit && d.supports(FormatCapability::Create) {
            out.push(d);
        }
        i = i + 1;
    }
    assert(formats@.take(formats@.len() as int) =~= formats@);
    out
}

/// The identifiers of some descriptors.
pub open spec fn descriptor_ids(ds: Seq<FormatDescriptor>) -> Seq<Seq<char>> {
    Seq::new(ds.len(), |i: int| ds[i].id@)
}

/// Chooses the handler for a new archive: the user's explicit choice, else
/// the single writable handler whose extensions match the output path.
pub fn resolve_output_format(engine: &ArchiveEngine, path: &str, explicit: Option<&str>) -> (r: Result<ArchiveFormatId, ArchiveError>)
    ensures
        match explicit {
            Some(value) => {
                &&& has_format(engine.formats_view(), format_id_text(value@)) ==> (r matches Ok(f) && f@ == format_id_text(value@))
                &&& !has_format(engine.formats_view(), format_id_text(value@)) ==> (r matches Err(e) && e@ == ErrorView::UnsupportedFormat(value@))
            },
            None => {
                let c = output_candidates(engine.formats_view(), path@);
                if c.len() == 1 {
                    r matches Ok(f) && f@ == c[0].id@
                } else if c.len() == 0 {
                    r matches Err(e) && e@ == ErrorView::UnsupportedFormat("no writable Format7zF handler matches "@ + path@)
                } else {
                    r matches Err(e) && e@ == ErrorView::InvalidInput("output format is ambiguous: "@ + join_parts(descriptor_ids(c), ", "@))
                }
            },
        },
{
    match explicit {
        Some(value) => {
            return require_format(engine, value);
        },
        None => {},
    }
    let formats = engine.formats();
    let mut matches = writable_list(formats, path, false);
    if matches.len() == 0 {
        matches = writable_list(formats, path, true);
    }
    let ghost c = output_candidates(engine.formats_view(), path@);
    if matches.len() == 1 {
        return Ok(matches[0].id.clone());
    }
    if matches.len() == 0 {
        return Err(ArchiveError::UnsupportedFormat(join2("no writable Format7zF handler matches ", path)));
    }
    let mut ids: Vec<String> = Vec::new();
    let mut i: usize = 0;
    while i < matches.len()
        invariant
            i <= matches.len(),
            matches@.len() == c.len(),
            forall|k: int| 0 <= k < matches@.len() ==> *matches@[k] == c[k],
            views(ids@) == descriptor_ids(c).take(i as int),
        decreases matches.len() - i,
    {
        let id = owned(matches[i].id.as_str());
        proof {
            lemma_views_push(ids@, id);
            assert(descriptor_ids(c).take(i as int + 1) =~= descriptor_ids(c).take(i as int).push(id@));
        }
        ids.push(id);
        i = i + 1;
    }
    assert(descriptor_ids(c).take(i as int) =~= descriptor_ids(c));
    let joined = join_texts(&ids, ", ");
    Err(ArchiveError::InvalidInput(join2("output format is ambiguous: ", joined.as_str())))
}

/// The stem of a file name, as `Path::file_stem`: the part before the last
/// dot, or the whole name when it has no dot after its first character.
pub open spec fn file_stem(name: Seq<char>) -> Seq<char> {
    let i = last_index(name, '.');
    if name == ".."@ || i <= 0 {
        name
    } else {
        name.subrange(0, i)
    }
}

/// The stem used to name extracted or created archives: the file name's
/// stem, or "archive" when there is none.
pub open spec fn archive_stem_text(file_name: Option<Seq<char>>) -> Seq<char> {
    match file_name {
        Some(n) => if file_stem(n).len() > 0 {
            file_stem(n)
        } else {
            "archive"@
        },
        None => "archive"@,
    }
}

/// The archive stem of a path given its final file name.
pub fn archive_stem(file_name: Option<&str>) -> (r: String)
    ensures
        r@ == archive_stem_text(match file_name {
            Some(n) => Some(n@),
            None => None,
        }),
{
    let n = match file_name {
        Some(n) => n,
        None => {
            return owned("archive");
        },
    };
    let stem = stem_chars(n);
    if stem.len() > 0 {
        string_of(&stem)
    } else {
        owned("archive")
    }
}

/// The stem of a file name.
pub fn stem_of(name: &str) -> (r: String)
    ensures
        r@ == file_stem(name@),
{
    string_of(&stem_chars(name))
}

fn stem_chars(name: &str) -> (r: Vec<char>)
    ensures
        r@ == file_stem(name@),
{
    let chars = chars_of(name);
    let stem = if crate::text::str_eq(name, "..") {
        chars
    } else {
        match crate::filesystem::find_last_dot(&chars) {
            Some(i) => if i == 0 { chars } else { sub_chars(&chars, 0, i) },
            None => chars,
        }
    };
    stem
}

/// The refusal of an extraction destination that is not a directory.
pub open spec fn not_directory_text(destination: Seq<char>) -> Seq<char> {
    "extraction destination is not a directory: "@ + destination
}

/// Decides whether an extraction destination's names are read: not when it
/// is missing, refused when it is anything but a real directory.
pub fn destination_listing(destination: &str, existing: PathState) -> (r: Result<bool, ArchiveError>)
    ensures
        existing == PathState::Missing ==> r == Ok::<bool, ArchiveError>(false),
        existing == PathState::Directory ==> r == Ok::<bool, ArchiveError>(true),
        existing == PathState::Other ==> (r matches Err(e) && e@ == ErrorView::PolicyViolation(not_directory_text(destination@))),
{
    match existing {
        PathState::Missing => Ok(false),
        PathState::Directory => Ok(true),
        PathState::Other => Err(ArchiveError::PolicyViolation(join2("extraction destination is not a directory: ", destination))),
    }
}

/// Decimal text is read as `str::parse::<u32>` reads it: any non-empty run
/// of ASCII digits, leading zeros included, optionally after one `+`, gives
/// its value when that fits in 32 bits and nothing otherwise; text with any
/// other character after the optional sign, or with no digit, gives nothing.
pub proof fn law_decimal_text_parses(sign: Seq<char>, d: Seq<char>)
    requires
        sign == Seq::<char>::empty() || sign == seq!['+'],
    ensures
        d.len() > 0 && (forall|i: int| 0 <= i < d.len() ==> '0' <= #[trigger] d[i] <= '9') ==> parsed_u32(sign + d) == (
            if digits_value(d) <= u32::MAX { Some(digits_value(d) as u32) } else { None::<u32> }),
        (exists|i: int| 0 <= i < d.len() && !('0' <= #[trigger] d[i] <= '9')) && (sign.len() == 1 || d[0] != '+')
            ==> parsed_u32(sign + d) is None,
        parsed_u32(sign) is None,
{
    let s = sign + d;
    if sign.len() == 1 {
        assert(s.drop_first() =~= d);
    } else {
        assert(s =~= d);
    }
    if exists|i: int| 0 <= i < d.len() && !('0' <= #[trigger] d[i] <= '9') {
        let i = choose|i: int| 0 <= i < d.len() && !('0' <= #[trigger] d[i] <= '9');
        assert(!crate::text::is_digit(d[i]));
    }
    if sign.len() == 1 {
        assert(sign.drop_first().len() == 0);
    }
}

/// Every level from 0 to 9 written in decimal is accepted as itself, with or
/// without leading zeros or a `+`; larger numbers and text that is no
/// number are refused.
pub proof fn law_levels_zero_to_nine_are_accepted(sign: Seq<char>, d: Seq<char>, r: Result<u32, String>)
    requires
        sign == Seq::<char>::empty() || sign == seq!['+'],
        d.len() > 0,
        forall|i: int| 0 <= i < d.len() ==> '0' <= #[trigger] d[i] <= '9',
        level_outcome(sign + d, r),
    ensures
        digits_value(d) <= 9 ==> r == Ok::<u32, String>(digits_value(d) as u32),
        digits_value(d) > 9 ==> r is Err,
{
    law_decimal_text_parses(sign, d);
}

} // verus!
