//! The command line of the structural diff tool: its commands, and the text
//! it prints, writes and sends.
use vstd::prelude::*;
use vstd::string::StringExecFns;
use vstd::string::StringSliceAdditionalSpecFns;
use vstd::utf8::{decode_utf8, encode_utf8, valid_utf8};
use crate::manifest::schema::{ChangeKind, ChangeManifest, EntityChange, EntityChangeView, changes_view};
use crate::order::strings_of;
use crate::parser::csharp::{CSharpParser, csharp_entities};
use crate::parser::types::{CodeEntity, CodeEntityView, entities_view};
use crate::parser::typescript::{TypeScriptParser, typescript_entities};
use crate::syntax::utf8_str;
use crate::text::{decimal, ends_with, has_substring, occurs_at, push_char, push_decimal, str_ends_with, str_eq};

verus! {

/// The tool's command line: one command.
#[derive(Debug, PartialEq, Eq)]
pub struct Cli {
    pub command: Commands,
}

/// The commands of the tool.
#[derive(Debug, PartialEq, Eq)]
pub enum Commands {
    /// Structural changes between two git refs.
    Diff {
        repo_path: String,
        from: String,
        to: String,
        explain: bool,
        json: bool,
        prompt: bool,
        html: bool,
        output: Option<String>,
        paths: Vec<String>,
    },
    /// Duplicate code in the working tree.
    Duplicates {
        repo_path: String,
        explain: bool,
        prompt: bool,
        output: Option<String>,
        paths: Vec<String>,
    },
}

/// A TypeScript source, by its extension.
pub open spec fn is_typescript_path(path: Seq<char>) -> bool {
    ends_with(path, ".ts"@) || ends_with(path, ".tsx"@)
}

/// The entities of the file `path` with text `source`: TypeScript files
/// (`.ts`, `.tsx`) and C# files (`.cs`) as their parser extracts them, other
/// files none.
pub open spec fn file_entities(path: Seq<char>, source: Seq<char>) -> Seq<CodeEntityView> {
    if is_typescript_path(path) {
        typescript_entities(path, encode_utf8(source))
    } else if ends_with(path, ".cs"@) {
        csharp_entities(path, encode_utf8(source))
    } else {
        Seq::empty()
    }
}

/// The entities of the files, each given as (path, source), in file order.
pub open spec fn all_entities(files: Seq<(String, String)>) -> Seq<CodeEntityView>
    decreases files.len(),
{
    if files.len() == 0 {
        Seq::empty()
    } else {
        all_entities(files.drop_last()) + file_entities(files.last().0@, files.last().1@)
    }
}

/// The entities of the files, each given as (path, source), in file order:
/// TypeScript files (`.ts`, `.tsx`) and C# files (`.cs`) are parsed with
/// their grammar; other files give nothing. Each file's entities come as its
/// parser extracts them.
pub fn extract_all(files: &[(String, String)]) -> (res: Vec<CodeEntity>)
    ensures
        entities_view(res@) == all_entities(files@),
{
    let ts_parser = TypeScriptParser::new();
    let cs_parser = CSharpParser::new();
    let mut entities: Vec<CodeEntity> = Vec::new();
    let mut i: usize = 0;
    while i < files.len()
        invariant
            i <= files.len(),
            entities_view(entities@) == all_entities(files@.take(i as int)),
        decreases files.len() - i,
    {
        let path = files[i].0.as_str();
        let source = files[i].1.as_str();
        let mut found: Vec<CodeEntity> = if str_ends_with(path, ".ts") || str_ends_with(path, ".tsx") {
            ts_parser.extract(path, source)
        } else if str_ends_with(path, ".cs") {
            cs_parser.extract(path, source)
        } else {
            Vec::new()
        };
        proof {
            reveal_strlit(".ts");
            reveal_strlit(".tsx");
            reveal_strlit(".cs");
        }
        assert(entities_view(found@) == file_entities(files@[i as int].0@, files@[i as int].1@));
        let ghost before = entities@;
        entities.append(&mut found);
        proof {
            let taken = files@.take(i + 1);
            assert(taken.drop_last() =~= files@.take(i as int));
            assert(taken.last() == files@[i as int]);
            assert(entities_view(entities@) =~= entities_view(before) + file_entities(files@[i as int].0@, files@[i as int].1@));
        }
        i = i + 1;
    }
    assert(files@.take(files.len() as int) =~= files@);
    entities
}

/// A leap year of the Gregorian calendar.
pub open spec fn is_leap(y: int) -> bool {
    y % 4 == 0 && (y % 100 != 0 || y % 400 == 0)
}

/// The number of days of year `y`.
pub open spec fn days_in_year(y: int) -> int {
    if is_leap(y) { 366 } else { 365 }
}

/// The year that day `days` (counted from the start of `year`) falls in,
/// and the day within that year.
pub open spec fn year_and_day(days: int, year: int) -> (int, int)
    decreases days,
{
    if days < days_in_year(year) || days < 0 {
        (year, days)
    } else {
        year_and_day(days - days_in_year(year), year + 1)
    }
}

/// The number of days of month `m` (0 for January).
pub open spec fn month_length(leap: bool, m: int) -> int {
    if m == 1 { if leap { 29 } else { 28 } }
    else if m == 3 || m == 5 || m == 8 || m == 10 { 30 }
    else { 31 }
}

/// The month (1 for January) and day of month (from 1) of day `days` of a
/// year, counting from month `m` (0 for January).
pub open spec fn month_and_day(days: int, leap: bool, m: int) -> (int, int)
    decreases 12 - m,
{
    if m >= 12 || days < month_length(leap, m) {
        (m + 1, days + 1)
    } else {
        month_and_day(days - month_length(leap, m), leap, m + 1)
    }
}

/// The calendar date (year, month, day) of `days` days after 1970-01-01.
pub open spec fn ymd_of(days: nat) -> (int, int, int) {
    let (y, d) = year_and_day(days as int, 1970);
    let (m, day) = month_and_day(d, is_leap(y), 0);
    (y, m, day)
}

/// The days of the months from `m` (0 for January) to December.
pub open spec fn remaining_days(leap: bool, m: int) -> int
    decreases 12 - m,
{
    if m >= 12 { 0 } else { month_length(leap, m) + remaining_days(leap, m + 1) }
}

proof fn lemma_month_and_day(d: int, leap: bool, m: int)
    requires
        0 <= m <= 12,
        0 <= d < remaining_days(leap, m),
    ensures
        m + 1 <= month_and_day(d, leap, m).0 <= 12,
        1 <= month_and_day(d, leap, m).1 <= month_length(leap, month_and_day(d, leap, m).0 - 1),
    decreases 12 - m,
{
    if m < 12 && d >= month_length(leap, m) {
        lemma_month_and_day(d - month_length(leap, m), leap, m + 1);
    }
}

/// `days_to_ymd` gives a calendar date: a year from 1970 on, a month from 1
/// to 12 and a day within that month.
pub proof fn lemma_ymd_is_a_date(days: nat)
    ensures
        ymd_of(days).0 >= 1970,
        1 <= ymd_of(days).1 <= 12,
        1 <= ymd_of(days).2 <= month_length(is_leap(ymd_of(days).0), ymd_of(days).1 - 1),
{
    lemma_year_bound(days as int, 1970);
    let (y, d) = year_and_day(days as int, 1970);
    reveal_with_fuel(remaining_days, 13);
    assert(remaining_days(true, 0) == 366);
    assert(remaining_days(false, 0) == 365);
    lemma_month_and_day(d, is_leap(y), 0);
}

/// The date after `(y, m, day)`: the next day of the month, else the first
/// of the next month, else the first of January of the next year.
pub open spec fn next_date(date: (int, int, int)) -> (int, int, int) {
    let (y, m, day) = date;
    if day < month_length(is_leap(y), m - 1) {
        (y, m, day + 1)
    } else if m < 12 {
        (y, m + 1, 1)
    } else {
        (y + 1, 1, 1)
    }
}

proof fn lemma_year_step(days: int, year: int)
    requires
        days >= 0,
    ensures
        year_and_day(days + 1, year) == if year_and_day(days, year).1 + 1 < days_in_year(year_and_day(days, year).0) {
            (year_and_day(days, year).0, year_and_day(days, year).1 + 1)
        } else {
            (year_and_day(days, year).0 + 1, 0)
        },
    decreases days,
{
    if days >= days_in_year(year) {
        lemma_year_step(days - days_in_year(year), year + 1);
    } else if days + 1 == days_in_year(year) {
        assert(year_and_day(0, year + 1) == (year + 1, 0int));
    }
}

proof fn lemma_month_step(r: int, leap: bool, m: int)
    requires
        0 <= m <= 12,
        0 <= r,
        r + 1 < remaining_days(leap, m),
    ensures
        month_and_day(r + 1, leap, m) == if month_and_day(r, leap, m).1 < month_length(leap, month_and_day(r, leap, m).0 - 1) {
            (month_and_day(r, leap, m).0, month_and_day(r, leap, m).1 + 1)
        } else {
            (month_and_day(r, leap, m).0 + 1, 1)
        },
    decreases 12 - m,
{
    if m < 12 && r >= month_length(leap, m) {
        lemma_month_step(r - month_length(leap, m), leap, m + 1);
    } else if m < 12 && r + 1 == month_length(leap, m) {
        assert(month_and_day(0, leap, m + 1) == (m + 2, 1int));
    }
}

proof fn lemma_remaining_days_positive(leap: bool, m: int)
    ensures
        remaining_days(leap, m) >= 0,
    decreases 12 - m,
{
    if m < 12 {
        lemma_remaining_days_positive(leap, m + 1);
    }
}

proof fn lemma_month_last(leap: bool, m: int)
    requires
        0 <= m <= 11,
    ensures
        month_and_day(remaining_days(leap, m) - 1, leap, m) == (12int, month_length(leap, 11)),
    decreases 12 - m,
{
    if m < 11 {
        lemma_remaining_days_positive(leap, m + 2);
        lemma_month_last(leap, m + 1);
    } else {
        reveal_with_fuel(remaining_days, 2);
    }
}

/// Each day's date follows the day before's: `days_to_ymd` counts the
/// calendar forward one day at a time.
pub proof fn lemma_ymd_next(days: nat)
    ensures
        ymd_of(days + 1) == next_date(ymd_of(days)),
{
    lemma_year_bound(days as int, 1970);
    lemma_year_step(days as int, 1970);
    let (y, r) = year_and_day(days as int, 1970);
    reveal_with_fuel(remaining_days, 13);
    assert(remaining_days(true, 0) == 366);
    assert(remaining_days(false, 0) == 365);
    let leap = is_leap(y);
    assert(remaining_days(leap, 0) == days_in_year(y));
    if r + 1 < days_in_year(y) {
        lemma_month_step(r, leap, 0);
        lemma_month_and_day(r + 1, leap, 0);
    } else {
        lemma_month_last(leap, 0);
        assert(month_and_day(0, is_leap(y + 1), 0) == (1int, 1int));
    }
}

proof fn lemma_year_bound(days: int, year: int)
    requires
        days >= 0,
    ensures
        year <= year_and_day(days, year).0 <= year + days / 365,
        0 <= year_and_day(days, year).1 < days_in_year(year_and_day(days, year).0),
    decreases days,
{
    if days >= days_in_year(year) {
        lemma_year_bound(days - days_in_year(year), year + 1);
    }
}

fn month_length_of(leap: bool, m: u64) -> (res: u64)
    requires
        m < 12,
    ensures
        res == month_length(leap, m as int),
{
    if m == 1 {
        if leap { 29 } else { 28 }
    } else if m == 3 || m == 5 || m == 8 || m == 10 {
        30
    } else {
        31
    }
}

fn year_length(year: u64) -> (res: u64)
    ensures
        res == days_in_year(year as int),
{
    if year % 4 == 0 && (year % 100 != 0 || year % 400 == 0) { 366 } else { 365 }
}

/// The calendar date (year, month, day) of `days` days after 1970-01-01.
pub fn days_to_ymd(days: u64) -> (res: (u64, u64, u64))
    ensures
        (res.0 as int, res.1 as int, res.2 as int) == ymd_of(days as nat),
{
    let mut rest = days;
    let mut year: u64 = 1970;
    proof { lemma_year_bound(days as int, 1970); }
    while rest >= year_length(year)
        invariant
            year_and_day(days as int, 1970) == year_and_day(rest as int, year as int),
            1970 <= year,
            365 * (year - 1970) + rest <= days,
        decreases rest,
    {
        let length = year_length(year);
        rest = rest - length;
        year = year + 1;
    }
    let leap = year % 4 == 0 && (year % 100 != 0 || year % 400 == 0);
    assert(leap == is_leap(year as int));
    assert(year_and_day(days as int, 1970) == (year as int, rest as int));
    let mut month: u64 = 0;
    while month < 12 && rest >= month_length_of(leap, month)
        invariant
            month <= 12,
            month_and_day(year_and_day(days as int, 1970).1, leap, 0) == month_and_day(rest as int, leap, month as int),
            rest < 366,
        decreases 12 - month,
    {
        rest = rest - month_length_of(leap, month);
        month = month + 1;
    }
    (year, month + 1, rest + 1)
}

/// `n` in decimal, with zeros in front up to `width` digits.
pub open spec fn padded(n: nat, width: nat) -> Seq<char> {
    let d = decimal(n);
    if d.len() < width { Seq::new((width - d.len()) as nat, |i: int| '0') + d } else { d }
}

fn push_padded(out: &mut String, n: u64, width: usize)
    ensures
        final(out)@ == old(out)@ + padded(n as nat, width as nat),
{
    let mut digits = String::new();
    push_decimal(&mut digits, n);
    let count = digits.as_str().unicode_len();
    let mut k = count;
    let ghost start = out@;
    let ghost zeros: nat = if count < width { (width - count) as nat } else { 0 };
    let mut pushed: usize = 0;
    while k < width
        invariant
            count <= k <= width || (k == count && count >= width),
            count == digits@.len(),
            digits@ == decimal(n as nat),
            pushed == k - count,
            out@ == start + Seq::new(pushed as nat, |i: int| '0'),
        decreases width - k,
    {
        push_char(out, '0');
        k = k + 1;
        pushed = pushed + 1;
        assert(out@ =~= start + Seq::new(pushed as nat, |i: int| '0'));
    }
    out.append(digits.as_str());
    if count < width {
        assert(out@ =~= start + padded(n as nat, width as nat));
    } else {
        assert(Seq::new(0, |i: int| '0') =~= Seq::<char>::empty());
        assert(out@ =~= start + padded(n as nat, width as nat));
    }
}

/// The moment `secs` seconds after the Unix epoch (UTC) as
/// `YYYY-MM-DDTHH-MM-SS`, a form that is safe in file names.
pub open spec fn timestamp_text(secs: nat) -> Seq<char> {
    let (y, m, d) = ymd_of(secs / 86400);
    padded(y as nat, 4) + "-"@ + padded(m as nat, 2) + "-"@ + padded(d as nat, 2) + "T"@
        + padded((secs / 3600) % 24, 2) + "-"@ + padded((secs / 60) % 60, 2) + "-"@ + padded(secs % 60, 2)
}

/// The moment `secs` seconds after the Unix epoch, as `YYYY-MM-DDTHH-MM-SS`.
pub fn timestamp_of(secs: u64) -> (res: String)
    ensures
        res@ == timestamp_text(secs as nat),
{
    let s = secs % 60;
    let m = (secs / 60) % 60;
    let h = (secs / 3600) % 24;
    let days = secs / 86400;
    let (year, month, day) = days_to_ymd(days);
    let mut out = String::new();
    push_padded(&mut out, year, 4);
    out.append("-");
    push_padded(&mut out, month, 2);
    out.append("-");
    push_padded(&mut out, day, 2);
    out.append("T");
    push_padded(&mut out, h, 2);
    out.append("-");
    push_padded(&mut out, m, 2);
    out.append("-");
    push_padded(&mut out, s, 2);
    assert(out@ =~= timestamp_text(secs as nat));
    out
}

/// The first `limit` bytes of a source, or all of it when it is no longer.
pub open spec fn snippet_of(source: Seq<char>, limit: nat) -> Seq<char> {
    let b = encode_utf8(source);
    if b.len() > limit { decode_utf8(b.take(limit as int)) } else { source }
}

/// Cutting the source after `limit` bytes does not split a character.
pub open spec fn cuts_cleanly(source: Seq<char>, limit: nat) -> bool {
    encode_utf8(source).len() > limit ==> valid_utf8(encode_utf8(source).take(limit as int))
}

/// The first `limit` bytes of `source` (all of it when it is no longer).
pub fn snippet(source: &str, limit: usize) -> (res: String)
    requires
        cuts_cleanly(source@, limit as nat),
    ensures
        res@ == snippet_of(source@, limit as nat),
{
    let bytes = source.as_bytes();
    if bytes.len() > limit {
        let part = vstd::slice::slice_subrange(bytes, 0, limit);
        assert(part@ =~= encode_utf8(source@).take(limit as int));
        match utf8_str(part) {
            Ok(s) => {
                proof { vstd::utf8::encode_utf8_decode_utf8(s@); }
                String::from_str(s)
            },
            Err(_) => String::new(),
        }
    } else {
        String::from_str(source)
    }
}

/// Whether cutting `source` after `limit` bytes keeps whole characters.
pub fn cuts_cleanly_at(source: &str, limit: usize) -> (res: bool)
    ensures
        res == cuts_cleanly(source@, limit as nat),
{
    let bytes = source.as_bytes();
    if bytes.len() > limit {
        let part = vstd::slice::slice_subrange(bytes, 0, limit);
        assert(part@ =~= encode_utf8(source@).take(limit as int));
        crate::syntax::utf8_valid(part)
    } else {
        true
    }
}

/// The groups of entities as plain sequences.
pub open spec fn entity_groups(v: Seq<Vec<&CodeEntity>>) -> Seq<Seq<CodeEntity>> {
    v.map_values(|g: Vec<&CodeEntity>| g@.map_values(|e: &CodeEntity| *e))
}

/// Every source in the groups cuts cleanly after `limit` bytes.
pub open spec fn groups_cut_cleanly(groups: Seq<Seq<CodeEntity>>, limit: nat) -> bool {
    forall|k: int, m: int| 0 <= k < groups.len() && 0 <= m < groups[k].len()
        ==> cuts_cleanly(#[trigger] groups[k][m].source@, limit)
}

/// One entity of a clone group in a prompt: name, place and a 300-byte snippet.
pub open spec fn entity_block(e: CodeEntity) -> Seq<char> {
    "**"@ + e.name@ + "** (`"@ + e.file_path@ + "` line "@ + decimal(e.start_line as nat) + ")\n```\n"@
        + snippet_of(e.source@, 300) + "\n```\n\n"@
}

/// The blocks of the first `n` entities of a group.
pub open spec fn entity_blocks(g: Seq<CodeEntity>, n: int) -> Seq<char>
    decreases n,
{
    if n <= 0 { Seq::empty() } else { entity_blocks(g, n - 1) + entity_block(g[n - 1]) }
}

/// The text of the first `n` groups, numbered from 1.
pub open spec fn group_blocks(groups: Seq<Seq<CodeEntity>>, n: int) -> Seq<char>
    decreases n,
{
    if n <= 0 {
        Seq::empty()
    } else {
        group_blocks(groups, n - 1) + "### Group "@ + decimal(n as nat) + "\n"@
            + entity_blocks(groups[n - 1], groups[n - 1].len() as int)
    }
}

/// A section of clone groups under `title`, or nothing when there are none.
pub open spec fn clone_section(title: Seq<char>, groups: Seq<Seq<CodeEntity>>) -> Seq<char> {
    if groups.len() == 0 {
        Seq::empty()
    } else {
        "## "@ + title + " ("@ + decimal(groups.len()) + " group(s))\n\n"@ + group_blocks(groups, groups.len() as int)
    }
}

/// The opening of the duplicates prompt.
pub open spec fn duplicates_intro() -> Seq<char> {
    "I ran Structix duplicate detection on my codebase. For each clone group below, please: confirm if they are functionally equivalent, suggest a concrete refactoring strategy, and name a shared abstraction.\n\n"@
}

/// A ready-to-paste prompt about the clone groups.
pub open spec fn duplicates_prompt_of(exact: Seq<Seq<CodeEntity>>, structural: Seq<Seq<CodeEntity>>) -> Seq<char> {
    duplicates_intro() + if exact.len() == 0 && structural.len() == 0 {
        "No duplicates detected.\n"@
    } else {
        clone_section("Exact clones"@, exact) + clone_section("Structural clones"@, structural)
    }
}

/// The heading of a section of `n` clone groups under `title`.
pub open spec fn section_heading(title: Seq<char>, n: nat) -> Seq<char> {
    "## "@ + title + " ("@ + decimal(n) + " group(s))"@
}

proof fn lemma_occurs_inside(a: Seq<char>, h: Seq<char>, r: Seq<char>, b: Seq<char>)
    ensures
        occurs_at(a + (h + r) + b, h, a.len() as int),
{
    let s = a + (h + r) + b;
    assert(s.subrange(a.len() as int, (a.len() + h.len()) as int) =~= h);
}

/// The duplicates prompt with no groups ends by saying so; with exact or
/// structural groups it holds the heading of that section with the number
/// of its groups.
pub proof fn lemma_duplicates_prompt_headings(exact: Seq<Seq<CodeEntity>>, structural: Seq<Seq<CodeEntity>>)
    ensures
        exact.len() == 0 && structural.len() == 0 ==> ends_with(duplicates_prompt_of(exact, structural), "No duplicates detected.\n"@),
        exact.len() > 0 ==> has_substring(duplicates_prompt_of(exact, structural), section_heading("Exact clones"@, exact.len())),
        structural.len() > 0 ==> has_substring(duplicates_prompt_of(exact, structural), section_heading("Structural clones"@, structural.len())),
{
    let p = duplicates_prompt_of(exact, structural);
    let intro = duplicates_intro();
    reveal_strlit(" group(s))\n\n");
    reveal_strlit(" group(s))");
    reveal_strlit("\n\n");
    assert(" group(s))\n\n"@ =~= " group(s))"@ + "\n\n"@);
    if exact.len() == 0 && structural.len() == 0 {
        let tail = "No duplicates detected.\n"@;
        assert(p.subrange(p.len() - tail.len(), p.len() as int) =~= tail);
    }
    if exact.len() > 0 {
        let h = section_heading("Exact clones"@, exact.len());
        let r = "\n\n"@ + group_blocks(exact, exact.len() as int);
        assert(clone_section("Exact clones"@, exact) =~= h + r);
        lemma_occurs_inside(intro, h, r, clone_section("Structural clones"@, structural));
        assert(p =~= intro + (h + r) + clone_section("Structural clones"@, structural));
    }
    if structural.len() > 0 {
        let h = section_heading("Structural clones"@, structural.len());
        let r = "\n\n"@ + group_blocks(structural, structural.len() as int);
        assert(clone_section("Structural clones"@, structural) =~= h + r);
        let a = intro + clone_section("Exact clones"@, exact);
        lemma_occurs_inside(a, h, r, Seq::empty());
        assert(p =~= a + (h + r) + Seq::<char>::empty());
    }
}

fn push_entity_block(out: &mut String, e: &CodeEntity)
    requires
        cuts_cleanly(e.source@, 300),
    ensures
        final(out)@ == old(out)@ + entity_block(*e),
{
    out.append("**");
    out.append(e.name.as_str());
    out.append("** (`");
    out.append(e.file_path.as_str());
    out.append("` line ");
    push_decimal(out, e.start_line as u64);
    out.append(")\n```\n");
    let snip = snippet(e.source.as_str(), 300);
    out.append(snip.as_str());
    out.append("\n```\n\n");
    assert(final(out)@ =~= old(out)@ + entity_block(*e));
}

fn push_clone_section(out: &mut String, title: &str, groups: &[Vec<&CodeEntity>])
    requires
        groups_cut_cleanly(entity_groups(groups@), 300),
    ensures
        final(out)@ == old(out)@ + clone_section(title@, entity_groups(groups@)),
{
    let ghost gs = entity_groups(groups@);
    if groups.len() == 0 {
        assert(final(out)@ =~= old(out)@ + clone_section(title@, gs));
        return;
    }
    out.append("## ");
    out.append(title);
    out.append(" (");
    push_decimal(out, groups.len() as u64);
    out.append(" group(s))\n\n");
    let ghost head = out@;
    let mut k: usize = 0;
    while k < groups.len()
        invariant
            k <= groups.len(),
            gs == entity_groups(groups@),
            groups_cut_cleanly(gs, 300),
            out@ == head + group_blocks(gs, k as int),
        decreases groups.len() - k,
    {
        out.append("### Group ");
        push_decimal(out, (k + 1) as u64);
        out.append("\n");
        let ghost mid = out@;
        let g = &groups[k];
        assert(gs[k as int] =~= g@.map_values(|e: &CodeEntity| *e));
        let mut m: usize = 0;
        while m < g.len()
            invariant
                m <= g.len(),
                gs == entity_groups(groups@),
                groups_cut_cleanly(gs, 300),
                gs[k as int] == g@.map_values(|e: &CodeEntity| *e),
                k < groups.len(),
                g == groups@[k as int],
                out@ == mid + entity_blocks(gs[k as int], m as int),
            decreases g.len() - m,
        {
            assert(gs[k as int][m as int] == *g@[m as int]);
            push_entity_block(out, g[m]);
            m = m + 1;
        }
        assert(out@ =~= head + group_blocks(gs, k + 1));
        k = k + 1;
    }
    assert(final(out)@ =~= old(out)@ + clone_section(title@, gs));
}

/// A ready-to-paste prompt asking for advice on the exact and structural
/// clone groups, with a 300-byte snippet of each entity.
pub fn build_duplicates_prompt(exact: &[Vec<&CodeEntity>], structural: &[Vec<&CodeEntity>]) -> (res: String)
    requires
        groups_cut_cleanly(entity_groups(exact@), 300),
        groups_cut_cleanly(entity_groups(structural@), 300),
    ensures
        res@ == duplicates_prompt_of(entity_groups(exact@), entity_groups(structural@)),
{
    let mut out = String::from_str("I ran Structix duplicate detection on my codebase. For each clone group below, please: confirm if they are functionally equivalent, suggest a concrete refactoring strategy, and name a shared abstraction.\n\n");
    if exact.len() == 0 && structural.len() == 0 {
        out.append("No duplicates detected.\n");
        return out;
    }
    push_clone_section(&mut out, "Exact clones", exact);
    push_clone_section(&mut out, "Structural clones", structural);
    out
}

/// The signature lines of a change whose signature changed.
pub open spec fn signature_lines(c: EntityChangeView, before: Seq<char>, middle: Seq<char>, after: Seq<char>) -> Seq<char> {
    match (c.before_signature, c.after_signature) {
        (Some(b), Some(a)) => if b != a { before + b + middle + a + after } else { Seq::empty() },
        _ => Seq::empty(),
    }
}

/// The marker of a change kind in prompts.
pub open spec fn prompt_marker(k: ChangeKind) -> Seq<char> {
    match k {
        ChangeKind::Added => "[+]"@,
        ChangeKind::Removed => "[-]"@,
        ChangeKind::Modified => "[~]"@,
        ChangeKind::Moved => "[→]"@,
        ChangeKind::Renamed => "[↩]"@,
    }
}

/// The marker of a change kind in the printed diff.
pub open spec fn listing_marker(k: ChangeKind) -> Seq<char> {
    match k {
        ChangeKind::Added => "+"@,
        ChangeKind::Removed => "-"@,
        ChangeKind::Modified => "~"@,
        ChangeKind::Moved => "→"@,
        ChangeKind::Renamed => "↩"@,
    }
}

/// One change in the diff prompt.
pub open spec fn prompt_item(c: EntityChangeView) -> Seq<char> {
    "- "@ + prompt_marker(c.kind) + " **"@ + c.name + "** `"@ + c.file_path + "` ("@ + c.entity_kind + ")\n"@
        + signature_lines(c, "  - before: `"@, "`\n  - after:  `"@, "`\n"@)
}

/// The items for the first `n` changes.
pub open spec fn prompt_items(cs: Seq<EntityChangeView>, n: int) -> Seq<char>
    decreases n,
{
    if n <= 0 { Seq::empty() } else { prompt_items(cs, n - 1) + prompt_item(cs[n - 1]) }
}

/// A ready-to-paste prompt about a structural diff, ending with the
/// manifest as JSON (`manifest_json`).
pub open spec fn diff_prompt_of(m: ChangeManifest, manifest_json: Seq<char>) -> Seq<char> {
    let cs = changes_view(m.changes@);
    "I ran Structix on my repo and got the following structural diff ("@ + m.from_ref@ + " → "@ + m.to_ref@
        + ").\nPlease summarize what changed, highlight any API surface changes (signature changes), and flag any potential impact on callers.\n\n"@
        + if cs.len() == 0 {
            "No structural changes detected.\n"@
        } else {
            "**"@ + decimal(cs.len()) + " change(s) across "@ + decimal(m.files_affected.len() as nat) + " file(s)**\n\n"@
                + prompt_items(cs, cs.len() as int)
                + "\n<details><summary>Full JSON manifest</summary>\n\n```json\n"@ + manifest_json + "\n```\n</details>\n"@
        }
}

fn push_signature_lines(out: &mut String, c: &EntityChange, before: &str, middle: &str, after: &str)
    ensures
        final(out)@ == old(out)@ + signature_lines(c@, before@, middle@, after@),
{
    match (&c.before_signature, &c.after_signature) {
        (Some(b), Some(a)) => {
            if !str_eq(b.as_str(), a.as_str()) {
                out.append(before);
                out.append(b.as_str());
                out.append(middle);
                out.append(a.as_str());
                out.append(after);
            }
        },
        _ => {},
    }
    assert(final(out)@ =~= old(out)@ + signature_lines(c@, before@, middle@, after@));
}

fn prompt_marker_of(k: ChangeKind) -> (res: &'static str)
    ensures
        res@ == prompt_marker(k),
{
    match k {
        ChangeKind::Added => "[+]",
        ChangeKind::Removed => "[-]",
        ChangeKind::Modified => "[~]",
        ChangeKind::Moved => "[→]",
        ChangeKind::Renamed => "[↩]",
    }
}

fn listing_marker_of(k: ChangeKind) -> (res: &'static str)
    ensures
        res@ == listing_marker(k),
{
    match k {
        ChangeKind::Added => "+",
        ChangeKind::Removed => "-",
        ChangeKind::Modified => "~",
        ChangeKind::Moved => "→",
        ChangeKind::Renamed => "↩",
    }
}

/// A ready-to-paste prompt about a structural diff; `manifest_json` is the
/// manifest serialised as pretty JSON.
pub fn build_diff_prompt(manifest: &ChangeManifest, manifest_json: &str) -> (res: String)
    ensures
        res@ == diff_prompt_of(*manifest, manifest_json@),
{
    let ghost cs = changes_view(manifest.changes@);
    let mut out = String::from_str("I ran Structix on my repo and got the following structural diff (");
    out.append(manifest.from_ref.as_str());
    out.append(" → ");
    out.append(manifest.to_ref.as_str());
    out.append(").\nPlease summarize what changed, highlight any API surface changes (signature changes), and flag any potential impact on callers.\n\n");
    if manifest.changes.len() == 0 {
        out.append("No structural changes detected.\n");
        return out;
    }
    out.append("**");
    push_decimal(&mut out, manifest.changes.len() as u64);
    out.append(" change(s) across ");
    push_decimal(&mut out, manifest.files_affected.len() as u64);
    out.append(" file(s)**\n\n");
    let ghost head = out@;
    let mut i: usize = 0;
    while i < manifest.changes.len()
        invariant
            i <= manifest.changes.len(),
            cs == changes_view(manifest.changes@),
            out@ == head + prompt_items(cs, i as int),
        decreases manifest.changes.len() - i,
    {
        let c = &manifest.changes[i];
        assert(cs[i as int] == c@);
        out.append("- ");
        out.append(prompt_marker_of(c.kind));
        out.append(" **");
        out.append(c.name.as_str());
        out.append("** `");
        out.append(c.file_path.as_str());
        out.append("` (");
        out.append(c.entity_kind.as_str());
        out.append(")\n");
        push_signature_lines(&mut out, c, "  - before: `", "`\n  - after:  `", "`\n");
        assert(out@ =~= head + prompt_items(cs, i + 1));
        i = i + 1;
    }
    out.append("\n<details><summary>Full JSON manifest</summary>\n\n```json\n");
    out.append(manifest_json);
    out.append("\n```\n</details>\n");
    assert(out@ =~= diff_prompt_of(*manifest, manifest_json@));
    out
}

/// The lines that move a change: where it was and where it is.
pub open spec fn moved_lines(c: EntityChangeView) -> Seq<char> {
    match c.old_file_path {
        Some(o) => if c.kind == ChangeKind::Moved { "      from: "@ + o + "\n      to:   "@ + c.file_path + "\n"@ } else { Seq::empty() },
        None => Seq::empty(),
    }
}

/// One change of the printed diff.
pub open spec fn listing_item(c: EntityChangeView) -> Seq<char> {
    "  ["@ + listing_marker(c.kind) + "] "@ + c.entity_kind + " "@ + c.name + " ("@ + c.file_path + ")\n"@
        + moved_lines(c) + signature_lines(c, "      before: "@, "\n      after:  "@, "\n"@)
}

/// The items for the first `n` changes.
pub open spec fn listing_items(cs: Seq<EntityChangeView>, n: int) -> Seq<char>
    decreases n,
{
    if n <= 0 { Seq::empty() } else { listing_items(cs, n - 1) + listing_item(cs[n - 1]) }
}

/// The structural diff as the tool prints it.
pub open spec fn diff_listing_of(m: ChangeManifest) -> Seq<char> {
    let cs = changes_view(m.changes@);
    "\nStructural diff: "@ + m.from_ref@ + " → "@ + m.to_ref@ + "\n"@
        + "Files affected: "@ + decimal(m.files_affected.len() as nat) + "\n"@
        + "Total changes: "@ + decimal(cs.len()) + "\n\n"@
        + listing_items(cs, cs.len() as int)
}

fn push_listing_item(out: &mut String, c: &EntityChange)
    ensures
        final(out)@ == old(out)@ + listing_item(c@),
{
    out.append("  [");
    out.append(listing_marker_of(c.kind));
    out.append("] ");
    out.append(c.entity_kind.as_str());
    out.append(" ");
    out.append(c.name.as_str());
    out.append(" (");
    out.append(c.file_path.as_str());
    out.append(")\n");
    let ghost head = out@;
    if c.kind == ChangeKind::Moved {
        if let Some(old) = &c.old_file_path {
            out.append("      from: ");
            out.append(old.as_str());
            out.append("\n      to:   ");
            out.append(c.file_path.as_str());
            out.append("\n");
        }
    }
    assert(out@ =~= head + moved_lines(c@));
    push_signature_lines(out, c, "      before: ", "\n      after:  ", "\n");
    assert(final(out)@ =~= old(out)@ + listing_item(c@));
}

/// The structural diff as the tool prints it.
pub fn diff_listing(manifest: &ChangeManifest) -> (res: String)
    ensures
        res@ == diff_listing_of(*manifest),
{
    let ghost cs = changes_view(manifest.changes@);
    let mut out = String::from_str("\nStructural diff: ");
    out.append(manifest.from_ref.as_str());
    out.append(" → ");
    out.append(manifest.to_ref.as_str());
    out.append("\n");
    out.append("Files affected: ");
    push_decimal(&mut out, manifest.files_affected.len() as u64);
    out.append("\n");
    out.append("Total changes: ");
    push_decimal(&mut out, manifest.changes.len() as u64);
    out.append("\n\n");
    let ghost head = out@;
    let mut i: usize = 0;
    while i < manifest.changes.len()
        invariant
            i <= manifest.changes.len(),
            cs == changes_view(manifest.changes@),
            out@ == head + listing_items(cs, i as int),
        decreases manifest.changes.len() - i,
    {
        let c = &manifest.changes[i];
        assert(cs[i as int] == c@);
        push_listing_item(&mut out, c);
        assert(out@ =~= head + listing_items(cs, i + 1));
        i = i + 1;
    }
    assert(out@ =~= diff_listing_of(*manifest));
    out
}

/// An entity as the duplicates listing names it: `name (file:line)`.
pub open spec fn entity_desc(e: CodeEntity) -> Seq<char> {
    e.name@ + " ("@ + e.file_path@ + ":"@ + decimal(e.start_line as nat) + ")"@
}

/// The lines for the first `n` groups, each `  a ↔ b ↔ ...`.
pub open spec fn group_lines(groups: Seq<Seq<CodeEntity>>, n: int) -> Seq<char>
    decreases n,
{
    if n <= 0 {
        Seq::empty()
    } else {
        group_lines(groups, n - 1) + "  "@
            + crate::text::join_with(groups[n - 1].map_values(|e: CodeEntity| entity_desc(e)), " ↔ "@) + "\n"@
    }
}

/// The clone groups as the tool prints them.
pub open spec fn clones_listing_of(exact: Seq<Seq<CodeEntity>>, structural: Seq<Seq<CodeEntity>>) -> Seq<char> {
    "\nExact clones: "@ + decimal(exact.len()) + " group(s)\n"@ + group_lines(exact, exact.len() as int)
        + "\nStructural clones: "@ + decimal(structural.len()) + " group(s)\n"@ + group_lines(structural, structural.len() as int)
}

fn push_group_lines(out: &mut String, groups: &[Vec<&CodeEntity>])
    ensures
        final(out)@ == old(out)@ + group_lines(entity_groups(groups@), groups.len() as int),
{
    let ghost gs = entity_groups(groups@);
    let ghost start = out@;
    let mut k: usize = 0;
    while k < groups.len()
        invariant
            k <= groups.len(),
            gs == entity_groups(groups@),
            out@ == start + group_lines(gs, k as int),
        decreases groups.len() - k,
    {
        let g = &groups[k];
        let ghost descs = gs[k as int].map_values(|e: CodeEntity| entity_desc(e));
        assert(gs[k as int] =~= g@.map_values(|e: &CodeEntity| *e));
        let mut parts: Vec<String> = Vec::new();
        let mut m: usize = 0;
        while m < g.len()
            invariant
                m <= g.len(),
                k < groups.len(),
                g == groups@[k as int],
                gs == entity_groups(groups@),
                gs[k as int] == g@.map_values(|e: &CodeEntity| *e),
                descs == gs[k as int].map_values(|e: CodeEntity| entity_desc(e)),
                parts.len() == m,
                crate::text::views_of(parts@) == descs.take(m as int),
            decreases g.len() - m,
        {
            let e = g[m];
            assert(gs[k as int][m as int] == *e);
            let mut d = String::from_str(e.name.as_str());
            d.append(" (");
            d.append(e.file_path.as_str());
            d.append(":");
            push_decimal(&mut d, e.start_line as u64);
            d.append(")");
            assert(d@ =~= entity_desc(*e));
            parts.push(d);
            assert(crate::text::views_of(parts@) =~= descs.take(m + 1));
            m = m + 1;
        }
        assert(descs.take(g.len() as int) =~= descs);
        out.append("  ");
        let joined = crate::text::join_strings(&parts, " ↔ ");
        out.append(joined.as_str());
        out.append("\n");
        assert(out@ =~= start + group_lines(gs, k + 1));
        k = k + 1;
    }
}

/// The clone groups as the tool prints them.
pub fn clones_listing(exact: &[Vec<&CodeEntity>], structural: &[Vec<&CodeEntity>]) -> (res: String)
    ensures
        res@ == clones_listing_of(entity_groups(exact@), entity_groups(structural@)),
{
    let mut out = String::from_str("\nExact clones: ");
    push_decimal(&mut out, exact.len() as u64);
    out.append(" group(s)\n");
    push_group_lines(&mut out, exact);
    out.append("\nStructural clones: ");
    push_decimal(&mut out, structural.len() as u64);
    out.append(" group(s)\n");
    push_group_lines(&mut out, structural);
    assert(out@ =~= clones_listing_of(entity_groups(exact@), entity_groups(structural@)));
    out
}

/// The files of the first `n` changes, each once, in order of first mention.
pub open spec fn files_of_changes(cs: Seq<EntityChangeView>, n: int) -> Seq<Seq<char>>
    decreases n,
{
    if n <= 0 {
        Seq::empty()
    } else {
        let prev = files_of_changes(cs, n - 1);
        if prev.contains(cs[n - 1].file_path) { prev } else { prev.push(cs[n - 1].file_path) }
    }
}

/// The files that the changes touch, each once, in order of first mention.
pub fn files_affected(changes: &Vec<EntityChange>) -> (res: Vec<String>)
    ensures
        strings_of(res@) == files_of_changes(changes_view(changes@), changes.len() as int),
{
    let ghost cs = changes_view(changes@);
    let mut res: Vec<String> = Vec::new();
    let mut i: usize = 0;
    while i < changes.len()
        invariant
            i <= changes.len(),
            cs == changes_view(changes@),
            strings_of(res@) == files_of_changes(cs, i as int),
        decreases changes.len() - i,
    {
        let p = changes[i].file_path.as_str();
        assert(cs[i as int].file_path == p@);
        let ghost prev = strings_of(res@);
        let mut seen = false;
        let mut k: usize = 0;
        while k < res.len()
            invariant
                k <= res.len(),
                prev == strings_of(res@),
                seen == exists|j: int| 0 <= j < k && prev[j] == p@,
            decreases res.len() - k,
        {
            if str_eq(res[k].as_str(), p) {
                assert(prev[k as int] == p@);
                seen = true;
            }
            k = k + 1;
        }
        assert(seen == prev.contains(p@));
        if !seen {
            res.push(String::from_str(p));
            assert(strings_of(res@) =~= prev.push(p@));
        }
        i = i + 1;
    }
    res
}

/// The manifest of the changes between two refs, with the files they touch.
pub fn build_manifest(from_ref: &str, to_ref: &str, changes: Vec<EntityChange>) -> (res: ChangeManifest)
    ensures
        res.from_ref@ == from_ref@,
        res.to_ref@ == to_ref@,
        res.changes == changes,
        strings_of(res.files_affected@) == files_of_changes(changes_view(changes@), changes.len() as int),
        res.summary is None,
{
    let files = files_affected(&changes);
    ChangeManifest {
        from_ref: String::from_str(from_ref),
        to_ref: String::from_str(to_ref),
        changes,
        files_affected: files,
        summary: None,
    }
}

} // verus!
