//! Reading what git prints: the changed files of a diff, a file's contents
//! and the tracked files of a revision. The commands themselves run
//! elsewhere; these functions take their standard output.
use vstd::prelude::*;
use vstd::string::StringExecFns;
use vstd::string::StringSliceAdditionalSpecFns;
use vstd::utf8::{decode_utf8, valid_utf8};
use crate::input::snapshot::{ChangeKind, ChangeKindView, ChangedFile, ChangedFileView};
use crate::syntax::utf8_str;
use crate::text::{
    chars_of, lines_of, lines_view, split_char, split_lines, split_seq, string_of, trim, trim_chars,
};

verus! {

/// A git command failed or printed something unreadable.
#[derive(Debug, PartialEq, Eq)]
pub struct GitError {
    pub message: String,
}

impl Clone for GitError {
    fn clone(&self) -> (res: Self)
        ensures
            res == *self,
    {
        GitError { message: self.message.clone() }
    }
}

impl GitError {
    /// An error with the given message.
    pub fn new(message: String) -> (res: Self)
        ensures
            res.message == message,
    {
        GitError { message }
    }

    /// The message, as the error displays itself.
    pub fn to_string(&self) -> (res: String)
        ensures
            res@ == self.message@,
    {
        self.message.clone()
    }
}

/// Field `i` of a tab-separated line, or nothing when it has fewer fields.
pub open spec fn field(fields: Seq<Seq<char>>, i: int) -> Seq<char> {
    if i < fields.len() { fields[i] } else { Seq::empty() }
}

/// The change that one line of `git diff --name-status` reports: its status
/// letter (`M` when the status is empty) picks the kind, the next fields the
/// paths (a missing one counts as empty). Blank lines and unknown statuses
/// report nothing.
pub open spec fn name_status_change(line: Seq<char>) -> Option<ChangedFileView> {
    let fields = split_seq(line, '\t');
    let status = fields[0];
    let letter = if status.len() > 0 { status[0] } else { 'M' };
    if trim(line).len() == 0 {
        None
    } else if letter == 'A' {
        Some(ChangedFileView { path: field(fields, 1), kind: ChangeKindView::Added })
    } else if letter == 'M' {
        Some(ChangedFileView { path: field(fields, 1), kind: ChangeKindView::Modified })
    } else if letter == 'D' {
        Some(ChangedFileView { path: field(fields, 1), kind: ChangeKindView::Deleted })
    } else if letter == 'R' {
        Some(ChangedFileView { path: field(fields, 2), kind: ChangeKindView::Renamed { from: field(fields, 1) } })
    } else if letter == 'C' {
        Some(ChangedFileView { path: field(fields, 2), kind: ChangeKindView::Copied { from: field(fields, 1) } })
    } else {
        None
    }
}

/// The changes that the first `n` lines report, in order.
pub open spec fn name_status_changes(lines: Seq<Seq<char>>, n: int) -> Seq<ChangedFileView>
    decreases n,
{
    if n <= 0 {
        Seq::empty()
    } else {
        name_status_changes(lines, n - 1) + match name_status_change(lines[n - 1]) {
            Some(c) => seq![c],
            None => Seq::empty(),
        }
    }
}

/// The views of a list of changed files.
pub open spec fn changed_files_view(v: Seq<ChangedFile>) -> Seq<ChangedFileView> {
    v.map_values(|c: ChangedFile| c@)
}

fn field_of(fields: &Vec<Vec<char>>, i: usize) -> (res: String)
    ensures
        res@ == field(lines_view(fields@), i as int),
{
    if i < fields.len() {
        string_of(fields[i].as_slice())
    } else {
        String::new()
    }
}

fn change_of_line(line: &Vec<char>) -> (res: Option<ChangedFile>)
    ensures
        match res {
            Some(c) => name_status_change(line@) == Some(c@),
            None => name_status_change(line@) is None,
        },
{
    let fields = split_char(line.as_slice(), '\t');
    let ghost fv = lines_view(fields@);
    assert(fv == split_seq(line@, '\t'));
    assert(fv.len() == fields.len());
    assert(fv.len() > 0);
    let trimmed = trim_chars(line.as_slice());
    if trimmed.len() == 0 {
        return None;
    }
    let status = &fields[0];
    assert(fv[0] == status@);
    let letter = if status.len() > 0 { status[0] } else { 'M' };
    if letter == 'A' {
        let path = field_of(&fields, 1);
        Some(ChangedFile { path, kind: ChangeKind::Added })
    } else if letter == 'M' {
        let path = field_of(&fields, 1);
        Some(ChangedFile { path, kind: ChangeKind::Modified })
    } else if letter == 'D' {
        let path = field_of(&fields, 1);
        Some(ChangedFile { path, kind: ChangeKind::Deleted })
    } else if letter == 'R' {
        let from = field_of(&fields, 1);
        let path = field_of(&fields, 2);
        Some(ChangedFile { path, kind: ChangeKind::Renamed { from } })
    } else if letter == 'C' {
        let from = field_of(&fields, 1);
        let path = field_of(&fields, 2);
        Some(ChangedFile { path, kind: ChangeKind::Copied { from } })
    } else {
        None
    }
}

/// The error for an unreadable output: `prefix` followed by the decoder's message.
fn not_utf8(prefix: &str, err: String) -> (res: GitError)
    ensures
        res.message@ == prefix@ + err@,
{
    let mut message = String::from_str(prefix);
    message.append(err.as_str());
    GitError::new(message)
}

/// The changed files that `git diff --name-status --find-renames` printed:
/// an error when the output is not UTF-8, else one change per line that
/// reports one (see `name_status_change`).
pub fn changed_files(stdout: &[u8]) -> (res: Result<Vec<ChangedFile>, GitError>)
    ensures
        res is Err <==> !valid_utf8(stdout@),
        res matches Err(e) ==> exists|m: Seq<char>| e.message@ == "git diff output was not valid UTF-8: "@ + m,
        res matches Ok(v) ==> changed_files_view(v@) == name_status_changes(
            lines_of(decode_utf8(stdout@)), lines_of(decode_utf8(stdout@)).len() as int),
{
    let text = match utf8_str(stdout) {
        Ok(text) => text,
        Err(err) => return Err(not_utf8("git diff output was not valid UTF-8: ", err)),
    };
    proof { vstd::utf8::encode_utf8_decode_utf8(text@); }
    let cs = chars_of(text);
    let lines = split_lines(cs.as_slice());
    let ghost lv = lines_view(lines@);
    assert(lv == lines_of(decode_utf8(stdout@)));
    let mut changes: Vec<ChangedFile> = Vec::new();
    let mut i: usize = 0;
    while i < lines.len()
        invariant
            i <= lines.len(),
            lv == lines_view(lines@),
            changed_files_view(changes@) == name_status_changes(lv, i as int),
        decreases lines.len() - i,
    {
        let ghost before = changed_files_view(changes@);
        assert(lv[i as int] == lines@[i as int]@);
        match change_of_line(&lines[i]) {
            Some(c) => {
                changes.push(c);
                assert(changed_files_view(changes@) =~= before.push(c@));
            },
            None => {
                assert(changed_files_view(changes@) =~= before + Seq::<ChangedFileView>::empty());
            },
        }
        i = i + 1;
    }
    Ok(changes)
}

/// The file contents that `git show <rev>:<path>` printed: an error when
/// they are not UTF-8.
pub fn read_file(stdout: &[u8]) -> (res: Result<String, GitError>)
    ensures
        res is Err <==> !valid_utf8(stdout@),
        res matches Err(e) ==> exists|m: Seq<char>| e.message@ == "git show output was not valid UTF-8: "@ + m,
        res matches Ok(s) ==> s@ == decode_utf8(stdout@),
{
    match utf8_str(stdout) {
        Ok(text) => {
            proof { vstd::utf8::encode_utf8_decode_utf8(text@); }
            Ok(String::from_str(text))
        },
        Err(err) => Err(not_utf8("git show output was not valid UTF-8: ", err)),
    }
}

/// The lines, trimmed, that are not blank, in order.
pub open spec fn trimmed_lines(lines: Seq<Seq<char>>, n: int) -> Seq<Seq<char>>
    decreases n,
{
    if n <= 0 {
        Seq::empty()
    } else {
        trimmed_lines(lines, n - 1) + (if trim(lines[n - 1]).len() > 0 { seq![trim(lines[n - 1])] } else { Seq::empty() })
    }
}

/// The tracked files that `git ls-tree -r --name-only <rev>` printed: one
/// per non-blank line, trimmed; an error when the output is not UTF-8.
pub fn tracked_files(stdout: &[u8]) -> (res: Result<Vec<String>, GitError>)
    ensures
        res is Err <==> !valid_utf8(stdout@),
        res matches Err(e) ==> exists|m: Seq<char>| e.message@ == "git ls-tree output was not valid UTF-8: "@ + m,
        res matches Ok(v) ==> v@.map_values(|s: String| s@) == trimmed_lines(
            lines_of(decode_utf8(stdout@)), lines_of(decode_utf8(stdout@)).len() as int),
{
    let text = match utf8_str(stdout) {
        Ok(text) => text,
        Err(err) => return Err(not_utf8("git ls-tree output was not valid UTF-8: ", err)),
    };
    proof { vstd::utf8::encode_utf8_decode_utf8(text@); }
    let cs = chars_of(text);
    let lines = split_lines(cs.as_slice());
    let ghost lv = lines_view(lines@);
    let mut files: Vec<String> = Vec::new();
    let mut i: usize = 0;
    while i < lines.len()
        invariant
            i <= lines.len(),
            lv == lines_view(lines@),
            files@.map_values(|s: String| s@) == trimmed_lines(lv, i as int),
        decreases lines.len() - i,
    {
        let ghost before = files@.map_values(|s: String| s@);
        assert(lv[i as int] == lines@[i as int]@);
        let t = trim_chars(lines[i].as_slice());
        if t.len() > 0 {
            files.push(string_of(t.as_slice()));
            assert(files@.map_values(|s: String| s@) =~= before.push(t@));
        } else {
            assert(files@.map_values(|s: String| s@) =~= before + Seq::<Seq<char>>::empty());
        }
        i = i + 1;
    }
    Ok(files)
}

} // verus!
