//! The files that changed between two revisions, as git names them.
use vstd::prelude::*;
use vstd::string::StringExecFns;
use crate::input::filter::{ignored_path, is_ignored_path};

verus! {

/// How a file changed.
#[derive(Debug, PartialEq, Eq)]
pub enum ChangeKind {
    Added,
    Modified,
    Deleted,
    Renamed { from: String },
    Copied { from: String },
}

/// A change kind with its path taken as characters.
pub enum ChangeKindView {
    Added,
    Modified,
    Deleted,
    Renamed { from: Seq<char> },
    Copied { from: Seq<char> },
}

impl View for ChangeKind {
    type V = ChangeKindView;

    open spec fn view(&self) -> ChangeKindView {
        match self {
            ChangeKind::Added => ChangeKindView::Added,
            ChangeKind::Modified => ChangeKindView::Modified,
            ChangeKind::Deleted => ChangeKindView::Deleted,
            ChangeKind::Renamed { from } => ChangeKindView::Renamed { from: from@ },
            ChangeKind::Copied { from } => ChangeKindView::Copied { from: from@ },
        }
    }
}

impl Clone for ChangeKind {
    fn clone(&self) -> (res: Self)
        ensures
            res == *self,
    {
        match self {
            ChangeKind::Added => ChangeKind::Added,
            ChangeKind::Modified => ChangeKind::Modified,
            ChangeKind::Deleted => ChangeKind::Deleted,
            ChangeKind::Renamed { from } => ChangeKind::Renamed { from: from.clone() },
            ChangeKind::Copied { from } => ChangeKind::Copied { from: from.clone() },
        }
    }
}

/// A file that changed: its path in the head revision and how it changed.
#[derive(Debug, PartialEq, Eq)]
pub struct ChangedFile {
    pub path: String,
    pub kind: ChangeKind,
}

/// A changed file as plain values.
pub struct ChangedFileView {
    pub path: Seq<char>,
    pub kind: ChangeKindView,
}

impl View for ChangedFile {
    type V = ChangedFileView;

    open spec fn view(&self) -> ChangedFileView {
        ChangedFileView { path: self.path@, kind: self.kind@ }
    }
}

impl Clone for ChangedFile {
    fn clone(&self) -> (res: Self)
        ensures
            res == *self,
    {
        ChangedFile { path: self.path.clone(), kind: self.kind.clone() }
    }
}

impl ChangedFile {
    /// A file added at `path`.
    pub fn added(path: &str) -> (res: Self)
        ensures
            res@ == (ChangedFileView { path: path@, kind: ChangeKindView::Added }),
    {
        ChangedFile { path: String::from_str(path), kind: ChangeKind::Added }
    }

    /// A file modified at `path`.
    pub fn modified(path: &str) -> (res: Self)
        ensures
            res@ == (ChangedFileView { path: path@, kind: ChangeKindView::Modified }),
    {
        ChangedFile { path: String::from_str(path), kind: ChangeKind::Modified }
    }

    /// A file deleted from `path`.
    pub fn deleted(path: &str) -> (res: Self)
        ensures
            res@ == (ChangedFileView { path: path@, kind: ChangeKindView::Deleted }),
    {
        ChangedFile { path: String::from_str(path), kind: ChangeKind::Deleted }
    }
}

/// The changes between two revisions.
#[derive(Debug, PartialEq, Eq)]
pub struct Snapshot {
    pub base_ref: String,
    pub head_ref: String,
    pub changes: Vec<ChangedFile>,
}

/// The first `n` changes whose paths are not left out, in order.
pub open spec fn interesting_of(changes: Seq<ChangedFile>, n: int) -> Seq<ChangedFile>
    decreases n,
{
    if n <= 0 {
        Seq::empty()
    } else {
        interesting_of(changes, n - 1) + (if !ignored_path(changes[n - 1].path@) { seq![changes[n - 1]] } else { Seq::empty() })
    }
}

impl Snapshot {
    /// The changes between `base_ref` and `head_ref`.
    pub fn new(base_ref: &str, head_ref: &str, changes: Vec<ChangedFile>) -> (res: Self)
        ensures
            res.base_ref@ == base_ref@,
            res.head_ref@ == head_ref@,
            res.changes == changes,
    {
        Snapshot { base_ref: String::from_str(base_ref), head_ref: String::from_str(head_ref), changes }
    }

    /// The changes whose paths the analysis does not leave out, in order.
    pub fn interesting_changes(&self) -> (res: Vec<&ChangedFile>)
        ensures
            res@.map_values(|c: &ChangedFile| *c) == interesting_of(self.changes@, self.changes.len() as int),
    {
        let mut res: Vec<&ChangedFile> = Vec::new();
        let mut i: usize = 0;
        while i < self.changes.len()
            invariant
                i <= self.changes.len(),
                res@.map_values(|c: &ChangedFile| *c) == interesting_of(self.changes@, i as int),
            decreases self.changes.len() - i,
        {
            let ghost before = res@.map_values(|c: &ChangedFile| *c);
            let change = &self.changes[i];
            if !is_ignored_path(change.path.as_str()) {
                res.push(change);
                assert(res@.map_values(|c: &ChangedFile| *c) =~= before.push(self.changes@[i as int]));
            } else {
                assert(res@.map_values(|c: &ChangedFile| *c) =~= before + Seq::<ChangedFile>::empty());
            }
            i = i + 1;
        }
        res
    }
}

} // verus!
