//! Entity changes and the manifest that collects them.
use vstd::prelude::*;
use crate::text::opt_chars;

verus! {

/// How an entity changed between two revisions.
#[derive(Clone, Copy, Debug, PartialEq, Eq, Structural)]
pub enum ChangeKind {
    Added,
    Removed,
    Modified,
    Moved,
    Renamed,
}

/// One change of one entity.
#[derive(Clone, Debug)]
pub struct EntityChange {
    pub kind: ChangeKind,
    pub entity_key: String,
    pub name: String,
    pub file_path: String,
    pub entity_kind: String,
    pub before_signature: Option<String>,
    pub after_signature: Option<String>,
    pub before_source: Option<String>,
    pub after_source: Option<String>,
    pub old_file_path: Option<String>,
    pub old_name: Option<String>,
}

/// An entity change with its strings taken as characters.
pub struct EntityChangeView {
    pub kind: ChangeKind,
    pub entity_key: Seq<char>,
    pub name: Seq<char>,
    pub file_path: Seq<char>,
    pub entity_kind: Seq<char>,
    pub before_signature: Option<Seq<char>>,
    pub after_signature: Option<Seq<char>>,
    pub before_source: Option<Seq<char>>,
    pub after_source: Option<Seq<char>>,
    pub old_file_path: Option<Seq<char>>,
    pub old_name: Option<Seq<char>>,
}


impl View for EntityChange {
    type V = EntityChangeView;

    open spec fn view(&self) -> EntityChangeView {
        EntityChangeView {
            kind: self.kind,
            entity_key: self.entity_key@,
            name: self.name@,
            file_path: self.file_path@,
            entity_kind: self.entity_kind@,
            before_signature: opt_chars(self.before_signature),
            after_signature: opt_chars(self.after_signature),
            before_source: opt_chars(self.before_source),
            after_source: opt_chars(self.after_source),
            old_file_path: opt_chars(self.old_file_path),
            old_name: opt_chars(self.old_name),
        }
    }
}

/// The views of a sequence of changes.
pub open spec fn changes_view(v: Seq<EntityChange>) -> Seq<EntityChangeView> {
    v.map_values(|c: EntityChange| c@)
}

/// The structural changes between two git refs.
#[derive(Clone, Debug)]
pub struct ChangeManifest {
    pub from_ref: String,
    pub to_ref: String,
    pub changes: Vec<EntityChange>,
    pub files_affected: Vec<String>,
    pub summary: Option<String>,
}

} // verus!
