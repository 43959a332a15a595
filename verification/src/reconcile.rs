//! Reconciliation of single paths: what to do so that a directory, a file or
//! a symbolic link stands where it is wanted, given what stands there now.

use vstd::prelude::*;
use crate::fs::{changes, Change, FsAction, Observed, PathState};
use crate::text::same_text;

verus! {

/// What to do when the place of a wanted link is taken.
#[derive(Clone, Copy, Debug, PartialEq, Eq, Structural)]
pub enum ConflictPolicy {
    /// Whatever stands there and is not the wanted link is removed, a
    /// directory with all it holds.
    ReplaceIfWrong,
    /// Whatever stands there is left alone.
    SkipIfPresent,
    /// Anything but the wanted link is reported and left alone.
    ErrorIfPresent,
}

/// A wanted symbolic link.
#[derive(Clone, Debug, PartialEq, Eq)]
pub struct SymlinkSpec {
    /// Where the link stands.
    pub link: String,
    /// What it names.
    pub target: String,
    /// What to do when the place is taken.
    pub policy: ConflictPolicy,
}

/// The model of a [`SymlinkSpec`].
pub struct Link {
    pub link: Seq<char>,
    pub target: Seq<char>,
    pub policy: ConflictPolicy,
}

impl View for SymlinkSpec {
    type V = Link;

    open spec fn view(&self) -> Link {
        Link { link: self.link@, target: self.target@, policy: self.policy }
    }
}

/// How the place of a wanted link stands to the link.
#[derive(Clone, Copy, Debug, PartialEq, Eq, Structural)]
pub enum LinkState {
    /// Nothing is there.
    Absent,
    /// The wanted link is there.
    CorrectLink,
    /// A link is there that names something else.
    WrongLink,
    /// A file or a directory is there.
    Conflict,
}

/// The state of a place where a link to `target` is wanted.
pub open spec fn link_state(target: Seq<char>, observed: Observed) -> LinkState {
    match observed {
        Observed::Absent => LinkState::Absent,
        Observed::Symlink(found) => if found == target {
            LinkState::CorrectLink
        } else {
            LinkState::WrongLink
        },
        Observed::File => LinkState::Conflict,
        Observed::Directory => LinkState::Conflict,
    }
}

/// One thing that is wanted at one path.
#[derive(Clone, Debug, PartialEq, Eq)]
pub enum DesiredEntry {
    /// A directory.
    Directory { path: String },
    /// A file with exactly this content.
    Document { path: String, data: Vec<u8> },
    /// A symbolic link.
    Link(SymlinkSpec),
}

/// The model of a [`DesiredEntry`].
pub enum Desired {
    Directory { path: Seq<char> },
    Document { path: Seq<char>, data: Seq<u8> },
    Link(Link),
}

impl View for DesiredEntry {
    type V = Desired;

    open spec fn view(&self) -> Desired {
        match self {
            DesiredEntry::Directory { path } => Desired::Directory { path: path@ },
            DesiredEntry::Document { path, data } => Desired::Document { path: path@, data: data@ },
            DesiredEntry::Link(spec) => Desired::Link(spec@),
        }
    }
}

/// The models of a list of entries.
pub open spec fn desires(entries: Seq<DesiredEntry>) -> Seq<Desired> {
    Seq::new(entries.len(), |i: int| entries[i]@)
}

/// The path at which an entry is wanted.
pub open spec fn place(entry: Desired) -> Seq<char> {
    match entry {
        Desired::Directory { path } => path,
        Desired::Document { path, .. } => path,
        Desired::Link(link) => link.link,
    }
}

/// The changes that make a link stand, or `None` where the policy forbids
/// them.
pub open spec fn link_plan(link: Link, observed: Observed) -> Option<Seq<Change>> {
    let create = Change::CreateSymlink { target: link.target, link: link.link };
    match link_state(link.target, observed) {
        LinkState::Absent => Some(seq![create]),
        LinkState::CorrectLink => Some(Seq::empty()),
        LinkState::WrongLink => match link.policy {
            ConflictPolicy::ReplaceIfWrong => Some(
                seq![Change::RemoveFile { path: link.link }, create],
            ),
            ConflictPolicy::SkipIfPresent => Some(Seq::empty()),
            ConflictPolicy::ErrorIfPresent => None,
        },
        LinkState::Conflict => match link.policy {
            ConflictPolicy::ReplaceIfWrong => if observed is Directory {
                Some(seq![Change::RemoveTree { path: link.link }, create])
            } else {
                Some(seq![Change::RemoveFile { path: link.link }, create])
            },
            ConflictPolicy::SkipIfPresent => Some(Seq::empty()),
            ConflictPolicy::ErrorIfPresent => None,
        },
    }
}

/// The changes that make an entry stand, or `None` where they would destroy
/// what may not be destroyed: a directory in the place of a file, or
/// anything in the place of a link whose policy reports it.
pub open spec fn entry_plan(entry: Desired, observed: Observed) -> Option<Seq<Change>> {
    match entry {
        Desired::Directory { path } => match observed {
            Observed::Absent => Some(seq![Change::CreateDirAll { path }]),
            Observed::File => Some(
                seq![Change::RemoveFile { path }, Change::CreateDirAll { path }],
            ),
            Observed::Symlink(_) => Some(Seq::empty()),
            Observed::Directory => Some(Seq::empty()),
        },
        Desired::Document { path, data } => match observed {
            Observed::Absent => Some(seq![Change::WriteFile { path, data }]),
            Observed::File => Some(seq![Change::WriteFile { path, data }]),
            Observed::Symlink(_) => Some(
                seq![Change::RemoveFile { path }, Change::WriteFile { path, data }],
            ),
            Observed::Directory => None,
        },
        Desired::Link(link) => link_plan(link, observed),
    }
}

/// Why an entry could not be brought about.
#[derive(Clone, Debug, PartialEq, Eq)]
pub enum ReconcileError {
    /// Something stands at `path` that the entry's policy does not allow to
    /// remove.
    Conflict { path: String },
}

impl ReconcileError {
    /// The error is a conflict at `path`.
    pub open spec fn is_conflict_at(self, path: Seq<char>) -> bool {
        match self {
            ReconcileError::Conflict { path: at } => at@ == path,
        }
    }
}

impl ConflictPolicy {
    /// The policy of this name: `replace-if-wrong`, `skip-if-present` or
    /// `error-if-present`.
    pub fn parse(name: &str) -> (policy: Option<ConflictPolicy>)
        ensures
            policy == if name@ == "replace-if-wrong"@ {
                Some(ConflictPolicy::ReplaceIfWrong)
            } else if name@ == "skip-if-present"@ {
                Some(ConflictPolicy::SkipIfPresent)
            } else if name@ == "error-if-present"@ {
                Some(ConflictPolicy::ErrorIfPresent)
            } else {
                None
            },
    {
        if same_text(name, "replace-if-wrong") {
            Some(ConflictPolicy::ReplaceIfWrong)
        } else if same_text(name, "skip-if-present") {
            Some(ConflictPolicy::SkipIfPresent)
        } else if same_text(name, "error-if-present") {
            Some(ConflictPolicy::ErrorIfPresent)
        } else {
            None
        }
    }
}

impl DesiredEntry {
    /// A copy of the entry.
    pub fn duplicate(&self) -> (copy: DesiredEntry)
        ensures
            copy@ == self@,
    {
        match self {
            DesiredEntry::Directory { path } => DesiredEntry::Directory { path: path.clone() },
            DesiredEntry::Document { path, data } => DesiredEntry::Document {
                path: path.clone(),
                data: data.clone(),
            },
            DesiredEntry::Link(spec) => DesiredEntry::Link(
                SymlinkSpec {
                    link: spec.link.clone(),
                    target: spec.target.clone(),
                    policy: spec.policy,
                },
            ),
        }
    }
}

/// The state of the place of `spec`, given what was found there.
pub fn classify(spec: &SymlinkSpec, observed: &PathState) -> (state: LinkState)
    ensures
        state == link_state(spec@.target, observed@),
{
    match observed {
        PathState::Absent => LinkState::Absent,
        PathState::Symlink(found) => if *found == spec.target {
            LinkState::CorrectLink
        } else {
            LinkState::WrongLink
        },
        PathState::File => LinkState::Conflict,
        PathState::Directory => LinkState::Conflict,
    }
}

/// The actions that make the link `spec` stand, given what was found at its
/// place.  Nothing is to be done where the link is there already.  Under
/// [`ConflictPolicy::ErrorIfPresent`] a place taken by anything else is a
/// [`ReconcileError::Conflict`].
pub fn symlink(spec: &SymlinkSpec, observed: &PathState) -> (plan: Result<
    Vec<FsAction>,
    ReconcileError,
>)
    ensures
        match plan {
            Ok(actions) => link_plan(spec@, observed@) == Some(changes(actions@)),
            Err(e) => link_plan(spec@, observed@) is None && e.is_conflict_at(spec@.link),
        },
{
    let state = classify(spec, observed);
    let mut actions: Vec<FsAction> = Vec::new();
    match state {
        LinkState::Absent => {},
        LinkState::CorrectLink => {
            assert(changes(actions@) =~= Seq::empty());
            return Ok(actions);
        },
        LinkState::WrongLink => match spec.policy {
            ConflictPolicy::ReplaceIfWrong => {
                actions.push(FsAction::RemoveFile { path: spec.link.clone() });
            },
            ConflictPolicy::SkipIfPresent => {
                assert(changes(actions@) =~= Seq::empty());
                return Ok(actions);
            },
            ConflictPolicy::ErrorIfPresent => {
                return Err(ReconcileError::Conflict { path: spec.link.clone() });
            },
        },
        LinkState::Conflict => match spec.policy {
            ConflictPolicy::ReplaceIfWrong => {
                match observed {
                    PathState::Directory => {
                        actions.push(FsAction::RemoveTree { path: spec.link.clone() });
                    },
                    _ => {
                        actions.push(FsAction::RemoveFile { path: spec.link.clone() });
                    },
                }
            },
            ConflictPolicy::SkipIfPresent => {
                assert(changes(actions@) =~= Seq::empty());
                return Ok(actions);
            },
            ConflictPolicy::ErrorIfPresent => {
                return Err(ReconcileError::Conflict { path: spec.link.clone() });
            },
        },
    }
    actions.push(FsAction::CreateSymlink { target: spec.target.clone(), link: spec.link.clone() });
    assert(link_plan(spec@, observed@) is Some);
    assert(changes(actions@) =~= link_plan(spec@, observed@)->0);
    Ok(actions)
}

/// The actions that make `entry` stand, given what was found at its place.
///
/// A missing directory is created, and a file in its place gives way to it.
/// A document is written whatever it held before; a link in its place is
/// removed first, and a directory in its place is a
/// [`ReconcileError::Conflict`].  A link is handled as [`symlink`] says.
pub fn reconcile_entry(entry: &DesiredEntry, observed: &PathState) -> (plan: Result<
    Vec<FsAction>,
    ReconcileError,
>)
    ensures
        match plan {
            Ok(actions) => entry_plan(entry@, observed@) == Some(changes(actions@)),
            Err(e) => entry_plan(entry@, observed@) is None && e.is_conflict_at(place(entry@)),
        },
{
    match entry {
        DesiredEntry::Directory { path } => {
            let mut actions: Vec<FsAction> = Vec::new();
            match observed {
                PathState::Absent => {
                    actions.push(FsAction::CreateDirAll { path: path.clone() });
                },
                PathState::File => {
                    actions.push(FsAction::RemoveFile { path: path.clone() });
                    actions.push(FsAction::CreateDirAll { path: path.clone() });
                },
                _ => {},
            }
            assert(changes(actions@) =~= entry_plan(entry@, observed@)->0);
            Ok(actions)
        },
        DesiredEntry::Document { path, data } => {
            let mut actions: Vec<FsAction> = Vec::new();
            match observed {
                PathState::Directory => {
                    return Err(ReconcileError::Conflict { path: path.clone() });
                },
                PathState::Symlink(_) => {
                    actions.push(FsAction::RemoveFile { path: path.clone() });
                },
                _ => {},
            }
            actions.push(FsAction::WriteFile { path: path.clone(), data: data.clone() });
            assert(changes(actions@) =~= entry_plan(entry@, observed@)->0);
            Ok(actions)
        },
        DesiredEntry::Link(spec) => symlink(spec, observed),
    }
}

} // verus!
