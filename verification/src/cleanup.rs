//! Removal and creation of directories outside an environment: a directory
//! is deleted by moving it among the short-lived files, which are cleared
//! from time to time.

use vstd::prelude::*;
use crate::fs::{below, changes, observe, run, Change, FsAction, Observed, PathState, Tree};
use crate::paths::{join, join_path, tmp_dir, Layout};

verus! {

/// What the caller found out about the existence of a path.
#[derive(Clone, Copy, Debug, PartialEq, Eq, Structural)]
pub enum Probe {
    /// Nothing is there.
    Missing,
    /// Something is there.
    Present,
    /// It could not be found out.
    Unknown,
}

/// Why a directory could not be deleted.
#[derive(Clone, Debug, PartialEq, Eq)]
pub enum DeleteError {
    /// It could not be found out whether `path` exists.
    CannotProbe { path: String },
    /// The directory at `path` is still there after it was moved away.
    StillExists { path: String },
}

impl DeleteError {
    /// The path that the error is about.
    pub open spec fn path(self) -> Seq<char> {
        match self {
            DeleteError::CannotProbe { path } => path@,
            DeleteError::StillExists { path } => path@,
        }
    }
}

/// The changes that delete the directory `dir` by moving it to `temp`, or
/// `None` where it is not known whether `temp` exists.  Nothing is to be
/// done where `dir` is known to be missing.  Otherwise what stands at `temp`
/// is removed first, and `dir` is moved there.
pub open spec fn deletion_plan(dir: Seq<char>, temp: Seq<char>, dir_found: Probe, temp_found: Probe) -> Option<
    Seq<Change>,
> {
    if dir_found == Probe::Missing {
        Some(Seq::empty())
    } else {
        match temp_found {
            Probe::Unknown => None,
            Probe::Present => Some(
                seq![Change::RemoveTree { path: temp }, Change::Rename { from: dir, to: temp }],
            ),
            Probe::Missing => Some(seq![Change::Rename { from: dir, to: temp }]),
        }
    }
}

/// What a caller finds out about the existence of `path` in `tree`.
pub open spec fn probe(tree: Tree, path: Seq<char>) -> Probe {
    if tree.contains_key(path) {
        Probe::Present
    } else {
        Probe::Missing
    }
}

/// The place where deleted directories are moved to.
pub open spec fn delete_path(home: Seq<char>) -> Seq<char> {
    join(tmp_dir(home), "delete_path"@)
}

/// After the plan of a deletion was carried out, the directory is gone,
/// whatever the tree held, provided that the directory does not lie below
/// the place it is moved to.
pub proof fn lemma_deleted_is_gone(tree: Tree, dir: Seq<char>, temp: Seq<char>)
    requires
        !below(dir, temp),
    ensures
        deletion_plan(dir, temp, probe(tree, dir), probe(tree, temp)) is Some,
        observe(
            run(tree, deletion_plan(dir, temp, probe(tree, dir), probe(tree, temp))->0),
            dir,
        ) == Observed::Absent,
{
    reveal_with_fuel(run, 3);
    let plan = deletion_plan(dir, temp, probe(tree, dir), probe(tree, temp))->0;
    if plan.len() == 1 {
        assert(plan.skip(1).len() == 0);
        if dir == temp {
            assert(!tree.contains_key(temp));
        }
    } else if plan.len() == 2 {
        assert(plan.skip(1)[0] == plan[1]);
        assert(plan.skip(1).skip(1).len() == 0);
    }
}

/// The actions that delete the directory `dir_path` by moving it to
/// `temp_dir`, given what was found out about the two.
///
/// Nothing is to be done where the directory is known to be missing.
/// Otherwise it must be known whether `temp_dir` exists: where it does, it
/// is removed first.  The caller carries the actions out and hands what it
/// then finds at `dir_path` to [`confirm_deleted`].
pub fn try_deleting_dir_to_temp(dir_path: &str, temp_dir: &str, dir_found: Probe, temp_found: Probe) -> (plan:
    Result<Vec<FsAction>, DeleteError>)
    ensures
        match plan {
            Ok(actions) => deletion_plan(dir_path@, temp_dir@, dir_found, temp_found) == Some(
                changes(actions@),
            ),
            Err(e) => deletion_plan(dir_path@, temp_dir@, dir_found, temp_found) is None
                && e is CannotProbe && e.path() == temp_dir@,
        },
{
    let mut actions: Vec<FsAction> = Vec::new();
    match dir_found {
        Probe::Missing => {
            assert(changes(actions@) =~= Seq::empty());
            return Ok(actions);
        },
        _ => {},
    }
    match temp_found {
        Probe::Unknown => {
            return Err(DeleteError::CannotProbe { path: String::from_str(temp_dir) });
        },
        Probe::Present => {
            actions.push(FsAction::RemoveTree { path: String::from_str(temp_dir) });
        },
        Probe::Missing => {},
    }
    actions.push(
        FsAction::Rename { from: String::from_str(dir_path), to: String::from_str(temp_dir) },
    );
    assert(changes(actions@) =~= deletion_plan(dir_path@, temp_dir@, dir_found, temp_found)->0);
    Ok(actions)
}

/// The actions that delete the directory `dir_path` by moving it among the
/// short-lived files of `layout`, as [`try_deleting_dir_to_temp`] says.
pub fn try_deleting_dir(layout: &Layout, dir_path: &str, dir_found: Probe, temp_found: Probe) -> (plan:
    Result<Vec<FsAction>, DeleteError>)
    ensures
        match plan {
            Ok(actions) => deletion_plan(
                dir_path@,
                delete_path(layout.home@),
                dir_found,
                temp_found,
            ) == Some(changes(actions@)),
            Err(e) => deletion_plan(dir_path@, delete_path(layout.home@), dir_found, temp_found)
                is None && e is CannotProbe && e.path() == delete_path(layout.home@),
        },
{
    let temp = join_path(layout.tmp_dir().as_str(), "delete_path");
    try_deleting_dir_to_temp(dir_path, temp.as_str(), dir_found, temp_found)
}

/// Whether a deletion succeeded, given what was found out about the
/// directory after the plan was carried out: it has to be known to be gone.
pub fn confirm_deleted(dir_path: &str, after: Probe) -> (confirmed: Result<(), DeleteError>)
    ensures
        match confirmed {
            Ok(_) => after == Probe::Missing,
            Err(e) => e.path() == dir_path@ && match after {
                Probe::Missing => false,
                Probe::Present => e is StillExists,
                Probe::Unknown => e is CannotProbe,
            },
        },
{
    match after {
        Probe::Missing => Ok(()),
        Probe::Present => Err(DeleteError::StillExists { path: String::from_str(dir_path) }),
        Probe::Unknown => Err(DeleteError::CannotProbe { path: String::from_str(dir_path) }),
    }
}

/// Why a directory could not be made sure of.
#[derive(Clone, Debug, PartialEq, Eq)]
pub enum DirectoryError {
    /// A file stands at `path`, where a directory is expected, and may not
    /// be removed.
    NotADirectory { path: String },
}

impl DirectoryError {
    /// The path that the error is about.
    pub open spec fn path(self) -> Seq<char> {
        match self {
            DirectoryError::NotADirectory { path } => path@,
        }
    }
}

/// The changes that make sure of a directory at `path`, or `None` where a
/// file stands there that may not be removed.  The directory is created
/// where nothing stands there; a file in its place gives way to it where
/// `overwrite` is set; a directory is left alone, and so is a symbolic link,
/// which stands for the directory that it names.
pub open spec fn directory_plan(path: Seq<char>, overwrite: bool, found: Observed) -> Option<
    Seq<Change>,
> {
    match found {
        Observed::Absent => Some(seq![Change::CreateDirAll { path }]),
        Observed::File => if overwrite {
            Some(seq![Change::RemoveFile { path }, Change::CreateDirAll { path }])
        } else {
            None
        },
        Observed::Symlink(_) => Some(Seq::empty()),
        Observed::Directory => Some(Seq::empty()),
    }
}

/// Where there is a plan for a directory and it was carried out, a
/// directory stands at the path, or the symbolic link that stood there
/// before.  Where there is no plan, a file stands there.
pub proof fn lemma_directory_stands(tree: Tree, path: Seq<char>, overwrite: bool)
    ensures
        match directory_plan(path, overwrite, observe(tree, path)) {
            Some(plan) => observe(run(tree, plan), path) == if observe(tree, path) is Symlink {
                observe(tree, path)
            } else {
                Observed::Directory
            },
            None => observe(tree, path) is File && !overwrite,
        },
{
    reveal_with_fuel(run, 3);
    match directory_plan(path, overwrite, observe(tree, path)) {
        Some(plan) => {
            if plan.len() == 1 {
                assert(plan.skip(1).len() == 0);
            } else if plan.len() == 2 {
                assert(plan.skip(1)[0] == plan[1]);
                assert(plan.skip(1).skip(1).len() == 0);
            }
        },
        None => {},
    }
}

/// The actions that make sure of a directory at `dir_path`, given what was
/// found there.
///
/// There is a plan unless a file stands at the path and `overwrite` is not
/// set: then the file is reported and left as it is.
pub fn create_dir_if_missing(dir_path: &str, overwrite: bool, found: &PathState) -> (plan: Result<
    Vec<FsAction>,
    DirectoryError,
>)
    ensures
        match plan {
            Ok(actions) => directory_plan(dir_path@, overwrite, found@) == Some(
                changes(actions@),
            ),
            Err(e) => found@ is File && !overwrite && directory_plan(
                dir_path@,
                overwrite,
                found@,
            ) is None && e.path() == dir_path@,
        },
{
    let mut actions: Vec<FsAction> = Vec::new();
    match found {
        PathState::Absent => {
            actions.push(FsAction::CreateDirAll { path: String::from_str(dir_path) });
        },
        PathState::File => {
            if !overwrite {
                return Err(DirectoryError::NotADirectory { path: String::from_str(dir_path) });
            }
            actions.push(FsAction::RemoveFile { path: String::from_str(dir_path) });
            actions.push(FsAction::CreateDirAll { path: String::from_str(dir_path) });
        },
        _ => {},
    }
    assert(changes(actions@) =~= directory_plan(dir_path@, overwrite, found@)->0);
    Ok(actions)
}

/// The actions that clear the short-lived files of `layout`: none where
/// there are none, else the removal of their directory with all it holds
/// and its creation.
pub fn clear_temp(layout: &Layout, temp_is_empty: bool) -> (actions: Vec<FsAction>)
    ensures
        changes(actions@) == if temp_is_empty {
            Seq::<Change>::empty()
        } else {
            seq![
                Change::RemoveTree { path: tmp_dir(layout.home@) },
                Change::CreateDirAll { path: tmp_dir(layout.home@) },
            ]
        },
{
    let mut actions: Vec<FsAction> = Vec::new();
    if !temp_is_empty {
        actions.push(FsAction::RemoveTree { path: layout.tmp_dir() });
        actions.push(FsAction::CreateDirAll { path: layout.tmp_dir() });
    }
    assert(changes(actions@) =~= if temp_is_empty {
        Seq::<Change>::empty()
    } else {
        seq![
            Change::RemoveTree { path: tmp_dir(layout.home@) },
            Change::CreateDirAll { path: tmp_dir(layout.home@) },
        ]
    });
    actions
}

} // verus!
