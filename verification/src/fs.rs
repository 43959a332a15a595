//! A model of the file system, and the vocabulary that planners use to speak
//! to the caller about it.
//!
//! Planners never touch the disk.  The caller tells them what it found at a
//! path ([`PathState`]) and receives the changes to make ([`FsAction`]).  The
//! model ([`Tree`], [`apply`], [`run`]) says what those changes mean, so that
//! statements about the state after a plan can be proved.
//!
//! The model knows paths as texts.  It does not follow symbolic links, and
//! it keeps no record of the ancestors that come into being with a
//! directory: a path is occupied only by what was put there.

use vstd::prelude::*;
use crate::text::has_prefix;

verus! {

/// What the caller found at a path, without following symbolic links.
#[derive(Clone, Debug, PartialEq, Eq)]
pub enum PathState {
    /// Nothing is there.
    Absent,
    /// A symbolic link, with the target it names.
    Symlink(String),
    /// A regular file, or anything else that is neither link nor directory.
    File,
    /// A directory.
    Directory,
}

/// The model of a [`PathState`].
pub enum Observed {
    Absent,
    Symlink(Seq<char>),
    File,
    Directory,
}

impl View for PathState {
    type V = Observed;

    open spec fn view(&self) -> Observed {
        match self {
            PathState::Absent => Observed::Absent,
            PathState::Symlink(target) => Observed::Symlink(target@),
            PathState::File => Observed::File,
            PathState::Directory => Observed::Directory,
        }
    }
}

/// One change to the file system, to be made by the caller.
#[derive(Clone, Debug, PartialEq, Eq)]
pub enum FsAction {
    /// Create the directory and every missing ancestor.
    CreateDirAll { path: String },
    /// Write the file, replacing what it held.
    WriteFile { path: String, data: Vec<u8> },
    /// Create a symbolic link at `link` that names `target`.
    CreateSymlink { target: String, link: String },
    /// Remove a file or a symbolic link.
    RemoveFile { path: String },
    /// Remove a directory with all it holds.
    RemoveTree { path: String },
    /// Move what is at `from` to `to`.
    Rename { from: String, to: String },
}

/// The model of an [`FsAction`].
pub enum Change {
    CreateDirAll { path: Seq<char> },
    WriteFile { path: Seq<char>, data: Seq<u8> },
    CreateSymlink { target: Seq<char>, link: Seq<char> },
    RemoveFile { path: Seq<char> },
    RemoveTree { path: Seq<char> },
    Rename { from: Seq<char>, to: Seq<char> },
}

impl View for FsAction {
    type V = Change;

    open spec fn view(&self) -> Change {
        match self {
            FsAction::CreateDirAll { path } => Change::CreateDirAll { path: path@ },
            FsAction::WriteFile { path, data } => Change::WriteFile { path: path@, data: data@ },
            FsAction::CreateSymlink { target, link } => Change::CreateSymlink {
                target: target@,
                link: link@,
            },
            FsAction::RemoveFile { path } => Change::RemoveFile { path: path@ },
            FsAction::RemoveTree { path } => Change::RemoveTree { path: path@ },
            FsAction::Rename { from, to } => Change::Rename { from: from@, to: to@ },
        }
    }
}

/// The models of a list of actions.
pub open spec fn changes(actions: Seq<FsAction>) -> Seq<Change> {
    Seq::new(actions.len(), |i: int| actions[i]@)
}

/// What stands at one path of the modelled file system.
pub enum Node {
    Directory,
    File(Seq<u8>),
    Link(Seq<char>),
}

/// The modelled file system: what stands at each occupied path.
pub type Tree = Map<Seq<char>, Node>;

/// `path` lies below the directory `dir`.
pub open spec fn below(path: Seq<char>, dir: Seq<char>) -> bool {
    has_prefix(path, dir.push('/'))
}

/// `path` is `root` or lies below it.
pub open spec fn within(path: Seq<char>, root: Seq<char>) -> bool {
    path == root || below(path, root)
}

/// `path` is cleared when `root` is removed: it is `root`, or lies below it
/// where the removal is `deep`.
pub open spec fn cleared(path: Seq<char>, root: Seq<char>, deep: bool) -> bool {
    path == root || (deep && below(path, root))
}

/// The tree without the paths that the removal of `root` clears.
pub open spec fn pruned(tree: Tree, root: Seq<char>, deep: bool) -> Tree {
    Map::new(
        |p: Seq<char>| tree.contains_key(p) && !cleared(p, root, deep),
        |p: Seq<char>| tree[p],
    )
}

/// The tree after what stands at `from` and below it was moved to `to`.
pub open spec fn moved(tree: Tree, from: Seq<char>, to: Seq<char>) -> Tree {
    Map::new(
        |p: Seq<char>|
            if within(p, to) {
                tree.contains_key(from + p.skip(to.len() as int))
            } else {
                tree.contains_key(p) && !within(p, from)
            },
        |p: Seq<char>|
            if within(p, to) {
                tree[from + p.skip(to.len() as int)]
            } else {
                tree[p]
            },
    )
}

/// What a caller that looks at `path` finds in `tree`.
pub open spec fn observe(tree: Tree, path: Seq<char>) -> Observed {
    if !tree.contains_key(path) {
        Observed::Absent
    } else {
        match tree[path] {
            Node::Directory => Observed::Directory,
            Node::File(_) => Observed::File,
            Node::Link(target) => Observed::Symlink(target),
        }
    }
}

/// The node at `path`, if the path is occupied.
pub open spec fn node_at(tree: Tree, path: Seq<char>) -> Option<Node> {
    if tree.contains_key(path) {
        Some(tree[path])
    } else {
        None
    }
}

/// The tree after one change.  A change that the file system would refuse
/// (a link where something stands, a file where a directory stands, the
/// removal of a directory as a file, a move of nothing) leaves the tree as
/// it is.  The removal of a directory clears the directory and every path
/// below it; a move takes along what stands below the moved path, and
/// displaces what stood at the new path and below it.
pub open spec fn apply(tree: Tree, change: Change) -> Tree {
    match change {
        Change::CreateDirAll { path } => if tree.contains_key(path) {
            tree
        } else {
            tree.insert(path, Node::Directory)
        },
        Change::WriteFile { path, data } => if tree.contains_key(path) && tree[path]
            is Directory {
            tree
        } else {
            tree.insert(path, Node::File(data))
        },
        Change::CreateSymlink { target, link } => if tree.contains_key(link) {
            tree
        } else {
            tree.insert(link, Node::Link(target))
        },
        Change::RemoveFile { path } => if tree.contains_key(path) && !(tree[path]
            is Directory) {
            tree.remove(path)
        } else {
            tree
        },
        Change::RemoveTree { path } => pruned(tree, path, true),
        Change::Rename { from, to } => if !tree.contains_key(from) {
            tree
        } else {
            moved(tree, from, to)
        },
    }
}

/// The tree after a list of changes, made in order.
pub open spec fn run(tree: Tree, plan: Seq<Change>) -> Tree
    decreases plan.len(),
{
    if plan.len() == 0 {
        tree
    } else {
        run(apply(tree, plan[0]), plan.skip(1))
    }
}

/// A path within `root` is `root` followed by nothing or by a slash and
/// more.
pub proof fn lemma_within_parts(path: Seq<char>, root: Seq<char>)
    requires
        within(path, root),
    ensures
        path.len() >= root.len(),
        path == root + path.skip(root.len() as int),
        path.skip(root.len() as int).len() == 0 || path.skip(root.len() as int)[0] == '/',
{
    if path == root {
        assert(path.skip(root.len() as int) =~= Seq::<char>::empty());
        assert(path =~= root + path.skip(root.len() as int));
    } else {
        let head = root.push('/');
        assert(path.subrange(0, head.len() as int) == head);
        assert forall|i: int| 0 <= i < root.len() implies path[i] == root[i] by {
            assert(path.subrange(0, head.len() as int)[i] == path[i]);
            assert(head[i] == root[i]);
        }
        assert(path.subrange(0, head.len() as int)[root.len() as int] == path[root.len() as int]);
        assert(head[root.len() as int] == '/');
        assert(path =~= root + path.skip(root.len() as int));
    }
}

/// `root` followed by nothing, or by a slash and more, is a path within
/// `root`.
pub proof fn lemma_parts_within(root: Seq<char>, rest: Seq<char>)
    requires
        rest.len() == 0 || rest[0] == '/',
    ensures
        within(root + rest, root),
        (root + rest).skip(root.len() as int) == rest,
{
    assert((root + rest).skip(root.len() as int) =~= rest);
    if rest.len() == 0 {
        assert(root + rest =~= root);
    } else {
        let head = root.push('/');
        assert((root + rest).subrange(0, head.len() as int) =~= head);
    }
}

/// A path within a directory begins with the directory, and goes on with a
/// slash unless it is the directory.
pub proof fn lemma_prefix_of_within(path: Seq<char>, root: Seq<char>)
    requires
        within(path, root),
    ensures
        root.len() <= path.len(),
        forall|i: int| 0 <= i < root.len() ==> path[i] == root[i],
        path.len() > root.len() ==> path[root.len() as int] == '/',
{
    if path != root {
        let head = root.push('/');
        assert forall|i: int| 0 <= i < head.len() implies path[i] == head[i] by {
            assert(path.subrange(0, head.len() as int)[i] == path[i]);
        }
        assert forall|i: int| 0 <= i < root.len() implies path[i] == root[i] by {
            assert(head[i] == root[i]);
        }
        assert(head[root.len() as int] == '/');
    }
}

/// A path that lies within two directories lies within both because one of
/// the two lies within the other.
pub proof fn lemma_within_both(path: Seq<char>, a: Seq<char>, b: Seq<char>)
    requires
        within(path, a),
        within(path, b),
    ensures
        within(a, b) || within(b, a),
{
    lemma_prefix_of_within(path, a);
    lemma_prefix_of_within(path, b);
    if a.len() == b.len() {
        assert(a =~= b);
    } else if a.len() < b.len() {
        assert(b.subrange(0, a.len() as int + 1) =~= a.push('/'));
    } else {
        assert(a.subrange(0, b.len() as int + 1) =~= b.push('/'));
    }
}

/// The change leaves `path` alone: it is no move, it is made at another
/// path, and where it removes a directory, `path` is not inside that.
pub open spec fn spares(change: Change, path: Seq<char>) -> bool {
    match change {
        Change::CreateDirAll { path: at } => at != path,
        Change::WriteFile { path: at, .. } => at != path,
        Change::CreateSymlink { link: at, .. } => at != path,
        Change::RemoveFile { path: at } => at != path,
        Change::RemoveTree { path: at } => !within(path, at),
        Change::Rename { .. } => false,
    }
}

/// Changes that spare a path leave standing what stands there.
pub proof fn lemma_spared_path_stays(tree: Tree, plan: Seq<Change>, path: Seq<char>)
    requires
        forall|i: int| 0 <= i < plan.len() ==> spares(#[trigger] plan[i], path),
    ensures
        node_at(run(tree, plan), path) == node_at(tree, path),
    decreases plan.len(),
{
    if plan.len() > 0 {
        assert(spares(plan[0], path));
        assert forall|i: int| 0 <= i < plan.skip(1).len() implies spares(
            #[trigger] plan.skip(1)[i],
            path,
        ) by {
            assert(plan.skip(1)[i] == plan[i + 1]);
        }
        lemma_spared_path_stays(apply(tree, plan[0]), plan.skip(1), path);
    }
}

} // verus!
