//! A file system held in memory, on which plans can be carried out and
//! looked at without touching the disk.
//!
//! The tree is a list of paths with what stands at each; where a path is
//! listed twice, the later entry counts.  Its view is the modelled file
//! system of [`crate::fs`], and every change to it is the change that the
//! model describes.

use vstd::prelude::*;
use crate::converge::{converge, is_below, place_of, stuck_at};
use crate::fs::{
    apply,
    changes,
    cleared,
    lemma_parts_within,
    lemma_within_parts,
    moved,
    node_at,
    observe,
    pruned,
    run,
    within,
    FsAction,
    Node,
    PathState,
    Tree,
};
use crate::reconcile::{desires, place, reconcile_entry, DesiredEntry, ReconcileError};
use crate::text::same_text;

verus! {

/// What stands at one path of a [`MemoryTree`].
#[derive(Clone, Debug, PartialEq, Eq)]
pub enum MemoryNode {
    Directory,
    File(Vec<u8>),
    Link(String),
}

impl View for MemoryNode {
    type V = Node;

    open spec fn view(&self) -> Node {
        match self {
            MemoryNode::Directory => Node::Directory,
            MemoryNode::File(data) => Node::File(data@),
            MemoryNode::Link(target) => Node::Link(target@),
        }
    }
}

/// One occupied path.
#[derive(Clone, Debug, PartialEq, Eq)]
pub struct MemoryEntry {
    pub path: String,
    pub node: MemoryNode,
}

/// A file system held in memory.
#[derive(Clone, Debug, PartialEq, Eq)]
pub struct MemoryTree {
    /// The occupied paths.  Of two entries with one path the later counts.
    pub entries: Vec<MemoryEntry>,
}

/// The tree that a list of entries stands for.
pub open spec fn tree_of(entries: Seq<MemoryEntry>) -> Tree
    decreases entries.len(),
{
    if entries.len() == 0 {
        Map::empty()
    } else {
        tree_of(entries.drop_last()).insert(entries.last().path@, entries.last().node@)
    }
}

impl View for MemoryTree {
    type V = Tree;

    open spec fn view(&self) -> Tree {
        tree_of(self.entries@)
    }
}

/// Removing a path from the entries prunes the tree.
proof fn lemma_insert_pruned(tree: Tree, path: Seq<char>, node: Node, root: Seq<char>, deep: bool)
    ensures
        pruned(tree.insert(path, node), root, deep) == if cleared(path, root, deep) {
            pruned(tree, root, deep)
        } else {
            pruned(tree, root, deep).insert(path, node)
        },
{
    if cleared(path, root, deep) {
        assert(pruned(tree.insert(path, node), root, deep) =~= pruned(tree, root, deep));
    } else {
        assert(pruned(tree.insert(path, node), root, deep) =~= pruned(tree, root, deep).insert(
            path,
            node,
        ));
    }
}

/// How a move treats one more entry: an entry within `from` comes to stand
/// within `to`; another entry within `to` gives way; any other entry stays.
proof fn lemma_insert_moved(tree: Tree, path: Seq<char>, node: Node, from: Seq<char>, to: Seq<char>)
    ensures
        moved(tree.insert(path, node), from, to) == if within(path, from) {
            moved(tree, from, to).insert(to + path.skip(from.len() as int), node)
        } else if within(path, to) {
            moved(tree, from, to)
        } else {
            moved(tree, from, to).insert(path, node)
        },
{
    let grown = moved(tree.insert(path, node), from, to);
    let rest = path.skip(from.len() as int);
    let target = if within(path, from) {
        moved(tree, from, to).insert(to + rest, node)
    } else if within(path, to) {
        moved(tree, from, to)
    } else {
        moved(tree, from, to).insert(path, node)
    };
    if within(path, from) {
        lemma_within_parts(path, from);
        lemma_parts_within(to, rest);
    }
    assert forall|k: Seq<char>| #[trigger] grown.dom().contains(k) == target.dom().contains(k) by {
        lemma_key_moved(tree, path, node, from, to, k);
    }
    assert forall|k: Seq<char>| #[trigger] grown.dom().contains(k) implies grown[k]
        == target[k] by {
        lemma_key_moved(tree, path, node, from, to, k);
    }
    assert(grown =~= target);
}

/// What [`lemma_insert_moved`] says, of one path.
proof fn lemma_key_moved(
    tree: Tree,
    path: Seq<char>,
    node: Node,
    from: Seq<char>,
    to: Seq<char>,
    k: Seq<char>,
)
    ensures
        ({
            let grown = moved(tree.insert(path, node), from, to);
            let target = if within(path, from) {
                moved(tree, from, to).insert(to + path.skip(from.len() as int), node)
            } else if within(path, to) {
                moved(tree, from, to)
            } else {
                moved(tree, from, to).insert(path, node)
            };
            grown.contains_key(k) == target.contains_key(k) && (grown.contains_key(k) ==> grown[k]
                == target[k])
        }),
{
    let rest = path.skip(from.len() as int);
    if within(path, from) {
        lemma_within_parts(path, from);
        lemma_parts_within(to, rest);
    }
    if within(k, to) {
        lemma_within_parts(k, to);
        let tail = k.skip(to.len() as int);
        lemma_parts_within(from, tail);
        if from + tail == path {
            assert((from + tail).skip(from.len() as int) =~= tail);
        }
    }
}

/// Whether `path` is `root` or lies below it.
pub fn is_within(path: &str, root: &str) -> (hit: bool)
    ensures
        hit == within(path@, root@),
{
    same_text(path, root) || is_below(path, root)
}

impl MemoryNode {
    /// A copy of the node.
    pub fn duplicate(&self) -> (copy: MemoryNode)
        ensures
            copy@ == self@,
    {
        match self {
            MemoryNode::Directory => MemoryNode::Directory,
            MemoryNode::File(data) => MemoryNode::File(data.clone()),
            MemoryNode::Link(target) => MemoryNode::Link(target.clone()),
        }
    }
}

impl MemoryTree {
    /// The tree in which no path is occupied.
    pub fn new() -> (tree: MemoryTree)
        ensures
            tree@ == Map::<Seq<char>, Node>::empty(),
    {
        MemoryTree { entries: Vec::new() }
    }

    /// What stands at `path`, if the path is occupied.
    pub fn node(&self, path: &str) -> (found: Option<&MemoryNode>)
        ensures
            match found {
                Some(node) => node_at(self@, path@) == Some(node@),
                None => node_at(self@, path@) is None,
            },
    {
        let mut i: usize = self.entries.len();
        assert(self.entries@.take(i as int) =~= self.entries@);
        while i > 0
            invariant
                i <= self.entries.len(),
                node_at(self@, path@) == node_at(tree_of(self.entries@.take(i as int)), path@),
            decreases i,
        {
            i -= 1;
            let entry = &self.entries[i];
            proof {
                assert(self.entries@.take(i + 1).drop_last() =~= self.entries@.take(i as int));
                assert(self.entries@.take(i + 1).last() == *entry);
            }
            if same_text(entry.path.as_str(), path) {
                return Some(&entry.node);
            }
        }
        assert(self.entries@.take(0) =~= Seq::<MemoryEntry>::empty());
        None
    }

    /// What a caller that looks at `path` finds.
    pub fn look(&self, path: &str) -> (found: PathState)
        ensures
            found@ == observe(self@, path@),
    {
        match self.node(path) {
            None => PathState::Absent,
            Some(MemoryNode::Directory) => PathState::Directory,
            Some(MemoryNode::File(_)) => PathState::File,
            Some(MemoryNode::Link(target)) => PathState::Symlink(target.clone()),
        }
    }

    /// Puts `node` at `path`, in place of what stood there.
    pub fn put(&mut self, path: &str, node: MemoryNode)
        ensures
            final(self)@ == old(self)@.insert(path@, node@),
    {
        let ghost before = self.entries@;
        self.entries.push(MemoryEntry { path: String::from_str(path), node });
        assert(self.entries@.drop_last() =~= before);
    }

    /// Clears `root`, and with `deep` every path below it.
    fn prune(&mut self, root: &str, deep: bool)
        ensures
            final(self)@ == pruned(old(self)@, root@, deep),
    {
        let mut kept: Vec<MemoryEntry> = Vec::new();
        let mut i: usize = 0;
        assert(self.entries@.take(0) =~= Seq::<MemoryEntry>::empty());
        assert(pruned(Map::<Seq<char>, Node>::empty(), root@, deep) =~= Map::<
            Seq<char>,
            Node,
        >::empty());
        while i < self.entries.len()
            invariant
                i <= self.entries.len(),
                *self == *old(self),
                tree_of(kept@) == pruned(tree_of(self.entries@.take(i as int)), root@, deep),
            decreases self.entries.len() - i,
        {
            let entry = &self.entries[i];
            proof {
                assert(self.entries@.take(i + 1).drop_last() =~= self.entries@.take(i as int));
                assert(self.entries@.take(i + 1).last() == *entry);
                lemma_insert_pruned(
                    tree_of(self.entries@.take(i as int)),
                    entry.path@,
                    entry.node@,
                    root@,
                    deep,
                );
            }
            let gone = same_text(entry.path.as_str(), root) || (deep && is_below(
                entry.path.as_str(),
                root,
            ));
            if !gone {
                let ghost before = kept@;
                kept.push(MemoryEntry { path: entry.path.clone(), node: entry.node.duplicate() });
                assert(kept@.drop_last() =~= before);
            }
            i += 1;
        }
        assert(self.entries@.take(self.entries.len() as int) =~= self.entries@);
        self.entries = kept;
    }

    /// Moves what stands at `from` and below it to `to`.
    fn shift(&mut self, from: &str, to: &str)
        ensures
            final(self)@ == moved(old(self)@, from@, to@),
    {
        let from_len = from.unicode_len();
        let mut kept: Vec<MemoryEntry> = Vec::new();
        let mut i: usize = 0;
        assert(self.entries@.take(0) =~= Seq::<MemoryEntry>::empty());
        assert(moved(Map::<Seq<char>, Node>::empty(), from@, to@) =~= Map::<
            Seq<char>,
            Node,
        >::empty());
        while i < self.entries.len()
            invariant
                i <= self.entries.len(),
                from_len == from@.len(),
                *self == *old(self),
                tree_of(kept@) == moved(tree_of(self.entries@.take(i as int)), from@, to@),
            decreases self.entries.len() - i,
        {
            let entry = &self.entries[i];
            proof {
                assert(self.entries@.take(i + 1).drop_last() =~= self.entries@.take(i as int));
                assert(self.entries@.take(i + 1).last() == *entry);
                lemma_insert_moved(
                    tree_of(self.entries@.take(i as int)),
                    entry.path@,
                    entry.node@,
                    from@,
                    to@,
                );
            }
            let ghost before = kept@;
            if is_within(entry.path.as_str(), from) {
                proof {
                    lemma_within_parts(entry.path@, from@);
                }
                let path_len = entry.path.as_str().unicode_len();
                let rest = entry.path.as_str().substring_char(from_len, path_len);
                let mut path = String::from_str(to);
                path.append(rest);
                assert(rest@ =~= entry.path@.skip(from_len as int));
                kept.push(MemoryEntry { path, node: entry.node.duplicate() });
                assert(kept@.drop_last() =~= before);
            } else if !is_within(entry.path.as_str(), to) {
                kept.push(MemoryEntry { path: entry.path.clone(), node: entry.node.duplicate() });
                assert(kept@.drop_last() =~= before);
            }
            i += 1;
        }
        assert(self.entries@.take(self.entries.len() as int) =~= self.entries@);
        self.entries = kept;
    }

    /// Makes one change, as the model of the file system describes it.
    pub fn apply(&mut self, action: &FsAction)
        ensures
            final(self)@ == apply(old(self)@, action@),
    {
        match action {
            FsAction::CreateDirAll { path } => {
                if self.node(path.as_str()).is_none() {
                    self.put(path.as_str(), MemoryNode::Directory);
                }
            },
            FsAction::WriteFile { path, data } => {
                let blocked = match self.node(path.as_str()) {
                    Some(MemoryNode::Directory) => true,
                    _ => false,
                };
                if !blocked {
                    self.put(path.as_str(), MemoryNode::File(data.clone()));
                }
            },
            FsAction::CreateSymlink { target, link } => {
                if self.node(link.as_str()).is_none() {
                    self.put(link.as_str(), MemoryNode::Link(target.clone()));
                }
            },
            FsAction::RemoveFile { path } => {
                let removable = match self.node(path.as_str()) {
                    Some(MemoryNode::Directory) => false,
                    Some(_) => true,
                    None => false,
                };
                if removable {
                    self.prune(path.as_str(), false);
                    assert(self@ =~= old(self)@.remove(path@));
                }
            },
            FsAction::RemoveTree { path } => {
                self.prune(path.as_str(), true);
                assert(self@ =~= apply(old(self)@, action@));
            },
            FsAction::Rename { from, to } => {
                if self.node(from.as_str()).is_some() {
                    self.shift(from.as_str(), to.as_str());
                    assert(self@ =~= apply(old(self)@, action@));
                }
            },
        }
    }

    /// Makes the changes one after the other.
    pub fn run(&mut self, actions: &Vec<FsAction>)
        ensures
            final(self)@ == run(old(self)@, changes(actions@)),
    {
        let mut i: usize = 0;
        assert(changes(actions@).skip(0) =~= changes(actions@));
        while i < actions.len()
            invariant
                i <= actions.len(),
                run(self@, changes(actions@).skip(i as int)) == run(old(self)@, changes(actions@)),
            decreases actions.len() - i,
        {
            proof {
                let rest = changes(actions@).skip(i as int);
                assert(rest[0] == actions@[i as int]@);
                assert(rest.skip(1) =~= changes(actions@).skip(i + 1));
            }
            self.apply(&actions[i]);
            i += 1;
        }
    }

    /// Settles the entries one after the other: each is looked at, and its
    /// plan is carried out.  The run stops at the first entry that has no
    /// plan, and leaves in place what was done until then.
    pub fn reconcile(&mut self, entries: &Vec<DesiredEntry>) -> (done: Result<(), ReconcileError>)
        ensures
            (final(self)@, done is Ok) == converge(old(self)@, desires(entries@)),
            match done {
                Ok(_) => stuck_at(old(self)@, desires(entries@)) is None,
                Err(e) => stuck_at(old(self)@, desires(entries@)) matches Some(i) && 0 <= i
                    < entries@.len() && e.is_conflict_at(place(entries@[i]@)),
            },
    {
        let mut i: usize = 0;
        assert(desires(entries@).skip(0) =~= desires(entries@));
        while i < entries.len()
            invariant
                i <= entries.len(),
                converge(self@, desires(entries@).skip(i as int)) == converge(
                    old(self)@,
                    desires(entries@),
                ),
                stuck_at(old(self)@, desires(entries@)) == match stuck_at(
                    self@,
                    desires(entries@).skip(i as int),
                ) {
                    None => None::<int>,
                    Some(k) => Some(k + i),
                },
            decreases entries.len() - i,
        {
            let entry = &entries[i];
            proof {
                let rest = desires(entries@).skip(i as int);
                assert(rest[0] == entry@);
                assert(rest.skip(1) =~= desires(entries@).skip(i + 1));
            }
            let found = self.look(place_of(entry).as_str());
            match reconcile_entry(entry, &found) {
                Ok(actions) => {
                    self.run(&actions);
                },
                Err(e) => {
                    return Err(e);
                },
            }
            i += 1;
        }
        Ok(())
    }
}

} // verus!
