//! Whole runs of reconciliation over the modelled file system, and what
//! holds of them: entries that keep apart do not disturb each other, and a
//! second run changes nothing.

use vstd::prelude::*;
use crate::fs::{
    below,
    lemma_within_both,
    node_at,
    observe,
    run,
    within,
    Change,
    Observed,
    Tree,
};
use crate::reconcile::{
    desires,
    entry_plan,
    link_plan,
    place,
    ConflictPolicy,
    Desired,
    DesiredEntry,
    Link,
};
use crate::text::{chars_of, starts_with_chars};

verus! {

/// The tree after `entry` was looked at and its plan carried out, or `None`
/// where there is no plan.
pub open spec fn settle(tree: Tree, entry: Desired) -> Option<Tree> {
    match entry_plan(entry, observe(tree, place(entry))) {
        Some(plan) => Some(run(tree, plan)),
        None => None,
    }
}

/// The tree after the entries were settled one after the other, and whether
/// all of them were.  The run stops at the first entry that has no plan, and
/// leaves in place what was done until then.
pub open spec fn converge(tree: Tree, entries: Seq<Desired>) -> (Tree, bool)
    decreases entries.len(),
{
    if entries.len() == 0 {
        (tree, true)
    } else {
        match settle(tree, entries[0]) {
            None => (tree, false),
            Some(next) => converge(next, entries.skip(1)),
        }
    }
}

/// The first entry at which a run stops, or `None` where it comes to its
/// end.
pub open spec fn stuck_at(tree: Tree, entries: Seq<Desired>) -> Option<int>
    decreases entries.len(),
{
    if entries.len() == 0 {
        None
    } else {
        match settle(tree, entries[0]) {
            None => Some(0),
            Some(next) => match stuck_at(next, entries.skip(1)) {
                None => None,
                Some(i) => Some(i + 1),
            },
        }
    }
}

/// A run comes to its end exactly where it stops at no entry, and an entry
/// at which it stops is one of the entries.
pub proof fn lemma_stuck_or_done(tree: Tree, entries: Seq<Desired>)
    ensures
        converge(tree, entries).1 == (stuck_at(tree, entries) is None),
        stuck_at(tree, entries) matches Some(i) ==> 0 <= i < entries.len(),
    decreases entries.len(),
{
    if entries.len() > 0 {
        match settle(tree, entries[0]) {
            None => {},
            Some(next) => {
                lemma_stuck_or_done(next, entries.skip(1));
            },
        }
    }
}

/// Settling `entry` cannot reach `path`: the path is not the entry's place,
/// and not below it where the entry is a link, which may displace a whole
/// directory.
pub open spec fn out_of_reach(path: Seq<char>, entry: Desired) -> bool {
    &&& path != place(entry)
    &&& entry is Link ==> !below(path, place(entry))
}

/// Neither entry can reach the place of the other.
pub open spec fn apart(a: Desired, b: Desired) -> bool {
    out_of_reach(place(a), b) && out_of_reach(place(b), a)
}

/// Every two of the entries keep apart.
pub open spec fn independent(entries: Seq<Desired>) -> bool {
    forall|i: int, j: int| 0 <= i < j < entries.len() ==> apart(entries[i], entries[j])
}

/// Settling an entry leaves alone every path that is out of its reach.
pub proof fn lemma_settle_frame(tree: Tree, entry: Desired, path: Seq<char>)
    requires
        out_of_reach(path, entry),
        settle(tree, entry) is Some,
    ensures
        node_at(settle(tree, entry)->0, path) == node_at(tree, path),
{
    reveal_with_fuel(run, 3);
    let plan = entry_plan(entry, observe(tree, place(entry)))->0;
    if plan.len() == 1 {
        assert(plan.skip(1).len() == 0);
    } else if plan.len() == 2 {
        assert(plan.skip(1)[0] == plan[1]);
        assert(plan.skip(1).skip(1).len() == 0);
    }
}

/// After an entry was settled, its place holds what was wanted or, for a
/// link that is skipped, what stood there before.  Any tree that holds the
/// same at that place is left unchanged when the entry is settled on it.
pub proof fn lemma_settled_is_stable(tree: Tree, entry: Desired, other: Tree)
    requires
        settle(tree, entry) is Some,
        node_at(other, place(entry)) == node_at(settle(tree, entry)->0, place(entry)),
    ensures
        settle(other, entry) == Some(other),
{
    reveal_with_fuel(run, 3);
    let plan = entry_plan(entry, observe(tree, place(entry)))->0;
    if plan.len() == 1 {
        assert(plan.skip(1).len() == 0);
    } else if plan.len() == 2 {
        assert(plan.skip(1)[0] == plan[1]);
        assert(plan.skip(1).skip(1).len() == 0);
    }
    let again = entry_plan(entry, observe(other, place(entry)));
    assert(again is Some);
    if again->0.len() == 1 {
        assert(again->0.skip(1).len() == 0);
        assert(run(other, again->0) =~= other);
    } else {
        assert(again->0.len() == 0);
    }
}

/// A run leaves alone every path that is out of reach of all its entries.
pub proof fn lemma_converge_frame(tree: Tree, entries: Seq<Desired>, path: Seq<char>)
    requires
        forall|i: int| 0 <= i < entries.len() ==> out_of_reach(path, #[trigger] entries[i]),
    ensures
        node_at(converge(tree, entries).0, path) == node_at(tree, path),
    decreases entries.len(),
{
    if entries.len() > 0 {
        match settle(tree, entries[0]) {
            None => {},
            Some(next) => {
                lemma_settle_frame(tree, entries[0], path);
                let rest = entries.skip(1);
                assert forall|i: int| 0 <= i < rest.len() implies out_of_reach(
                    path,
                    #[trigger] rest[i],
                ) by {
                    assert(rest[i] == entries[i + 1]);
                }
                lemma_converge_frame(next, rest, path);
            },
        }
    }
}

/// Reconciliation is idempotent.  Where the entries keep apart, a second run
/// on the tree that the first run left ends with the same tree and the same
/// outcome as the first, whether that ran to its end or stopped on the way.
pub proof fn lemma_converge_idempotent(tree: Tree, entries: Seq<Desired>)
    requires
        independent(entries),
    ensures
        converge(converge(tree, entries).0, entries) == converge(tree, entries),
    decreases entries.len(),
{
    if entries.len() > 0 {
        let first = entries[0];
        let rest = entries.skip(1);
        match settle(tree, first) {
            None => {},
            Some(next) => {
                let end = converge(next, rest);
                assert forall|i: int, j: int| 0 <= i < j < rest.len() implies apart(
                    rest[i],
                    rest[j],
                ) by {
                    assert(rest[i] == entries[i + 1]);
                    assert(rest[j] == entries[j + 1]);
                }
                assert forall|i: int| 0 <= i < rest.len() implies out_of_reach(
                    place(first),
                    #[trigger] rest[i],
                ) by {
                    assert(rest[i] == entries[i + 1]);
                    assert(apart(entries[0], entries[i + 1]));
                }
                lemma_converge_frame(next, rest, place(first));
                lemma_settled_is_stable(tree, first, end.0);
                lemma_converge_idempotent(next, rest);
            },
        }
    }
}

/// A run that came to its end leaves nothing to do: on the tree that it
/// left, the plan of every entry is empty or rewrites a document with the
/// content that it holds, so each entry leaves the tree as it is.
pub proof fn lemma_converged_is_settled(tree: Tree, entries: Seq<Desired>, i: int)
    requires
        independent(entries),
        converge(tree, entries).1,
        0 <= i < entries.len(),
    ensures
        settle(converge(tree, entries).0, entries[i]) == Some(converge(tree, entries).0),
    decreases entries.len(),
{
    let first = entries[0];
    let rest = entries.skip(1);
    let next = settle(tree, first)->0;
    assert forall|a: int, b: int| 0 <= a < b < rest.len() implies apart(rest[a], rest[b]) by {
        assert(rest[a] == entries[a + 1]);
        assert(rest[b] == entries[b + 1]);
    }
    if i == 0 {
        assert forall|k: int| 0 <= k < rest.len() implies out_of_reach(
            place(first),
            #[trigger] rest[k],
        ) by {
            assert(rest[k] == entries[k + 1]);
            assert(apart(entries[0], entries[k + 1]));
        }
        lemma_converge_frame(next, rest, place(first));
        lemma_settled_is_stable(tree, first, converge(next, rest).0);
    } else {
        assert(rest[i - 1] == entries[i]);
        lemma_converged_is_settled(next, rest, i - 1);
    }
}

/// A link under [`ConflictPolicy::ReplaceIfWrong`] stands after it was
/// settled, whatever stood in its place: nothing, a link to another target,
/// a file, or a directory.
pub proof fn lemma_replace_makes_link(tree: Tree, link: Link)
    requires
        link.policy == ConflictPolicy::ReplaceIfWrong,
    ensures
        settle(tree, Desired::Link(link)) is Some,
        observe(settle(tree, Desired::Link(link))->0, link.link) == Observed::Symlink(link.target),
{
    reveal_with_fuel(run, 3);
    let plan = link_plan(link, observe(tree, link.link))->0;
    if plan.len() == 1 {
        assert(plan.skip(1).len() == 0);
    } else if plan.len() == 2 {
        assert(plan.skip(1)[0] == plan[1]);
        assert(plan.skip(1).skip(1).len() == 0);
    }
}

/// Where a directory stood in the place of a link under
/// [`ConflictPolicy::ReplaceIfWrong`], nothing is left of what the directory
/// held once the link was settled.
pub proof fn lemma_replace_clears_directory(tree: Tree, link: Link, path: Seq<char>)
    requires
        link.policy == ConflictPolicy::ReplaceIfWrong,
        observe(tree, link.link) is Directory,
        below(path, link.link),
    ensures
        settle(tree, Desired::Link(link)) is Some,
        node_at(settle(tree, Desired::Link(link))->0, path) is None,
{
    reveal_with_fuel(run, 3);
    let plan = link_plan(link, observe(tree, link.link))->0;
    assert(plan.skip(1)[0] == plan[1]);
    assert(plan.skip(1).skip(1).len() == 0);
    assert(path.len() > link.link.len());
}

/// The rest of some entries that keep apart keep apart.
proof fn lemma_rest_independent(entries: Seq<Desired>)
    requires
        independent(entries),
        entries.len() > 0,
    ensures
        independent(entries.skip(1)),
        forall|k: int| 0 <= k < entries.skip(1).len() ==> apart(entries[0], #[trigger] entries.skip(1)[k]),
{
    let rest = entries.skip(1);
    assert forall|a: int, b: int| 0 <= a < b < rest.len() implies apart(rest[a], rest[b]) by {
        assert(rest[a] == entries[a + 1]);
        assert(rest[b] == entries[b + 1]);
    }
    assert forall|k: int| 0 <= k < rest.len() implies apart(entries[0], #[trigger] rest[k]) by {
        assert(rest[k] == entries[k + 1]);
    }
}

/// After a run that came to its end, every link that is wanted under
/// [`ConflictPolicy::ReplaceIfWrong`] stands, whatever stood in its place
/// before the run.
pub proof fn lemma_converged_links_stand(tree: Tree, entries: Seq<Desired>, i: int, link: Link)
    requires
        independent(entries),
        converge(tree, entries).1,
        0 <= i < entries.len(),
        entries[i] == Desired::Link(link),
        link.policy == ConflictPolicy::ReplaceIfWrong,
    ensures
        observe(converge(tree, entries).0, link.link) == Observed::Symlink(link.target),
{
    lemma_converged_is_settled(tree, entries, i);
    lemma_replace_makes_link(converge(tree, entries).0, link);
}

/// After a run that came to its end, nothing is left of what a directory
/// held that stood in the place of a link wanted under
/// [`ConflictPolicy::ReplaceIfWrong`].
pub proof fn lemma_converged_directory_is_cleared(
    tree: Tree,
    entries: Seq<Desired>,
    i: int,
    link: Link,
    path: Seq<char>,
)
    requires
        independent(entries),
        converge(tree, entries).1,
        0 <= i < entries.len(),
        entries[i] == Desired::Link(link),
        link.policy == ConflictPolicy::ReplaceIfWrong,
        observe(tree, link.link) is Directory,
        below(path, link.link),
    ensures
        node_at(converge(tree, entries).0, path) is None,
    decreases entries.len(),
{
    let first = entries[0];
    let rest = entries.skip(1);
    let next = settle(tree, first)->0;
    lemma_rest_independent(entries);
    if i == 0 {
        lemma_replace_clears_directory(tree, link, path);
        assert forall|k: int| 0 <= k < rest.len() implies out_of_reach(
            path,
            #[trigger] rest[k],
        ) by {
            assert(apart(entries[0], rest[k]));
            if within(path, place(rest[k])) {
                lemma_within_both(path, link.link, place(rest[k]));
            }
        }
        lemma_converge_frame(next, rest, path);
    } else {
        assert(rest[i - 1] == entries[i]);
        assert(apart(entries[0], rest[i - 1]));
        lemma_settle_frame(tree, first, link.link);
        lemma_converged_directory_is_cleared(next, rest, i - 1, link, path);
    }
}

/// A link that stands already is left untouched under every policy: its
/// plan is empty.
pub proof fn lemma_correct_link_is_kept(tree: Tree, link: Link)
    requires
        observe(tree, link.link) == Observed::Symlink(link.target),
    ensures
        link_plan(link, observe(tree, link.link)) == Some(Seq::<Change>::empty()),
        settle(tree, Desired::Link(link)) == Some(tree),
{
}

/// Whether `path` lies below the directory `dir`.
pub fn is_below(path: &str, dir: &str) -> (hit: bool)
    ensures
        hit == below(path@, dir@),
{
    let p = chars_of(path);
    let mut d = chars_of(dir);
    d.push('/');
    starts_with_chars(&p, &d)
}

/// The place of an entry.
pub fn place_of(entry: &DesiredEntry) -> (path: &String)
    ensures
        path@ == place(entry@),
{
    match entry {
        DesiredEntry::Directory { path } => path,
        DesiredEntry::Document { path, .. } => path,
        DesiredEntry::Link(spec) => &spec.link,
    }
}

/// Whether settling `entry` cannot reach `path`.
fn keeps_off(path: &String, entry: &DesiredEntry) -> (off: bool)
    ensures
        off == out_of_reach(path@, entry@),
{
    let at = place_of(entry);
    if *path == *at {
        return false;
    }
    match entry {
        DesiredEntry::Link(_) => !is_below(path.as_str(), at.as_str()),
        _ => true,
    }
}

/// Whether two entries keep apart.
pub fn entries_apart(a: &DesiredEntry, b: &DesiredEntry) -> (ok: bool)
    ensures
        ok == apart(a@, b@),
{
    keeps_off(place_of(a), b) && keeps_off(place_of(b), a)
}

/// The entry keeps apart from each of the entries in `kept`.
pub open spec fn fits(kept: Seq<Desired>, entry: Desired) -> bool {
    forall|i: int| 0 <= i < kept.len() ==> apart(#[trigger] kept[i], entry)
}

/// The entries without those that do not keep apart from one that stays
/// before them: of what is wanted at or around one place, the first stays.
pub open spec fn first_wanted(entries: Seq<Desired>) -> Seq<Desired>
    decreases entries.len(),
{
    if entries.len() == 0 {
        Seq::empty()
    } else {
        let front = first_wanted(entries.drop_last());
        if fits(front, entries.last()) {
            front.push(entries.last())
        } else {
            front
        }
    }
}

/// Every two of the entries that stay keep apart.
pub proof fn lemma_first_wanted_independent(entries: Seq<Desired>)
    ensures
        independent(first_wanted(entries)),
    decreases entries.len(),
{
    if entries.len() > 0 {
        lemma_first_wanted_independent(entries.drop_last());
        let front = first_wanted(entries.drop_last());
        if fits(front, entries.last()) {
            let all = front.push(entries.last());
            assert forall|i: int, j: int| 0 <= i < j < all.len() implies apart(all[i], all[j]) by {
                if j < front.len() {
                    assert(all[i] == front[i] && all[j] == front[j]);
                } else {
                    assert(all[i] == front[i]);
                }
            }
        }
    }
}

/// Where every two entries keep apart, all of them stay.
pub proof fn lemma_independent_all_stay(entries: Seq<Desired>)
    requires
        independent(entries),
    ensures
        first_wanted(entries) == entries,
    decreases entries.len(),
{
    if entries.len() > 0 {
        let front = entries.drop_last();
        assert forall|i: int, j: int| 0 <= i < j < front.len() implies apart(
            front[i],
            front[j],
        ) by {
            assert(front[i] == entries[i] && front[j] == entries[j]);
        }
        lemma_independent_all_stay(front);
        assert forall|i: int| 0 <= i < front.len() implies apart(
            #[trigger] front[i],
            entries.last(),
        ) by {
            assert(front[i] == entries[i]);
            assert(apart(entries[i], entries[entries.len() - 1]));
        }
        assert(front.push(entries.last()) =~= entries);
    } else {
        assert(first_wanted(entries) =~= entries);
    }
}

/// The entries without those that do not keep apart from one that stays
/// before them.  Every two of the entries that stay keep apart, so a run
/// over them is idempotent.
pub fn keep_apart(entries: &Vec<DesiredEntry>) -> (kept: Vec<DesiredEntry>)
    ensures
        desires(kept@) == first_wanted(desires(entries@)),
        independent(desires(kept@)),
{
    let mut kept: Vec<DesiredEntry> = Vec::new();
    let mut i: usize = 0;
    assert(desires(entries@).take(0) =~= Seq::<Desired>::empty());
    assert(desires(kept@) =~= first_wanted(desires(entries@).take(0)));
    while i < entries.len()
        invariant
            i <= entries.len(),
            desires(kept@) == first_wanted(desires(entries@).take(i as int)),
        decreases entries.len() - i,
    {
        let entry = &entries[i];
        proof {
            let now = desires(entries@).take(i + 1);
            assert(now.drop_last() =~= desires(entries@).take(i as int));
            assert(now.last() == entry@);
        }
        let mut k: usize = 0;
        let mut free: bool = true;
        while k < kept.len()
            invariant
                k <= kept.len(),
                free == (forall|j: int| 0 <= j < k ==> apart(#[trigger] desires(kept@)[j], entry@)),
            decreases kept.len() - k,
        {
            assert(desires(kept@)[k as int] == kept@[k as int]@);
            if !entries_apart(&kept[k], entry) {
                free = false;
            }
            k += 1;
        }
        if free {
            let ghost before = kept@;
            kept.push(entry.duplicate());
            assert(desires(kept@) =~= desires(before).push(entry@));
        }
        i += 1;
    }
    assert(desires(entries@).take(entries.len() as int) =~= desires(entries@));
    proof {
        lemma_first_wanted_independent(desires(entries@));
    }
    kept
}

} // verus!
