//! The shared cache of unpacked packages.
//!
//! A package is unpacked once, into a directory named after the package and
//! its version.  The archive is unpacked into a staging directory first and
//! moved into place as the very last step, so the final directory is either
//! absent or complete.  No member of the archive may name a path outside the
//! directory.

use vstd::prelude::*;
use crate::fs::{
    apply,
    changes,
    lemma_prefix_of_within,
    lemma_spared_path_stays,
    lemma_within_both,
    node_at,
    observe,
    run,
    spares,
    within,
    Change,
    FsAction,
    Node,
    Observed,
    PathState,
    Tree,
};
use crate::paths::{
    get_package_path,
    join,
    join_path,
    package_dir_name,
    package_path,
    pen_dir,
    python_packages_dir,
    tmp_dir,
    Layout,
};
use crate::registry::{Artifact, Package, Reply, STATUS_OK};
use crate::text::{chars_of, same_chars, split, split_chars, views};
use crate::version::VersionModel;

verus! {

/// One member of an archive: its name and its content.
#[derive(Clone, Debug, PartialEq, Eq)]
pub struct ArchiveEntry {
    pub name: String,
    pub data: Vec<u8>,
}

/// The model of an [`ArchiveEntry`].
pub struct Member {
    pub name: Seq<char>,
    pub data: Seq<u8>,
}

impl View for ArchiveEntry {
    type V = Member;

    open spec fn view(&self) -> Member {
        Member { name: self.name@, data: self.data@ }
    }
}

/// The models of a list of members.
pub open spec fn members(entries: Seq<ArchiveEntry>) -> Seq<Member> {
    Seq::new(entries.len(), |i: int| entries[i]@)
}

/// What the `zip` crate reads from the bytes of an archive: the members as
/// the crate numbers them, one for each name that the archive lists, each
/// with its name and its unpacked content, or `None` where the crate reports
/// an error for the archive or for any member.
pub uninterp spec fn zip_members(bytes: Seq<u8>) -> Option<Seq<Member>>;

/// The error of the `zip` crate.  It is handed on and never looked into.
#[verifier::external_type_specification]
#[verifier::external_body]
pub struct ExZipError(zip::result::ZipError);

/// Opens the archive with `zip::ZipArchive::new`, and for each index up to
/// `ZipArchive::len` takes the member with `ZipArchive::by_index`, reads it
/// to its end and copies its `ZipFile::name`.  The result is the one that
/// `zip_members` names.
#[verifier::external_body]
fn unpack_with_zip(bytes: &Vec<u8>) -> (unpacked: Result<Vec<ArchiveEntry>, zip::result::ZipError>)
    ensures
        match unpacked {
            Ok(entries) => zip_members(bytes@) == Some(members(entries@)),
            Err(_) => zip_members(bytes@) is None,
        },
{
    let mut archive = zip::ZipArchive::new(std::io::Cursor::new(bytes.as_slice()))?;
    let mut entries = Vec::new();
    for i in 0..archive.len() {
        let mut file = archive.by_index(i)?;
        let mut data = Vec::new();
        std::io::Read::read_to_end(&mut file, &mut data)?;
        entries.push(ArchiveEntry { name: file.name().to_owned(), data });
    }
    Ok(entries)
}

/// The name is that of a directory: it ends in a slash or a backslash.
pub open spec fn names_directory(name: Seq<char>) -> bool {
    name.len() > 0 && (name.last() == '/' || name.last() == '\\')
}

/// The name leads out of the directory that it is unpacked into: it begins
/// at the root, or one of its parts between slashes is `..`.
pub open spec fn escapes(name: Seq<char>) -> bool {
    (name.len() > 0 && name[0] == '/') || split(name, '/').contains(".."@)
}

/// Some member's name leads out of the directory.
pub open spec fn any_escapes(members: Seq<Member>) -> bool {
    exists|i: int| 0 <= i < members.len() && escapes(#[trigger] members[i].name)
}

/// The path up to its last slash; empty where it has none.
pub open spec fn dir_name(path: Seq<char>) -> Seq<char>
    decreases path.len(),
{
    if path.len() == 0 {
        path
    } else if path.last() == '/' {
        path.drop_last()
    } else {
        dir_name(path.drop_last())
    }
}

/// The changes that unpack one member into `staging`: a directory is
/// created; for a file the directory that holds it is created and the file
/// is written.
pub open spec fn member_plan(staging: Seq<char>, member: Member) -> Seq<Change> {
    let path = join(staging, member.name);
    if names_directory(member.name) {
        seq![Change::CreateDirAll { path }]
    } else {
        seq![Change::CreateDirAll { path: dir_name(path) }, Change::WriteFile { path, data: member.data }]
    }
}

/// The changes that unpack the members into `staging`, member by member.
pub open spec fn members_plan(staging: Seq<char>, members: Seq<Member>) -> Seq<Change>
    decreases members.len(),
{
    if members.len() == 0 {
        Seq::empty()
    } else {
        members_plan(staging, members.drop_last()) + member_plan(staging, members.last())
    }
}

/// The changes that bring a package into the cache: the staging directory
/// is cleared and created, the members are unpacked into it, the directory
/// that holds the packages is created, and the staging directory is moved to
/// the package's place.
pub open spec fn extraction_plan(
    staging: Seq<char>,
    shelf: Seq<char>,
    place: Seq<char>,
    members: Seq<Member>,
) -> Seq<Change> {
    seq![Change::RemoveTree { path: staging }, Change::CreateDirAll { path: staging }]
        + members_plan(staging, members) + seq![
        Change::CreateDirAll { path: shelf },
        Change::Rename { from: staging, to: place },
    ]
}

/// The staging directory of a package: named like the package's directory,
/// among the short-lived files.
pub open spec fn staging_path(home: Seq<char>, name: Seq<char>, version: VersionModel) -> Seq<
    char,
> {
    join(tmp_dir(home), package_dir_name(name, version))
}

/// The kinds of failure of the cache.
pub enum CacheFailure {
    DownloadFailed { status: Option<u16> },
    CorruptArchive,
    UnsafeEntry { name: Seq<char> },
    FilesystemError { path: Seq<char> },
}

/// Why a package was not brought into the cache.
#[derive(Clone, Debug, PartialEq, Eq)]
pub enum CacheError {
    /// The download did not succeed: no answer came (`status` is `None`), or
    /// one with another status than success, or one whose body could not be
    /// read.
    DownloadFailed { package: String, status: Option<u16> },
    /// What was downloaded is no archive that can be read.
    CorruptArchive { package: String },
    /// A member of the archive names a path outside the package's directory.
    UnsafeEntry { package: String, name: String },
    /// The package's place is taken by something that is no directory.
    FilesystemError { path: String },
}

impl CacheError {
    /// The error reports the member `name` of the archive of `package`.
    pub open spec fn names(self, package: Seq<char>, name: Seq<char>) -> bool {
        match self {
            CacheError::UnsafeEntry { package: of, name: member } => of@ == package && member@
                == name,
            _ => false,
        }
    }

    /// The error is about `subject`: the package whose download or archive
    /// failed, or the path that is taken.
    pub open spec fn is_about(self, package: Seq<char>, path: Seq<char>) -> bool {
        match self {
            CacheError::DownloadFailed { package: of, .. } => of@ == package,
            CacheError::CorruptArchive { package: of } => of@ == package,
            CacheError::UnsafeEntry { package: of, .. } => of@ == package,
            CacheError::FilesystemError { path: at } => at@ == path,
        }
    }

    /// The kind of the failure.
    pub open spec fn kind(self) -> CacheFailure {
        match self {
            CacheError::DownloadFailed { status, .. } => CacheFailure::DownloadFailed { status },
            CacheError::CorruptArchive { .. } => CacheFailure::CorruptArchive,
            CacheError::UnsafeEntry { name, .. } => CacheFailure::UnsafeEntry { name: name@ },
            CacheError::FilesystemError { path } => CacheFailure::FilesystemError { path: path@ },
        }
    }
}

/// What is to be done for a package.
#[derive(Clone, Debug, PartialEq, Eq)]
pub enum CacheStep {
    /// The package is unpacked at `path`: nothing is to be downloaded.
    Present { path: String },
    /// The package is to be downloaded from `url` and unpacked to `path`.
    Download { url: String, path: String },
}

/// Running one plan after another is running the two as one.
pub proof fn lemma_run_concat(tree: Tree, first: Seq<Change>, second: Seq<Change>)
    ensures
        run(tree, first + second) == run(run(tree, first), second),
    decreases first.len(),
{
    if first.len() == 0 {
        assert(first + second =~= second);
    } else {
        assert((first + second)[0] == first[0]);
        assert((first + second).skip(1) =~= first.skip(1) + second);
        lemma_run_concat(apply(tree, first[0]), first.skip(1), second);
    }
}

/// Running a plan of one change is making the change.
pub proof fn lemma_run_one(tree: Tree, change: Change)
    ensures
        run(tree, seq![change]) == apply(tree, change),
{
    reveal_with_fuel(run, 2);
    assert(seq![change].skip(1).len() == 0);
}

/// Unpacking members into a staging directory that stands leaves it
/// standing.
pub proof fn lemma_members_keep_staging(tree: Tree, staging: Seq<char>, members: Seq<Member>)
    requires
        node_at(tree, staging) == Some(Node::Directory),
    ensures
        node_at(run(tree, members_plan(staging, members)), staging) == Some(Node::Directory),
    decreases members.len(),
{
    if members.len() > 0 {
        let front = members_plan(staging, members.drop_last());
        let last = member_plan(staging, members.last());
        lemma_members_keep_staging(tree, staging, members.drop_last());
        lemma_run_concat(tree, front, last);
        let mid = run(tree, front);
        let path = join(staging, members.last().name);
        assert(path.len() > staging.len());
        if names_directory(members.last().name) {
            lemma_run_one(mid, last[0]);
        } else {
            assert(last =~= seq![last[0]] + seq![last[1]]);
            lemma_run_concat(mid, seq![last[0]], seq![last[1]]);
            lemma_run_one(mid, last[0]);
            lemma_run_one(apply(mid, last[0]), last[1]);
        }
    }
}

/// Once the plan for a package was carried out, a directory stands at the
/// package's place, whatever stood there or anywhere else before.
pub proof fn lemma_unpacked_package_is_present(
    tree: Tree,
    staging: Seq<char>,
    shelf: Seq<char>,
    place: Seq<char>,
    members: Seq<Member>,
)
    ensures
        observe(run(tree, extraction_plan(staging, shelf, place, members)), place)
            == Observed::Directory,
{
    let head = seq![Change::RemoveTree { path: staging }, Change::CreateDirAll { path: staging }];
    let middle = members_plan(staging, members);
    let tail = seq![
        Change::CreateDirAll { path: shelf },
        Change::Rename { from: staging, to: place },
    ];
    lemma_run_concat(tree, head + middle, tail);
    lemma_run_concat(tree, head, middle);
    assert(head =~= seq![head[0]] + seq![head[1]]);
    lemma_run_concat(tree, seq![head[0]], seq![head[1]]);
    lemma_run_one(tree, head[0]);
    lemma_run_one(apply(tree, head[0]), head[1]);
    let cleared = run(tree, head);
    assert(node_at(cleared, staging) == Some(Node::Directory));
    lemma_members_keep_staging(cleared, staging, members);
    let filled = run(cleared, middle);
    assert(tail =~= seq![tail[0]] + seq![tail[1]]);
    lemma_run_concat(filled, seq![tail[0]], seq![tail[1]]);
    lemma_run_one(filled, tail[0]);
    let shelved = apply(filled, tail[0]);
    lemma_run_one(shelved, tail[1]);
    assert(node_at(shelved, staging) == Some(Node::Directory));
    assert(staging + place.skip(place.len() as int) =~= staging);
}

/// The change creates a directory or writes a file at the directory `root`
/// or below it.
pub open spec fn fills(change: Change, root: Seq<char>) -> bool {
    match change {
        Change::CreateDirAll { path } => within(path, root),
        Change::WriteFile { path, .. } => within(path, root),
        _ => false,
    }
}

/// The path up to the last slash of a path with a slash at `i` is the path
/// up to a slash at `i` or after it.
proof fn lemma_dir_name_reaches(path: Seq<char>, i: int) -> (j: int)
    requires
        0 <= i < path.len(),
        path[i] == '/',
    ensures
        i <= j < path.len(),
        dir_name(path) == path.take(j),
    decreases path.len(),
{
    if path.last() == '/' {
        assert(path.drop_last() =~= path.take(path.len() - 1));
        path.len() - 1
    } else {
        let j = lemma_dir_name_reaches(path.drop_last(), i);
        assert(path.drop_last().take(j) =~= path.take(j));
        j
    }
}

/// Unpacking a member only creates directories and writes files inside the
/// staging directory.
pub proof fn lemma_member_fills_staging(staging: Seq<char>, member: Member, i: int)
    requires
        0 <= i < member_plan(staging, member).len(),
    ensures
        fills(member_plan(staging, member)[i], staging),
{
    let path = join(staging, member.name);
    assert(path.subrange(0, staging.len() as int + 1) =~= staging.push('/'));
    assert(within(path, staging));
    if !names_directory(member.name) && i == 0 {
        assert(path[staging.len() as int] == '/');
        let j = lemma_dir_name_reaches(path, staging.len() as int);
        let dir = path.take(j);
        if j == staging.len() {
            assert(dir =~= staging);
        } else {
            assert(dir.subrange(0, staging.len() as int + 1) =~= staging.push('/'));
        }
    }
}

/// Unpacking members only creates directories and writes files inside the
/// staging directory.
pub proof fn lemma_members_fill_staging(staging: Seq<char>, members: Seq<Member>, i: int)
    requires
        0 <= i < members_plan(staging, members).len(),
    ensures
        fills(members_plan(staging, members)[i], staging),
    decreases members.len(),
{
    let front = members_plan(staging, members.drop_last());
    if i < front.len() {
        lemma_members_fill_staging(staging, members.drop_last(), i);
    } else {
        lemma_member_fills_staging(staging, members.last(), i - front.len());
    }
}

/// The package's place is taken in one step or not at all.  Before the last
/// change of the plan, the move, what stands at the place and inside it is
/// what stood there before the plan: nothing, where the package was not
/// there.  This holds where the place and the staging directory lie apart
/// and the directory of the packages is not inside the place.
pub proof fn lemma_place_is_taken_in_one_step(
    tree: Tree,
    staging: Seq<char>,
    shelf: Seq<char>,
    place: Seq<char>,
    members: Seq<Member>,
    done: int,
    path: Seq<char>,
)
    requires
        !within(place, staging),
        !within(staging, place),
        !within(shelf, place),
        within(path, place),
        0 <= done < extraction_plan(staging, shelf, place, members).len(),
    ensures
        node_at(run(tree, extraction_plan(staging, shelf, place, members).take(done)), path)
            == node_at(tree, path),
{
    let plan = extraction_plan(staging, shelf, place, members);
    let middle = members_plan(staging, members);
    let begun = plan.take(done);
    if within(path, staging) {
        lemma_within_both(path, place, staging);
    }
    assert forall|i: int| 0 <= i < begun.len() implies spares(#[trigger] begun[i], path) by {
        assert(begun[i] == plan[i]);
        if 2 <= i < 2 + middle.len() {
            assert(plan[i] == middle[i - 2]);
            lemma_members_fill_staging(staging, members, i - 2);
        }
    }
    lemma_spared_path_stays(tree, begun, path);
}

/// In the layout under any home directory, the staging directory of a
/// package and its place in the cache lie apart, and the directory of the
/// packages is not inside the place.
pub proof fn lemma_cache_paths_apart(home: Seq<char>, name: Seq<char>, version: VersionModel)
    ensures
        !within(package_path(home, name, version), staging_path(home, name, version)),
        !within(staging_path(home, name, version), package_path(home, name, version)),
        !within(python_packages_dir(home), package_path(home, name, version)),
{
    reveal_strlit("temp");
    reveal_strlit("packages");
    let base = pen_dir(home);
    let staging = staging_path(home, name, version);
    let place = package_path(home, name, version);
    let shelf = python_packages_dir(home);
    let at = base.len() as int + 1;
    assert(staging[at] == 't');
    assert(place[at] == 'p');
    assert(place.len() > shelf.len());
    if within(place, staging) {
        lemma_prefix_of_within(place, staging);
    }
    if within(staging, place) {
        lemma_prefix_of_within(staging, place);
    }
    if within(shelf, place) {
        lemma_prefix_of_within(shelf, place);
    }
}

/// A package in the cache is complete or absent.  While the plan of
/// [`download_package`] is carried out, and wherever it is broken off before
/// its last change, what stands at the package's place and inside it is what
/// stood there before: nothing, where the package was not there.
pub proof fn lemma_cache_entry_is_all_or_nothing(
    tree: Tree,
    home: Seq<char>,
    name: Seq<char>,
    version: VersionModel,
    members: Seq<Member>,
    done: int,
    path: Seq<char>,
)
    requires
        within(path, package_path(home, name, version)),
        0 <= done < extraction_plan(
            staging_path(home, name, version),
            python_packages_dir(home),
            package_path(home, name, version),
            members,
        ).len(),
    ensures
        node_at(
            run(
                tree,
                extraction_plan(
                    staging_path(home, name, version),
                    python_packages_dir(home),
                    package_path(home, name, version),
                    members,
                ).take(done),
            ),
            path,
        ) == node_at(tree, path),
{
    lemma_cache_paths_apart(home, name, version);
    lemma_place_is_taken_in_one_step(
        tree,
        staging_path(home, name, version),
        python_packages_dir(home),
        package_path(home, name, version),
        members,
        done,
        path,
    );
}

/// Where `path` has a slash at `k` and none after it, the path up to its
/// last slash is its first `k` characters.
proof fn lemma_dir_name_at(path: Seq<char>, k: int)
    requires
        0 <= k < path.len(),
        path[k] == '/',
        forall|j: int| k < j < path.len() ==> path[j] != '/',
    ensures
        dir_name(path) == path.take(k),
    decreases path.len(),
{
    if path.last() == '/' {
        assert(path.drop_last() =~= path.take(k));
    } else {
        lemma_dir_name_at(path.drop_last(), k);
        assert(path.drop_last().take(k) =~= path.take(k));
    }
}

/// A path without a slash has nothing before its last slash.
proof fn lemma_dir_name_none(path: Seq<char>)
    requires
        forall|j: int| 0 <= j < path.len() ==> path[j] != '/',
    ensures
        dir_name(path) == Seq::<char>::empty(),
    decreases path.len(),
{
    if path.len() > 0 {
        lemma_dir_name_none(path.drop_last());
    }
}

/// The path up to its last slash.
pub fn parent_of(path: &str) -> (parent: String)
    ensures
        parent@ == dir_name(path@),
{
    let chars = chars_of(path);
    let mut k: usize = chars.len();
    while k > 0
        invariant
            k <= chars.len(),
            chars@ == path@,
            forall|j: int| k <= j < chars.len() ==> chars@[j] != '/',
        decreases k,
    {
        k -= 1;
        if chars[k] == '/' {
            proof {
                lemma_dir_name_at(path@, k as int);
            }
            return String::from_str(path.substring_char(0, k));
        }
    }
    proof {
        lemma_dir_name_none(path@);
    }
    String::new()
}

/// Whether the name is that of a directory.
pub fn is_directory_name(name: &Vec<char>) -> (dir: bool)
    ensures
        dir == names_directory(name@),
{
    let n = name.len();
    n > 0 && (name[n - 1] == '/' || name[n - 1] == '\\')
}

/// Whether the name leads out of the directory that it is unpacked into.
pub fn leads_outside(name: &Vec<char>) -> (out: bool)
    ensures
        out == escapes(name@),
{
    if name.len() > 0 && name[0] == '/' {
        return true;
    }
    let parts = split_chars(name, '/');
    let up = chars_of("..");
    let mut i: usize = 0;
    while i < parts.len()
        invariant
            i <= parts.len(),
            up@ == ".."@,
            views(parts@) == split(name@, '/'),
            forall|k: int| 0 <= k < i ==> split(name@, '/')[k] != ".."@,
        decreases parts.len() - i,
    {
        assert(views(parts@)[i as int] == parts@[i as int]@);
        if same_chars(&parts[i], &up) {
            return true;
        }
        i += 1;
    }
    false
}

/// The actions that unpack `entries` into `staging` and move the result to
/// `place`, inside the directory `shelf`.
///
/// There is a plan exactly where no member's name leads out of the
/// directory; otherwise the first such member is reported and nothing is to
/// be done.  Every action but the last works in the staging directory, so
/// the package's place is taken in one step or not at all.
pub fn plan_extraction(
    package: &str,
    entries: &Vec<ArchiveEntry>,
    staging: &str,
    shelf: &str,
    place: &str,
) -> (plan: Result<Vec<FsAction>, CacheError>)
    ensures
        match plan {
            Ok(actions) => !any_escapes(members(entries@)) && changes(actions@) == extraction_plan(
                staging@,
                shelf@,
                place@,
                members(entries@),
            ),
            Err(e) => exists|i: int|
                0 <= i < entries@.len() && escapes(#[trigger] entries@[i].name@) && e.names(
                    package@,
                    entries@[i].name@,
                ) && !any_escapes(members(entries@.take(i))),
        },
{
    let mut actions: Vec<FsAction> = Vec::new();
    actions.push(FsAction::RemoveTree { path: String::from_str(staging) });
    actions.push(FsAction::CreateDirAll { path: String::from_str(staging) });
    let ghost head = changes(actions@);
    let mut i: usize = 0;
    assert(entries@.take(0) =~= Seq::<ArchiveEntry>::empty());
    assert(head + members_plan(staging@, members(entries@.take(0))) =~= head);
    while i < entries.len()
        invariant
            i <= entries.len(),
            head == seq![
                Change::RemoveTree { path: staging@ },
                Change::CreateDirAll { path: staging@ },
            ],
            changes(actions@) == head + members_plan(staging@, members(entries@.take(i as int))),
            !any_escapes(members(entries@.take(i as int))),
        decreases entries.len() - i,
    {
        let entry = &entries[i];
        let name = chars_of(entry.name.as_str());
        if leads_outside(&name) {
            return Err(
                CacheError::UnsafeEntry {
                    package: String::from_str(package),
                    name: entry.name.clone(),
                },
            );
        }
        let path = join_path(staging, entry.name.as_str());
        let ghost before = actions@;
        if is_directory_name(&name) {
            actions.push(FsAction::CreateDirAll { path });
            assert(changes(actions@) =~= changes(before) + member_plan(staging@, entry@));
        } else {
            actions.push(FsAction::CreateDirAll { path: parent_of(path.as_str()) });
            actions.push(FsAction::WriteFile { path, data: entry.data.clone() });
            assert(changes(actions@) =~= changes(before) + member_plan(staging@, entry@));
        }
        proof {
            let now = members(entries@.take(i + 1));
            let then = members(entries@.take(i as int));
            assert(now.drop_last() =~= then);
            assert(now.last() == entry@);
            assert(changes(actions@) =~= head + members_plan(staging@, now));
            assert forall|k: int| 0 <= k < now.len() implies !escapes(
                #[trigger] now[k].name,
            ) by {
                if k < i {
                    assert(now[k] == then[k]);
                }
            }
        }
        i += 1;
    }
    assert(entries@.take(entries.len() as int) =~= entries@);
    let ghost middle = changes(actions@);
    actions.push(FsAction::CreateDirAll { path: String::from_str(shelf) });
    actions.push(FsAction::Rename { from: String::from_str(staging), to: String::from_str(place) });
    assert(changes(actions@) =~= middle + seq![
        Change::CreateDirAll { path: shelf@ },
        Change::Rename { from: staging@, to: place@ },
    ]);
    Ok(actions)
}

/// A package is downloaded where nothing stands at its place in the cache.
pub open spec fn needs_download(found: Observed) -> bool {
    found is Absent
}

/// A package is downloaded once.  On whatever tree the plan for the package
/// was carried out, whoever then looks at the package's place finds a
/// directory, for which nothing is downloaded.
pub proof fn lemma_downloaded_once(
    tree: Tree,
    staging: Seq<char>,
    shelf: Seq<char>,
    place: Seq<char>,
    members: Seq<Member>,
)
    ensures
        !needs_download(
            observe(run(tree, extraction_plan(staging, shelf, place, members)), place),
        ),
{
    lemma_unpacked_package_is_present(tree, staging, shelf, place, members);
}

/// The actions that clear away what an unpacking left behind that was broken
/// off: the staging directory of the package is removed with all it holds.
pub fn abandon_download(package: &Package, layout: &Layout) -> (actions: Vec<FsAction>)
    ensures
        changes(actions@) == seq![
            Change::RemoveTree {
                path: staging_path(layout.home@, package.name@, package.version@),
            },
        ],
{
    let mut dir = package.name.clone();
    dir.append("_");
    dir.append(package.version.to_text().as_str());
    proof {
        reveal_strlit("_");
        assert("_"@ =~= seq!['_']);
    }
    let mut actions: Vec<FsAction> = Vec::new();
    actions.push(FsAction::RemoveTree { path: join_path(layout.tmp_dir().as_str(), dir.as_str()) });
    assert(changes(actions@) =~= seq![
        Change::RemoveTree { path: staging_path(layout.home@, package.name@, package.version@) },
    ]);
    actions
}

/// What is to be done for `package`, given what was found at its place in
/// the cache: nothing where a directory stands there, a download from the
/// artifact's address where nothing does.  Anything else in its place is a
/// [`CacheError::FilesystemError`].
pub fn ensure(package: &Package, artifact: &Artifact, layout: &Layout, found: &PathState) -> (step:
    Result<CacheStep, CacheError>)
    ensures
        match step {
            Ok(CacheStep::Present { path }) => found@ is Directory && path@ == package_path(
                layout.home@,
                package.name@,
                package.version@,
            ),
            Ok(CacheStep::Download { url, path }) => needs_download(found@) && url
                == artifact.url && path@ == package_path(
                layout.home@,
                package.name@,
                package.version@,
            ),
            Err(e) => (found@ is File || found@ is Symlink) && e.kind() == (
            CacheFailure::FilesystemError {
                path: package_path(layout.home@, package.name@, package.version@),
            }),
        },
{
    let path = get_package_path(layout, package);
    match found {
        PathState::Directory => Ok(CacheStep::Present { path }),
        PathState::Absent => Ok(CacheStep::Download { url: artifact.url.clone(), path }),
        _ => Err(CacheError::FilesystemError { path }),
    }
}

/// The failure of the download of a package, or `None` where there is a
/// plan.
pub open spec fn download_failure(reply: Reply<Vec<u8>>) -> Option<CacheFailure> {
    match reply {
        Reply::Unreachable => Some(CacheFailure::DownloadFailed { status: None }),
        Reply::Answer { status, body } => if status != STATUS_OK {
            Some(CacheFailure::DownloadFailed { status: Some(status) })
        } else {
            match body {
                None => Some(CacheFailure::DownloadFailed { status: Some(status) }),
                Some(bytes) => match zip_members(bytes@) {
                    None => Some(CacheFailure::CorruptArchive),
                    Some(found) => if any_escapes(found) {
                        Some(
                            CacheFailure::UnsafeEntry {
                                name: found[first_escape(found)].name,
                            },
                        )
                    } else {
                        None
                    },
                },
            }
        },
    }
}

/// The index of the first member whose name leads out of the directory.
pub open spec fn first_escape(members: Seq<Member>) -> int {
    choose|i: int|
        0 <= i < members.len() && escapes(#[trigger] members[i].name) && !any_escapes(
            members.take(i),
        )
}

/// The first member whose name leads out is the only one with none before
/// it that does.
proof fn lemma_first_escape_unique(found: Seq<Member>, i: int)
    requires
        0 <= i < found.len(),
        escapes(found[i].name),
        !any_escapes(found.take(i)),
    ensures
        first_escape(found) == i,
{
    let j = first_escape(found);
    if j < i {
        assert(found.take(i)[j] == found[j]);
    } else if i < j {
        assert(found.take(j)[i] == found[i]);
    }
}

/// The actions that bring `package` into the cache, given what came back
/// from the download of its artifact.
///
/// There is a plan exactly where the download succeeded, the `zip` crate
/// reads what was downloaded as an archive, and no member's name leads out
/// of the package's directory.  The plan is the one of [`plan_extraction`]
/// for the members that the crate read.
pub fn download_package(package: &Package, layout: &Layout, reply: &Reply<Vec<u8>>) -> (plan:
    Result<Vec<FsAction>, CacheError>)
    ensures
        match plan {
            Ok(actions) => {
                &&& download_failure(*reply) is None
                &&& reply matches Reply::Answer { body: Some(bytes), .. }
                &&& changes(actions@) == extraction_plan(
                    staging_path(layout.home@, package.name@, package.version@),
                    python_packages_dir(layout.home@),
                    package_path(layout.home@, package.name@, package.version@),
                    zip_members(bytes@)->0,
                )
            },
            Err(e) => download_failure(*reply) == Some(e.kind()) && e.is_about(
                package.name@,
                package_path(layout.home@, package.name@, package.version@),
            ),
        },
{
    match reply {
        Reply::Unreachable => Err(
            CacheError::DownloadFailed { package: package.name.clone(), status: None },
        ),
        Reply::Answer { status, body } => {
            if *status != STATUS_OK {
                return Err(
                    CacheError::DownloadFailed {
                        package: package.name.clone(),
                        status: Some(*status),
                    },
                );
            }
            match body {
                None => Err(
                    CacheError::DownloadFailed {
                        package: package.name.clone(),
                        status: Some(*status),
                    },
                ),
                Some(bytes) => match unpack_with_zip(bytes) {
                    Err(_) => Err(CacheError::CorruptArchive { package: package.name.clone() }),
                    Ok(entries) => {
                        let mut dir = package.name.clone();
                        dir.append("_");
                        dir.append(package.version.to_text().as_str());
                        proof {
                            reveal_strlit("_");
                            assert("_"@ =~= seq!['_']);
                        }
                        let staging = join_path(layout.tmp_dir().as_str(), dir.as_str());
                        let shelf = layout.python_packages_dir();
                        let place = get_package_path(layout, package);
                        let plan = plan_extraction(
                            package.name.as_str(),
                            &entries,
                            staging.as_str(),
                            shelf.as_str(),
                            place.as_str(),
                        );
                        proof {
                            if plan is Err {
                                let i = choose|i: int|
                                    0 <= i < entries@.len() && escapes(
                                        #[trigger] entries@[i].name@,
                                    ) && plan->Err_0.names(package.name@, entries@[i].name@)
                                        && !any_escapes(members(entries@.take(i)));
                                let found = members(entries@);
                                assert(found[i] == entries@[i]@);
                                assert(found.take(i) =~= members(entries@.take(i)));
                                lemma_first_escape_unique(found, i);
                            }
                        }
                        plan
                    },
                },
            }
        },
    }
}

} // verus!
