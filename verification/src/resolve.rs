//! Choice of the version of a package: the newest release that has files,
//! whose identifier is a semantic version, and that the requirement admits.

use vstd::prelude::*;
use crate::registry::{Package, PackageMetadata, Release, Reply, STATUS_NOT_FOUND, STATUS_OK};
use crate::text::same_text;
use crate::version::{admits, precedes, semver_parse, Version, VersionModel, VersionReq};

verus! {

/// The version of a release that can be chosen whatever the requirement: the
/// release has files and its identifier is a semantic version.
pub open spec fn listed(release: Release) -> Option<VersionModel> {
    if release.artifacts@.len() == 0 {
        None
    } else {
        semver_parse(release.version@)
    }
}

/// The version of a release that can be chosen under `requirement`.
pub open spec fn eligible(release: Release, requirement: Seq<char>) -> Option<VersionModel> {
    match listed(release) {
        Some(v) => if admits(requirement, v) {
            Some(v)
        } else {
            None
        },
        None => None,
    }
}

/// The versions that can be chosen under `requirement`, in the order of the
/// listing.
pub open spec fn candidates(releases: Seq<Release>, requirement: Seq<char>) -> Seq<VersionModel>
    decreases releases.len(),
{
    if releases.len() == 0 {
        Seq::empty()
    } else {
        let front = candidates(releases.drop_last(), requirement);
        match eligible(releases.last(), requirement) {
            Some(v) => front.push(v),
            None => front,
        }
    }
}

/// How many releases can be chosen whatever the requirement.
pub open spec fn known(releases: Seq<Release>) -> nat
    decreases releases.len(),
{
    if releases.len() == 0 {
        0
    } else {
        known(releases.drop_last()) + if listed(releases.last()) is Some {
            1nat
        } else {
            0nat
        }
    }
}

/// The greatest of the versions in the order of semantic versions; of equal
/// ones, the last.  `None` where there is no version.
pub open spec fn newest(versions: Seq<VersionModel>) -> Option<VersionModel>
    decreases versions.len(),
{
    if versions.len() == 0 {
        None
    } else {
        match newest(versions.drop_last()) {
            None => Some(versions.last()),
            Some(best) => if precedes(versions.last(), best) {
                Some(best)
            } else {
                Some(versions.last())
            },
        }
    }
}

/// The kinds of failure of a resolution.
pub enum ResolveFailure {
    RegistryUnreachable,
    InvalidMetadata,
    NoMatchingVersion { candidates: nat },
}

/// Why no version was chosen.
#[derive(Clone, Debug, PartialEq, Eq)]
pub enum ResolveError {
    /// The registry gave no answer, or one that is neither a listing nor the
    /// statement that there is no such package.
    RegistryUnreachable { package: String },
    /// The answer could not be read as a listing.
    InvalidMetadata { package: String },
    /// No release can be chosen under the requirement.  `candidates` says how
    /// many could be chosen without it; it is zero where the registry does
    /// not know the package at all.
    NoMatchingVersion { package: String, requirement: String, candidates: usize },
}

impl ResolveError {
    /// The kind of the failure.
    pub open spec fn kind(self) -> ResolveFailure {
        match self {
            ResolveError::RegistryUnreachable { .. } => ResolveFailure::RegistryUnreachable,
            ResolveError::InvalidMetadata { .. } => ResolveFailure::InvalidMetadata,
            ResolveError::NoMatchingVersion { candidates, .. } => ResolveFailure::NoMatchingVersion {
                candidates: candidates as nat,
            },
        }
    }

    /// The package that was asked for.
    pub open spec fn package(self) -> Seq<char> {
        match self {
            ResolveError::RegistryUnreachable { package } => package@,
            ResolveError::InvalidMetadata { package } => package@,
            ResolveError::NoMatchingVersion { package, .. } => package@,
        }
    }

    /// The error names no requirement, or names `requirement`.
    pub open spec fn names_requirement(self, requirement: Seq<char>) -> bool {
        match self {
            ResolveError::NoMatchingVersion { requirement: named, .. } => named@ == requirement,
            _ => true,
        }
    }
}

/// The failure of a resolution, or `None` where a version is chosen.
pub open spec fn resolve_failure(
    requirement: Seq<char>,
    reply: Reply<PackageMetadata>,
) -> Option<ResolveFailure> {
    match reply {
        Reply::Unreachable => Some(ResolveFailure::RegistryUnreachable),
        Reply::Answer { status, body } => if status == STATUS_NOT_FOUND {
            Some(ResolveFailure::NoMatchingVersion { candidates: 0 })
        } else if status != STATUS_OK {
            Some(ResolveFailure::RegistryUnreachable)
        } else {
            match body {
                None => Some(ResolveFailure::InvalidMetadata),
                Some(metadata) => if candidates(metadata.releases@, requirement).len() == 0 {
                    Some(
                        ResolveFailure::NoMatchingVersion {
                            candidates: known(metadata.releases@),
                        },
                    )
                } else {
                    None
                },
            }
        },
    }
}

/// Every candidate is the version of a release of the listing that has
/// files, reads as a semantic version, and meets the requirement.  So a
/// release without files is never chosen, however great its number.
pub proof fn lemma_candidates_are_eligible(releases: Seq<Release>, requirement: Seq<char>, k: int)
    requires
        0 <= k < candidates(releases, requirement).len(),
    ensures
        exists|i: int|
            0 <= i < releases.len() && releases[i].artifacts@.len() > 0 && eligible(
                releases[i],
                requirement,
            ) == Some(candidates(releases, requirement)[k]),
    decreases releases.len(),
{
    let front = candidates(releases.drop_last(), requirement);
    if k < front.len() {
        lemma_candidates_are_eligible(releases.drop_last(), requirement, k);
        let i = choose|i: int|
            0 <= i < releases.drop_last().len() && releases.drop_last()[i].artifacts@.len() > 0
                && eligible(releases.drop_last()[i], requirement) == Some(front[k]);
        assert(releases[i] == releases.drop_last()[i]);
    } else {
        assert(eligible(releases.last(), requirement) == Some(
            candidates(releases, requirement)[k],
        ));
        assert(releases[releases.len() - 1] == releases.last());
    }
}

/// The newest of some versions is one of them.
pub proof fn lemma_newest_is_member(versions: Seq<VersionModel>)
    requires
        versions.len() > 0,
    ensures
        newest(versions) is Some,
        versions.contains(newest(versions)->0),
    decreases versions.len(),
{
    if versions.len() > 1 {
        lemma_newest_is_member(versions.drop_last());
        let best = newest(versions.drop_last())->0;
        let i = choose|i: int| 0 <= i < versions.drop_last().len() && versions.drop_last()[i] == best;
        assert(versions[i] == best);
    }
    assert(versions[versions.len() - 1] == versions.last());
}

/// The order of the versions is a strict weak order on `versions`: of two
/// of them at most one comes before the other, and where one does not come
/// before a second nor the second before a third, the first does not come
/// before the third.
pub open spec fn lawful(versions: Seq<VersionModel>) -> bool {
    &&& forall|i: int, j: int|
        0 <= i < versions.len() && 0 <= j < versions.len() ==> !(#[trigger] precedes(
            versions[i],
            versions[j],
        ) && precedes(versions[j], versions[i]))
    &&& forall|i: int, j: int, k: int|
        #![trigger precedes(versions[i], versions[j]), precedes(versions[j], versions[k])]
        0 <= i < versions.len() && 0 <= j < versions.len() && 0 <= k < versions.len()
            && !precedes(versions[i], versions[j]) && !precedes(versions[j], versions[k])
            ==> !precedes(versions[i], versions[k])
}

/// The place of the newest of some versions.
proof fn lemma_newest_place(versions: Seq<VersionModel>) -> (k: int)
    requires
        versions.len() > 0,
    ensures
        0 <= k < versions.len(),
        newest(versions) == Some(versions[k]),
    decreases versions.len(),
{
    if versions.len() == 1 {
        0
    } else {
        let k = lemma_newest_place(versions.drop_last());
        assert(versions.drop_last()[k] == versions[k]);
        if precedes(versions.last(), versions[k]) {
            k
        } else {
            versions.len() - 1
        }
    }
}

/// Where the order of the `semver` crate is a strict weak order on the
/// versions, as the crate says of its order, no version comes after the
/// newest: the newest is the greatest in the whole order, pre-release and
/// build text included.
pub proof fn lemma_newest_is_greatest_where_lawful(versions: Seq<VersionModel>, j: int)
    requires
        lawful(versions),
        0 <= j < versions.len(),
    ensures
        newest(versions) is Some,
        !precedes(newest(versions)->0, versions[j]),
    decreases versions.len(),
{
    let last = versions.len() - 1;
    assert(versions.last() == versions[last]);
    if versions.len() > 1 {
        let front = versions.drop_last();
        assert forall|i: int| 0 <= i < front.len() implies front[i] == versions[i] by {}
        assert(lawful(front)) by {
            assert forall|a: int, b: int|
                0 <= a < front.len() && 0 <= b < front.len() implies !(#[trigger] precedes(
                front[a],
                front[b],
            ) && precedes(front[b], front[a])) by {
                assert(!(precedes(versions[a], versions[b]) && precedes(versions[b], versions[a])));
            }
            assert forall|a: int, b: int, c: int|
                #![trigger precedes(front[a], front[b]), precedes(front[b], front[c])]
                0 <= a < front.len() && 0 <= b < front.len() && 0 <= c < front.len()
                    && !precedes(front[a], front[b]) && !precedes(
                    front[b],
                    front[c],
                ) implies !precedes(front[a], front[c]) by {
                assert(!precedes(versions[a], versions[b]) && !precedes(versions[b], versions[c]));
            }
        }
        let b = lemma_newest_place(front);
        assert(newest(front) == Some(versions[b]));
        if precedes(versions[last], versions[b]) {
            assert(newest(versions) == Some(versions[b]));
            if j < last {
                lemma_newest_is_greatest_where_lawful(front, j);
                assert(front[j] == versions[j]);
            } else {
                assert(!(precedes(versions[last], versions[b]) && precedes(
                    versions[b],
                    versions[last],
                )));
            }
        } else {
            assert(newest(versions) == Some(versions[last]));
            if j < last {
                lemma_newest_is_greatest_where_lawful(front, j);
                assert(front[j] == versions[j]);
                assert(!precedes(versions[last], versions[b]) && !precedes(
                    versions[b],
                    versions[j],
                ));
            } else {
                assert(!(precedes(versions[last], versions[last]) && precedes(
                    versions[last],
                    versions[last],
                )));
            }
        }
    } else {
        assert(versions.drop_last().len() == 0);
        assert(newest(versions) == Some(versions[0]));
        assert(!(precedes(versions[0], versions[0]) && precedes(versions[0], versions[0])));
    }
}

/// What is chosen is the version of a release of the listing that has
/// files, reads as a semantic version and meets the requirement.  So a
/// release without files is never chosen, however great its number, and
/// neither is one whose identifier is no semantic version.
pub proof fn lemma_chosen_release_has_files(releases: Seq<Release>, requirement: Seq<char>)
    requires
        candidates(releases, requirement).len() > 0,
    ensures
        newest(candidates(releases, requirement)) is Some,
        exists|i: int|
            0 <= i < releases.len() && releases[i].artifacts@.len() > 0 && semver_parse(
                releases[i].version@,
            ) == newest(candidates(releases, requirement)) && admits(
                requirement,
                newest(candidates(releases, requirement))->0,
            ),
{
    let all = candidates(releases, requirement);
    lemma_newest_is_member(all);
    let k = choose|k: int| 0 <= k < all.len() && all[k] == newest(all)->0;
    lemma_candidates_are_eligible(releases, requirement, k);
}

/// The models of a list of versions.
pub open spec fn models(versions: Seq<Version>) -> Seq<VersionModel> {
    Seq::new(versions.len(), |i: int| versions[i]@)
}

/// The index of the newest of `versions`: of the greatest in the order of
/// the `semver` crate and, of equal ones, of the last.  No version has
/// greater numbers than the one at this index: its major, minor and patch,
/// compared from the left, do not come after those of any other.
pub fn newest_of(versions: &Vec<Version>) -> (best: Option<usize>)
    ensures
        match best {
            Some(k) => {
                &&& k < versions@.len()
                &&& newest(models(versions@)) == Some(versions@[k as int]@)
                &&& forall|j: int|
                    0 <= j < versions@.len() ==> !versions@[k as int]@.numbers_precede(
                        #[trigger] versions@[j]@,
                    )
            },
            None => versions@.len() == 0,
        },
{
    if versions.len() == 0 {
        return None;
    }
    let mut best: usize = 0;
    let mut i: usize = 1;
    proof {
        reveal_with_fuel(newest, 2);
        assert(models(versions@.take(1)).drop_last() =~= Seq::<VersionModel>::empty());
        assert(models(versions@.take(1)).last() == versions@[0]@);
    }
    while i < versions.len()
        invariant
            1 <= i <= versions.len(),
            best < i,
            newest(models(versions@.take(i as int))) == Some(versions@[best as int]@),
            forall|j: int|
                0 <= j < i ==> !versions@[best as int]@.numbers_precede(#[trigger] versions@[j]@),
        decreases versions.len() - i,
    {
        proof {
            let now = models(versions@.take(i + 1));
            assert(now.drop_last() =~= models(versions@.take(i as int)));
            assert(now.last() == versions@[i as int]@);
        }
        if !versions[i].precedes(&versions[best]) {
            best = i;
        }
        i += 1;
    }
    assert(versions@.take(versions.len() as int) =~= versions@);
    Some(best)
}

/// The versions of `releases` that can be chosen under `requirement`, in the
/// order of the listing, and the number of those that could be chosen
/// whatever the requirement.
pub fn collect_candidates(releases: &Vec<Release>, requirement: &VersionReq) -> (found: (
    Vec<Version>,
    usize,
))
    ensures
        models(found.0@) == candidates(releases@, requirement@),
        found.1 == known(releases@),
{
    let mut versions: Vec<Version> = Vec::new();
    let mut count: usize = 0;
    let mut i: usize = 0;
    assert(releases@.take(0) =~= Seq::<Release>::empty());
    assert(models(versions@) =~= candidates(releases@.take(0), requirement@));
    while i < releases.len()
        invariant
            i <= releases.len(),
            count == known(releases@.take(i as int)),
            count <= i,
            models(versions@) == candidates(releases@.take(i as int), requirement@),
        decreases releases.len() - i,
    {
        let release = &releases[i];
        proof {
            assert(releases@.take(i + 1).drop_last() =~= releases@.take(i as int));
            assert(releases@.take(i + 1).last() == *release);
        }
        if release.artifacts.len() > 0 {
            match Version::parse(release.version.as_str()) {
                Ok(version) => {
                    count += 1;
                    if requirement.matches(&version) {
                        let ghost before = versions@;
                        versions.push(version);
                        assert(models(versions@) =~= models(before).push(version@));
                    }
                },
                Err(_) => {},
            }
        }
        i += 1;
    }
    assert(releases@.take(releases.len() as int) =~= releases@);
    (versions, count)
}

/// The newest release of `releases` that can be chosen under `requirement`,
/// and the number of releases that could be chosen whatever the
/// requirement.
///
/// The result is the greatest candidate in the order of the `semver` crate.
/// In particular no candidate has greater numbers: its major, minor and
/// patch, compared from the left, do not come after those of the result.
pub fn pick_newest(releases: &Vec<Release>, requirement: &VersionReq) -> (picked: (
    Option<Version>,
    usize,
))
    ensures
        match picked.0 {
            Some(v) => newest(candidates(releases@, requirement@)) == Some(v@),
            None => candidates(releases@, requirement@).len() == 0,
        },
        picked.1 == known(releases@),
        picked.0 matches Some(v) ==> forall|k: int|
            0 <= k < candidates(releases@, requirement@).len() ==> !v@.numbers_precede(
                #[trigger] candidates(releases@, requirement@)[k],
            ),
{
    let (mut versions, count) = collect_candidates(releases, requirement);
    match newest_of(&versions) {
        Some(k) => {
            proof {
                let all = candidates(releases@, requirement@);
                assert forall|j: int| 0 <= j < all.len() implies !versions@[k as int]@.numbers_precede(
                    #[trigger] all[j],
                ) by {
                    assert(all[j] == versions@[j]@);
                }
            }
            let version = versions.swap_remove(k);
            (Some(version), count)
        },
        None => (None, count),
    }
}

/// Chooses the version of a package from what the registry answered to a
/// request for [`crate::registry::package_url`].
///
/// A version is chosen exactly where the answer is a listing with at least
/// one release that has files, whose identifier is a semantic version, and
/// that `version_requirements` admits; the chosen one is the newest of those.
/// The package is named as the registry names it.
pub fn find_matching_package_version(
    name: &str,
    version_requirements: &VersionReq,
    reply: &Reply<PackageMetadata>,
) -> (resolved: Result<Package, ResolveError>)
    ensures
        match resolved {
            Ok(package) => {
                &&& resolve_failure(version_requirements@, *reply) is None
                &&& reply matches Reply::Answer { body: Some(metadata), .. }
                &&& package.name@ == metadata.name@
                &&& newest(candidates(metadata.releases@, version_requirements@)) == Some(
                    package.version@,
                )
                &&& forall|k: int|
                    0 <= k < candidates(metadata.releases@, version_requirements@).len()
                        ==> !package.version@.numbers_precede(
                        #[trigger] candidates(metadata.releases@, version_requirements@)[k],
                    )
            },
            Err(e) => {
                &&& resolve_failure(version_requirements@, *reply) == Some(e.kind())
                &&& e.package() == name@
                &&& e.names_requirement(version_requirements@)
            },
        },
{
    match reply {
        Reply::Unreachable => Err(
            ResolveError::RegistryUnreachable { package: String::from_str(name) },
        ),
        Reply::Answer { status, body } => {
            if *status == STATUS_NOT_FOUND {
                Err(
                    ResolveError::NoMatchingVersion {
                        package: String::from_str(name),
                        requirement: version_requirements.to_text(),
                        candidates: 0,
                    },
                )
            } else if *status != STATUS_OK {
                Err(ResolveError::RegistryUnreachable { package: String::from_str(name) })
            } else {
                match body {
                    None => Err(ResolveError::InvalidMetadata { package: String::from_str(name) }),
                    Some(metadata) => {
                        let (best, count) = pick_newest(&metadata.releases, version_requirements);
                        match best {
                            Some(version) => Ok(Package { name: metadata.name.clone(), version }),
                            None => Err(
                                ResolveError::NoMatchingVersion {
                                    package: String::from_str(name),
                                    requirement: version_requirements.to_text(),
                                    candidates: count,
                                },
                            ),
                        }
                    },
                }
            }
        },
    }
}

/// One choice that was made: the package that was asked for, the
/// requirement, and the package with its version.
#[derive(Clone, Debug, PartialEq, Eq)]
pub struct Resolution {
    pub name: String,
    pub requirement: String,
    pub package: Package,
}

/// The choices that were made in one run.  The registry may change between
/// two requests, so a choice is made once and then looked up here.
#[derive(Clone, Debug, PartialEq, Eq)]
pub struct Resolutions {
    pub found: Vec<Resolution>,
}

/// The package chosen for each name and requirement.
pub open spec fn chosen(found: Seq<Resolution>) -> Map<(Seq<char>, Seq<char>), Package>
    decreases found.len(),
{
    if found.len() == 0 {
        Map::empty()
    } else {
        chosen(found.drop_last()).insert(
            (found.last().name@, found.last().requirement@),
            found.last().package,
        )
    }
}

impl Resolutions {
    /// No choice was made yet.
    pub fn new() -> (memo: Resolutions)
        ensures
            chosen(memo.found@) == Map::<(Seq<char>, Seq<char>), Package>::empty(),
    {
        Resolutions { found: Vec::new() }
    }

    /// The package that was chosen for `name` under `requirement`, if one
    /// was.
    pub fn lookup(&self, name: &str, requirement: &VersionReq) -> (hit: Option<&Package>)
        ensures
            match hit {
                Some(package) => chosen(self.found@).contains_key((name@, requirement@))
                    && chosen(self.found@)[(name@, requirement@)] == *package,
                None => !chosen(self.found@).contains_key((name@, requirement@)),
            },
    {
        let text = requirement.to_text();
        let mut i: usize = self.found.len();
        assert(self.found@.take(i as int) =~= self.found@);
        while i > 0
            invariant
                i <= self.found.len(),
                text@ == requirement@,
                chosen(self.found@).contains_key((name@, requirement@)) == chosen(
                    self.found@.take(i as int),
                ).contains_key((name@, requirement@)),
                chosen(self.found@).contains_key((name@, requirement@)) ==> chosen(
                    self.found@,
                )[(name@, requirement@)] == chosen(self.found@.take(i as int))[(
                    name@,
                    requirement@,
                )],
            decreases i,
        {
            i -= 1;
            let entry = &self.found[i];
            proof {
                assert(self.found@.take(i + 1).drop_last() =~= self.found@.take(i as int));
                assert(self.found@.take(i + 1).last() == *entry);
            }
            if same_text(entry.name.as_str(), name) && same_text(
                entry.requirement.as_str(),
                text.as_str(),
            ) {
                return Some(&entry.package);
            }
        }
        assert(self.found@.take(0) =~= Seq::<Resolution>::empty());
        None
    }

    /// Keeps the choice of `package` for `name` under `requirement`, unless a
    /// choice for the two was kept before: the first choice stands.
    pub fn remember(&mut self, name: &str, requirement: &VersionReq, package: Package)
        ensures
            chosen(final(self).found@) == if chosen(old(self).found@).contains_key(
                (name@, requirement@),
            ) {
                chosen(old(self).found@)
            } else {
                chosen(old(self).found@).insert((name@, requirement@), package)
            },
    {
        let known = self.lookup(name, requirement).is_some();
        if !known {
            let ghost before = self.found@;
            self.found.push(
                Resolution {
                    name: String::from_str(name),
                    requirement: requirement.to_text(),
                    package,
                },
            );
            assert(self.found@.drop_last() =~= before);
        }
    }
}

} // verus!
