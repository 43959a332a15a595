//! The declared state of a project: the interpreter's version and the
//! packages with their requirements.

use vstd::prelude::*;
use crate::text::same_text;
use crate::version::{
    semver_parse,
    semver_requirement,
    user_string_to_version,
    Version,
    VersionError,
    VersionReq,
};

verus! {

/// One declared package: its name and its requirement as it was written.
#[derive(Clone, Debug, PartialEq, Eq)]
pub struct Requirement {
    pub name: String,
    pub version: String,
}

/// What a project declares.
#[derive(Clone, Debug, PartialEq, Eq)]
pub struct Config {
    /// The interpreter's version.
    pub python: Version,
    /// The declared packages.  Where a name occurs twice, the later
    /// declaration counts.
    pub packages: Vec<Requirement>,
}

/// The requirement that counts for each declared name.
pub open spec fn table(packages: Seq<Requirement>) -> Map<Seq<char>, Seq<char>>
    decreases packages.len(),
{
    if packages.len() == 0 {
        Map::empty()
    } else {
        table(packages.drop_last()).insert(packages.last().name@, packages.last().version@)
    }
}

/// The declarations without those of `name`.
pub open spec fn without(packages: Seq<Requirement>, name: Seq<char>) -> Seq<Requirement>
    decreases packages.len(),
{
    if packages.len() == 0 {
        Seq::empty()
    } else if packages.last().name@ == name {
        without(packages.drop_last(), name)
    } else {
        without(packages.drop_last(), name).push(packages.last())
    }
}

/// Dropping the declarations of a name drops the name from the table and
/// leaves every other name as it was.
pub proof fn lemma_without_removes(packages: Seq<Requirement>, name: Seq<char>)
    ensures
        table(without(packages, name)) == table(packages).remove(name),
    decreases packages.len(),
{
    if packages.len() == 0 {
        assert(table(packages).remove(name) =~= Map::<Seq<char>, Seq<char>>::empty());
    } else {
        lemma_without_removes(packages.drop_last(), name);
        let front = without(packages.drop_last(), name);
        if packages.last().name@ == name {
            assert(table(packages).remove(name) =~= table(packages.drop_last()).remove(name));
        } else {
            assert(front.push(packages.last()).drop_last() =~= front);
            assert(table(front.push(packages.last())) =~= table(packages).remove(name));
        }
    }
}

/// The declared state with this interpreter and no package.
pub fn create_config(py_version: Version) -> (config: Config)
    ensures
        config.python == py_version,
        config.packages@.len() == 0,
{
    Config { python: py_version, packages: Vec::new() }
}

/// The declared state of a new project, from the version that the user
/// wrote.  Without a version there is no project.
pub fn init(version: Option<&String>) -> (created: Result<Config, VersionError>)
    ensures
        match version {
            None => created == Err::<Config, VersionError>(VersionError::Missing),
            Some(text) => match created {
                Ok(config) => semver_parse(text@) == Some(config.python@)
                    && config.packages@.len() == 0,
                Err(e) => semver_parse(text@) is None && e is Malformed && e.text() == text@,
            },
        },
{
    match version {
        None => Err(VersionError::Missing),
        Some(text) => match user_string_to_version(text) {
            Ok(python) => Ok(create_config(python)),
            Err(e) => Err(e),
        },
    }
}

impl Config {
    /// Declares the package `name` with `requirement`, in place of whatever
    /// was declared for that name.  Every other declaration stays.
    pub fn add_package(&mut self, name: &str, requirement: &VersionReq)
        ensures
            final(self).python == old(self).python,
            final(self).packages@ == without(old(self).packages@, name@).push(
                final(self).packages@.last(),
            ),
            final(self).packages@.last().name@ == name@,
            final(self).packages@.last().version@ == requirement@,
            table(final(self).packages@) == table(old(self).packages@).insert(name@, requirement@),
    {
        let mut kept: Vec<Requirement> = Vec::new();
        let mut i: usize = 0;
        assert(self.packages@.take(0) =~= Seq::<Requirement>::empty());
        while i < self.packages.len()
            invariant
                i <= self.packages.len(),
                *self == *old(self),
                kept@ == without(self.packages@.take(i as int), name@),
            decreases self.packages.len() - i,
        {
            let entry = &self.packages[i];
            proof {
                assert(self.packages@.take(i + 1).drop_last() =~= self.packages@.take(i as int));
                assert(self.packages@.take(i + 1).last() == *entry);
            }
            if !same_text(entry.name.as_str(), name) {
                kept.push(Requirement { name: entry.name.clone(), version: entry.version.clone() });
            }
            i += 1;
        }
        assert(self.packages@.take(self.packages.len() as int) =~= self.packages@);
        kept.push(Requirement { name: String::from_str(name), version: requirement.to_text() });
        proof {
            let before = without(old(self).packages@, name@);
            lemma_without_removes(old(self).packages@, name@);
            assert(kept@.drop_last() =~= before);
            assert(table(kept@) =~= table(old(self).packages@).insert(name@, requirement@));
        }
        self.packages = kept;
    }

    /// The requirement that counts for `name`, as it was written, or `None`
    /// where the name is not declared.
    pub fn requirement_of(&self, name: &str) -> (found: Option<String>)
        ensures
            match found {
                Some(text) => table(self.packages@).contains_key(name@) && table(
                    self.packages@,
                )[name@] == text@,
                None => !table(self.packages@).contains_key(name@),
            },
    {
        let mut i: usize = self.packages.len();
        assert(self.packages@.take(i as int) =~= self.packages@);
        while i > 0
            invariant
                i <= self.packages.len(),
                table(self.packages@).contains_key(name@) == table(
                    self.packages@.take(i as int),
                ).contains_key(name@),
                table(self.packages@).contains_key(name@) ==> table(self.packages@)[name@]
                    == table(self.packages@.take(i as int))[name@],
            decreases i,
        {
            i -= 1;
            let entry = &self.packages[i];
            proof {
                assert(self.packages@.take(i + 1).drop_last() =~= self.packages@.take(i as int));
                assert(self.packages@.take(i + 1).last() == *entry);
            }
            if same_text(entry.name.as_str(), name) {
                return Some(entry.version.clone());
            }
        }
        assert(self.packages@.take(0) =~= Seq::<Requirement>::empty());
        None
    }
}

/// The requirements of the declared packages, read one by one.
pub open spec fn all_readable(packages: Seq<Requirement>) -> bool {
    forall|i: int| 0 <= i < packages.len() ==> semver_requirement(#[trigger] packages[i].version@) is Some
}

/// A declared package with its requirement read.
#[derive(Clone, Debug, PartialEq, Eq)]
pub struct Wanted {
    pub name: String,
    pub requirement: VersionReq,
}

/// Why the declared state cannot be used.
#[derive(Clone, Debug, PartialEq, Eq)]
pub enum ConfigError {
    /// The requirement `text` that is declared for `package` is no version
    /// requirement.
    UnreadableRequirement { package: String, text: String },
}

impl ConfigError {
    /// The package whose declaration the error is about.
    pub open spec fn package(self) -> Seq<char> {
        match self {
            ConfigError::UnreadableRequirement { package, .. } => package@,
        }
    }

    /// The requirement that could not be read.
    pub open spec fn text(self) -> Seq<char> {
        match self {
            ConfigError::UnreadableRequirement { text, .. } => text@,
        }
    }
}

/// Reads the requirement of every declared package, in the order of the
/// declarations.  The first requirement that cannot be read is reported,
/// with the package that it is declared for.
pub fn read_requirements(config: &Config) -> (read: Result<Vec<Wanted>, ConfigError>)
    ensures
        match read {
            Ok(wanted) => {
                &&& all_readable(config.packages@)
                &&& wanted@.len() == config.packages@.len()
                &&& forall|i: int|
                    0 <= i < wanted@.len() ==> (#[trigger] wanted@[i]).name@
                        == config.packages@[i].name@ && semver_requirement(
                        config.packages@[i].version@,
                    ) == Some(wanted@[i].requirement@)
            },
            Err(e) => {
                &&& !all_readable(config.packages@)
                &&& exists|i: int|
                    0 <= i < config.packages@.len() && e.package() == (
                    #[trigger] config.packages@[i]).name@ && e.text()
                        == config.packages@[i].version@ && semver_requirement(
                        config.packages@[i].version@,
                    ) is None && all_readable(config.packages@.take(i))
            },
        },
{
    let mut wanted: Vec<Wanted> = Vec::new();
    let mut i: usize = 0;
    while i < config.packages.len()
        invariant
            i <= config.packages.len(),
            wanted@.len() == i,
            all_readable(config.packages@.take(i as int)),
            forall|k: int|
                0 <= k < i ==> (#[trigger] wanted@[k]).name@ == config.packages@[k].name@
                    && semver_requirement(config.packages@[k].version@) == Some(
                    wanted@[k].requirement@,
                ),
        decreases config.packages.len() - i,
    {
        let entry = &config.packages[i];
        match VersionReq::parse(entry.version.as_str()) {
            Ok(requirement) => {
                wanted.push(Wanted { name: entry.name.clone(), requirement });
            },
            Err(_) => {
                proof {
                    assert(config.packages@[i as int] == *entry);
                }
                return Err(
                    ConfigError::UnreadableRequirement {
                        package: entry.name.clone(),
                        text: entry.version.clone(),
                    },
                );
            },
        }
        proof {
            let now = config.packages@.take(i + 1);
            assert forall|k: int| 0 <= k < now.len() implies semver_requirement(
                #[trigger] now[k].version@,
            ) is Some by {
                if k < i {
                    assert(now[k] == config.packages@.take(i as int)[k]);
                }
            }
        }
        i += 1;
    }
    assert(config.packages@.take(config.packages.len() as int) =~= config.packages@);
    Ok(wanted)
}

} // verus!
