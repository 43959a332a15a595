//! What the package registry says, as the caller hands it in, and the
//! addresses at which to ask.

use vstd::prelude::*;
use crate::text::{
    chars_of,
    ends_with_chars,
    has_suffix,
    last_before,
    lemma_split_nonempty,
    lemma_split_tail,
    lemma_split_whole,
    split,
};
use crate::version::{Version, VersionModel};

verus! {

/// One downloadable file of a release.
#[derive(Clone, Debug, PartialEq, Eq)]
pub struct Artifact {
    /// The file's name, such as `demo-1.0-py3-none-any.whl`.
    pub filename: String,
    /// Where to download it.
    pub url: String,
}

/// What kind of file an artifact is.
#[derive(Clone, Copy, Debug, PartialEq, Eq, Structural)]
pub enum ArtifactKind {
    /// A built distribution: its name ends in `.whl`.
    Wheel,
    /// Anything else: an archive of the sources.
    SourceDistribution,
}

/// The compatibility tags of a file, as its name spells them.
#[derive(Clone, Debug, PartialEq, Eq)]
pub struct Tags {
    /// The interpreters that the file is for, such as `py3` or `cp311`.
    pub python: String,
    /// The binary interface that the file needs, such as `none` or `abi3`.
    pub abi: String,
    /// The platform that the file is for, with the file's extension, such as
    /// `any.whl` or `manylinux2014_x86_64.whl`.
    pub platform: String,
}

/// The last three parts of a file name between hyphens, where the name has
/// more than three parts.
pub open spec fn tags_of(filename: Seq<char>) -> Option<(Seq<char>, Seq<char>, Seq<char>)> {
    let parts = split(filename, '-');
    if parts.len() > 3 {
        Some((parts[parts.len() - 3], parts[parts.len() - 2], parts[parts.len() - 1]))
    } else {
        None
    }
}

impl Artifact {
    /// The compatibility tags of the file, where its name has the parts of
    /// a tagged wheel: more than three parts between hyphens, of which the
    /// last three are the tags.
    pub fn tags(&self) -> (tags: Option<Tags>)
        ensures
            match tags {
                Some(found) => tags_of(self.filename@) == Some(
                    (found.python@, found.abi@, found.platform@),
                ),
                None => tags_of(self.filename@) is None,
            },
    {
        let name = self.filename.as_str();
        let chars = chars_of(name);
        let n = chars.len();
        let ghost s = chars@;
        let ghost dash = seq!['-'];
        assert(s.take(n as int) =~= s);
        let third = match last_before(&chars, n, '-') {
            Some(at) => at,
            None => {
                proof {
                    lemma_split_whole(s, '-');
                }
                return None;
            },
        };
        proof {
            assert(s =~= s.take(third as int) + dash + s.subrange(third + 1, n as int));
            lemma_split_tail(s.take(third as int), s.subrange(third + 1, n as int), '-');
        }
        let second = match last_before(&chars, third, '-') {
            Some(at) => at,
            None => {
                proof {
                    lemma_split_whole(s.take(third as int), '-');
                }
                return None;
            },
        };
        proof {
            assert(s.take(third as int) =~= s.take(second as int) + dash + s.subrange(
                second + 1,
                third as int,
            ));
            lemma_split_tail(s.take(second as int), s.subrange(second + 1, third as int), '-');
        }
        let first = match last_before(&chars, second, '-') {
            Some(at) => at,
            None => {
                proof {
                    lemma_split_whole(s.take(second as int), '-');
                }
                return None;
            },
        };
        proof {
            assert(s.take(second as int) =~= s.take(first as int) + dash + s.subrange(
                first + 1,
                second as int,
            ));
            lemma_split_tail(s.take(first as int), s.subrange(first + 1, second as int), '-');
            lemma_split_nonempty(s.take(first as int), '-');
        }
        Some(
            Tags {
                python: String::from_str(name.substring_char(first + 1, second)),
                abi: String::from_str(name.substring_char(second + 1, third)),
                platform: String::from_str(name.substring_char(third + 1, n)),
            },
        )
    }

    /// The kind of the file, as its name tells.
    pub fn kind(&self) -> (kind: ArtifactKind)
        ensures
            kind == if has_suffix(self.filename@, ".whl"@) {
                ArtifactKind::Wheel
            } else {
                ArtifactKind::SourceDistribution
            },
    {
        let name = chars_of(self.filename.as_str());
        let suffix = chars_of(".whl");
        if ends_with_chars(&name, &suffix) {
            ArtifactKind::Wheel
        } else {
            ArtifactKind::SourceDistribution
        }
    }
}

/// One release as the registry lists it: its identifier, which need not be a
/// semantic version, and its files.  A release without files was retracted.
#[derive(Clone, Debug, PartialEq, Eq)]
pub struct Release {
    pub version: String,
    pub artifacts: Vec<Artifact>,
}

/// What the registry knows of a package.
#[derive(Clone, Debug, PartialEq, Eq)]
pub struct PackageMetadata {
    /// The name under which the registry lists the package.
    pub name: String,
    /// The releases, in the order in which the caller read them.
    pub releases: Vec<Release>,
}

/// The outcome of one request to the registry.
#[derive(Clone, Debug, PartialEq, Eq)]
pub enum Reply<T> {
    /// No answer came: the request failed on the way.
    Unreachable,
    /// An answer came, with its status and, where the body could be read as
    /// what was asked for, the body.
    Answer { status: u16, body: Option<T> },
}

/// A package with the one version that was chosen for it.
#[derive(Clone, Debug, PartialEq, Eq)]
pub struct Package {
    pub name: String,
    pub version: Version,
}

/// The status of an answer that holds what was asked for.
pub const STATUS_OK: u16 = 200;

/// The status of an answer that says that there is no such package.
pub const STATUS_NOT_FOUND: u16 = 404;

/// The address of the registry, up to the package's name.
pub open spec fn registry_prefix() -> Seq<char> {
    "https://pypi.org/pypi/"@
}

/// The address that lists every release of a package.
pub open spec fn package_address(name: Seq<char>) -> Seq<char> {
    registry_prefix() + name + "/json"@
}

/// The address that lists the files of one release of a package.
pub open spec fn release_address(name: Seq<char>, version: VersionModel) -> Seq<char> {
    registry_prefix() + name + "/"@ + version.text() + "/json"@
}

/// The address at which the registry lists every release of `name`.
pub fn package_url(name: &str) -> (url: String)
    ensures
        url@ == package_address(name@),
{
    let mut url = String::from_str("https://pypi.org/pypi/");
    url.append(name);
    url.append("/json");
    url
}

/// The address at which the registry lists the files of `package`.
pub fn release_url(package: &Package) -> (url: String)
    ensures
        url@ == release_address(package.name@, package.version@),
{
    let mut url = String::from_str("https://pypi.org/pypi/");
    url.append(package.name.as_str());
    url.append("/");
    let version = package.version.to_text();
    url.append(version.as_str());
    url.append("/json");
    url
}

} // verus!
