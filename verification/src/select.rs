//! Choice of the file to download for a release: the one whose name fits
//! the host best.
//!
//! A file name is judged by five signals, read off the name after cutting it
//! at its hyphens.  The signals are ranked, the first outweighing all that
//! follow, and the file with the greatest rank is chosen.

use vstd::prelude::*;
use crate::registry::{Artifact, Package, Reply, STATUS_NOT_FOUND, STATUS_OK};
use crate::text::{
    chars_of,
    contains,
    contains_chars,
    decimal,
    ends_with_chars,
    has_suffix,
    push_decimal,
    same_text,
    split,
    split_chars,
    views,
};
use crate::version::Version;

verus! {

/// The machine and the interpreter that a file has to fit.
#[derive(Clone, Debug, PartialEq, Eq)]
pub struct HostDescriptor {
    /// The operating system, such as `linux` or `macos`.
    pub os: String,
    /// The processor architecture, such as `x86_64` or `aarch64`.
    pub arch: String,
    /// The interpreter's major version.
    pub python_major: u64,
    /// The interpreter's minor version.
    pub python_minor: u64,
}

/// The model of a [`HostDescriptor`].
pub struct Host {
    pub os: Seq<char>,
    pub arch: Seq<char>,
    pub python_major: nat,
    pub python_minor: nat,
}

impl View for HostDescriptor {
    type V = Host;

    open spec fn view(&self) -> Host {
        Host {
            os: self.os@,
            arch: self.arch@,
            python_major: self.python_major as nat,
            python_minor: self.python_minor as nat,
        }
    }
}

impl Host {
    /// The architecture as file names spell it: `arm64` for `aarch64` under
    /// `macos`, and the architecture itself otherwise.
    pub open spec fn arch_token(self) -> Seq<char> {
        if self.os == "macos"@ && self.arch == "aarch64"@ {
            "arm64"@
        } else {
            self.arch
        }
    }

    /// The interpreter as file names spell it: `py`, then the major and the
    /// minor version with nothing between them.
    pub open spec fn python_token(self) -> Seq<char> {
        "py"@ + decimal(self.python_major) + decimal(self.python_minor)
    }
}

/// What the name of a file says of its fit, the weightiest signal first.
#[derive(Clone, Copy, Debug, PartialEq, Eq, Structural)]
pub struct Signals {
    /// The name has more than three parts between hyphens, as the name of a
    /// tagged wheel has.
    pub tagged: bool,
    /// The name ends in `.whl`.
    pub wheel: bool,
    /// The third part from the end holds the interpreter's token.
    pub python: bool,
    /// The last part holds the architecture's token.
    pub arch: bool,
    /// The last part holds the operating system.
    pub os: bool,
}

/// The third part of a name from its end, or the empty text where the name
/// has fewer than three parts.
pub open spec fn python_part(parts: Seq<Seq<char>>) -> Seq<char> {
    if parts.len() >= 3 {
        parts[parts.len() - 3]
    } else {
        Seq::empty()
    }
}

/// The signals of a file name on a host.
pub open spec fn signals(filename: Seq<char>, host: Host) -> Signals {
    let parts = split(filename, '-');
    Signals {
        tagged: parts.len() > 3,
        wheel: has_suffix(filename, ".whl"@),
        python: parts.len() >= 3 && contains(python_part(parts), host.python_token()),
        arch: contains(parts.last(), host.arch_token()),
        os: contains(parts.last(), host.os),
    }
}

/// The weight of a signal that is set.
pub open spec fn weight(signal: bool, value: nat) -> nat {
    if signal {
        value
    } else {
        0
    }
}

/// The rank of some signals.  Each signal outweighs all that follow it, so
/// ranks are ordered as the signals are, compared one by one from the first.
pub open spec fn rank(s: Signals) -> nat {
    weight(s.tagged, 16) + weight(s.wheel, 8) + weight(s.python, 4) + weight(s.arch, 2) + weight(
        s.os,
        1,
    )
}

/// The rank of a file on a host.
pub open spec fn rank_of(file: Artifact, host: Host) -> nat {
    rank(signals(file.filename@, host))
}

/// File `k` is the choice among `files`: some signal of it is set, no file
/// has a greater rank, and every file after it has a smaller one.
pub open spec fn is_choice(files: Seq<Artifact>, host: Host, k: int) -> bool {
    &&& 0 <= k < files.len()
    &&& rank_of(files[k], host) > 0
    &&& forall|i: int| 0 <= i < files.len() ==> rank_of(#[trigger] files[i], host) <= rank_of(files[k], host)
    &&& forall|i: int| k < i < files.len() ==> rank_of(#[trigger] files[i], host) < rank_of(files[k], host)
}

/// No signal of any file is set.
pub open spec fn nothing_fits(files: Seq<Artifact>, host: Host) -> bool {
    forall|i: int| 0 <= i < files.len() ==> rank_of(#[trigger] files[i], host) == 0
}

/// The kinds of failure of a selection.
pub enum SelectFailure {
    RegistryUnreachable,
    InvalidMetadata,
    NoCompatibleArtifact,
}

/// Why no file was chosen.
#[derive(Clone, Debug, PartialEq, Eq)]
pub enum SelectError {
    /// The registry gave no answer, or one that is neither a listing nor the
    /// statement that there is no such release.
    RegistryUnreachable { package: String },
    /// The answer could not be read as a listing.
    InvalidMetadata { package: String },
    /// The release has no file of which any signal is set.
    NoCompatibleArtifact { package: String },
}

impl SelectError {
    /// The kind of the failure.
    pub open spec fn kind(self) -> SelectFailure {
        match self {
            SelectError::RegistryUnreachable { .. } => SelectFailure::RegistryUnreachable,
            SelectError::InvalidMetadata { .. } => SelectFailure::InvalidMetadata,
            SelectError::NoCompatibleArtifact { .. } => SelectFailure::NoCompatibleArtifact,
        }
    }

    /// The package that was asked for.
    pub open spec fn package(self) -> Seq<char> {
        match self {
            SelectError::RegistryUnreachable { package } => package@,
            SelectError::InvalidMetadata { package } => package@,
            SelectError::NoCompatibleArtifact { package } => package@,
        }
    }
}

/// The failure of a selection, or `None` where a file is chosen.
pub open spec fn select_failure(host: Host, reply: Reply<Vec<Artifact>>) -> Option<SelectFailure> {
    match reply {
        Reply::Unreachable => Some(SelectFailure::RegistryUnreachable),
        Reply::Answer { status, body } => if status == STATUS_NOT_FOUND {
            Some(SelectFailure::NoCompatibleArtifact)
        } else if status != STATUS_OK {
            Some(SelectFailure::RegistryUnreachable)
        } else {
            match body {
                None => Some(SelectFailure::InvalidMetadata),
                Some(files) => if nothing_fits(files@, host) {
                    Some(SelectFailure::NoCompatibleArtifact)
                } else {
                    None
                },
            }
        },
    }
}

/// A name with the parts of a tagged wheel outranks every name without
/// them, whatever else the two names say.
pub proof fn lemma_tagged_outranks(a: Signals, b: Signals)
    requires
        a.tagged,
        !b.tagged,
    ensures
        rank(a) > rank(b),
{
}

/// A wheel with the parts of a tagged name outranks every file that is no
/// wheel, whatever the two names say of interpreter, architecture and
/// system: a source distribution is never preferred to such a wheel.
pub proof fn lemma_tagged_wheel_outranks(a: Signals, b: Signals)
    requires
        a.tagged,
        a.wheel,
        !b.wheel,
    ensures
        rank(a) > rank(b),
{
}

/// Ranks are ordered as the signals are: where two names agree on the first
/// signals, the first signal on which they differ decides.
pub proof fn lemma_rank_is_lexicographic(a: Signals, b: Signals)
    ensures
        rank(a) < rank(b) <==> {
            ||| (!a.tagged && b.tagged)
            ||| (a.tagged == b.tagged && !a.wheel && b.wheel)
            ||| (a.tagged == b.tagged && a.wheel == b.wheel && !a.python && b.python)
            ||| (a.tagged == b.tagged && a.wheel == b.wheel && a.python == b.python && !a.arch
                && b.arch)
            ||| (a.tagged == b.tagged && a.wheel == b.wheel && a.python == b.python && a.arch
                == b.arch && !a.os && b.os)
        },
{
}

impl HostDescriptor {
    /// The host with this system and architecture, and the interpreter of
    /// this version.
    pub fn new(os: &str, arch: &str, python: &Version) -> (host: HostDescriptor)
        ensures
            host@ == (Host {
                os: os@,
                arch: arch@,
                python_major: python@.major,
                python_minor: python@.minor,
            }),
    {
        HostDescriptor {
            os: String::from_str(os),
            arch: String::from_str(arch),
            python_major: python.major,
            python_minor: python.minor,
        }
    }

    /// The architecture as file names spell it.
    pub fn arch_token(&self) -> (token: String)
        ensures
            token@ == self@.arch_token(),
    {
        if same_text(self.os.as_str(), "macos") && same_text(self.arch.as_str(), "aarch64") {
            String::from_str("arm64")
        } else {
            self.arch.clone()
        }
    }

    /// The interpreter as file names spell it.
    pub fn python_token(&self) -> (token: String)
        ensures
            token@ == self@.python_token(),
    {
        let mut token = String::from_str("py");
        push_decimal(&mut token, self.python_major);
        push_decimal(&mut token, self.python_minor);
        token
    }
}

impl Signals {
    /// The rank of the signals.
    pub fn rank(&self) -> (r: u8)
        ensures
            r == rank(*self),
            r <= 31,
    {
        let mut r: u8 = 0;
        if self.tagged {
            r += 16;
        }
        if self.wheel {
            r += 8;
        }
        if self.python {
            r += 4;
        }
        if self.arch {
            r += 2;
        }
        if self.os {
            r += 1;
        }
        r
    }
}

/// The signals of the file name `filename` on `host`.
pub fn score(filename: &str, host: &HostDescriptor) -> (s: Signals)
    ensures
        s == signals(filename@, host@),
{
    let name = chars_of(filename);
    let parts = split_chars(&name, '-');
    let n = parts.len();
    let wheel = ends_with_chars(&name, &chars_of(".whl"));
    let python_token = chars_of(host.python_token().as_str());
    let arch_token = chars_of(host.arch_token().as_str());
    let os_token = chars_of(host.os.as_str());
    proof {
        assert(views(parts@)[n - 1] == parts@[n - 1]@);
        assert(views(parts@).last() == parts@[n - 1]@);
        if n >= 3 {
            assert(views(parts@)[n - 3] == parts@[n - 3]@);
        }
    }
    let python = n >= 3 && contains_chars(&parts[n - 3], &python_token);
    let arch = contains_chars(&parts[n - 1], &arch_token);
    let os = contains_chars(&parts[n - 1], &os_token);
    Signals { tagged: n > 3, wheel, python, arch, os }
}

/// The index of the choice among `files`, or `None` where nothing fits.
pub fn best_fit(files: &Vec<Artifact>, host: &HostDescriptor) -> (best: Option<usize>)
    ensures
        match best {
            Some(k) => is_choice(files@, host@, k as int),
            None => nothing_fits(files@, host@),
        },
{
    let mut best: Option<usize> = None;
    let mut best_rank: u8 = 0;
    let mut i: usize = 0;
    while i < files.len()
        invariant
            i <= files.len(),
            match best {
                Some(k) => k < i && best_rank == rank_of(files@[k as int], host@) && best_rank > 0,
                None => best_rank == 0,
            },
            forall|j: int| 0 <= j < i ==> rank_of(#[trigger] files@[j], host@) <= best_rank,
            best matches Some(k) ==> forall|j: int|
                k < j < i ==> rank_of(#[trigger] files@[j], host@) < best_rank,
        decreases files.len() - i,
    {
        let r = score(files[i].filename.as_str(), host).rank();
        if r > 0 && r >= best_rank {
            best = Some(i);
            best_rank = r;
        }
        i += 1;
    }
    best
}

/// Chooses the file to download for `package` from what the registry
/// answered to a request for [`crate::registry::release_url`].
///
/// A file is chosen exactly where the answer is a listing in which some
/// signal of some file is set.  The chosen file has the greatest rank; of
/// several with that rank, it is the last.
pub fn select_artifact(package: &Package, host: &HostDescriptor, reply: &Reply<Vec<Artifact>>) -> (selected: Result<
    Artifact,
    SelectError,
>)
    ensures
        match selected {
            Ok(artifact) => {
                &&& select_failure(host@, *reply) is None
                &&& reply matches Reply::Answer { body: Some(files), .. }
                &&& exists|k: int| is_choice(files@, host@, k) && files@[k] == artifact
            },
            Err(e) => {
                &&& select_failure(host@, *reply) == Some(e.kind())
                &&& e.package() == package.name@
            },
        },
{
    match reply {
        Reply::Unreachable => Err(
            SelectError::RegistryUnreachable { package: package.name.clone() },
        ),
        Reply::Answer { status, body } => {
            if *status == STATUS_NOT_FOUND {
                Err(SelectError::NoCompatibleArtifact { package: package.name.clone() })
            } else if *status != STATUS_OK {
                Err(SelectError::RegistryUnreachable { package: package.name.clone() })
            } else {
                match body {
                    None => Err(SelectError::InvalidMetadata { package: package.name.clone() }),
                    Some(files) => match best_fit(files, host) {
                        Some(k) => {
                            let chosen = &files[k];
                            let artifact = Artifact {
                                filename: chosen.filename.clone(),
                                url: chosen.url.clone(),
                            };
                            assert(is_choice(files@, host@, k as int) && files@[k as int]
                                == artifact);
                            Ok(artifact)
                        },
                        None => Err(
                            SelectError::NoCompatibleArtifact { package: package.name.clone() },
                        ),
                    },
                }
            }
        },
    }
}

} // verus!
