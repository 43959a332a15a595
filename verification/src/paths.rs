//! Where things are kept on disk.
//!
//! Every path derives from one home directory, which the caller finds out
//! once and hands in as a [`Layout`].

use vstd::prelude::*;
use crate::registry::Package;
use crate::version::{Version, VersionModel};

verus! {

/// The path of `name` inside the directory `base`.
pub open spec fn join(base: Seq<char>, name: Seq<char>) -> Seq<char> {
    base + seq!['/'] + name
}

/// The directory that holds everything the tool keeps.
pub open spec fn pen_dir(home: Seq<char>) -> Seq<char> {
    join(home, ".cache/pen"@)
}

/// The directory for short-lived files.
pub open spec fn tmp_dir(home: Seq<char>) -> Seq<char> {
    join(pen_dir(home), "temp"@)
}

/// The directory that holds the installed interpreters.
pub open spec fn python_versions_dir(home: Seq<char>) -> Seq<char> {
    join(pen_dir(home), "python"@)
}

/// The directory that holds the unpacked packages.
pub open spec fn python_packages_dir(home: Seq<char>) -> Seq<char> {
    join(pen_dir(home), "packages"@)
}

/// The directory of an interpreter: its three numbers, under the directory
/// of the interpreters.
pub open spec fn python_path(home: Seq<char>, version: VersionModel) -> Seq<char> {
    join(python_versions_dir(home), version.numbers())
}

/// The name of the directory of an unpacked package: the package's name, an
/// underscore, and the full text of its version.
pub open spec fn package_dir_name(name: Seq<char>, version: VersionModel) -> Seq<char> {
    name + seq!['_'] + version.text()
}

/// The directory of an unpacked package.
pub open spec fn package_path(home: Seq<char>, name: Seq<char>, version: VersionModel) -> Seq<
    char,
> {
    join(python_packages_dir(home), package_dir_name(name, version))
}

/// The directory of an interpreter whose version is given as a text:
/// `python_` and the text, under the directory of the interpreters.
pub open spec fn version_path(home: Seq<char>, py_version: Seq<char>) -> Seq<char> {
    join(python_versions_dir(home), "python_"@ + py_version)
}

/// The path of `name` inside the directory `base`.
pub fn join_path(base: &str, name: &str) -> (path: String)
    ensures
        path@ == join(base@, name@),
{
    let mut path = String::from_str(base);
    path.append("/");
    path.append(name);
    proof {
        reveal_strlit("/");
        assert("/"@ =~= seq!['/']);
    }
    path
}

/// The places on disk, all of them under one home directory.
#[derive(Clone, Debug, PartialEq, Eq)]
pub struct Layout {
    /// The user's home directory.
    pub home: String,
}

impl Layout {
    /// The layout under `home`.
    pub fn new(home: &str) -> (layout: Layout)
        ensures
            layout.home@ == home@,
    {
        Layout { home: String::from_str(home) }
    }

    /// The directory where the tool's own program is installed.
    pub fn bin_dir(&self) -> (path: String)
        ensures
            path@ == join(self.home@, ".local/bin"@),
    {
        join_path(self.home.as_str(), ".local/bin")
    }

    /// The tool's own program.
    pub fn pen_bin_file(&self) -> (path: String)
        ensures
            path@ == join(join(self.home@, ".local/bin"@), "pen"@),
    {
        join_path(self.bin_dir().as_str(), "pen")
    }

    /// The directory of the user's settings.
    pub fn config_dir(&self) -> (path: String)
        ensures
            path@ == join(self.home@, ".config"@),
    {
        join_path(self.home.as_str(), ".config")
    }

    /// The tool's own settings.
    pub fn pen_config_file(&self) -> (path: String)
        ensures
            path@ == join(join(self.home@, ".config"@), "pen"@),
    {
        join_path(self.config_dir().as_str(), "pen")
    }

    /// The directory that holds everything the tool keeps.
    pub fn pen_dir(&self) -> (path: String)
        ensures
            path@ == pen_dir(self.home@),
    {
        join_path(self.home.as_str(), ".cache/pen")
    }

    /// The directory for short-lived files.
    pub fn tmp_dir(&self) -> (path: String)
        ensures
            path@ == tmp_dir(self.home@),
    {
        join_path(self.pen_dir().as_str(), "temp")
    }

    /// The directory that holds the installed interpreters.
    pub fn python_versions_dir(&self) -> (path: String)
        ensures
            path@ == python_versions_dir(self.home@),
    {
        join_path(self.pen_dir().as_str(), "python")
    }

    /// The directory that holds the unpacked packages.
    pub fn python_packages_dir(&self) -> (path: String)
        ensures
            path@ == python_packages_dir(self.home@),
    {
        join_path(self.pen_dir().as_str(), "packages")
    }
}

/// The directory of the interpreter of `version`.
pub fn get_python_path(layout: &Layout, version: &Version) -> (path: String)
    ensures
        path@ == python_path(layout.home@, version@),
{
    join_path(layout.python_versions_dir().as_str(), version.numbers().as_str())
}

/// The directory of the unpacked `package`.  It is named after the package
/// and the full text of its version, so two versions never share one.
pub fn get_package_path(layout: &Layout, package: &Package) -> (path: String)
    ensures
        path@ == package_path(layout.home@, package.name@, package.version@),
{
    let mut name = package.name.clone();
    name.append("_");
    name.append(package.version.to_text().as_str());
    proof {
        reveal_strlit("_");
        assert("_"@ =~= seq!['_']);
    }
    join_path(layout.python_packages_dir().as_str(), name.as_str())
}

/// The directory of the interpreter whose version is the text `py_version`.
/// The text is taken as it is.
pub fn get_version_path(layout: &Layout, py_version: &str) -> (path: String)
    ensures
        path@ == version_path(layout.home@, py_version@),
{
    let mut name = String::from_str("python_");
    name.append(py_version);
    join_path(layout.python_versions_dir().as_str(), name.as_str())
}

} // verus!
