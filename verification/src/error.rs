//! The classes of failure, and the one line that tells a user of each.

use vstd::prelude::*;
use crate::cache::CacheError;
use crate::cleanup::{DeleteError, DirectoryError};
use crate::config::ConfigError;
use crate::reconcile::ReconcileError;
use crate::resolve::ResolveError;
use crate::select::SelectError;
use crate::text::{decimal, push_decimal};
use crate::version::VersionError;

verus! {

/// What went wrong, as far as the caller's reaction depends on it.
#[derive(Clone, Copy, Debug, PartialEq, Eq, Structural)]
pub enum ErrorClass {
    /// The registry or a download could not be reached.
    TransientNetwork,
    /// No version or no file meets the demands.
    NotFound,
    /// An archive or an answer of the registry cannot be read.
    Corrupt,
    /// The file system stands in the way.
    Filesystem,
    /// A place is taken by something that may not be removed.
    Conflict,
}

impl ResolveError {
    /// The class of the failure.
    pub fn class(&self) -> (class: ErrorClass)
        ensures
            class == match *self {
                ResolveError::RegistryUnreachable { .. } => ErrorClass::TransientNetwork,
                ResolveError::InvalidMetadata { .. } => ErrorClass::Corrupt,
                ResolveError::NoMatchingVersion { .. } => ErrorClass::NotFound,
            },
    {
        match self {
            ResolveError::RegistryUnreachable { .. } => ErrorClass::TransientNetwork,
            ResolveError::InvalidMetadata { .. } => ErrorClass::Corrupt,
            ResolveError::NoMatchingVersion { .. } => ErrorClass::NotFound,
        }
    }

    /// The line that tells of the failure.
    pub open spec fn message(self) -> Seq<char> {
        match self {
            ResolveError::RegistryUnreachable { package } => "Couldn't request PyPi for "@
                + package@ + "."@,
            ResolveError::InvalidMetadata { package } => "Received an invalid response from PyPi for "@
                + package@ + "."@,
            ResolveError::NoMatchingVersion { package, requirement, candidates } => "No version matched "@
                + requirement@ + " for package "@ + package@ + " ("@ + decimal(candidates as nat)
                + " to choose from)."@,
        }
    }

    /// The line that tells of the failure.
    pub fn describe(&self) -> (line: String)
        ensures
            line@ == self.message(),
    {
        match self {
            ResolveError::RegistryUnreachable { package } => {
                let mut line = String::from_str("Couldn't request PyPi for ");
                line.append(package.as_str());
                line.append(".");
                line
            },
            ResolveError::InvalidMetadata { package } => {
                let mut line = String::from_str("Received an invalid response from PyPi for ");
                line.append(package.as_str());
                line.append(".");
                line
            },
            ResolveError::NoMatchingVersion { package, requirement, candidates } => {
                let mut line = String::from_str("No version matched ");
                line.append(requirement.as_str());
                line.append(" for package ");
                line.append(package.as_str());
                line.append(" (");
                push_decimal(&mut line, *candidates as u64);
                line.append(" to choose from).");
                line
            },
        }
    }
}

impl SelectError {
    /// The class of the failure.
    pub fn class(&self) -> (class: ErrorClass)
        ensures
            class == match *self {
                SelectError::RegistryUnreachable { .. } => ErrorClass::TransientNetwork,
                SelectError::InvalidMetadata { .. } => ErrorClass::Corrupt,
                SelectError::NoCompatibleArtifact { .. } => ErrorClass::NotFound,
            },
    {
        match self {
            SelectError::RegistryUnreachable { .. } => ErrorClass::TransientNetwork,
            SelectError::InvalidMetadata { .. } => ErrorClass::Corrupt,
            SelectError::NoCompatibleArtifact { .. } => ErrorClass::NotFound,
        }
    }

    /// The line that tells of the failure.
    pub open spec fn message(self) -> Seq<char> {
        match self {
            SelectError::RegistryUnreachable { package } => "Couldn't request PyPi for "@
                + package@ + "."@,
            SelectError::InvalidMetadata { package } => "Received an invalid response from PyPi for "@
                + package@ + "."@,
            SelectError::NoCompatibleArtifact { package } => "The package "@ + package@
                + " doesn't seem compatible with your os."@,
        }
    }

    /// The line that tells of the failure.
    pub fn describe(&self) -> (line: String)
        ensures
            line@ == self.message(),
    {
        match self {
            SelectError::RegistryUnreachable { package } => {
                let mut line = String::from_str("Couldn't request PyPi for ");
                line.append(package.as_str());
                line.append(".");
                line
            },
            SelectError::InvalidMetadata { package } => {
                let mut line = String::from_str("Received an invalid response from PyPi for ");
                line.append(package.as_str());
                line.append(".");
                line
            },
            SelectError::NoCompatibleArtifact { package } => {
                let mut line = String::from_str("The package ");
                line.append(package.as_str());
                line.append(" doesn't seem compatible with your os.");
                line
            },
        }
    }
}

impl CacheError {
    /// The class of the failure.
    pub fn class(&self) -> (class: ErrorClass)
        ensures
            class == match *self {
                CacheError::DownloadFailed { .. } => ErrorClass::TransientNetwork,
                CacheError::CorruptArchive { .. } => ErrorClass::Corrupt,
                CacheError::UnsafeEntry { .. } => ErrorClass::Corrupt,
                CacheError::FilesystemError { .. } => ErrorClass::Filesystem,
            },
    {
        match self {
            CacheError::DownloadFailed { .. } => ErrorClass::TransientNetwork,
            CacheError::CorruptArchive { .. } => ErrorClass::Corrupt,
            CacheError::UnsafeEntry { .. } => ErrorClass::Corrupt,
            CacheError::FilesystemError { .. } => ErrorClass::Filesystem,
        }
    }

    /// The line that tells of the failure.
    pub open spec fn message(self) -> Seq<char> {
        match self {
            CacheError::DownloadFailed { package, status } => match status {
                Some(code) => "Package download request for "@ + package@
                    + " failed with status: "@ + decimal(code as nat) + "."@,
                None => "Package download request for "@ + package@ + " got no answer."@,
            },
            CacheError::CorruptArchive { package } => "Couldn't uncompress "@ + package@ + "."@,
            CacheError::UnsafeEntry { package, name } => "The archive of "@ + package@
                + " names a path outside its folder: "@ + name@ + "."@,
            CacheError::FilesystemError { path } => "Couldn't create folder "@ + path@ + "."@,
        }
    }

    /// The line that tells of the failure.
    pub fn describe(&self) -> (line: String)
        ensures
            line@ == self.message(),
    {
        match self {
            CacheError::DownloadFailed { package, status } => {
                let mut line = String::from_str("Package download request for ");
                line.append(package.as_str());
                match status {
                    Some(code) => {
                        line.append(" failed with status: ");
                        push_decimal(&mut line, *code as u64);
                        line.append(".");
                    },
                    None => {
                        line.append(" got no answer.");
                    },
                }
                line
            },
            CacheError::CorruptArchive { package } => {
                let mut line = String::from_str("Couldn't uncompress ");
                line.append(package.as_str());
                line.append(".");
                line
            },
            CacheError::UnsafeEntry { package, name } => {
                let mut line = String::from_str("The archive of ");
                line.append(package.as_str());
                line.append(" names a path outside its folder: ");
                line.append(name.as_str());
                line.append(".");
                line
            },
            CacheError::FilesystemError { path } => {
                let mut line = String::from_str("Couldn't create folder ");
                line.append(path.as_str());
                line.append(".");
                line
            },
        }
    }
}

impl ReconcileError {
    /// The class of the failure.
    pub fn class(&self) -> (class: ErrorClass)
        ensures
            class == ErrorClass::Conflict,
    {
        ErrorClass::Conflict
    }

    /// The line that tells of the failure.
    pub open spec fn message(self) -> Seq<char> {
        match self {
            ReconcileError::Conflict { path } => "Something that may not be removed already exists at "@
                + path@ + "."@,
        }
    }

    /// The line that tells of the failure.
    pub fn describe(&self) -> (line: String)
        ensures
            line@ == self.message(),
    {
        match self {
            ReconcileError::Conflict { path } => {
                let mut line = String::from_str(
                    "Something that may not be removed already exists at ",
                );
                line.append(path.as_str());
                line.append(".");
                line
            },
        }
    }
}

impl DeleteError {
    /// The class of the failure.
    pub fn class(&self) -> (class: ErrorClass)
        ensures
            class == ErrorClass::Filesystem,
    {
        ErrorClass::Filesystem
    }

    /// The line that tells of the failure.
    pub open spec fn message(self) -> Seq<char> {
        match self {
            DeleteError::CannotProbe { path } => "Unable to know if "@ + path@ + " exists."@,
            DeleteError::StillExists { path } => "Directory "@ + path@ + " still exists."@,
        }
    }

    /// The line that tells of the failure.
    pub fn describe(&self) -> (line: String)
        ensures
            line@ == self.message(),
    {
        match self {
            DeleteError::CannotProbe { path } => {
                let mut line = String::from_str("Unable to know if ");
                line.append(path.as_str());
                line.append(" exists.");
                line
            },
            DeleteError::StillExists { path } => {
                let mut line = String::from_str("Directory ");
                line.append(path.as_str());
                line.append(" still exists.");
                line
            },
        }
    }
}

impl DirectoryError {
    /// The class of the failure.
    pub fn class(&self) -> (class: ErrorClass)
        ensures
            class == ErrorClass::Filesystem,
    {
        ErrorClass::Filesystem
    }

    /// The line that tells of the failure.
    pub open spec fn message(self) -> Seq<char> {
        match self {
            DirectoryError::NotADirectory { path } => "Path is a file, expected directory at "@
                + path@ + "."@,
        }
    }

    /// The line that tells of the failure.
    pub fn describe(&self) -> (line: String)
        ensures
            line@ == self.message(),
    {
        match self {
            DirectoryError::NotADirectory { path } => {
                let mut line = String::from_str("Path is a file, expected directory at ");
                line.append(path.as_str());
                line.append(".");
                line
            },
        }
    }
}

impl ConfigError {
    /// The class of the failure.
    pub fn class(&self) -> (class: ErrorClass)
        ensures
            class == ErrorClass::Corrupt,
    {
        ErrorClass::Corrupt
    }

    /// The line that tells of the failure.
    pub open spec fn message(self) -> Seq<char> {
        match self {
            ConfigError::UnreadableRequirement { package, text } => "Couldn't read version of "@
                + package@ + " in config: "@ + text@ + " is no version range."@,
        }
    }

    /// The line that tells of the failure.
    pub fn describe(&self) -> (line: String)
        ensures
            line@ == self.message(),
    {
        match self {
            ConfigError::UnreadableRequirement { package, text } => {
                let mut line = String::from_str("Couldn't read version of ");
                line.append(package.as_str());
                line.append(" in config: ");
                line.append(text.as_str());
                line.append(" is no version range.");
                line
            },
        }
    }
}

impl VersionError {
    /// The line that tells of the failure.
    pub open spec fn message(self) -> Seq<char> {
        match self {
            VersionError::Missing => "No version was given."@,
            VersionError::Malformed { text } => "Version parsing failed for version "@ + text@
                + "."@,
            VersionError::MalformedRequirement { text } => "Invalid version range "@ + text@
                + "."@,
            VersionError::NotMajorMinorPatch { text } => "Version "@ + text@
                + " does not match the major.minor.patch format."@,
        }
    }

    /// The line that tells of the failure.
    pub fn describe(&self) -> (line: String)
        ensures
            line@ == self.message(),
    {
        match self {
            VersionError::Missing => String::from_str("No version was given."),
            VersionError::Malformed { text } => {
                let mut line = String::from_str("Version parsing failed for version ");
                line.append(text.as_str());
                line.append(".");
                line
            },
            VersionError::MalformedRequirement { text } => {
                let mut line = String::from_str("Invalid version range ");
                line.append(text.as_str());
                line.append(".");
                line
            },
            VersionError::NotMajorMinorPatch { text } => {
                let mut line = String::from_str("Version ");
                line.append(text.as_str());
                line.append(" does not match the major.minor.patch format.");
                line
            },
        }
    }
}

} // verus!
