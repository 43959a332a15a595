//! What the installer of the tool itself fetches, by operating system.

use vstd::prelude::*;
use crate::text::same_text;

verus! {

/// The files that make up an installation, and where they are served.
#[derive(Clone, Debug, PartialEq, Eq)]
pub struct InstallerFiles {
    /// The script that starts the tool.
    pub script: String,
    /// The file that holds the version of the tool.
    pub version_file: String,
    /// The program itself.
    pub executable: String,
    /// The address below which the three files are served.
    pub server_url: String,
}

/// The model of [`InstallerFiles`].
pub struct Files {
    pub script: Seq<char>,
    pub version_file: Seq<char>,
    pub executable: Seq<char>,
    pub server_url: Seq<char>,
}

impl View for InstallerFiles {
    type V = Files;

    open spec fn view(&self) -> Files {
        Files {
            script: self.script@,
            version_file: self.version_file@,
            executable: self.executable@,
            server_url: self.server_url@,
        }
    }
}

/// The files for an operating system, or `None` for a system that the tool
/// is not built for.
pub open spec fn files_for(os: Seq<char>) -> Option<Files> {
    if os == "windows"@ {
        Some(
            Files {
                script: "main.bat"@,
                version_file: "version.txt"@,
                executable: "core.exe"@,
                server_url: "https://raw.githubusercontent.com/azomDev/pen/main/files/windows/"@,
            },
        )
    } else if os == "macos"@ {
        Some(
            Files {
                script: "main.sh"@,
                version_file: "version.txt"@,
                executable: "core"@,
                server_url: "https://raw.githubusercontent.com/azomDev/pen/main/files/macos/"@,
            },
        )
    } else if os == "linux"@ {
        Some(
            Files {
                script: "main.sh"@,
                version_file: "version.txt"@,
                executable: "core"@,
                server_url: "https://raw.githubusercontent.com/azomDev/pen/main/files/linux/"@,
            },
        )
    } else {
        None
    }
}

/// The files that the installer fetches on the operating system `os`.
pub fn get_os_specific_details(os: &str) -> (details: Option<InstallerFiles>)
    ensures
        match details {
            Some(files) => files_for(os@) == Some(files@),
            None => files_for(os@) is None,
        },
{
    if same_text(os, "windows") {
        Some(
            InstallerFiles {
                script: String::from_str("main.bat"),
                version_file: String::from_str("version.txt"),
                executable: String::from_str("core.exe"),
                server_url: String::from_str(
                    "https://raw.githubusercontent.com/azomDev/pen/main/files/windows/",
                ),
            },
        )
    } else if same_text(os, "macos") {
        Some(
            InstallerFiles {
                script: String::from_str("main.sh"),
                version_file: String::from_str("version.txt"),
                executable: String::from_str("core"),
                server_url: String::from_str(
                    "https://raw.githubusercontent.com/azomDev/pen/main/files/macos/",
                ),
            },
        )
    } else if same_text(os, "linux") {
        Some(
            InstallerFiles {
                script: String::from_str("main.sh"),
                version_file: String::from_str("version.txt"),
                executable: String::from_str("core"),
                server_url: String::from_str(
                    "https://raw.githubusercontent.com/azomDev/pen/main/files/linux/",
                ),
            },
        )
    } else {
        None
    }
}

} // verus!
