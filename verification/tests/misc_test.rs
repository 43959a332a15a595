use pen::cleanup::{
    clear_temp, confirm_deleted, create_dir_if_missing, try_deleting_dir, try_deleting_dir_to_temp,
    DeleteError, DirectoryError, Probe,
};
use pen::config::{
    create_config, init, read_requirements, Config, ConfigError, Requirement, Wanted,
};
use pen::error::ErrorClass;
use pen::fs::{FsAction, PathState};
use pen::installer::{get_os_specific_details, InstallerFiles};
use pen::interpreter::{
    get_full_python_version, interpreter_step, latest_in, python_tarball_url, CalendarError, Cycle,
};
use pen::memory::{MemoryNode, MemoryTree};
use pen::paths::{get_python_path, get_version_path, join_path, Layout};
use pen::registry::Reply;
use pen::version::{Version, VersionError, VersionReq};

#[test]
fn every_place_derives_from_the_home_directory() {
    let layout = Layout::new("/home/ada");
    assert_eq!(layout.home, "/home/ada");
    assert_eq!(layout.bin_dir(), "/home/ada/.local/bin");
    assert_eq!(layout.pen_bin_file(), "/home/ada/.local/bin/pen");
    assert_eq!(layout.config_dir(), "/home/ada/.config");
    assert_eq!(layout.pen_config_file(), "/home/ada/.config/pen");
    assert_eq!(layout.pen_dir(), "/home/ada/.cache/pen");
    assert_eq!(layout.tmp_dir(), "/home/ada/.cache/pen/temp");
    assert_eq!(layout.python_versions_dir(), "/home/ada/.cache/pen/python");
    assert_eq!(layout.python_packages_dir(), "/home/ada/.cache/pen/packages");
    assert_eq!(join_path("", ""), "/");
    assert_eq!(join_path("a", "b/c"), "a/b/c");
}

#[test]
fn python_path_is_named_after_the_three_numbers() {
    let layout = Layout::new("/home/ada");
    for (version, expected) in [
        (Version::new(3, 11, 9), "/home/ada/.cache/pen/python/3.11.9"),
        (Version::new(3, 10, 8), "/home/ada/.cache/pen/python/3.10.8"),
        (Version::new(3, 9, 7), "/home/ada/.cache/pen/python/3.9.7"),
        (Version::new(3, 8, 10), "/home/ada/.cache/pen/python/3.8.10"),
        (Version::new(3, 7, 9), "/home/ada/.cache/pen/python/3.7.9"),
    ] {
        assert_eq!(get_python_path(&layout, &version), expected);
    }
    assert_ne!(
        get_python_path(&layout, &Version::new(3, 11, 9)),
        get_python_path(&layout, &Version::new(2, 7, 3))
    );
    assert_eq!(
        get_python_path(&layout, &Version::parse("3.13.0-rc.1+x").unwrap()),
        "/home/ada/.cache/pen/python/3.13.0"
    );
}

#[test]
fn version_path_takes_the_text_as_it_is() {
    let layout = Layout::new("/home/ada");
    assert_eq!(get_version_path(&layout, "3.11.9"), "/home/ada/.cache/pen/python/python_3.11.9");
    assert_eq!(get_version_path(&layout, ""), "/home/ada/.cache/pen/python/python_");
}

fn rename(from: &str, to: &str) -> FsAction {
    FsAction::Rename { from: String::from(from), to: String::from(to) }
}

#[test]
fn deletion_moves_the_directory_away() {
    assert_eq!(
        try_deleting_dir_to_temp("/d", "/t", Probe::Present, Probe::Missing),
        Ok(vec![rename("/d", "/t")])
    );
    assert_eq!(
        try_deleting_dir_to_temp("/d", "/t", Probe::Present, Probe::Present),
        Ok(vec![FsAction::RemoveTree { path: String::from("/t") }, rename("/d", "/t")])
    );
    assert_eq!(
        try_deleting_dir_to_temp("/d", "/t", Probe::Unknown, Probe::Missing),
        Ok(vec![rename("/d", "/t")])
    );
    for temp in [Probe::Missing, Probe::Present, Probe::Unknown] {
        assert_eq!(try_deleting_dir_to_temp("/d", "/t", Probe::Missing, temp), Ok(Vec::new()));
    }
    for dir in [Probe::Present, Probe::Unknown] {
        let failed = try_deleting_dir_to_temp("/d", "/t", dir, Probe::Unknown).unwrap_err();
        assert_eq!(failed, DeleteError::CannotProbe { path: String::from("/t") });
        assert_eq!(failed.class(), ErrorClass::Filesystem);
        assert_eq!(failed.describe(), "Unable to know if /t exists.");
    }
}

#[test]
fn deletion_goes_through_the_short_lived_files() {
    let layout = Layout::new("/h");
    assert_eq!(
        try_deleting_dir(&layout, "/p/.venv", Probe::Present, Probe::Missing),
        Ok(vec![rename("/p/.venv", "/h/.cache/pen/temp/delete_path")])
    );
    assert_eq!(
        try_deleting_dir(&layout, "/p/.venv", Probe::Present, Probe::Unknown),
        Err(DeleteError::CannotProbe { path: String::from("/h/.cache/pen/temp/delete_path") })
    );
    assert_eq!(try_deleting_dir(&layout, "/p/.venv", Probe::Missing, Probe::Unknown), Ok(Vec::new()));
}

#[test]
fn a_deletion_counts_only_where_the_directory_is_known_to_be_gone() {
    assert_eq!(confirm_deleted("/d", Probe::Missing), Ok(()));
    let failed = confirm_deleted("/d", Probe::Present).unwrap_err();
    assert_eq!(failed, DeleteError::StillExists { path: String::from("/d") });
    assert_eq!(failed.describe(), "Directory /d still exists.");
    assert_eq!(
        confirm_deleted("/d", Probe::Unknown),
        Err(DeleteError::CannotProbe { path: String::from("/d") })
    );
}

#[test]
fn a_directory_is_created_where_it_is_missing() {
    let make = FsAction::CreateDirAll { path: String::from("/d") };
    let remove = FsAction::RemoveFile { path: String::from("/d") };
    for overwrite in [false, true] {
        assert_eq!(
            create_dir_if_missing("/d", overwrite, &PathState::Absent),
            Ok(vec![make.clone()])
        );
        assert_eq!(create_dir_if_missing("/d", overwrite, &PathState::Directory), Ok(Vec::new()));
        assert_eq!(
            create_dir_if_missing("/d", overwrite, &PathState::Symlink(String::from("/x"))),
            Ok(Vec::new())
        );
    }
    assert_eq!(create_dir_if_missing("/d", true, &PathState::File), Ok(vec![remove, make]));
}

#[test]
fn a_file_where_a_directory_is_expected_is_reported_and_left() {
    let failed = create_dir_if_missing("/d", false, &PathState::File).unwrap_err();
    assert_eq!(failed, DirectoryError::NotADirectory { path: String::from("/d") });
    assert_eq!(failed.class(), ErrorClass::Filesystem);
    assert_eq!(failed.describe(), "Path is a file, expected directory at /d.");
}

#[test]
fn a_directory_stands_after_its_plan() {
    for overwrite in [false, true] {
        for before in [None, Some(MemoryNode::Directory), Some(MemoryNode::File(vec![1]))] {
            let mut tree = MemoryTree::new();
            if let Some(node) = before.clone() {
                tree.put("/d", node);
            }
            match create_dir_if_missing("/d", overwrite, &tree.look("/d")) {
                Ok(plan) => {
                    tree.run(&plan);
                    assert_eq!(tree.look("/d"), PathState::Directory);
                }
                Err(_) => {
                    assert!(!overwrite);
                    assert_eq!(tree.node("/d"), Some(&MemoryNode::File(vec![1])));
                }
            }
        }
    }
}

#[test]
fn the_interpreter_is_installed_where_nothing_stands_at_its_directory() {
    assert!(interpreter_step(&PathState::Absent));
    assert!(!interpreter_step(&PathState::Directory));
    assert!(!interpreter_step(&PathState::File));
    assert!(!interpreter_step(&PathState::Symlink(String::from("/opt/python"))));
}

#[test]
fn short_lived_files_are_cleared_only_where_there_are_any() {
    let layout = Layout::new("/h");
    assert_eq!(clear_temp(&layout, true), Vec::new());
    assert_eq!(
        clear_temp(&layout, false),
        vec![
            FsAction::RemoveTree { path: String::from("/h/.cache/pen/temp") },
            FsAction::CreateDirAll { path: String::from("/h/.cache/pen/temp") },
        ]
    );
}

#[test]
fn a_new_project_declares_its_interpreter_and_nothing_else() {
    let config = init(Some(&String::from("3.12.1"))).unwrap();
    assert_eq!(config, Config { python: Version::new(3, 12, 1), packages: Vec::new() });
    assert_eq!(config, create_config(Version::new(3, 12, 1)));
    assert_eq!(init(None), Err(VersionError::Missing));
    assert_eq!(
        init(Some(&String::from("3.12"))),
        Err(VersionError::Malformed { text: String::from("3.12") })
    );
}

#[test]
fn version_errors_tell_what_was_read() {
    assert_eq!(VersionError::Missing.describe(), "No version was given.");
    assert_eq!(
        VersionError::Malformed { text: String::from("3.x") }.describe(),
        "Version parsing failed for version 3.x."
    );
    assert_eq!(
        VersionError::MalformedRequirement { text: String::from("@1") }.describe(),
        "Invalid version range @1."
    );
    assert_eq!(
        VersionError::NotMajorMinorPatch { text: String::from("3.12") }.describe(),
        "Version 3.12 does not match the major.minor.patch format."
    );
}

#[test]
fn a_package_is_declared_once() {
    let mut config = create_config(Version::new(3, 12, 1));
    assert_eq!(config.requirement_of("requests"), None);
    config.add_package("requests", &VersionReq::parse("2").unwrap());
    config.add_package("numpy", &VersionReq::any());
    assert_eq!(config.requirement_of("requests"), Some(String::from("^2")));
    assert_eq!(config.requirement_of("numpy"), Some(String::from("*")));
    config.add_package("requests", &VersionReq::parse(">=2.31").unwrap());
    assert_eq!(config.python, Version::new(3, 12, 1));
    assert_eq!(
        config.packages,
        vec![
            Requirement { name: String::from("numpy"), version: String::from("*") },
            Requirement { name: String::from("requests"), version: String::from(">=2.31") },
        ]
    );
    assert_eq!(config.requirement_of("requests"), Some(String::from(">=2.31")));
    assert_eq!(config.requirement_of("Requests"), None);
}

#[test]
fn of_two_declarations_the_later_counts() {
    let config = Config {
        python: Version::new(3, 12, 1),
        packages: vec![
            Requirement { name: String::from("a"), version: String::from("1") },
            Requirement { name: String::from("b"), version: String::from("2") },
            Requirement { name: String::from("a"), version: String::from("3") },
        ],
    };
    assert_eq!(config.requirement_of("a"), Some(String::from("3")));
    assert_eq!(config.requirement_of("b"), Some(String::from("2")));
}

#[test]
fn requirements_are_read_in_order_and_the_first_bad_one_is_reported() {
    let mut config = create_config(Version::new(3, 12, 1));
    assert_eq!(read_requirements(&config), Ok(Vec::new()));
    config.packages.push(Requirement { name: String::from("a"), version: String::from("1.2") });
    config.packages.push(Requirement { name: String::from("b"), version: String::from("*") });
    assert_eq!(
        read_requirements(&config),
        Ok(vec![
            Wanted { name: String::from("a"), requirement: VersionReq::parse("^1.2").unwrap() },
            Wanted { name: String::from("b"), requirement: VersionReq::any() },
        ])
    );
    config.packages.push(Requirement { name: String::from("c"), version: String::from("one") });
    config.packages.push(Requirement { name: String::from("d"), version: String::from("two") });
    let failed = read_requirements(&config).unwrap_err();
    assert_eq!(
        failed,
        ConfigError::UnreadableRequirement { package: String::from("c"), text: String::from("one") }
    );
    assert_eq!(failed.class(), ErrorClass::Corrupt);
    assert_eq!(
        failed.describe(),
        "Couldn't read version of c in config: one is no version range."
    );
}

fn calendar() -> Vec<Cycle> {
    vec![
        Cycle { cycle: String::from("3.13"), latest: String::from("3.13.0") },
        Cycle { cycle: String::from("3.12"), latest: String::from("3.12.7") },
        Cycle { cycle: String::from("3.12"), latest: String::from("3.12.0") },
    ]
}

#[test]
fn the_latest_release_of_a_line() {
    assert_eq!(latest_in(&calendar(), "3.12"), Some(String::from("3.12.7")));
    assert_eq!(latest_in(&calendar(), "3.1"), None);
    assert_eq!(latest_in(&Vec::new(), "3.12"), None);
    let reply = Reply::Answer { status: 200, body: Some(calendar()) };
    assert_eq!(get_full_python_version("3.13", &reply), Ok(Some(String::from("3.13.0"))));
    assert_eq!(get_full_python_version("2.7", &reply), Ok(None));
    assert_eq!(get_full_python_version("3.13", &Reply::Unreachable), Err(CalendarError::Unreachable));
    assert_eq!(
        get_full_python_version("3.13", &Reply::Answer { status: 500, body: Some(calendar()) }),
        Err(CalendarError::Unreachable)
    );
    assert_eq!(
        get_full_python_version("3.13", &Reply::Answer { status: 200, body: None }),
        Err(CalendarError::Invalid)
    );
}

#[test]
fn where_the_sources_of_an_interpreter_are() {
    assert_eq!(
        python_tarball_url(&Version::new(3, 12, 1)),
        "https://www.python.org/ftp/python/3.12.1/Python-3.12.1.tgz"
    );
}

#[test]
fn installer_files_by_operating_system() {
    assert_eq!(
        get_os_specific_details("windows"),
        Some(InstallerFiles {
            script: String::from("main.bat"),
            version_file: String::from("version.txt"),
            executable: String::from("core.exe"),
            server_url: String::from(
                "https://raw.githubusercontent.com/azomDev/pen/main/files/windows/"
            ),
        })
    );
    for os in ["macos", "linux"] {
        assert_eq!(
            get_os_specific_details(os),
            Some(InstallerFiles {
                script: String::from("main.sh"),
                version_file: String::from("version.txt"),
                executable: String::from("core"),
                server_url: format!(
                    "https://raw.githubusercontent.com/azomDev/pen/main/files/{}/",
                    os
                ),
            })
        );
    }
    assert_eq!(get_os_specific_details("freebsd"), None);
    assert_eq!(get_os_specific_details(""), None);
    assert_eq!(get_os_specific_details("Linux"), None);
}
