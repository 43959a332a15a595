use pen::config::create_config;
use pen::converge::{entries_apart, is_below, keep_apart};
use pen::environment::{
    create_skeleton, create_virtual_env, link_package, link_python, pyvenv_cfg, CachedPackage,
};
use pen::error::ErrorClass;
use pen::fs::{FsAction, PathState};
use pen::memory::{MemoryNode, MemoryTree};
use pen::paths::{get_python_path, Layout};
use pen::reconcile::{
    classify, reconcile_entry, symlink, ConflictPolicy, DesiredEntry, LinkState, ReconcileError,
    SymlinkSpec,
};
use pen::version::Version;

fn spec(link: &str, target: &str, policy: ConflictPolicy) -> SymlinkSpec {
    SymlinkSpec { link: String::from(link), target: String::from(target), policy }
}

fn create(link: &str, target: &str) -> FsAction {
    FsAction::CreateSymlink { target: String::from(target), link: String::from(link) }
}

fn remove_file(path: &str) -> FsAction {
    FsAction::RemoveFile { path: String::from(path) }
}

fn remove_tree(path: &str) -> FsAction {
    FsAction::RemoveTree { path: String::from(path) }
}

fn link_to(target: &str) -> PathState {
    PathState::Symlink(String::from(target))
}

fn conflict(path: &str) -> Result<Vec<FsAction>, ReconcileError> {
    Err(ReconcileError::Conflict { path: String::from(path) })
}

const ALL: [ConflictPolicy; 3] =
    [ConflictPolicy::ReplaceIfWrong, ConflictPolicy::SkipIfPresent, ConflictPolicy::ErrorIfPresent];

#[test]
fn the_four_states_of_a_place() {
    let wanted = spec("/v/bin/python", "/py/bin/python3", ConflictPolicy::ReplaceIfWrong);
    assert_eq!(classify(&wanted, &PathState::Absent), LinkState::Absent);
    assert_eq!(classify(&wanted, &link_to("/py/bin/python3")), LinkState::CorrectLink);
    assert_eq!(classify(&wanted, &link_to("/old/bin/python3")), LinkState::WrongLink);
    assert_eq!(classify(&wanted, &link_to("")), LinkState::WrongLink);
    assert_eq!(classify(&wanted, &PathState::File), LinkState::Conflict);
    assert_eq!(classify(&wanted, &PathState::Directory), LinkState::Conflict);
}

#[test]
fn a_missing_link_is_created_under_every_policy() {
    for policy in ALL {
        assert_eq!(symlink(&spec("/l", "/t", policy), &PathState::Absent), Ok(vec![create("/l", "/t")]));
    }
}

#[test]
fn a_correct_link_is_left_untouched_under_every_policy() {
    for policy in ALL {
        assert_eq!(symlink(&spec("/l", "/t", policy), &link_to("/t")), Ok(Vec::new()));
    }
}

#[test]
fn a_wrong_link_is_replaced_skipped_or_reported() {
    let found = link_to("/stale");
    assert_eq!(
        symlink(&spec("/l", "/t", ConflictPolicy::ReplaceIfWrong), &found),
        Ok(vec![remove_file("/l"), create("/l", "/t")])
    );
    assert_eq!(symlink(&spec("/l", "/t", ConflictPolicy::SkipIfPresent), &found), Ok(Vec::new()));
    assert_eq!(symlink(&spec("/l", "/t", ConflictPolicy::ErrorIfPresent), &found), conflict("/l"));
}

#[test]
fn a_file_or_directory_in_the_way_is_replaced_skipped_or_reported() {
    let replace = spec("/sp/foo", "/cache/foo_1/foo", ConflictPolicy::ReplaceIfWrong);
    assert_eq!(
        symlink(&replace, &PathState::Directory),
        Ok(vec![remove_tree("/sp/foo"), create("/sp/foo", "/cache/foo_1/foo")])
    );
    assert_eq!(
        symlink(&replace, &PathState::File),
        Ok(vec![remove_file("/sp/foo"), create("/sp/foo", "/cache/foo_1/foo")])
    );
    let skip = spec("/sp/foo", "/cache/foo_1/foo", ConflictPolicy::SkipIfPresent);
    assert_eq!(symlink(&skip, &PathState::Directory), Ok(Vec::new()));
    assert_eq!(symlink(&skip, &PathState::File), Ok(Vec::new()));
    let report = spec("/sp/foo", "/cache/foo_1/foo", ConflictPolicy::ErrorIfPresent);
    let failed = symlink(&report, &PathState::Directory).unwrap_err();
    assert_eq!(failed, ReconcileError::Conflict { path: String::from("/sp/foo") });
    assert_eq!(failed.class(), ErrorClass::Conflict);
    assert_eq!(failed.describe(), "Something that may not be removed already exists at /sp/foo.");
    assert_eq!(symlink(&report, &PathState::File), conflict("/sp/foo"));
}

#[test]
fn a_directory_is_created_and_displaces_a_file() {
    let wanted = DesiredEntry::Directory { path: String::from("/v/bin") };
    let make = FsAction::CreateDirAll { path: String::from("/v/bin") };
    assert_eq!(reconcile_entry(&wanted, &PathState::Absent), Ok(vec![make.clone()]));
    assert_eq!(reconcile_entry(&wanted, &PathState::File), Ok(vec![remove_file("/v/bin"), make]));
    assert_eq!(reconcile_entry(&wanted, &PathState::Directory), Ok(Vec::new()));
    assert_eq!(reconcile_entry(&wanted, &link_to("/elsewhere")), Ok(Vec::new()));
}

#[test]
fn a_document_is_written_but_not_over_a_directory() {
    let wanted = DesiredEntry::Document { path: String::from("/v/pyvenv.cfg"), data: vec![1, 2] };
    let write = FsAction::WriteFile { path: String::from("/v/pyvenv.cfg"), data: vec![1, 2] };
    assert_eq!(reconcile_entry(&wanted, &PathState::Absent), Ok(vec![write.clone()]));
    assert_eq!(reconcile_entry(&wanted, &PathState::File), Ok(vec![write.clone()]));
    assert_eq!(
        reconcile_entry(&wanted, &link_to("/x")),
        Ok(vec![remove_file("/v/pyvenv.cfg"), write])
    );
    assert_eq!(reconcile_entry(&wanted, &PathState::Directory), conflict("/v/pyvenv.cfg"));
}

#[test]
fn a_link_entry_goes_by_the_link_rules() {
    let wanted = DesiredEntry::Link(spec("/l", "/t", ConflictPolicy::ErrorIfPresent));
    assert_eq!(reconcile_entry(&wanted, &PathState::Absent), Ok(vec![create("/l", "/t")]));
    assert_eq!(reconcile_entry(&wanted, &PathState::File), conflict("/l"));
}

#[test]
fn below_means_after_a_slash() {
    assert!(is_below("/a/b", "/a"));
    assert!(is_below("/a/", "/a"));
    assert!(is_below("/a/b/c", "/a"));
    assert!(!is_below("/a", "/a"));
    assert!(!is_below("/ab", "/a"));
    assert!(!is_below("/a", "/a/b"));
    assert!(!is_below("", ""));
    assert!(is_below("/", ""));
}

#[test]
fn entries_keep_apart_unless_one_can_reach_the_other() {
    let dir = DesiredEntry::Directory { path: String::from("/v/bin") };
    let inside = DesiredEntry::Link(spec("/v/bin/python", "/t", ConflictPolicy::ReplaceIfWrong));
    let deeper = DesiredEntry::Link(spec("/v/bin/python/x", "/t", ConflictPolicy::ReplaceIfWrong));
    let sibling = DesiredEntry::Link(spec("/v/bin/python3", "/t", ConflictPolicy::ReplaceIfWrong));
    let doc = DesiredEntry::Document { path: String::from("/v/bin/python/x"), data: Vec::new() };
    assert!(entries_apart(&dir, &inside));
    assert!(entries_apart(&inside, &dir));
    assert!(entries_apart(&inside, &sibling));
    assert!(!entries_apart(&inside, &inside));
    assert!(!entries_apart(&inside, &deeper));
    assert!(!entries_apart(&deeper, &inside));
    assert!(!entries_apart(&doc, &inside));
    assert!(!entries_apart(&doc, &deeper));
    let nested_dir = DesiredEntry::Directory { path: String::from("/v/bin/sub") };
    assert!(entries_apart(&dir, &nested_dir));
    let apart = vec![dir.clone(), inside.clone(), sibling.clone()];
    assert_eq!(keep_apart(&apart), apart);
    assert_eq!(
        keep_apart(&vec![dir.clone(), inside.clone(), sibling.clone(), deeper.clone(), doc]),
        apart
    );
    assert_eq!(keep_apart(&vec![deeper.clone(), inside, sibling.clone()]), vec![deeper, sibling]);
    assert_eq!(keep_apart(&vec![dir.clone(), dir.clone()]), vec![dir]);
    assert_eq!(keep_apart(&Vec::new()), Vec::new());
}

#[test]
fn policies_by_name() {
    assert_eq!(ConflictPolicy::parse("replace-if-wrong"), Some(ConflictPolicy::ReplaceIfWrong));
    assert_eq!(ConflictPolicy::parse("skip-if-present"), Some(ConflictPolicy::SkipIfPresent));
    assert_eq!(ConflictPolicy::parse("error-if-present"), Some(ConflictPolicy::ErrorIfPresent));
    assert_eq!(ConflictPolicy::parse("replace"), None);
    assert_eq!(ConflictPolicy::parse(""), None);
}

#[test]
fn interpreter_links() {
    for policy in ALL {
        let links = link_python("/h/.cache/pen/python/3.12.1", "/p/.venv/bin", "3.12", policy);
        assert_eq!(
            links,
            vec![
                spec("/p/.venv/bin/python", "/h/.cache/pen/python/3.12.1/bin/python3", policy),
                spec("/p/.venv/bin/python3", "/p/.venv/bin/python", policy),
                spec("/p/.venv/bin/python3.12", "/p/.venv/bin/python", policy),
            ]
        );
    }
}

#[test]
fn package_links() {
    let entries = vec![String::from("foo"), String::from("foo-1.0.dist-info")];
    assert_eq!(
        link_package("/c/foo_1.0.0", &entries, "/v/lib/python3.12/site-packages", ConflictPolicy::ErrorIfPresent),
        vec![
            spec(
                "/v/lib/python3.12/site-packages/foo",
                "/c/foo_1.0.0/foo",
                ConflictPolicy::ErrorIfPresent
            ),
            spec(
                "/v/lib/python3.12/site-packages/foo-1.0.dist-info",
                "/c/foo_1.0.0/foo-1.0.dist-info",
                ConflictPolicy::ErrorIfPresent
            ),
        ]
    );
    assert_eq!(link_package("/c/x", &Vec::new(), "/sp", ConflictPolicy::SkipIfPresent), Vec::new());
}

#[test]
fn descriptor_file() {
    let text = pyvenv_cfg("/h/.cache/pen/python/3.12.1", &Version::new(3, 12, 1), "/p/.venv");
    assert_eq!(
        text,
        "# Created using pen\n\
         home = /h/.cache/pen/python/3.12.1/bin\n\
         include-system-site-packages = false\n\
         version = 3.12.1\n\
         executable = /h/.cache/pen/python/3.12.1/bin/python\n\
         command = /h/.cache/pen/python/3.12.1/bin/python -m venv /p/.venv\n"
    );
}

fn foo_and_bar() -> Vec<CachedPackage> {
    vec![
        CachedPackage {
            path: String::from("/h/.cache/pen/packages/foo_1.0.0"),
            entries: vec![String::from("foo"), String::from("foo-1.0.0.dist-info")],
        },
        CachedPackage {
            path: String::from("/h/.cache/pen/packages/bar_2.1.0"),
            entries: vec![String::from("bar.py")],
        },
    ]
}

#[test]
fn the_wanted_environment() {
    let config = create_config(Version::new(3, 12, 1));
    let layout = Layout::new("/h");
    let wanted = create_virtual_env(
        &config,
        &layout,
        "/p/.venv",
        &foo_and_bar(),
        ConflictPolicy::ReplaceIfWrong,
        ConflictPolicy::ErrorIfPresent,
    );
    assert_eq!(wanted[..3], create_skeleton(&config, &layout, "/p/.venv")[..]);
    let python_dir = get_python_path(&layout, &config.python);
    assert_eq!(python_dir, "/h/.cache/pen/python/3.12.1");
    let site = "/p/.venv/lib/python3.12/site-packages";
    let replace = ConflictPolicy::ReplaceIfWrong;
    let report = ConflictPolicy::ErrorIfPresent;
    assert_eq!(
        wanted,
        vec![
            DesiredEntry::Directory { path: String::from("/p/.venv/bin") },
            DesiredEntry::Directory { path: String::from(site) },
            DesiredEntry::Document {
                path: String::from("/p/.venv/pyvenv.cfg"),
                data: pyvenv_cfg(&python_dir, &config.python, "/p/.venv").into_bytes(),
            },
            DesiredEntry::Link(spec(
                "/p/.venv/bin/python",
                "/h/.cache/pen/python/3.12.1/bin/python3",
                replace
            )),
            DesiredEntry::Link(spec("/p/.venv/bin/python3", "/p/.venv/bin/python", replace)),
            DesiredEntry::Link(spec("/p/.venv/bin/python3.12", "/p/.venv/bin/python", replace)),
            DesiredEntry::Link(spec(
                &format!("{}/foo", site),
                "/h/.cache/pen/packages/foo_1.0.0/foo",
                report
            )),
            DesiredEntry::Link(spec(
                &format!("{}/foo-1.0.0.dist-info", site),
                "/h/.cache/pen/packages/foo_1.0.0/foo-1.0.0.dist-info",
                report
            )),
            DesiredEntry::Link(spec(
                &format!("{}/bar.py", site),
                "/h/.cache/pen/packages/bar_2.1.0/bar.py",
                report
            )),
        ]
    );
    assert_eq!(keep_apart(&wanted), wanted);
}

#[test]
fn of_two_packages_with_one_entry_name_the_first_is_linked() {
    let config = create_config(Version::new(3, 12, 1));
    let layout = Layout::new("/h");
    let replace = ConflictPolicy::ReplaceIfWrong;
    let mut packages = foo_and_bar();
    packages[1].entries.push(String::from("foo"));
    let wanted = create_virtual_env(&config, &layout, "/p/.venv", &packages, replace, replace);
    assert_eq!(
        wanted,
        create_virtual_env(&config, &layout, "/p/.venv", &foo_and_bar(), replace, replace)
    );
    let foo: Vec<&DesiredEntry> = wanted
        .iter()
        .filter(|entry| match entry {
            DesiredEntry::Link(link) => link.link == "/p/.venv/lib/python3.12/site-packages/foo",
            _ => false,
        })
        .collect();
    assert_eq!(
        foo,
        vec![&DesiredEntry::Link(spec(
            "/p/.venv/lib/python3.12/site-packages/foo",
            "/h/.cache/pen/packages/foo_1.0.0/foo",
            replace
        ))]
    );
}

#[test]
fn an_entry_name_that_reaches_into_another_is_not_linked() {
    let config = create_config(Version::new(3, 9, 0));
    let layout = Layout::new("/h");
    let skip = ConflictPolicy::SkipIfPresent;
    let packages = vec![CachedPackage {
        path: String::from("/c/foo_1.0.0"),
        entries: vec![String::from("foo"), String::from("foo/inner"), String::from("bar")],
    }];
    let wanted = create_virtual_env(&config, &layout, "/v", &packages, skip, skip);
    assert_eq!(wanted.len(), 8);
    assert_eq!(
        wanted[6..],
        [
            DesiredEntry::Link(spec("/v/lib/python3.9/site-packages/foo", "/c/foo_1.0.0/foo", skip)),
            DesiredEntry::Link(spec("/v/lib/python3.9/site-packages/bar", "/c/foo_1.0.0/bar", skip)),
        ]
    );
}

fn environment() -> Vec<DesiredEntry> {
    create_virtual_env(
        &create_config(Version::new(3, 12, 1)),
        &Layout::new("/h"),
        "/p/.venv",
        &foo_and_bar(),
        ConflictPolicy::ReplaceIfWrong,
        ConflictPolicy::ReplaceIfWrong,
    )
}

#[test]
fn reconciling_twice_changes_nothing_the_second_time() {
    let wanted = environment();
    let mut tree = MemoryTree::new();
    tree.put("/p/.venv/bin/python", MemoryNode::Link(String::from("/stale/bin/python3")));
    tree.put("/p/.venv/lib/python3.12/site-packages/foo", MemoryNode::Directory);
    tree.put("/p/.venv/lib/python3.12/site-packages/foo/old.py", MemoryNode::File(vec![1]));
    tree.put("/p/.venv/pyvenv.cfg", MemoryNode::File(b"old".to_vec()));
    tree.put("/p/unrelated", MemoryNode::File(vec![7]));
    assert_eq!(tree.reconcile(&wanted), Ok(()));
    let after_first = tree.clone();
    for entry in &wanted {
        let path = match entry {
            DesiredEntry::Directory { path } => path,
            DesiredEntry::Document { path, .. } => path,
            DesiredEntry::Link(link) => &link.link,
        };
        let plan = reconcile_entry(entry, &tree.look(path)).unwrap();
        match entry {
            DesiredEntry::Document { .. } => assert_eq!(plan.len(), 1),
            _ => assert_eq!(plan, Vec::new()),
        }
    }
    assert_eq!(tree.reconcile(&wanted), Ok(()));
    for entry in &after_first.entries {
        assert_eq!(tree.node(&entry.path), after_first.node(&entry.path));
    }
    for entry in &tree.entries {
        assert_eq!(tree.node(&entry.path), after_first.node(&entry.path));
    }
    assert_eq!(tree.node("/p/unrelated"), Some(&MemoryNode::File(vec![7])));
    assert_eq!(tree.node("/p/.venv/lib/python3.12/site-packages/foo/old.py"), None);
}

#[test]
fn a_fresh_environment_holds_what_is_wanted() {
    let mut tree = MemoryTree::new();
    assert_eq!(tree.reconcile(&environment()), Ok(()));
    assert_eq!(tree.look("/p/.venv/bin"), PathState::Directory);
    assert_eq!(tree.look("/p/.venv/lib/python3.12/site-packages"), PathState::Directory);
    assert_eq!(tree.look("/p/.venv/pyvenv.cfg"), PathState::File);
    assert_eq!(
        tree.look("/p/.venv/bin/python"),
        link_to("/h/.cache/pen/python/3.12.1/bin/python3")
    );
    assert_eq!(tree.look("/p/.venv/bin/python3"), link_to("/p/.venv/bin/python"));
    assert_eq!(tree.look("/p/.venv/bin/python3.12"), link_to("/p/.venv/bin/python"));
    assert_eq!(
        tree.look("/p/.venv/lib/python3.12/site-packages/bar.py"),
        link_to("/h/.cache/pen/packages/bar_2.1.0/bar.py")
    );
    assert_eq!(tree.look("/p/.venv/bin/pip"), PathState::Absent);
    let text = pyvenv_cfg("/h/.cache/pen/python/3.12.1", &Version::new(3, 12, 1), "/p/.venv");
    assert_eq!(tree.node("/p/.venv/pyvenv.cfg"), Some(&MemoryNode::File(text.into_bytes())));
}

#[test]
fn a_stale_interpreter_link_is_corrected_and_a_correct_alias_is_kept() {
    let mut tree = MemoryTree::new();
    tree.put("/p/.venv/bin", MemoryNode::Directory);
    tree.put("/p/.venv/bin/python", MemoryNode::Link(String::from("/h/.cache/pen/python/3.11.0/bin/python3")));
    tree.put("/p/.venv/bin/python3", MemoryNode::Link(String::from("/p/.venv/bin/python")));
    let links = link_python(
        "/h/.cache/pen/python/3.12.1",
        "/p/.venv/bin",
        "3.12",
        ConflictPolicy::ReplaceIfWrong,
    );
    let python = symlink(&links[0], &tree.look("/p/.venv/bin/python")).unwrap();
    assert_eq!(
        python,
        vec![
            remove_file("/p/.venv/bin/python"),
            create("/p/.venv/bin/python", "/h/.cache/pen/python/3.12.1/bin/python3"),
        ]
    );
    tree.run(&python);
    assert_eq!(
        tree.look("/p/.venv/bin/python"),
        link_to("/h/.cache/pen/python/3.12.1/bin/python3")
    );
    let alias = symlink(&links[1], &tree.look("/p/.venv/bin/python3")).unwrap();
    assert_eq!(alias, Vec::new());
    tree.run(&alias);
    assert_eq!(tree.look("/p/.venv/bin/python3"), link_to("/p/.venv/bin/python"));
}

#[test]
fn a_real_directory_in_site_packages_gives_way_to_the_link() {
    let mut tree = MemoryTree::new();
    tree.put("/sp/foo", MemoryNode::Directory);
    tree.put("/sp/foo/__init__.py", MemoryNode::File(vec![1, 2, 3]));
    tree.put("/sp/foobar", MemoryNode::File(vec![4]));
    let wanted = spec("/sp/foo", "/cache/foo_1.0.0/foo", ConflictPolicy::ReplaceIfWrong);
    let plan = symlink(&wanted, &tree.look("/sp/foo")).unwrap();
    assert_eq!(plan, vec![remove_tree("/sp/foo"), create("/sp/foo", "/cache/foo_1.0.0/foo")]);
    tree.run(&plan);
    assert_eq!(tree.look("/sp/foo"), link_to("/cache/foo_1.0.0/foo"));
    assert_eq!(tree.look("/sp/foo/__init__.py"), PathState::Absent);
    assert_eq!(tree.look("/sp/foobar"), PathState::File);
}

#[test]
fn a_run_stops_at_the_first_conflict_and_keeps_what_was_done() {
    let entries = vec![
        DesiredEntry::Directory { path: String::from("/v/bin") },
        DesiredEntry::Link(spec("/v/a", "/t/a", ConflictPolicy::ErrorIfPresent)),
        DesiredEntry::Link(spec("/v/b", "/t/b", ConflictPolicy::ErrorIfPresent)),
        DesiredEntry::Link(spec("/v/c", "/t/c", ConflictPolicy::ErrorIfPresent)),
    ];
    let mut tree = MemoryTree::new();
    tree.put("/v/b", MemoryNode::File(Vec::new()));
    let failed = tree.reconcile(&entries);
    assert_eq!(failed, Err(ReconcileError::Conflict { path: String::from("/v/b") }));
    assert_eq!(tree.look("/v/bin"), PathState::Directory);
    assert_eq!(tree.look("/v/a"), link_to("/t/a"));
    assert_eq!(tree.look("/v/b"), PathState::File);
    assert_eq!(tree.look("/v/c"), PathState::Absent);
    let before = tree.clone();
    assert_eq!(tree.reconcile(&entries), failed);
    for path in ["/v/bin", "/v/a", "/v/b", "/v/c"] {
        assert_eq!(tree.node(path), before.node(path));
    }
}
