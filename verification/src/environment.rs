//! The wanted state of a virtual environment: its directories, its
//! descriptor file, the links to the interpreter, and one link for every
//! top-level entry of every unpacked package.

use vstd::prelude::*;
use vstd::utf8::encode_utf8;
use crate::config::Config;
use crate::converge::{first_wanted, independent, keep_apart};
use crate::paths::{get_python_path, join, join_path, python_path, Layout};
use crate::reconcile::{desires, ConflictPolicy, Desired, DesiredEntry, Link, SymlinkSpec};
use crate::version::{Version, VersionModel};

verus! {

/// An unpacked package as the caller found it: its directory and the names
/// of the entries directly inside it.
#[derive(Clone, Debug, PartialEq, Eq)]
pub struct CachedPackage {
    pub path: String,
    pub entries: Vec<String>,
}

/// The models of a list of links.
pub open spec fn links(specs: Seq<SymlinkSpec>) -> Seq<Link> {
    Seq::new(specs.len(), |i: int| specs[i]@)
}

/// The links as wanted entries.
pub open spec fn as_entries(links: Seq<Link>) -> Seq<Desired> {
    Seq::new(links.len(), |i: int| Desired::Link(links[i]))
}

/// The text of the descriptor file of an environment at `venv`, whose
/// interpreter of `version` is installed in `python_dir`.
pub open spec fn descriptor_text(python_dir: Seq<char>, version: VersionModel, venv: Seq<char>) -> Seq<
    char,
> {
    "# Created using pen\nhome = "@ + python_dir
        + "/bin\ninclude-system-site-packages = false\nversion = "@ + version.text()
        + "\nexecutable = "@ + python_dir + "/bin/python\ncommand = "@ + python_dir
        + "/bin/python -m venv "@ + venv + "\n"@
}

/// The directory of an environment that holds the links to the interpreter.
pub open spec fn bin_dir(venv: Seq<char>) -> Seq<char> {
    join(venv, "bin"@)
}

/// The directory of an environment that holds the links to the packages.
pub open spec fn site_packages(venv: Seq<char>, version: VersionModel) -> Seq<char> {
    join(venv, "lib/python"@ + version.short() + "/site-packages"@)
}

/// The links to an interpreter installed in `python_dir`, inside the
/// directory `bin`: `python` names the interpreter's program, and `python3`
/// and `python` followed by `short` name `python`.  `policy` says what is to
/// happen where the place of a link is taken.
pub open spec fn interpreter_links(
    python_dir: Seq<char>,
    bin: Seq<char>,
    short: Seq<char>,
    policy: ConflictPolicy,
) -> Seq<Link> {
    seq![
        Link { link: join(bin, "python"@), target: join(python_dir, "bin/python3"@), policy },
        Link { link: join(bin, "python3"@), target: join(bin, "python"@), policy },
        Link { link: join(bin, "python"@ + short), target: join(bin, "python"@), policy },
    ]
}

/// The links to the entries of one unpacked package, inside the directory
/// `site`: one for each entry, under the entry's name, to the entry.
pub open spec fn package_links(
    package_dir: Seq<char>,
    entries: Seq<String>,
    site: Seq<char>,
    policy: ConflictPolicy,
) -> Seq<Link> {
    Seq::new(
        entries.len(),
        |i: int|
            Link {
                link: join(site, entries[i]@),
                target: join(package_dir, entries[i]@),
                policy,
            },
    )
}

/// The links to the entries of all the packages, package by package.
pub open spec fn all_package_links(
    packages: Seq<CachedPackage>,
    site: Seq<char>,
    policy: ConflictPolicy,
) -> Seq<Link>
    decreases packages.len(),
{
    if packages.len() == 0 {
        Seq::empty()
    } else {
        all_package_links(packages.drop_last(), site, policy) + package_links(
            packages.last().path@,
            packages.last().entries@,
            site,
            policy,
        )
    }
}

/// The directories and the descriptor file of the environment at `venv`:
/// the directory of the links to the interpreter, the directory of the links
/// to the packages, and the descriptor file, in this order.
pub open spec fn skeleton(home: Seq<char>, version: VersionModel, venv: Seq<char>) -> Seq<Desired> {
    seq![
        Desired::Directory { path: bin_dir(venv) },
        Desired::Directory { path: site_packages(venv, version) },
        Desired::Document {
            path: join(venv, "pyvenv.cfg"@),
            data: encode_utf8(descriptor_text(python_path(home, version), version, venv)),
        },
    ]
}

/// Everything that is wanted of the environment at `venv`: the directories
/// and the descriptor file, the links to the interpreter and the links to
/// the packages, in this order.
pub open spec fn desired_environment(
    home: Seq<char>,
    version: VersionModel,
    venv: Seq<char>,
    packages: Seq<CachedPackage>,
    interpreter_policy: ConflictPolicy,
    package_policy: ConflictPolicy,
) -> Seq<Desired> {
    skeleton(home, version, venv) + as_entries(
        interpreter_links(
            python_path(home, version),
            bin_dir(venv),
            version.short(),
            interpreter_policy,
        ),
    ) + as_entries(all_package_links(packages, site_packages(venv, version), package_policy))
}

/// The text of the descriptor file `pyvenv.cfg`.
pub fn pyvenv_cfg(python_dir: &str, version: &Version, venv: &str) -> (text: String)
    ensures
        text@ == descriptor_text(python_dir@, version@, venv@),
{
    let mut text = String::from_str("# Created using pen\nhome = ");
    text.append(python_dir);
    text.append("/bin\ninclude-system-site-packages = false\nversion = ");
    text.append(version.to_text().as_str());
    text.append("\nexecutable = ");
    text.append(python_dir);
    text.append("/bin/python\ncommand = ");
    text.append(python_dir);
    text.append("/bin/python -m venv ");
    text.append(venv);
    text.append("\n");
    text
}

/// The links to the interpreter installed in `python_path`, to stand in the
/// directory `destination_path`.  `policy` says what is to happen where the
/// place of a link is taken.
pub fn link_python(
    python_path: &str,
    destination_path: &str,
    py_version_short: &str,
    policy: ConflictPolicy,
) -> (specs: Vec<SymlinkSpec>)
    ensures
        links(specs@) == interpreter_links(
            python_path@,
            destination_path@,
            py_version_short@,
            policy,
        ),
{
    let python = join_path(destination_path, "python");
    let mut versioned = String::from_str("python");
    versioned.append(py_version_short);
    let mut specs: Vec<SymlinkSpec> = Vec::new();
    specs.push(
        SymlinkSpec { link: python.clone(), target: join_path(python_path, "bin/python3"), policy },
    );
    specs.push(
        SymlinkSpec {
            link: join_path(destination_path, "python3"),
            target: python.clone(),
            policy,
        },
    );
    specs.push(
        SymlinkSpec {
            link: join_path(destination_path, versioned.as_str()),
            target: python,
            policy,
        },
    );
    assert(links(specs@) =~= interpreter_links(
        python_path@,
        destination_path@,
        py_version_short@,
        policy,
    ));
    specs
}

/// The links to the entries of the unpacked package at `package_path`, to
/// stand in the directory `site_packages_path`.  `policy` says what is to
/// happen where the place of a link is taken.
pub fn link_package(
    package_path: &str,
    entries: &Vec<String>,
    site_packages_path: &str,
    policy: ConflictPolicy,
) -> (specs: Vec<SymlinkSpec>)
    ensures
        links(specs@) == package_links(package_path@, entries@, site_packages_path@, policy),
{
    let mut specs: Vec<SymlinkSpec> = Vec::new();
    let mut i: usize = 0;
    while i < entries.len()
        invariant
            i <= entries.len(),
            specs@.len() == i,
            forall|k: int|
                0 <= k < i ==> (#[trigger] specs@[k])@ == (Link {
                    link: join(site_packages_path@, entries@[k]@),
                    target: join(package_path@, entries@[k]@),
                    policy,
                }),
        decreases entries.len() - i,
    {
        let name = entries[i].as_str();
        specs.push(
            SymlinkSpec {
                link: join_path(site_packages_path, name),
                target: join_path(package_path, name),
                policy,
            },
        );
        i += 1;
    }
    assert(links(specs@) =~= package_links(package_path@, entries@, site_packages_path@, policy));
    specs
}

/// Appends the links to `entries`, as wanted entries.
fn push_links(entries: &mut Vec<DesiredEntry>, specs: &Vec<SymlinkSpec>)
    ensures
        desires(final(entries)@) == desires(old(entries)@) + as_entries(links(specs@)),
{
    let mut i: usize = 0;
    assert(desires(entries@) =~= desires(old(entries)@) + as_entries(links(specs@.take(0))));
    while i < specs.len()
        invariant
            i <= specs.len(),
            desires(entries@) == desires(old(entries)@) + as_entries(links(specs@.take(i as int))),
        decreases specs.len() - i,
    {
        let spec = &specs[i];
        let ghost before = entries@;
        entries.push(
            DesiredEntry::Link(
                SymlinkSpec {
                    link: spec.link.clone(),
                    target: spec.target.clone(),
                    policy: spec.policy,
                },
            ),
        );
        proof {
            assert(desires(entries@) =~= desires(before).push(Desired::Link(spec@)));
            assert(as_entries(links(specs@.take(i + 1))) =~= as_entries(
                links(specs@.take(i as int)),
            ).push(Desired::Link(spec@)));
            assert(desires(entries@) =~= desires(old(entries)@) + as_entries(
                links(specs@.take(i + 1)),
            ));
        }
        i += 1;
    }
    assert(specs@.take(specs.len() as int) =~= specs@);
}

/// The site-packages directory of the environment at `destination_path`.
fn site_packages_path(version: &Version, destination_path: &str) -> (path: String)
    ensures
        path@ == site_packages(destination_path@, version@),
{
    let mut lib = String::from_str("lib/python");
    lib.append(version.short().as_str());
    lib.append("/site-packages");
    join_path(destination_path, lib.as_str())
}

/// The directories and the descriptor file of the environment at
/// `destination_path` for the declared state `config`.  They can be brought
/// about before the interpreter is installed and before any package is
/// looked for.
pub fn create_skeleton(config: &Config, layout: &Layout, destination_path: &str) -> (entries: Vec<
    DesiredEntry,
>)
    ensures
        desires(entries@) == skeleton(layout.home@, config.python@, destination_path@),
{
    let python_dir = get_python_path(layout, &config.python);
    let descriptor = pyvenv_cfg(python_dir.as_str(), &config.python, destination_path);
    let mut entries: Vec<DesiredEntry> = Vec::new();
    entries.push(DesiredEntry::Directory { path: join_path(destination_path, "bin") });
    entries.push(
        DesiredEntry::Directory { path: site_packages_path(&config.python, destination_path) },
    );
    entries.push(
        DesiredEntry::Document {
            path: join_path(destination_path, "pyvenv.cfg"),
            data: descriptor.as_str().as_bytes_vec(),
        },
    );
    assert(desires(entries@) =~= skeleton(layout.home@, config.python@, destination_path@));
    entries
}

/// Everything that is wanted of the environment at `destination_path` for
/// the declared state `config`, given the packages as they were unpacked.
/// The two policies say what is to happen where the place of a link to the
/// interpreter, or of a link to a package, is taken.
///
/// Of what is wanted at or around one place, the first stays: where two
/// packages bring an entry of the same name, the link to the first is
/// wanted and the other is not.  So every two entries of the list keep
/// apart, and a run over it is idempotent.
pub fn create_virtual_env(
    config: &Config,
    layout: &Layout,
    destination_path: &str,
    packages: &Vec<CachedPackage>,
    interpreter_policy: ConflictPolicy,
    package_policy: ConflictPolicy,
) -> (entries: Vec<DesiredEntry>)
    ensures
        desires(entries@) == first_wanted(
            desired_environment(
                layout.home@,
                config.python@,
                destination_path@,
                packages@,
                interpreter_policy,
                package_policy,
            ),
        ),
        independent(desires(entries@)),
{
    let python_dir = get_python_path(layout, &config.python);
    let short = config.python.short();
    let bin = join_path(destination_path, "bin");
    let site = site_packages_path(&config.python, destination_path);

    let mut entries = create_skeleton(config, layout, destination_path);
    let interpreter = link_python(
        python_dir.as_str(),
        bin.as_str(),
        short.as_str(),
        interpreter_policy,
    );
    push_links(&mut entries, &interpreter);
    let ghost middle = desires(entries@);

    let mut i: usize = 0;
    assert(packages@.take(0) =~= Seq::<CachedPackage>::empty());
    assert(middle + as_entries(Seq::<Link>::empty()) =~= middle);
    while i < packages.len()
        invariant
            i <= packages.len(),
            site@ == site_packages(destination_path@, config.python@),
            desires(entries@) == middle + as_entries(
                all_package_links(packages@.take(i as int), site@, package_policy),
            ),
        decreases packages.len() - i,
    {
        let package = &packages[i];
        let specs = link_package(
            package.path.as_str(),
            &package.entries,
            site.as_str(),
            package_policy,
        );
        push_links(&mut entries, &specs);
        proof {
            assert(packages@.take(i + 1).drop_last() =~= packages@.take(i as int));
            assert(packages@.take(i + 1).last() == *package);
            let before = all_package_links(packages@.take(i as int), site@, package_policy);
            assert(as_entries(before + links(specs@)) =~= as_entries(before) + as_entries(
                links(specs@),
            ));
            assert(desires(entries@) =~= middle + as_entries(before + links(specs@)));
        }
        i += 1;
    }
    assert(packages@.take(packages.len() as int) =~= packages@);
    keep_apart(&entries)
}

} // verus!
