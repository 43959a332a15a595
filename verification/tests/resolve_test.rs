use pen::error::ErrorClass;
use pen::registry::{
    package_url, release_url, Artifact, ArtifactKind, Package, PackageMetadata, Release, Reply,
    Tags,
};
use pen::resolve::{
    collect_candidates, find_matching_package_version, newest_of, pick_newest, ResolveError,
    Resolutions,
};
use pen::version::{Version, VersionReq};

fn file(name: &str) -> Artifact {
    Artifact { filename: String::from(name), url: format!("https://files.example/{}", name) }
}

fn release(version: &str, files: usize) -> Release {
    let mut artifacts = Vec::new();
    for i in 0..files {
        artifacts.push(file(&format!("demo-{}-{}.tar.gz", version, i)));
    }
    Release { version: String::from(version), artifacts }
}

fn listing(name: &str, releases: Vec<Release>) -> Reply<PackageMetadata> {
    Reply::Answer {
        status: 200,
        body: Some(PackageMetadata { name: String::from(name), releases }),
    }
}

fn req(text: &str) -> VersionReq {
    VersionReq::parse(text).unwrap()
}

#[test]
fn resolver_picks_the_greatest_version_that_meets_the_requirement() {
    let reply = listing(
        "demo",
        vec![release("1.0.0", 1), release("1.2.0", 1), release("1.2.0-pre", 1), release("2.0.0", 1)],
    );
    let resolved = find_matching_package_version("demo", &req("^1"), &reply);
    assert_eq!(
        resolved,
        Ok(Package { name: String::from("demo"), version: Version::new(1, 2, 0) })
    );
}

#[test]
fn resolver_does_not_depend_on_the_order_of_the_listing() {
    let reply = listing(
        "demo",
        vec![release("2.0.0", 1), release("1.2.0-pre", 1), release("1.2.0", 1), release("1.0.0", 1)],
    );
    let resolved = find_matching_package_version("demo", &req("^1"), &reply).unwrap();
    assert_eq!(resolved.version.to_text(), "1.2.0");
}

#[test]
fn resolver_never_picks_a_release_without_files() {
    let reply = listing("demo", vec![release("1.0.0", 2), release("9.0.0", 0), release("1.1.0", 1)]);
    let resolved = find_matching_package_version("demo", &VersionReq::any(), &reply).unwrap();
    assert_eq!(resolved.version, Version::new(1, 1, 0));
    let only_retracted = listing("demo", vec![release("9.0.0", 0)]);
    assert_eq!(
        find_matching_package_version("demo", &VersionReq::any(), &only_retracted),
        Err(ResolveError::NoMatchingVersion {
            package: String::from("demo"),
            requirement: String::from("*"),
            candidates: 0,
        })
    );
}

#[test]
fn resolver_passes_over_identifiers_that_are_no_versions() {
    let reply = listing(
        "demo",
        vec![release("2024.1", 1), release("1.0", 1), release("0.3.1", 1), release("latest", 3)],
    );
    let resolved = find_matching_package_version("demo", &VersionReq::any(), &reply).unwrap();
    assert_eq!(resolved.version, Version::new(0, 3, 1));
}

#[test]
fn resolver_orders_by_number_and_not_by_text() {
    let reply = listing("demo", vec![release("1.10.0", 1), release("1.9.0", 1), release("1.2.0", 1)]);
    let resolved = find_matching_package_version("demo", &VersionReq::any(), &reply).unwrap();
    assert_eq!(resolved.version, Version::new(1, 10, 0));
}

#[test]
fn resolver_names_the_package_as_the_registry_does() {
    let reply = listing("Demo_Package", vec![release("1.0.0", 1)]);
    let resolved =
        find_matching_package_version("demo-package", &VersionReq::any(), &reply).unwrap();
    assert_eq!(resolved.name, "Demo_Package");
}

#[test]
fn resolver_says_how_many_releases_the_requirement_ruled_out() {
    let reply = listing(
        "demo",
        vec![release("1.0.0", 1), release("1.1.0", 1), release("bad", 1), release("3.0.0", 0)],
    );
    let failed = find_matching_package_version("demo", &req("^2"), &reply);
    assert_eq!(
        failed,
        Err(ResolveError::NoMatchingVersion {
            package: String::from("demo"),
            requirement: String::from("^2"),
            candidates: 2,
        })
    );
    let error = failed.unwrap_err();
    assert_eq!(error.class(), ErrorClass::NotFound);
    assert_eq!(
        error.describe(),
        "No version matched ^2 for package demo (2 to choose from)."
    );
}

#[test]
fn resolver_tells_an_unknown_package_from_an_unreachable_registry() {
    let any = VersionReq::any();
    let unknown: Reply<PackageMetadata> = Reply::Answer { status: 404, body: None };
    assert_eq!(
        find_matching_package_version("nope", &any, &unknown),
        Err(ResolveError::NoMatchingVersion {
            package: String::from("nope"),
            requirement: String::from("*"),
            candidates: 0,
        })
    );
    let broken: Reply<PackageMetadata> = Reply::Answer { status: 503, body: None };
    let failed = find_matching_package_version("demo", &any, &broken).unwrap_err();
    assert_eq!(failed, ResolveError::RegistryUnreachable { package: String::from("demo") });
    assert_eq!(failed.class(), ErrorClass::TransientNetwork);
    assert_eq!(failed.describe(), "Couldn't request PyPi for demo.");
    assert_eq!(
        find_matching_package_version("demo", &any, &Reply::Unreachable),
        Err(ResolveError::RegistryUnreachable { package: String::from("demo") })
    );
    let garbled: Reply<PackageMetadata> = Reply::Answer { status: 200, body: None };
    let failed = find_matching_package_version("demo", &any, &garbled).unwrap_err();
    assert_eq!(failed, ResolveError::InvalidMetadata { package: String::from("demo") });
    assert_eq!(failed.class(), ErrorClass::Corrupt);
    assert_eq!(failed.describe(), "Received an invalid response from PyPi for demo.");
}

#[test]
fn a_body_does_not_help_where_the_status_is_no_success() {
    let reply = Reply::Answer {
        status: 500,
        body: Some(PackageMetadata { name: String::from("demo"), releases: vec![release("1.0.0", 1)] }),
    };
    assert_eq!(
        find_matching_package_version("demo", &VersionReq::any(), &reply),
        Err(ResolveError::RegistryUnreachable { package: String::from("demo") })
    );
}

#[test]
fn pick_newest_counts_what_could_be_chosen() {
    let releases = vec![release("1.0.0", 1), release("x", 1), release("2.0.0", 0), release("0.1.0", 4)];
    assert_eq!(pick_newest(&releases, &req("<1")), (Some(Version::new(0, 1, 0)), 2));
    assert_eq!(pick_newest(&releases, &req(">5")), (None, 2));
    assert_eq!(pick_newest(&Vec::new(), &VersionReq::any()), (None, 0));
}

#[test]
fn of_equal_versions_the_last_is_picked() {
    let releases = vec![release("1.0.0+a", 1), release("1.0.0+a", 2)];
    let (picked, count) = pick_newest(&releases, &VersionReq::any());
    assert_eq!(picked.unwrap().to_text(), "1.0.0+a");
    assert_eq!(count, 2);
}

#[test]
fn a_choice_is_made_once_and_then_looked_up() {
    let mut memo = Resolutions::new();
    let any = VersionReq::any();
    assert_eq!(memo.lookup("demo", &any), None);
    let first = Package { name: String::from("demo"), version: Version::new(1, 0, 0) };
    let second = Package { name: String::from("demo"), version: Version::new(2, 0, 0) };
    memo.remember("demo", &any, first.clone());
    assert_eq!(memo.lookup("demo", &any), Some(&first));
    memo.remember("demo", &any, second.clone());
    assert_eq!(memo.lookup("demo", &any), Some(&first));
    assert_eq!(memo.lookup("demo", &req("^2")), None);
    memo.remember("demo", &req("^2"), second.clone());
    assert_eq!(memo.lookup("demo", &req("^2")), Some(&second));
    assert_eq!(memo.lookup("other", &any), None);
    assert_eq!(memo.found.len(), 2);
}

#[test]
fn registry_addresses() {
    assert_eq!(package_url("requests"), "https://pypi.org/pypi/requests/json");
    let package = Package {
        name: String::from("requests"),
        version: Version::parse("2.31.0-rc.1").unwrap(),
    };
    assert_eq!(release_url(&package), "https://pypi.org/pypi/requests/2.31.0-rc.1/json");
}

#[test]
fn kind_goes_by_the_end_of_the_name() {
    assert_eq!(file("demo-1.0-py3-none-any.whl").kind(), ArtifactKind::Wheel);
    assert_eq!(file("demo-1.0.tar.gz").kind(), ArtifactKind::SourceDistribution);
    assert_eq!(file("whl").kind(), ArtifactKind::SourceDistribution);
    assert_eq!(file("").kind(), ArtifactKind::SourceDistribution);
}

#[test]
fn tags_are_the_last_three_parts_of_a_tagged_name() {
    assert_eq!(
        file("demo-1.0-cp311-abi3-manylinux2014_x86_64.whl").tags(),
        Some(Tags {
            python: String::from("cp311"),
            abi: String::from("abi3"),
            platform: String::from("manylinux2014_x86_64.whl"),
        })
    );
    assert_eq!(
        file("a-b-c-d").tags(),
        Some(Tags { python: String::from("b"), abi: String::from("c"), platform: String::from("d") })
    );
    assert_eq!(
        file("---").tags(),
        Some(Tags { python: String::new(), abi: String::new(), platform: String::new() })
    );
    assert_eq!(file("demo-1.0.tar.gz").tags(), None);
    assert_eq!(file("a-b-c").tags(), None);
    assert_eq!(file("").tags(), None);
}

#[test]
fn candidates_keep_the_order_of_the_listing() {
    let releases = vec![
        release("2.0.0", 1),
        release("x", 1),
        release("1.5.0", 0),
        release("1.0.0", 1),
        release("1.2.0-pre", 1),
        release("1.2.0", 2),
    ];
    assert_eq!(
        collect_candidates(&releases, &req("^1")),
        (vec![Version::new(1, 0, 0), Version::new(1, 2, 0)], 4)
    );
    assert_eq!(collect_candidates(&releases, &req("^3")), (Vec::new(), 4));
}

#[test]
fn newest_of_given_versions() {
    assert_eq!(newest_of(&Vec::new()), None);
    assert_eq!(newest_of(&vec![Version::new(1, 0, 0)]), Some(0));
    let versions = vec![
        Version::new(1, 9, 0),
        Version::new(1, 10, 0),
        Version::parse("1.10.0-rc.1").unwrap(),
        Version::new(0, 99, 99),
    ];
    assert_eq!(newest_of(&versions), Some(1));
    let equal = vec![Version::new(1, 0, 0), Version::new(0, 1, 0), Version::new(1, 0, 0)];
    assert_eq!(newest_of(&equal), Some(2));
}
