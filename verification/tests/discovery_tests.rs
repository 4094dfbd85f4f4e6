//! Discovery: filters, blacklist and version selection.

use wasmer_borealis::config::Filters;
use wasmer_borealis::discovery::{listings_for, test_cases_from_page, Listing, TestCase};
use wasmer_borealis::registry::{Package, PackageDistribution, PackageVersion};

fn version(id: &str, version: &str) -> PackageVersion {
    PackageVersion {
        id: id.to_string(),
        version: version.to_string(),
        distribution: PackageDistribution {
            download_url: format!("https://example.com/{id}.tar.gz"),
            pirita_download_url: None,
        },
    }
}

fn package(namespace: &str, name: &str, versions: Vec<PackageVersion>) -> Package {
    Package {
        id: format!("{namespace}-{name}"),
        package_name: name.to_string(),
        namespace: namespace.to_string(),
        display_name: format!("{namespace}/{name}"),
        last_version: versions.last().cloned(),
        versions: versions.into_iter().map(Some).collect(),
    }
}

#[test]
fn blacklist_excludes_a_package() {
    let page = vec![
        package("demo", "hello", vec![version("h1", "1.0.0")]),
        package("demo", "nope", vec![version("n1", "1.0.0")]),
    ];
    let blacklist = vec!["demo/nope".to_string()];
    let cases = test_cases_from_page("registry.example.com", &blacklist, false, page);
    assert_eq!(cases.len(), 1);
    assert_eq!(cases[0].display_name(), "demo/hello");
}

#[test]
fn every_version_yields_one_case_per_version() {
    let page = vec![package(
        "demo",
        "hello",
        vec![version("v1", "1.0"), version("v2", "1.1"), version("v3", "2.0")],
    )];
    let cases = test_cases_from_page("registry.example.com", &Vec::new(), true, page);
    assert_eq!(cases.len(), 3);
    let versions: Vec<&str> = cases.iter().map(|c| c.version()).collect();
    assert_eq!(versions, vec!["1.0", "1.1", "2.0"]);
    for case in &cases {
        assert_eq!(case.display_name(), "demo/hello");
    }
}

#[test]
fn latest_only_yields_one_case_per_package_with_a_latest_version() {
    let with_latest = package("demo", "hello", vec![version("v1", "1.0"), version("v2", "2.0")]);
    let without_latest = Package {
        last_version: None,
        ..package("demo", "empty", Vec::new())
    };
    let page = vec![with_latest, without_latest];
    let cases = test_cases_from_page("registry.example.com", &Vec::new(), false, page);
    assert_eq!(cases.len(), 1);
    assert_eq!(cases[0].version(), "2.0");
    assert_eq!(cases[0].registry, "registry.example.com");
}

#[test]
fn null_versions_are_skipped() {
    let mut pkg = package("demo", "holes", vec![version("v1", "1.0"), version("v2", "2.0")]);
    pkg.versions.insert(1, None);
    let cases = TestCase::all("registry.example.com", pkg);
    assert_eq!(cases.len(), 2);
    assert_eq!(cases[0].version(), "1.0");
    assert_eq!(cases[1].version(), "2.0");
}

#[test]
fn case_accessors_read_the_version() {
    let mut v = version("v1", "1.0");
    v.distribution.pirita_download_url = Some("https://example.com/v1.webc".to_string());
    let tc = TestCase::new(
        "registry.example.com".to_string(),
        "demo".to_string(),
        "hello".to_string(),
        v,
    );
    assert_eq!(tc.tarball_url(), "https://example.com/v1.tar.gz");
    assert_eq!(tc.webc_url(), Some("https://example.com/v1.webc"));
    assert_eq!(tc.version(), "1.0");
    assert_eq!(tc.display_name(), "demo/hello");
}

#[test]
fn listings_follow_namespaces_then_users() {
    let filters = Filters {
        namespaces: vec!["python".to_string(), "wasmer".to_string()],
        users: vec!["alice".to_string()],
        blacklist: Vec::new(),
        include_every_version: false,
    };
    let listings = listings_for(&filters);
    assert_eq!(
        listings,
        vec![
            Listing::Namespace("python".to_string()),
            Listing::Namespace("wasmer".to_string()),
            Listing::User("alice".to_string()),
        ]
    );
}

#[test]
fn empty_filters_list_all_packages() {
    let filters = Filters::default();
    let listings = listings_for(&filters);
    assert_eq!(listings, vec![Listing::All]);
}
