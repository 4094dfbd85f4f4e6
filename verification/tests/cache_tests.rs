//! Cache layout, hit rule and the atomic publication plan.

use wasmer_borealis::cache::{
    cache_hit, cache_paths, decide_fetch, download_failed_error, download_plan, hit_assets,
    package_version_dir, CacheProbe, FetchDecision, FsAction,
};
use wasmer_borealis::discovery::TestCase;
use wasmer_borealis::registry::{PackageDistribution, PackageVersion};

fn case(webc: bool) -> TestCase {
    TestCase {
        registry: "registry.example.com".to_string(),
        namespace: "demo".to_string(),
        package_name: "hello".to_string(),
        package_version: PackageVersion {
            id: "v1".to_string(),
            version: "1.0.0".to_string(),
            distribution: PackageDistribution {
                download_url: "https://example.com/hello.tar.gz".to_string(),
                pirita_download_url: if webc {
                    Some("https://example.com/hello.webc".to_string())
                } else {
                    None
                },
            },
        },
    }
}

#[test]
fn cache_layout_is_deterministic() {
    let tc = case(false);
    let dir1 = package_version_dir("/cache", &tc);
    let dir2 = package_version_dir("/cache", &tc.clone());
    assert_eq!(dir1, "/cache/registry.example.com/demo/hello/1.0.0");
    assert_eq!(dir1, dir2);
    let paths1 = cache_paths("/cache", &tc);
    let paths2 = cache_paths("/cache", &tc);
    assert_eq!(paths1, paths2);
    assert_eq!(paths1.tarball, "/cache/registry.example.com/demo/hello/1.0.0/hello.tar.gz");
    assert_eq!(paths1.webc, "/cache/registry.example.com/demo/hello/1.0.0/hello.webc");
    assert_eq!(paths1.parent, "/cache/registry.example.com/demo/hello");
}

#[test]
fn hit_requires_directory_and_tarball() {
    let both = CacheProbe { dir_exists: true, tarball_size: Some(10), webc_size: None };
    let only_dir = CacheProbe { dir_exists: true, tarball_size: None, webc_size: Some(5) };
    let only_tarball = CacheProbe { dir_exists: false, tarball_size: Some(10), webc_size: None };
    assert!(cache_hit(&both));
    assert!(!cache_hit(&only_dir));
    assert!(!cache_hit(&only_tarball));
}

#[test]
fn a_hit_hands_out_existing_files_without_downloading() {
    let tc = case(true);
    let paths = cache_paths("/cache", &tc);
    let probe = CacheProbe { dir_exists: true, tarball_size: Some(100), webc_size: Some(40) };
    match decide_fetch(&paths, &tc, &probe, "/cache/.tmp123") {
        FetchDecision::Hit(assets) => {
            assert_eq!(assets.tarball, paths.tarball);
            assert_eq!(assets.webc.as_deref(), Some(paths.webc.as_str()));
            assert_eq!(assets.total_size, 140);
        }
        FetchDecision::Miss(_) => panic!("expected a cache hit"),
    }
    // the webc file alone is not a hit
    let no_tarball = CacheProbe { dir_exists: true, tarball_size: None, webc_size: Some(40) };
    assert!(matches!(
        decide_fetch(&paths, &tc, &no_tarball, "/cache/.tmp123"),
        FetchDecision::Miss(_)
    ));
    let sized = hit_assets(&paths, &probe);
    assert_eq!(sized.total_size, 140);
}

#[test]
fn a_miss_downloads_then_publishes_with_one_final_rename() {
    let tc = case(true);
    let paths = cache_paths("/cache", &tc);
    let plan = download_plan(&paths, &tc, "/cache/.tmp123");
    assert_eq!(plan.len(), 5);
    assert_eq!(
        plan[0],
        FsAction::DownloadTo {
            url: "https://example.com/hello.tar.gz".to_string(),
            dest: "/cache/.tmp123/hello.tar.gz".to_string(),
        }
    );
    assert_eq!(
        plan[1],
        FsAction::DownloadTo {
            url: "https://example.com/hello.webc".to_string(),
            dest: "/cache/.tmp123/hello.webc".to_string(),
        }
    );
    assert_eq!(plan[2], FsAction::RemoveDirAll(paths.dir.clone()));
    assert_eq!(plan[3], FsAction::CreateDirAll(paths.parent.clone()));
    assert_eq!(
        plan[4],
        FsAction::Rename { from: "/cache/.tmp123".to_string(), to: paths.dir.clone() }
    );
    // atomic publication: nothing before the rename touches the
    // destination except the removal
    for action in plan.iter().take(plan.len() - 1) {
        match action {
            FsAction::CreateDirAll(p) => assert_ne!(p, &paths.dir),
            FsAction::DownloadTo { dest, .. } => assert_ne!(dest, &paths.dir),
            FsAction::RemoveDirAll(_) => {}
            FsAction::Rename { .. } => panic!("rename before the final step"),
        }
    }
}

#[test]
fn a_case_without_a_container_downloads_only_the_tarball() {
    let tc = case(false);
    let paths = cache_paths("/cache", &tc);
    let plan = download_plan(&paths, &tc, "/cache/.tmp9");
    assert_eq!(plan.len(), 4);
    assert!(matches!(&plan[0], FsAction::DownloadTo { .. }));
    assert!(matches!(&plan[1], FsAction::RemoveDirAll(_)));
}

#[test]
fn miss_then_hit_resolves_to_the_same_paths_without_downloading() {
    let tc = case(false);
    let paths = cache_paths("/cache", &tc);
    // first fetch: nothing on disk yet
    let empty = CacheProbe { dir_exists: false, tarball_size: None, webc_size: None };
    let first = decide_fetch(&paths, &tc, &empty, "/cache/.tmp1");
    let published_tarball = match first {
        FetchDecision::Miss(plan) => match &plan[plan.len() - 1] {
            FsAction::Rename { to, .. } => format!("{to}/hello.tar.gz"),
            other => panic!("unexpected final action: {other:?}"),
        },
        FetchDecision::Hit(_) => panic!("expected a miss on an empty cache"),
    };
    assert_eq!(published_tarball, paths.tarball);
    // second fetch: the published files are found, nothing is downloaded
    let populated = CacheProbe { dir_exists: true, tarball_size: Some(100), webc_size: None };
    match decide_fetch(&paths, &tc, &populated, "/cache/.tmp2") {
        FetchDecision::Hit(assets) => {
            assert_eq!(assets.tarball, paths.tarball);
            assert_eq!(assets.webc, None);
        }
        FetchDecision::Miss(_) => panic!("expected a cache hit after publication"),
    }
}

#[test]
fn download_failures_name_the_failing_url() {
    let err = download_failed_error(
        "https://example.com/hello.tar.gz",
        "HTTP status client error (404 Not Found)".to_string(),
    );
    assert_eq!(err.error, "Downloading \"https://example.com/hello.tar.gz\" failed");
    assert_eq!(err.causes.len(), 2);
    assert!(err.causes[0].contains("https://example.com/hello.tar.gz"));
    assert_eq!(err.causes[1], "HTTP status client error (404 Not Found)");
    assert_eq!(
        err.detailed_error,
        "Downloading \"https://example.com/hello.tar.gz\" failed: HTTP status client error (404 Not Found)"
    );
}
