//! The experiment document a `new` invocation builds.

use wasmer_borealis::cli::{New, StaticFile};
use wasmer_borealis::config::{EnvironmentVariable, TemplatedString, SCHEMA_URL};
use wasmer_borealis::progress::{CacheStatusMessage, NoopProgress, ProgressMonitor};

#[test]
fn new_builds_a_default_experiment() {
    let new = New {
        output: None,
        env: vec![
            EnvironmentVariable::parse("A=1").unwrap(),
            EnvironmentVariable::parse("B=${PKG_NAME}").unwrap(),
            EnvironmentVariable::parse("A=2").unwrap(),
        ],
        package: "demo/hello".to_string(),
        args: vec![TemplatedString::new("--verbose".to_string())],
    };
    let doc = new.build_document();
    assert_eq!(doc.schema, SCHEMA_URL);
    let exp = doc.experiment;
    assert_eq!(exp.package, "demo/hello");
    assert!(exp.command.is_none());
    assert_eq!(exp.args.len(), 1);
    assert_eq!(exp.args[0].raw(), "--verbose");
    // duplicate keys keep their position and take the latest value
    assert_eq!(exp.env.len(), 2);
    let (k0, v0) = exp.env.entry(0);
    assert_eq!((k0.as_str(), v0.raw()), ("A", "2"));
    let (k1, v1) = exp.env.entry(1);
    assert_eq!((k1.as_str(), v1.raw()), ("B", "${PKG_NAME}"));
    assert!(exp.filters.is_empty());
    assert!(exp.wasmer.version.is_latest());
}

#[test]
fn static_files_keep_their_name() {
    let f = StaticFile::new("README.md".to_string());
    assert_eq!(f.src, "README.md");
    assert_eq!(f.dest, "README.md");
}

#[test]
fn progress_monitor_accepts_every_event() {
    let mut monitor = ProgressMonitor::new(NoopProgress);
    let tc = wasmer_borealis::discovery::TestCase {
        registry: "r".to_string(),
        namespace: "demo".to_string(),
        package_name: "hello".to_string(),
        package_version: wasmer_borealis::registry::PackageVersion {
            id: "v".to_string(),
            version: "1.0.0".to_string(),
            distribution: wasmer_borealis::registry::PackageDistribution {
                download_url: "https://example.com/x.tar.gz".to_string(),
                pirita_download_url: None,
            },
        },
    };
    let events = wasmer_borealis::progress::cache_events(
        &tc,
        CacheStatusMessage::CacheHit(tc.clone()),
    );
    assert_eq!(events.len(), 2);
    assert!(matches!(events[0], CacheStatusMessage::Fetching(_)));
    assert!(matches!(events[1], CacheStatusMessage::CacheHit(_)));
    for event in events {
        monitor.handle(event);
    }
}
