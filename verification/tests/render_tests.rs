//! Report grouping and presentation order.

use wasmer_borealis::registry::{PackageDistribution, PackageVersion};
use wasmer_borealis::render::{lex_le_exec, ReportCategories};
use wasmer_borealis::results::{ExitStatus, Outcome, Report, SerializableError};

fn report(name: &str, version: &str, outcome: Outcome) -> Report {
    Report {
        display_name: name.to_string(),
        package_version: PackageVersion {
            id: format!("{name}@{version}"),
            version: version.to_string(),
            distribution: PackageDistribution {
                download_url: "https://example.com/x.tar.gz".to_string(),
                pirita_download_url: None,
            },
        },
        outcome,
    }
}

fn ok() -> Outcome {
    Outcome::Completed {
        status: ExitStatus::from_raw(true, Some(0)),
        run_time_ms: 1,
        base_dir: "/b".to_string(),
    }
}

fn nonzero() -> Outcome {
    Outcome::Completed {
        status: ExitStatus::from_raw(false, Some(1)),
        run_time_ms: 1,
        base_dir: "/b".to_string(),
    }
}

fn broken() -> Outcome {
    Outcome::SetupFailed {
        base_dir: "/b".to_string(),
        error: SerializableError::from_error("e".to_string(), "e".to_string(), Vec::new()),
    }
}

#[test]
fn lexicographic_comparison_follows_code_points() {
    assert!(lex_le_exec("abc", "abd"));
    assert!(lex_le_exec("abc", "abc"));
    assert!(!lex_le_exec("abd", "abc"));
    assert!(lex_le_exec("ab", "abc"));
    assert!(!lex_le_exec("abc", "ab"));
    assert!(lex_le_exec("", "a"));
}

#[test]
fn categories_sort_by_name_then_version_descending() {
    let reports = vec![
        report("demo/zeta", "1.0", ok()),
        report("demo/alpha", "1.0", ok()),
        report("demo/alpha", "2.0", ok()),
        report("demo/beta", "1.0", nonzero()),
        report("demo/gamma", "1.0", broken()),
    ];
    let cats = ReportCategories::new(&reports);
    assert_eq!(cats.total, 5);

    let order_key = |i: &usize| {
        let r = &reports[*i];
        (r.display_name.clone(), r.package_version.version.clone())
    };
    let all_keys: Vec<(String, String)> = cats.all.iter().map(order_key).collect();
    assert_eq!(
        all_keys,
        vec![
            ("demo/alpha".to_string(), "2.0".to_string()),
            ("demo/alpha".to_string(), "1.0".to_string()),
            ("demo/beta".to_string(), "1.0".to_string()),
            ("demo/gamma".to_string(), "1.0".to_string()),
            ("demo/zeta".to_string(), "1.0".to_string()),
        ]
    );

    let success_keys: Vec<(String, String)> = cats.success.iter().map(order_key).collect();
    assert_eq!(
        success_keys,
        vec![
            ("demo/alpha".to_string(), "2.0".to_string()),
            ("demo/alpha".to_string(), "1.0".to_string()),
            ("demo/zeta".to_string(), "1.0".to_string()),
        ]
    );

    let failure_keys: Vec<(String, String)> = cats.failures.iter().map(order_key).collect();
    assert_eq!(failure_keys, vec![("demo/beta".to_string(), "1.0".to_string())]);

    let bug_keys: Vec<(String, String)> = cats.bugs.iter().map(order_key).collect();
    assert_eq!(bug_keys, vec![("demo/gamma".to_string(), "1.0".to_string())]);
}

#[test]
fn every_report_lands_in_exactly_one_class() {
    let reports = vec![
        report("a/a", "1.0", ok()),
        report("a/b", "1.0", nonzero()),
        report("a/c", "1.0", broken()),
        report("a/d", "1.0", ok()),
    ];
    let cats = ReportCategories::new(&reports);
    assert_eq!(cats.success.len() + cats.failures.len() + cats.bugs.len(), reports.len());
    assert_eq!(cats.all.len(), reports.len());
}
