//! Outcome classification and summary counting.

use wasmer_borealis::registry::{PackageDistribution, PackageVersion};
use wasmer_borealis::results::{
    report_html_path, results_json_path, summary_counts, ExitStatus, Outcome, Report,
    SerializableError,
};

fn version() -> PackageVersion {
    PackageVersion {
        id: "v".to_string(),
        version: "1.0.0".to_string(),
        distribution: PackageDistribution {
            download_url: "https://example.com/x.tar.gz".to_string(),
            pirita_download_url: None,
        },
    }
}

fn completed(success: bool) -> Report {
    Report {
        display_name: "demo/x".to_string(),
        package_version: version(),
        outcome: Outcome::Completed {
            status: ExitStatus::from_raw(success, Some(if success { 0 } else { 1 })),
            run_time_ms: 1,
            base_dir: "/b".to_string(),
        },
    }
}

fn bug() -> Report {
    Report {
        display_name: "demo/x".to_string(),
        package_version: version(),
        outcome: Outcome::FetchFailed {
            error: SerializableError::from_error(
                "e".to_string(),
                "e".to_string(),
                Vec::new(),
            ),
        },
    }
}

#[test]
fn exit_status_defaults_to_code_one() {
    let with_code = ExitStatus::from_raw(false, Some(42));
    assert_eq!(with_code.code, 42);
    assert!(!with_code.success);
    let without_code = ExitStatus::from_raw(false, None);
    assert_eq!(without_code.code, 1);
}

#[test]
fn serializable_error_keeps_its_parts() {
    let e = SerializableError::from_error(
        "one line".to_string(),
        "full render".to_string(),
        vec!["outer".to_string(), "inner".to_string()],
    );
    assert_eq!(e.error, "one line");
    assert_eq!(e.detailed_error, "full render");
    assert_eq!(e.causes, vec!["outer".to_string(), "inner".to_string()]);
    let copy = e.clone();
    assert_eq!(copy.causes, e.causes);
}

#[test]
fn summary_counts_classify_every_report_once() {
    let reports = vec![
        completed(true),
        completed(false),
        bug(),
        completed(true),
        bug(),
        bug(),
    ];
    let counts = summary_counts(&reports);
    assert_eq!(counts.success, 2);
    assert_eq!(counts.failures, 1);
    assert_eq!(counts.bugs, 3);
    assert_eq!(counts.success + counts.failures + counts.bugs, reports.len());
}

#[test]
fn output_artifacts_live_under_the_experiment_dir() {
    assert_eq!(results_json_path("/exp"), "/exp/results.json");
    assert_eq!(report_html_path("/exp"), "/exp/report.html");
}
