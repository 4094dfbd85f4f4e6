//! The pipeline state machine: report counting and concurrency bounds.

use wasmer_borealis::config::{EnvMap, Experiment, Filters, WasmerConfig};
use wasmer_borealis::discovery::TestCase;
use wasmer_borealis::orchestrator::{CaseStage, Orchestrator};
use wasmer_borealis::registry::{PackageDistribution, PackageVersion};
use wasmer_borealis::results::{Outcome, Report, SerializableError};

fn case(name: &str) -> TestCase {
    TestCase {
        registry: "registry.example.com".to_string(),
        namespace: "demo".to_string(),
        package_name: name.to_string(),
        package_version: PackageVersion {
            id: name.to_string(),
            version: "1.0.0".to_string(),
            distribution: PackageDistribution {
                download_url: format!("https://example.com/{name}.tar.gz"),
                pirita_download_url: None,
            },
        },
    }
}

fn report_for(tc: &TestCase, success: bool) -> Report {
    Report {
        display_name: format!("{}/{}", tc.namespace, tc.package_name),
        package_version: tc.package_version.clone(),
        outcome: Outcome::Completed {
            status: wasmer_borealis::results::ExitStatus::from_raw(success, Some(0)),
            run_time_ms: 5,
            base_dir: "/base".to_string(),
        },
    }
}

fn fetch_failed(tc: &TestCase) -> Report {
    Report {
        display_name: format!("{}/{}", tc.namespace, tc.package_name),
        package_version: tc.package_version.clone(),
        outcome: Outcome::FetchFailed {
            error: SerializableError::from_error(
                "download failed".to_string(),
                "download failed".to_string(),
                Vec::new(),
            ),
        },
    }
}

fn experiment() -> Experiment {
    Experiment {
        package: "demo/hello".to_string(),
        command: None,
        args: Vec::new(),
        env: EnvMap::new(),
        wasmer: WasmerConfig::default(),
        filters: Filters::default(),
    }
}

#[test]
fn every_discovered_case_yields_exactly_one_report() {
    let mut orch = Orchestrator::new(2, 2);
    orch.discovered(case("a"));
    orch.discovered(case("b"));
    orch.discovered(case("c"));
    orch.discovery_finished();
    assert!(!orch.is_finished());

    // case 0 runs to completion
    let tc0 = orch.start_download(0);
    assert_eq!(tc0.package_name, "a");
    orch.download_succeeded(0);
    orch.start_run(0);
    let r0 = report_for(orch.test_case(0), true);
    orch.run_finished(0, r0);

    // case 1 fails to fetch
    orch.start_download(1);
    let r1 = fetch_failed(orch.test_case(1));
    orch.download_failed(1, r1);

    // case 2 runs and exits non-zero
    orch.start_download(2);
    orch.download_succeeded(2);
    orch.start_run(2);
    let r2 = report_for(orch.test_case(2), false);
    orch.run_finished(2, r2);

    assert!(orch.is_finished());
    let results = orch.into_results(experiment(), 1000, "/exp".to_string());
    assert_eq!(results.reports.len(), 3);
    assert_eq!(results.total_time_ms, 1000);
    assert_eq!(results.experiment_dir, "/exp");
}

#[test]
fn download_permits_are_bounded() {
    let mut orch = Orchestrator::new(1, 1);
    orch.discovered(case("a"));
    orch.discovered(case("b"));
    assert!(orch.can_start_download());
    orch.start_download(0);
    // only one download may be in flight
    assert!(!orch.can_start_download());
    orch.download_succeeded(0);
    assert!(orch.can_start_download());
    orch.start_download(1);
    assert!(!orch.can_start_download());

    // only one process may be in flight
    assert!(orch.can_start_run());
    orch.start_run(0);
    assert!(!orch.can_start_run());
    orch.run_finished(0, report_for(&case("a"), true));
    assert!(orch.can_start_run());
}

#[test]
fn stages_progress_in_order() {
    let mut orch = Orchestrator::new(4, 4);
    orch.discovered(case("a"));
    assert_eq!(orch.stage(0), CaseStage::FetchQueued);
    orch.start_download(0);
    assert_eq!(orch.stage(0), CaseStage::Downloading);
    orch.download_succeeded(0);
    assert_eq!(orch.stage(0), CaseStage::RunQueued);
    orch.start_run(0);
    assert_eq!(orch.stage(0), CaseStage::Running);
    orch.run_finished(0, report_for(&case("a"), true));
    assert_eq!(orch.stage(0), CaseStage::Reported);
    assert_eq!(orch.len(), 1);
}
