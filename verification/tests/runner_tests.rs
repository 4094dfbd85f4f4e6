//! Per-case setup, environment scopes and the spawned command line.

use wasmer_borealis::cache::Assets;
use wasmer_borealis::config::{
    EnvMap, Experiment, Filters, TemplatedString, WasmerConfig, WasmerVersion,
};
use wasmer_borealis::discovery::TestCase;
use wasmer_borealis::registry::{PackageDistribution, PackageVersion};
use wasmer_borealis::results::Outcome;
use wasmer_borealis::runner::{
    base_dir_for, build_command, download_limit, fetch_failed_report, process_limit,
    report_for_case, setup_plan, Env, RunResult, SetupStep,
};

fn case(webc: bool) -> TestCase {
    TestCase {
        registry: "registry.example.com".to_string(),
        namespace: "demo".to_string(),
        package_name: "hello".to_string(),
        package_version: PackageVersion {
            id: "v1".to_string(),
            version: "1.0.0".to_string(),
            distribution: PackageDistribution {
                download_url: "https://example.com/hello.tar.gz".to_string(),
                pirita_download_url: if webc {
                    Some("https://example.com/hello.webc".to_string())
                } else {
                    None
                },
            },
        },
    }
}

fn experiment() -> Experiment {
    let mut env = EnvMap::new();
    env.insert(
        "GREETING".to_string(),
        TemplatedString::new("Hello ${PKG_NAME}".to_string()),
    );
    let mut args = Vec::new();
    args.push(TemplatedString::new("--file=${TARBALL_FILENAME}".to_string()));
    Experiment {
        package: "demo/hello".to_string(),
        command: None,
        args,
        env,
        wasmer: WasmerConfig::default(),
        filters: Filters::default(),
    }
}

#[test]
fn base_dir_nests_namespace_name_and_version() {
    let tc = case(false);
    assert_eq!(base_dir_for("/exp/experiments", &tc), "/exp/experiments/demo/hello/1.0.0");
}

#[test]
fn distinct_cases_get_distinct_base_dirs() {
    let a = case(false);
    let mut b = case(false);
    b.package_version.version = "2.0.0".to_string();
    let dir_a = base_dir_for("/exp/experiments", &a);
    let dir_b = base_dir_for("/exp/experiments", &b);
    assert_ne!(dir_a, dir_b);
}

#[test]
fn setup_plan_prepares_the_working_directory() {
    let assets = Assets {
        tarball: "/cache/demo/hello/1.0.0/hello.tar.gz".to_string(),
        webc: Some("/cache/demo/hello/1.0.0/hello.webc".to_string()),
        total_size: 10,
    };
    let plan = setup_plan("/base", &assets);
    assert_eq!(plan.len(), 8);
    assert_eq!(plan[0], SetupStep::RemoveDirAll("/base".to_string()));
    assert_eq!(plan[1], SetupStep::CreateDirAll("/base".to_string()));
    assert_eq!(
        plan[2],
        SetupStep::WriteTestCaseJson { dest: "/base/test_case.json".to_string() }
    );
    assert_eq!(plan[3], SetupStep::CreateDirAll("/base/working".to_string()));
    assert_eq!(
        plan[4],
        SetupStep::Symlink {
            target: assets.tarball.clone(),
            link: "/base/working/package.tar.gz".to_string(),
        }
    );
    assert_eq!(
        plan[5],
        SetupStep::Symlink {
            target: assets.webc.clone().unwrap(),
            link: "/base/working/package.webc".to_string(),
        }
    );
    assert_eq!(plan[6], SetupStep::CreateFile("/base/stdout.txt".to_string()));
    assert_eq!(plan[7], SetupStep::CreateFile("/base/stderr.txt".to_string()));
}

#[test]
fn host_scope_sees_paths_but_guest_scope_does_not() {
    let tc = case(true);
    let env = Env::new("/base/working", &tc, true);
    assert_eq!(env.get_host("TARBALL_PATH").as_deref(), Some("/base/working/package.tar.gz"));
    assert_eq!(env.get_host("WEBC_PATH").as_deref(), Some("/base/working/package.webc"));
    assert_eq!(env.get_host("WORKING_DIR").as_deref(), Some("/base/working"));
    assert_eq!(env.get_host("PKG_NAME").as_deref(), Some("hello"));
    assert_eq!(env.get_guest("PKG_NAME").as_deref(), Some("hello"));
    assert_eq!(env.get_guest("PKG_NAMESPACE").as_deref(), Some("demo"));
    assert_eq!(env.get_guest("PKG_VERSION").as_deref(), Some("1.0.0"));
    assert_eq!(env.get_guest("TARBALL_FILENAME").as_deref(), Some("package.tar.gz"));
    assert_eq!(env.get_guest("WEBC_FILENAME").as_deref(), Some("package.webc"));
    // host-only variables are invisible to the guest
    assert_eq!(env.get_guest("TARBALL_PATH"), None);
    assert_eq!(env.get_guest("WEBC_PATH"), None);
    assert_eq!(env.get_guest("WORKING_DIR"), None);
}

#[test]
fn without_a_container_the_webc_variables_are_absent() {
    let tc = case(false);
    let env = Env::new("/base/working", &tc, false);
    assert_eq!(env.get_host("WEBC_PATH"), None);
    assert_eq!(env.get_guest("WEBC_FILENAME"), None);
}

#[test]
fn command_line_expands_guest_scope_after_the_separator() {
    let tc = case(false);
    let env = Env::new("/base/working", &tc, false);
    let cmd = build_command(&experiment(), &env, "/base", None, Some("/usr/bin".to_string()), None);
    assert_eq!(cmd.program, "wasmer");
    assert_eq!(cmd.current_dir, "/base");
    assert_eq!(cmd.env, vec![("PATH".to_string(), "/usr/bin".to_string())]);
    let args: Vec<&str> = cmd.args.iter().map(|a| a.as_str()).collect();
    assert_eq!(
        args,
        vec!["run", "demo/hello", "--env=GREETING=Hello hello", "--", "--file=package.tar.gz"]
    );
}

#[test]
fn host_paths_never_reach_guest_expansion() {
    let tc = case(false);
    let env = Env::new("/base/working", &tc, false);
    let mut exp = experiment();
    exp.args.push(TemplatedString::new("${TARBALL_PATH}".to_string()));
    exp.wasmer.args.push(TemplatedString::new("--dir=${TARBALL_PATH}".to_string()));
    let cmd = build_command(&exp, &env, "/base", None, None, None);
    let args: Vec<&str> = cmd.args.iter().map(|a| a.as_str()).collect();
    // host scope resolves the path; guest scope resolves it to nothing
    assert_eq!(
        args,
        vec![
            "run",
            "demo/hello",
            "--dir=/base/working/package.tar.gz",
            "--env=GREETING=Hello hello",
            "--",
            "--file=package.tar.gz",
            "",
        ]
    );
}

#[test]
fn a_local_binary_is_used_verbatim() {
    let tc = case(false);
    let env = Env::new("/base/working", &tc, false);
    let mut exp = experiment();
    exp.wasmer.version = WasmerVersion::Local { path: "/opt/wasmer".to_string() };
    let cmd = build_command(&exp, &env, "/base", None, None, None);
    assert_eq!(cmd.program, "/opt/wasmer");
}

#[test]
fn completed_runs_keep_their_exit_status() {
    let tc = case(false);
    let report = report_for_case(
        &tc,
        "/base".to_string(),
        RunResult::Completed { success: false, code: Some(3), run_time_ms: 1200 },
    );
    assert_eq!(report.display_name, "demo/hello");
    match report.outcome {
        Outcome::Completed { status, run_time_ms, base_dir } => {
            assert!(!status.success);
            assert_eq!(status.code, 3);
            assert_eq!(run_time_ms, 1200);
            assert_eq!(base_dir, "/base");
        }
        other => panic!("unexpected outcome: {other:?}"),
    }
}

#[test]
fn spawn_failures_are_classified_as_setup_failures() {
    let tc = case(false);
    let error = wasmer_borealis::results::SerializableError::from_error(
        "Unable to start \"wasmer\", is it installed?".to_string(),
        "Unable to start \"wasmer\", is it installed?: No such file or directory".to_string(),
        vec!["No such file or directory".to_string()],
    );
    let report = report_for_case(&tc, "/base".to_string(), RunResult::SpawnFailed { error });
    match report.outcome {
        Outcome::SetupFailed { base_dir, error } => {
            assert_eq!(base_dir, "/base");
            assert!(error.error.contains("wasmer"));
        }
        other => panic!("unexpected outcome: {other:?}"),
    }
}

#[test]
fn fetch_failures_become_fetch_failed_reports() {
    let tc = case(false);
    let error = wasmer_borealis::cache::download_failed_error(
        "https://example.com/hello.tar.gz",
        "404 Not Found".to_string(),
    );
    let report = fetch_failed_report(&tc, error);
    match report.outcome {
        Outcome::FetchFailed { error } => {
            assert!(error.causes.iter().any(|c| c.contains("https://example.com/hello.tar.gz")));
        }
        other => panic!("unexpected outcome: {other:?}"),
    }
}

#[test]
fn limits_apply_their_floors() {
    assert_eq!(download_limit(None), 16);
    assert_eq!(download_limit(Some(4)), 16);
    assert_eq!(download_limit(Some(64)), 64);
    assert_eq!(process_limit(None), 4);
    assert_eq!(process_limit(Some(2)), 4);
    assert_eq!(process_limit(Some(12)), 12);
}
