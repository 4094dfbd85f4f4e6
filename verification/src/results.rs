//! The results document: per-case reports and their aggregation.
//!
//! Every failure is captured as data, never as a crashed pipeline: a
//! report classifies one test case's outcome, and the results document
//! collects every report together with the experiment that produced
//! them.

use vstd::prelude::*;

use crate::config::Experiment;
use crate::registry::PackageVersion;

verus! {

/// An error in a form that can be serialized: a one-line message, the
/// full chained rendering, and the chain of causes from outermost to
/// innermost.
#[derive(Debug, PartialEq, Eq)]
pub struct SerializableError {
    pub error: String,
    pub detailed_error: String,
    pub causes: Vec<String>,
}

impl SerializableError {
    /// Package an error's renderings.  The caller supplies the one-line
    /// message, the detailed rendering and the ordered causes; they are
    /// stored untouched.
    pub fn from_error(error: String, detailed_error: String, causes: Vec<String>) -> (r:
        SerializableError)
        ensures
            r.error == error,
            r.detailed_error == detailed_error,
            r.causes == causes,
    {
        SerializableError { error, detailed_error, causes }
    }
}

impl Clone for SerializableError {
    fn clone(&self) -> (r: Self)
        ensures
            r.error == self.error,
            r.detailed_error == self.detailed_error,
            r.causes@ == self.causes@,
    {
        let mut causes: Vec<String> = Vec::new();
        let mut i: usize = 0;
        while i < self.causes.len()
            invariant
                0 <= i <= self.causes@.len(),
                causes@.len() == i,
                forall|k: int| 0 <= k < i ==> causes@[k] == self.causes@[k],
            decreases self.causes@.len() - i,
        {
            causes.push(self.causes[i].clone());
            i += 1;
        }
        proof {
            assert(causes@ =~= self.causes@);
        }
        SerializableError {
            error: self.error.clone(),
            detailed_error: self.detailed_error.clone(),
            causes,
        }
    }
}

/// How a spawned process exited.
#[derive(Debug, Clone, Copy, PartialEq, Eq, Structural)]
pub struct ExitStatus {
    pub success: bool,
    pub code: i32,
}

impl ExitStatus {
    /// Classify a raw exit: `success` as the OS reports it, and the exit
    /// code when one exists, else 1.
    pub fn from_raw(success: bool, code: Option<i32>) -> (r: ExitStatus)
        ensures
            r.success == success,
            code matches Some(c) ==> r.code == c,
            code is None ==> r.code == 1,
    {
        ExitStatus {
            success,
            code: match code {
                Some(c) => c,
                None => 1,
            },
        }
    }
}

/// The classified result of attempting a single test case.
#[derive(Debug, PartialEq, Eq)]
pub enum Outcome {
    /// The process ran to an exit; a non-zero exit is a normal result,
    /// not a pipeline error.
    Completed { status: ExitStatus, run_time_ms: u64, base_dir: String },
    /// Downloading the case's assets failed.
    FetchFailed { error: SerializableError },
    /// Preparing the working directory or spawning the process failed.
    SetupFailed { base_dir: String, error: SerializableError },
    /// Reserved for classifying spawn failures separately.
    SpawnFailed { base_dir: String, error: SerializableError },
}

/// The outcome of one test case.
#[derive(Debug, PartialEq, Eq)]
pub struct Report {
    pub display_name: String,
    pub package_version: PackageVersion,
    pub outcome: Outcome,
}

/// Everything an experiment run produced.
#[derive(Debug, PartialEq, Eq)]
pub struct Results {
    pub experiment: Experiment,
    pub reports: Vec<Report>,
    pub total_time_ms: u64,
    pub experiment_dir: String,
}

/// The process ran and exited successfully.
pub open spec fn is_success(r: Report) -> bool {
    r.outcome matches Outcome::Completed { status, .. } && status.success
}

/// The process ran but exited unsuccessfully.
pub open spec fn is_failure(r: Report) -> bool {
    r.outcome matches Outcome::Completed { status, .. } && !status.success
}

/// The pipeline could not run the case at all.
pub open spec fn is_bug(r: Report) -> bool {
    !(r.outcome is Completed)
}

pub open spec fn count_success(reports: Seq<Report>) -> int
    decreases reports.len(),
{
    if reports.len() == 0 {
        0
    } else {
        count_success(reports.drop_last()) + if is_success(reports.last()) {
            1int
        } else {
            0int
        }
    }
}

pub open spec fn count_failures(reports: Seq<Report>) -> int
    decreases reports.len(),
{
    if reports.len() == 0 {
        0
    } else {
        count_failures(reports.drop_last()) + if is_failure(reports.last()) {
            1int
        } else {
            0int
        }
    }
}

pub open spec fn count_bugs(reports: Seq<Report>) -> int
    decreases reports.len(),
{
    if reports.len() == 0 {
        0
    } else {
        count_bugs(reports.drop_last()) + if is_bug(reports.last()) {
            1int
        } else {
            0int
        }
    }
}

proof fn lemma_counts_bounded(reports: Seq<Report>)
    ensures
        0 <= count_success(reports) <= reports.len(),
        0 <= count_failures(reports) <= reports.len(),
        0 <= count_bugs(reports) <= reports.len(),
        count_success(reports) + count_failures(reports) + count_bugs(reports) == reports.len(),
    decreases reports.len(),
{
    if reports.len() > 0 {
        lemma_counts_bounded(reports.drop_last());
    }
}

/// The counts a textual summary reports.
#[derive(Debug, Clone, Copy, PartialEq, Eq, Structural)]
pub struct SummaryCounts {
    pub success: usize,
    pub failures: usize,
    pub bugs: usize,
}

/// Count successes, failures and bugs over the reports.  Every report
/// falls in exactly one class.
pub fn summary_counts(reports: &Vec<Report>) -> (r: SummaryCounts)
    ensures
        r.success == count_success(reports@),
        r.failures == count_failures(reports@),
        r.bugs == count_bugs(reports@),
        r.success + r.failures + r.bugs == reports@.len(),
{
    let mut success: usize = 0;
    let mut failures: usize = 0;
    let mut bugs: usize = 0;
    let mut i: usize = 0;
    proof {
        lemma_counts_bounded(reports@);
    }
    while i < reports.len()
        invariant
            0 <= i <= reports@.len(),
            success == count_success(reports@.subrange(0, i as int)),
            failures == count_failures(reports@.subrange(0, i as int)),
            bugs == count_bugs(reports@.subrange(0, i as int)),
            success + failures + bugs == i,
        decreases reports@.len() - i,
    {
        let ghost prefix = reports@.subrange(0, i as int);
        let ghost longer = reports@.subrange(0, i + 1);
        proof {
            assert(longer.drop_last() =~= prefix);
            assert(longer.last() == reports@[i as int]);
            lemma_counts_bounded(prefix);
        }
        match &reports[i].outcome {
            Outcome::Completed { status, .. } => {
                if status.success {
                    success += 1;
                } else {
                    failures += 1;
                }
            },
            _ => {
                bugs += 1;
            },
        }
        i += 1;
    }
    proof {
        assert(reports@.subrange(0, reports@.len() as int) =~= reports@);
    }
    SummaryCounts { success, failures, bugs }
}

/// Where the serialized results document is written.
pub fn results_json_path(experiment_dir: &str) -> (r: String)
    ensures
        r@ == experiment_dir@ + "/"@ + "results.json"@,
{
    crate::strutil::path_join(experiment_dir, "results.json")
}

/// Where the rendered HTML report is written.
pub fn report_html_path(experiment_dir: &str) -> (r: String)
    ensures
        r@ == experiment_dir@ + "/"@ + "report.html"@,
{
    crate::strutil::path_join(experiment_dir, "report.html")
}

} // verus!
