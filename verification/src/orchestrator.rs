//! The orchestrator: the pipeline's bookkeeping as a state machine.
//!
//! Discovered test cases flow through the stages fetch-queued →
//! downloading → run-queued → running → reported.  The orchestrator
//! tracks every case in one slot table and enforces the two concurrency
//! bounds: at no point are more cases downloading than the download
//! limit allows, or running than the process limit allows.  When
//! discovery has closed and every slot is reported, the run is finished
//! and carries exactly one report per discovered case.  The caller
//! drives the machine: it performs the downloads and runs and feeds the
//! completions back in.

use vstd::prelude::*;

use crate::config::Experiment;
use crate::discovery::TestCase;
use crate::results::{Report, Results};

verus! {

/// Where one test case stands in the pipeline.
#[derive(Debug, Clone, Copy, PartialEq, Eq, Structural)]
pub enum CaseStage {
    /// Discovered; waiting for a download permit.
    FetchQueued,
    /// Its assets are being fetched.
    Downloading,
    /// Assets ready; waiting for a process permit.
    RunQueued,
    /// The case is executing.
    Running,
    /// Its report has been collected.
    Reported,
}

/// One discovered test case and its stage.
#[derive(Debug, PartialEq, Eq)]
pub struct CaseSlot {
    pub test_case: TestCase,
    pub stage: CaseStage,
}

/// How many slots stand in the given stage.
pub open spec fn count_stage(cases: Seq<CaseSlot>, stage: CaseStage) -> int
    decreases cases.len(),
{
    if cases.len() == 0 {
        0
    } else {
        count_stage(cases.drop_last(), stage) + if cases.last().stage == stage {
            1int
        } else {
            0int
        }
    }
}

proof fn lemma_count_stage_le(cases: Seq<CaseSlot>, stage: CaseStage)
    ensures
        0 <= count_stage(cases, stage) <= cases.len(),
    decreases cases.len(),
{
    if cases.len() > 0 {
        lemma_count_stage_le(cases.drop_last(), stage);
    }
}

proof fn lemma_count_stage_witness(cases: Seq<CaseSlot>, stage: CaseStage, i: int)
    requires
        0 <= i < cases.len(),
    ensures
        cases[i].stage == stage ==> count_stage(cases, stage) >= 1,
        cases[i].stage != stage ==> count_stage(cases, stage) <= cases.len() - 1,
    decreases cases.len(),
{
    lemma_count_stage_le(cases.drop_last(), stage);
    if cases.len() > 0 && i < cases.len() - 1 {
        lemma_count_stage_witness(cases.drop_last(), stage, i);
        assert(cases.drop_last()[i] == cases[i]);
    }
}

proof fn lemma_count_stage_update(cases: Seq<CaseSlot>, i: int, slot: CaseSlot, stage: CaseStage)
    requires
        0 <= i < cases.len(),
    ensures
        count_stage(cases.update(i, slot), stage) == count_stage(cases, stage) - (if cases[i].stage
            == stage {
            1int
        } else {
            0int
        }) + (if slot.stage == stage {
            1int
        } else {
            0int
        }),
    decreases cases.len(),
{
    let updated = cases.update(i, slot);
    if i == cases.len() - 1 {
        assert(updated.drop_last() =~= cases.drop_last());
        assert(updated.last() == slot);
    } else {
        assert(updated.drop_last() =~= cases.drop_last().update(i, slot));
        assert(updated.last() == cases.last());
        lemma_count_stage_update(cases.drop_last(), i, slot, stage);
        assert(cases.drop_last()[i] == cases[i]);
    }
}

/// The top-level experiment runner's bookkeeping.
#[derive(Debug)]
pub struct Orchestrator {
    /// How many cases may download at once.
    pub download_limit: usize,
    /// How many cases may run at once.
    pub process_limit: usize,
    /// Discovery is still producing cases.
    pub discovery_open: bool,
    /// Every discovered case, in discovery order, with its stage.
    pub cases: Vec<CaseSlot>,
    /// The collected reports, in completion order.
    pub reports: Vec<Report>,
    /// How many slots stand in `Downloading`.
    pub downloading: usize,
    /// How many slots stand in `Running`.
    pub running: usize,
    /// How many slots stand in `Reported`.
    pub reported: usize,
}

impl Orchestrator {
    /// The machine's invariant.  Concurrency bound: no more cases
    /// download at once than the download limit, and no more run at
    /// once than the process limit.  One report per reported slot.
    pub open spec fn wf(&self) -> bool {
        &&& self.download_limit >= 1
        &&& self.process_limit >= 1
        &&& self.downloading == count_stage(self.cases@, CaseStage::Downloading)
        &&& self.running == count_stage(self.cases@, CaseStage::Running)
        &&& self.reported == count_stage(self.cases@, CaseStage::Reported)
        &&& self.downloading <= self.download_limit
        &&& self.running <= self.process_limit
        &&& self.reports@.len() == self.reported
    }

    /// The run is complete: discovery has closed and every case is
    /// reported.
    pub open spec fn finished(&self) -> bool {
        !self.discovery_open && count_stage(self.cases@, CaseStage::Reported)
            == self.cases@.len()
    }

    pub fn new(download_limit: usize, process_limit: usize) -> (r: Orchestrator)
        requires
            download_limit >= 1,
            process_limit >= 1,
        ensures
            r.wf(),
            r.discovery_open,
            r.cases@.len() == 0,
            r.reports@.len() == 0,
            r.download_limit == download_limit,
            r.process_limit == process_limit,
    {
        Orchestrator {
            download_limit,
            process_limit,
            discovery_open: true,
            cases: Vec::new(),
            reports: Vec::new(),
            downloading: 0,
            running: 0,
            reported: 0,
        }
    }

    pub fn len(&self) -> (r: usize)
        ensures
            r == self.cases@.len(),
    {
        self.cases.len()
    }

    pub fn stage(&self, i: usize) -> (r: CaseStage)
        requires
            i < self.cases@.len(),
        ensures
            r == self.cases@[i as int].stage,
    {
        self.cases[i].stage
    }

    pub fn test_case(&self, i: usize) -> (r: &TestCase)
        requires
            i < self.cases@.len(),
        ensures
            *r == self.cases@[i as int].test_case,
    {
        &self.cases[i].test_case
    }

    /// Discovery produced one more test case: queue it.
    pub fn discovered(&mut self, test_case: TestCase)
        requires
            old(self).wf(),
            old(self).discovery_open,
        ensures
            final(self).wf(),
            final(self).cases@.len() == old(self).cases@.len() + 1,
            final(self).cases@ == old(self).cases@.push(
                CaseSlot { test_case, stage: CaseStage::FetchQueued },
            ),
            final(self).reports@ == old(self).reports@,
            final(self).discovery_open,
            final(self).download_limit == old(self).download_limit,
            final(self).process_limit == old(self).process_limit,
    {
        let slot = CaseSlot { test_case, stage: CaseStage::FetchQueued };
        let ghost slot_ghost = slot;
        self.cases.push(slot);
        proof {
            assert(self.cases@.drop_last() =~= old(self).cases@);
            assert(self.cases@.last() == slot_ghost);
        }
    }

    /// Discovery has no more cases.
    pub fn discovery_finished(&mut self)
        requires
            old(self).wf(),
        ensures
            final(self).wf(),
            !final(self).discovery_open,
            final(self).cases@ == old(self).cases@,
            final(self).reports@ == old(self).reports@,
            final(self).download_limit == old(self).download_limit,
            final(self).process_limit == old(self).process_limit,
    {
        self.discovery_open = false;
    }

    /// A download permit is available.
    pub fn can_start_download(&self) -> (r: bool)
        ensures
            r == (self.downloading < self.download_limit),
    {
        self.downloading < self.download_limit
    }

    /// A process permit is available.
    pub fn can_start_run(&self) -> (r: bool)
        ensures
            r == (self.running < self.process_limit),
    {
        self.running < self.process_limit
    }

    /// Take a download permit for a queued case and hand out what to
    /// fetch.
    pub fn start_download(&mut self, i: usize) -> (r: TestCase)
        requires
            old(self).wf(),
            i < old(self).cases@.len(),
            old(self).cases@[i as int].stage is FetchQueued,
            old(self).downloading < old(self).download_limit,
        ensures
            final(self).wf(),
            r == old(self).cases@[i as int].test_case,
            final(self).cases@ == old(self).cases@.update(
                i as int,
                CaseSlot { test_case: r, stage: CaseStage::Downloading },
            ),
            final(self).reports@ == old(self).reports@,
            final(self).discovery_open == old(self).discovery_open,
            final(self).download_limit == old(self).download_limit,
            final(self).process_limit == old(self).process_limit,
    {
        let test_case = self.cases[i].test_case.clone();
        let slot = CaseSlot { test_case: test_case.clone(), stage: CaseStage::Downloading };
        let ghost slot_ghost = slot;
        self.cases.set(i, slot);
        self.downloading += 1;
        proof {
            lemma_count_stage_update(
                old(self).cases@,
                i as int,
                slot_ghost,
                CaseStage::Downloading,
            );
            lemma_count_stage_update(old(self).cases@, i as int, slot_ghost, CaseStage::Running);
            lemma_count_stage_update(old(self).cases@, i as int, slot_ghost, CaseStage::Reported);
        }
        test_case
    }

    /// The case's assets arrived: release the download permit and queue
    /// the run.
    pub fn download_succeeded(&mut self, i: usize)
        requires
            old(self).wf(),
            i < old(self).cases@.len(),
            old(self).cases@[i as int].stage is Downloading,
        ensures
            final(self).wf(),
            final(self).cases@ == old(self).cases@.update(
                i as int,
                CaseSlot {
                    test_case: old(self).cases@[i as int].test_case,
                    stage: CaseStage::RunQueued,
                },
            ),
            final(self).reports@ == old(self).reports@,
            final(self).discovery_open == old(self).discovery_open,
            final(self).download_limit == old(self).download_limit,
            final(self).process_limit == old(self).process_limit,
    {
        proof {
            lemma_count_stage_witness(self.cases@, CaseStage::Downloading, i as int);
        }
        let test_case = self.cases[i].test_case.clone();
        let slot = CaseSlot { test_case, stage: CaseStage::RunQueued };
        let ghost slot_ghost = slot;
        self.cases.set(i, slot);
        self.downloading -= 1;
        proof {
            lemma_count_stage_update(
                old(self).cases@,
                i as int,
                slot_ghost,
                CaseStage::Downloading,
            );
            lemma_count_stage_update(old(self).cases@, i as int, slot_ghost, CaseStage::Running);
            lemma_count_stage_update(old(self).cases@, i as int, slot_ghost, CaseStage::Reported);
        }
    }

    /// Fetching the case's assets failed: release the permit and record
    /// its report.  The case is finished; the pipeline continues.
    pub fn download_failed(&mut self, i: usize, report: Report)
        requires
            old(self).wf(),
            i < old(self).cases@.len(),
            old(self).cases@[i as int].stage is Downloading,
        ensures
            final(self).wf(),
            final(self).cases@ == old(self).cases@.update(
                i as int,
                CaseSlot {
                    test_case: old(self).cases@[i as int].test_case,
                    stage: CaseStage::Reported,
                },
            ),
            final(self).reports@ == old(self).reports@.push(report),
            final(self).discovery_open == old(self).discovery_open,
            final(self).download_limit == old(self).download_limit,
            final(self).process_limit == old(self).process_limit,
    {
        proof {
            lemma_count_stage_witness(self.cases@, CaseStage::Downloading, i as int);
            lemma_count_stage_witness(self.cases@, CaseStage::Reported, i as int);
            lemma_count_stage_le(self.cases@, CaseStage::Reported);
        }
        let total = self.cases.len();
        proof {
            assert(self.reported < total);
        }
        let test_case = self.cases[i].test_case.clone();
        let slot = CaseSlot { test_case, stage: CaseStage::Reported };
        let ghost slot_ghost = slot;
        self.cases.set(i, slot);
        self.downloading -= 1;
        self.reported += 1;
        self.reports.push(report);
        proof {
            lemma_count_stage_update(
                old(self).cases@,
                i as int,
                slot_ghost,
                CaseStage::Downloading,
            );
            lemma_count_stage_update(old(self).cases@, i as int, slot_ghost, CaseStage::Running);
            lemma_count_stage_update(old(self).cases@, i as int, slot_ghost, CaseStage::Reported);
        }
    }

    /// Take a process permit for a case whose assets are ready.
    pub fn start_run(&mut self, i: usize)
        requires
            old(self).wf(),
            i < old(self).cases@.len(),
            old(self).cases@[i as int].stage is RunQueued,
            old(self).running < old(self).process_limit,
        ensures
            final(self).wf(),
            final(self).cases@ == old(self).cases@.update(
                i as int,
                CaseSlot {
                    test_case: old(self).cases@[i as int].test_case,
                    stage: CaseStage::Running,
                },
            ),
            final(self).reports@ == old(self).reports@,
            final(self).discovery_open == old(self).discovery_open,
            final(self).download_limit == old(self).download_limit,
            final(self).process_limit == old(self).process_limit,
    {
        let test_case = self.cases[i].test_case.clone();
        let slot = CaseSlot { test_case, stage: CaseStage::Running };
        let ghost slot_ghost = slot;
        self.cases.set(i, slot);
        self.running += 1;
        proof {
            lemma_count_stage_update(
                old(self).cases@,
                i as int,
                slot_ghost,
                CaseStage::Downloading,
            );
            lemma_count_stage_update(old(self).cases@, i as int, slot_ghost, CaseStage::Running);
            lemma_count_stage_update(old(self).cases@, i as int, slot_ghost, CaseStage::Reported);
        }
    }

    /// The case finished: release the process permit and record its
    /// report.
    pub fn run_finished(&mut self, i: usize, report: Report)
        requires
            old(self).wf(),
            i < old(self).cases@.len(),
            old(self).cases@[i as int].stage is Running,
        ensures
            final(self).wf(),
            final(self).cases@ == old(self).cases@.update(
                i as int,
                CaseSlot {
                    test_case: old(self).cases@[i as int].test_case,
                    stage: CaseStage::Reported,
                },
            ),
            final(self).reports@ == old(self).reports@.push(report),
            final(self).discovery_open == old(self).discovery_open,
            final(self).download_limit == old(self).download_limit,
            final(self).process_limit == old(self).process_limit,
    {
        proof {
            lemma_count_stage_witness(self.cases@, CaseStage::Running, i as int);
            lemma_count_stage_witness(self.cases@, CaseStage::Reported, i as int);
            lemma_count_stage_le(self.cases@, CaseStage::Reported);
        }
        let total = self.cases.len();
        proof {
            assert(self.reported < total);
        }
        let test_case = self.cases[i].test_case.clone();
        let slot = CaseSlot { test_case, stage: CaseStage::Reported };
        let ghost slot_ghost = slot;
        self.cases.set(i, slot);
        self.running -= 1;
        self.reported += 1;
        self.reports.push(report);
        proof {
            lemma_count_stage_update(
                old(self).cases@,
                i as int,
                slot_ghost,
                CaseStage::Downloading,
            );
            lemma_count_stage_update(old(self).cases@, i as int, slot_ghost, CaseStage::Running);
            lemma_count_stage_update(old(self).cases@, i as int, slot_ghost, CaseStage::Reported);
        }
    }

    /// Whether the run is complete.
    pub fn is_finished(&self) -> (r: bool)
        requires
            self.wf(),
        ensures
            r == self.finished(),
    {
        proof {
            lemma_count_stage_le(self.cases@, CaseStage::Reported);
        }
        !self.discovery_open && self.reported == self.cases.len()
    }

    /// Close the run: every discovered case contributed exactly one
    /// report.
    pub fn into_results(
        self,
        experiment: Experiment,
        total_time_ms: u64,
        experiment_dir: String,
    ) -> (r: Results)
        requires
            self.wf(),
            self.finished(),
        ensures
            r.reports@ == self.reports@,
            r.reports@.len() == self.cases@.len(),
            r.experiment == experiment,
            r.total_time_ms == total_time_ms,
            r.experiment_dir == experiment_dir,
    {
        Results { experiment, reports: self.reports, total_time_ms, experiment_dir }
    }
}

/// Report count: a finished run holds exactly one report per discovered
/// test case.
pub proof fn lemma_report_count(p: Orchestrator)
    requires
        p.wf(),
        p.finished(),
    ensures
        p.reports@.len() == p.cases@.len(),
{
}

/// Concurrency bound: in every well-formed state, no more cases are
/// downloading than the download limit and no more are running than the
/// process limit.
pub proof fn lemma_concurrency_bounded(p: Orchestrator)
    requires
        p.wf(),
    ensures
        count_stage(p.cases@, CaseStage::Downloading) <= p.download_limit,
        count_stage(p.cases@, CaseStage::Running) <= p.process_limit,
{
}

} // verus!
