//! The command-line surface, as data.
//!
//! Argument parsing itself happens outside the library; these types
//! carry what the subcommands received, and the experiment document a
//! `new` invocation builds from them is constructed and checked here.

use vstd::prelude::*;

use crate::config::{
    insert_spec, Document, EnvMap, EnvironmentVariable, Experiment, Filters, TemplatedString,
    WasmerConfig,
};

verus! {

/// `new <package> [-o path] [-e K=V]… [-- args…]`: emit an experiment
/// document.
#[derive(Debug, PartialEq, Eq)]
pub struct New {
    /// Where to save the experiment file; standard output when absent.
    pub output: Option<String>,
    /// Extra environment variables to set for the spawned program.
    pub env: Vec<EnvironmentVariable>,
    /// The package to test.
    pub package: String,
    /// Arguments passed through to the package.
    pub args: Vec<TemplatedString>,
}

/// The environment map the given variables build up, first to last.
pub open spec fn env_entries_inserted(entries: Seq<EnvironmentVariable>) -> Seq<
    (Seq<char>, Seq<char>),
>
    decreases entries.len(),
{
    if entries.len() == 0 {
        Seq::empty()
    } else {
        insert_spec(
            env_entries_inserted(entries.drop_last()),
            entries.last().name@,
            entries.last().value@,
        )
    }
}

impl New {
    /// Build the experiment document this invocation describes: the
    /// given package and arguments, the given environment variables in
    /// order, and default wasmer configuration and filters.
    pub fn build_document(self) -> (r: Document)
        ensures
            r.schema@ == crate::config::SCHEMA_URL@,
            r.experiment.package == self.package,
            r.experiment.command is None,
            r.experiment.args == self.args,
            r.experiment.env@ == env_entries_inserted(self.env@),
            r.experiment.env.wf(),
            r.experiment.wasmer.version is Latest,
            r.experiment.wasmer.args@.len() == 0,
            r.experiment.wasmer.env@.len() == 0,
            r.experiment.filters.namespaces@.len() == 0,
            r.experiment.filters.users@.len() == 0,
            r.experiment.filters.blacklist@.len() == 0,
            !r.experiment.filters.include_every_version,
    {
        let ghost orig = self.env@;
        let mut entries = self.env;
        let mut env = EnvMap::new();
        let ghost mut k: int = 0;
        proof {
            assert(entries@ =~= orig.subrange(0, orig.len() as int));
            assert(env@ =~= env_entries_inserted(orig.subrange(0, 0)));
        }
        while entries.len() > 0
            invariant
                0 <= k <= orig.len(),
                entries@ == orig.subrange(k, orig.len() as int),
                env@ == env_entries_inserted(orig.subrange(0, k)),
                env.wf(),
            decreases entries@.len(),
        {
            let ghost prefix = orig.subrange(0, k);
            let ghost longer = orig.subrange(0, k + 1);
            proof {
                assert(longer.drop_last() =~= prefix);
                assert(longer.last() == orig[k]);
            }
            let entry = entries.remove(0);
            env.insert(entry.name, entry.value);
            proof {
                assert(entries@ =~= orig.subrange(k + 1, orig.len() as int));
                k = k + 1;
            }
        }
        proof {
            assert(orig.subrange(0, orig.len() as int) =~= orig);
        }
        let experiment = Experiment {
            package: self.package,
            command: None,
            args: self.args,
            env,
            wasmer: WasmerConfig::default(),
            filters: Filters::default(),
        };
        Document::new(experiment)
    }
}

/// `run <file> [--registry host] [--output dir] [--token TOKEN]`: run an
/// experiment and write its artifacts.
#[derive(Debug, PartialEq, Eq)]
pub struct Run {
    /// The registry to query packages from.
    pub registry: String,
    /// Bearer token for the registry, when one is needed.
    pub token: Option<String>,
    /// The directory all experiment files are written to.
    pub output: Option<String>,
    /// The experiment document to run.
    pub experiment: String,
}

/// `report <results.json> [--html path] [--open]`: re-render a results
/// document.
#[derive(Debug, PartialEq, Eq)]
pub struct Report {
    /// Save an HTML report to this location.
    pub html: Option<String>,
    /// Open the report in the browser (implies the HTML report).
    pub open_in_browser: bool,
    /// The results document generated during an experiment run.
    pub json: String,
}

/// Download a registry's GraphQL schema for the checked-in copy.
#[derive(Debug, PartialEq, Eq)]
pub struct Schema {
    pub registry: String,
    pub output: String,
}

/// Bundle release artifacts.
#[derive(Debug, PartialEq, Eq)]
pub struct Dist {
    /// The directory to save release artifacts to.
    pub output_dir: String,
}

/// A repository file copied verbatim into the release bundle.
#[derive(Debug, Clone, PartialEq, Eq)]
pub struct StaticFile {
    pub src: String,
    pub dest: String,
}

impl StaticFile {
    pub fn new(filename: String) -> (r: StaticFile)
        ensures
            r.src@ == filename@,
            r.dest@ == filename@,
    {
        let dest = filename.clone();
        StaticFile { src: filename, dest }
    }
}

} // verus!
