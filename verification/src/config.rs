//! The experiment document model.
//!
//! An experiment names the package to run, its arguments and environment,
//! which `wasmer` CLI to use, and filters selecting the population of
//! registry packages to test.  The document is immutable once loaded; the
//! pipeline only reads it.

use vstd::prelude::*;

use crate::strutil::str_eq;

verus! {

/// A string that supports variable interpolation (`$VAR`, `${VAR}`) and
/// `~` home expansion when resolved against a lookup table.
#[derive(Debug, Clone, PartialEq, Eq)]
pub struct TemplatedString {
    raw: String,
}

impl View for TemplatedString {
    type V = Seq<char>;

    closed spec fn view(&self) -> Seq<char> {
        self.raw@
    }
}

impl TemplatedString {
    pub fn new(s: String) -> (r: TemplatedString)
        ensures
            r@ == s@,
    {
        TemplatedString { raw: s }
    }

    /// The unexpanded text.
    pub fn raw(&self) -> (r: &str)
        ensures
            r@ == self@,
    {
        self.raw.as_str()
    }

    /// The unexpanded text.
    pub fn as_str(&self) -> (r: &str)
        ensures
            r@ == self@,
    {
        self.raw.as_str()
    }
}

impl From<String> for TemplatedString {
    fn from(value: String) -> (r: TemplatedString) {
        TemplatedString { raw: value }
    }
}

impl vstd::std_specs::convert::FromSpecImpl<String> for TemplatedString {
    open spec fn obeys_from_spec() -> bool {
        true
    }

    closed spec fn from_spec(value: String) -> TemplatedString {
        TemplatedString { raw: value }
    }
}

/// An ordered map from variable names to templated values: insertion
/// order is preserved and keys are unique.
#[derive(Debug, Clone, PartialEq, Eq)]
pub struct EnvMap {
    entries: Vec<(String, TemplatedString)>,
}

impl View for EnvMap {
    type V = Seq<(Seq<char>, Seq<char>)>;

    closed spec fn view(&self) -> Seq<(Seq<char>, Seq<char>)> {
        self.entries@.map_values(|e: (String, TemplatedString)| (e.0@, e.1@))
    }
}

impl EnvMap {
    /// Keys are pairwise distinct.
    pub open spec fn wf(&self) -> bool {
        forall|i: int, j: int|
            0 <= i < j < self@.len() ==> self@[i].0 != self@[j].0
    }

    pub fn new() -> (r: EnvMap)
        ensures
            r@ =~= Seq::<(Seq<char>, Seq<char>)>::empty(),
            r.wf(),
    {
        EnvMap { entries: Vec::new() }
    }

    pub fn len(&self) -> (r: usize)
        ensures
            r == self@.len(),
    {
        self.entries.len()
    }

    pub fn is_empty(&self) -> (r: bool)
        ensures
            r == (self@.len() == 0),
    {
        self.entries.len() == 0
    }

    /// The entry at a position, as (name, unexpanded value).
    pub fn entry(&self, i: usize) -> (r: (&String, &TemplatedString))
        requires
            i < self@.len(),
        ensures
            r.0@ == self@[i as int].0,
            r.1@ == self@[i as int].1,
    {
        let e = &self.entries[i];
        (&e.0, &e.1)
    }

    /// Position of the first entry whose key is `key`, if any.
    pub fn find_key(&self, key: &str) -> (r: Option<usize>)
        ensures
            match r {
                Some(i) => 0 <= i < self@.len() && self@[i as int].0 == key@ && forall|k: int|
                    0 <= k < i ==> self@[k].0 != key@,
                None => forall|k: int| 0 <= k < self@.len() ==> self@[k].0 != key@,
            },
    {
        let mut i: usize = 0;
        while i < self.entries.len()
            invariant
                0 <= i <= self@.len(),
                forall|k: int| 0 <= k < i ==> self@[k].0 != key@,
            decreases self@.len() - i,
        {
            proof {
                assert(self@[i as int].0 == self.entries@[i as int].0@);
            }
            if str_eq(self.entries[i].0.as_str(), key) {
                return Some(i);
            }
            i += 1;
        }
        None
    }

    /// Insert a binding.  An existing key keeps its position and gets the
    /// new value; a new key is appended.
    pub fn insert(&mut self, key: String, value: TemplatedString)
        requires
            old(self).wf(),
        ensures
            final(self).wf(),
            final(self)@ == insert_spec(old(self)@, key@, value@),
    {
        match self.find_key(key.as_str()) {
            Some(i) => {
                self.entries.set(i, (key, value));
                proof {
                    let prev = old(self)@;
                    assert(self@ =~= prev.update(i as int, (key@, value@)));
                    let j = choose|j: int|
                        0 <= j < prev.len() && prev[j].0 == key@ && forall|k: int|
                            0 <= k < j ==> prev[k].0 != key@;
                    assert(prev[i as int].0 == key@);
                    assert(j == i);
                    assert(self@ == insert_spec(prev, key@, value@));
                    assert forall|k: int| 0 <= k < self@.len() implies #[trigger] self@[k].0
                        == prev[k].0 by {}
                }
            },
            None => {
                self.entries.push((key, value));
                proof {
                    assert(self@ =~= old(self)@.push((key@, value@)));
                }
            },
        }
    }

    /// The first (and, when well-formed, only) value bound to `key`.
    pub fn get(&self, key: &str) -> (r: Option<&TemplatedString>)
        ensures
            match r {
                Some(v) => exists|i: int|
                    0 <= i < self@.len() && self@[i].0 == key@ && v@ == self@[i].1,
                None => forall|i: int| 0 <= i < self@.len() ==> self@[i].0 != key@,
            },
    {
        match self.find_key(key) {
            Some(i) => {
                proof {
                    assert(self@[i as int].1 == self.entries@[i as int].1@);
                }
                Some(&self.entries[i].1)
            },
            None => None,
        }
    }
}

/// What `EnvMap::insert` does to the entry sequence.
pub open spec fn insert_spec(
    entries: Seq<(Seq<char>, Seq<char>)>,
    key: Seq<char>,
    value: Seq<char>,
) -> Seq<(Seq<char>, Seq<char>)> {
    if exists|i: int| 0 <= i < entries.len() && entries[i].0 == key {
        let i = choose|i: int|
            0 <= i < entries.len() && entries[i].0 == key && forall|k: int|
                0 <= k < i ==> entries[k].0 != key;
        entries.update(i, (key, value))
    } else {
        entries.push((key, value))
    }
}

/// The `wasmer` CLI version to use.
#[derive(Debug, Clone, PartialEq, Eq)]
pub enum WasmerVersion {
    /// A local binary at the given path.
    Local { path: String },
    /// A released version number.
    Release(String),
    /// The most recent version, resolved from `PATH`.
    Latest,
}

impl WasmerVersion {
    pub fn is_latest(&self) -> (r: bool)
        ensures
            r == (self is Latest),
    {
        match self {
            WasmerVersion::Latest => true,
            _ => false,
        }
    }
}

impl Default for WasmerVersion {
    fn default() -> (r: WasmerVersion)
        ensures
            r is Latest,
    {
        WasmerVersion::Latest
    }
}

/// Configuration for the `wasmer` CLI being used.
#[derive(Debug, Clone, PartialEq, Eq)]
pub struct WasmerConfig {
    /// Which `wasmer` CLI should we use?
    pub version: WasmerVersion,
    /// Additional arguments to pass to the `wasmer` CLI.
    pub args: Vec<TemplatedString>,
    /// Environment variables passed to the `wasmer` CLI.
    pub env: EnvMap,
}

impl WasmerConfig {
    pub open spec fn wf(&self) -> bool {
        self.env.wf()
    }
}

impl Default for WasmerConfig {
    fn default() -> (r: WasmerConfig)
        ensures
            r.version is Latest,
            r.args@.len() == 0,
            r.env@.len() == 0,
            r.wf(),
    {
        WasmerConfig { version: WasmerVersion::Latest, args: Vec::new(), env: EnvMap::new() }
    }
}

/// A default `WasmerConfig` is omitted when the document is serialized.
pub fn should_show_wasmer_config(cfg: &WasmerConfig) -> (r: bool)
    ensures
        r == (cfg.version is Latest && cfg.args@.len() == 0 && cfg.env@.len() == 0),
{
    cfg.version.is_latest() && cfg.args.len() == 0 && cfg.env.is_empty()
}

/// Filters selecting which registry packages join the experiment.
#[derive(Debug, Clone, PartialEq, Eq)]
pub struct Filters {
    /// Limit the experiment to packages under these namespaces.
    pub namespaces: Vec<String>,
    /// Limit the experiment to packages under these users.
    pub users: Vec<String>,
    /// Packages that should be ignored, as `"namespace/name"`.
    pub blacklist: Vec<String>,
    /// Run every published version rather than just the latest one.
    pub include_every_version: bool,
}

impl Filters {
    /// An empty filter set is omitted when the document is serialized.
    pub fn is_empty(&self) -> (r: bool)
        ensures
            r == (self.namespaces@.len() == 0 && self.blacklist@.len() == 0),
    {
        self.namespaces.len() == 0 && self.blacklist.len() == 0
    }
}

impl Default for Filters {
    fn default() -> (r: Filters)
        ensures
            r.namespaces@.len() == 0,
            r.users@.len() == 0,
            r.blacklist@.len() == 0,
            !r.include_every_version,
    {
        Filters {
            namespaces: Vec::new(),
            users: Vec::new(),
            blacklist: Vec::new(),
            include_every_version: false,
        }
    }
}

/// An experiment: the full declarative description of a batch
/// compatibility run.
#[derive(Debug, Clone, PartialEq, Eq)]
pub struct Experiment {
    /// The name of the package used when running the experiment.
    pub package: String,
    /// The command to run, when the package has several entrypoints.
    pub command: Option<String>,
    /// Arguments passed through to the package.
    pub args: Vec<TemplatedString>,
    /// Environment variables set for the package.
    pub env: EnvMap,
    /// Configuration for the `wasmer` CLI being used.
    pub wasmer: WasmerConfig,
    /// Which packages to test.
    pub filters: Filters,
}

impl Experiment {
    pub open spec fn wf(&self) -> bool {
        self.env.wf() && self.wasmer.wf()
    }
}

/// One `NAME=value` pair given on the command line.
#[derive(Debug, Clone, PartialEq, Eq)]
pub struct EnvironmentVariable {
    pub name: String,
    pub value: TemplatedString,
}

impl EnvironmentVariable {
    /// Split `"key=value"` at the first `=`.  Returns `None` when there
    /// is no `=` at all; the caller reports that as a usage error.
    pub fn parse(s: &str) -> (r: Option<EnvironmentVariable>)
        ensures
            match r {
                Some(ev) => exists|i: int|
                    {
                        &&& 0 <= i < s@.len()
                        &&& s@[i] == '='
                        &&& (forall|k: int| 0 <= k < i ==> s@[k] != '=')
                        &&& ev.name@ == s@.subrange(0, i)
                        &&& ev.value@ == s@.subrange(i + 1, s@.len() as int)
                    },
                None => forall|k: int| 0 <= k < s@.len() ==> s@[k] != '=',
            },
    {
        match crate::strutil::find_char(s, '=') {
            Some(i) => {
                let len = s.unicode_len();
                let name = s.substring_char(0, i).to_owned();
                let value = s.substring_char(i + 1, len).to_owned();
                Some(EnvironmentVariable { name, value: TemplatedString::new(value) })
            },
            None => None,
        }
    }
}

/// The document object for a serialized experiment, carrying the schema
/// URL that editors use for auto-complete.
#[derive(Debug, Clone, PartialEq, Eq)]
pub struct Document {
    pub schema: String,
    pub experiment: Experiment,
}

impl Document {
    pub fn new(experiment: Experiment) -> (r: Document)
        ensures
            r.schema@ == SCHEMA_URL@,
            r.experiment == experiment,
    {
        Document { schema: schema_url(), experiment }
    }
}

/// Where the JSON schema for experiment documents is published.
pub const SCHEMA_URL: &'static str =
    "https://github.com/Michael-F-Bryan/wasmer-borealis/tree/main/experiment.schema.json";

pub fn schema_url() -> (r: String)
    ensures
        r@ == SCHEMA_URL@,
{
    SCHEMA_URL.to_owned()
}

} // verus!
