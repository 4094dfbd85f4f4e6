//! The runner: per-case working directory, environment scopes, the
//! `wasmer` command line, and outcome classification.
//!
//! Each test case runs in its own base directory under the experiment
//! directory.  Template expansion sees two scopes: the *common* scope
//! (package identity and asset filenames) is visible to both the host
//! and the guest, while the *host* scope (absolute asset paths and the
//! working directory) is visible only to `wasmer`'s own arguments and
//! environment — never to the guest's.

use vstd::prelude::*;

use crate::cache::Assets;
use crate::config::{Experiment, WasmerVersion};
use crate::discovery::{display_name_of, TestCase};
use crate::results::{ExitStatus, Outcome, Report, SerializableError};
use crate::strutil::{path_join, str_concat, str_concat3};
use crate::template::{expand_spec, opt_str_view, table_lookup, VarTable};

verus! {

/// The base directory of one test case under the experiments directory.
pub open spec fn base_dir_of(
    experiments_dir: Seq<char>,
    namespace: Seq<char>,
    package_name: Seq<char>,
    version: Seq<char>,
) -> Seq<char> {
    experiments_dir + seq!['/'] + namespace + seq!['/'] + package_name + seq!['/'] + version
}

/// The base directory a test case runs in.
pub fn base_dir_for(experiments_dir: &str, test_case: &TestCase) -> (r: String)
    ensures
        r@ == base_dir_of(
            experiments_dir@,
            test_case.namespace@,
            test_case.package_name@,
            test_case.package_version.version@,
        ),
{
    let a = path_join(experiments_dir, test_case.namespace.as_str());
    let b = path_join(a.as_str(), test_case.package_name.as_str());
    let c = path_join(b.as_str(), test_case.package_version.version.as_str());
    proof {
        reveal_strlit("/");
        assert(c@ =~= base_dir_of(
            experiments_dir@,
            test_case.namespace@,
            test_case.package_name@,
            test_case.package_version.version@,
        ));
    }
    c
}

/// `s` contains no path separator.
pub open spec fn slash_free(s: Seq<char>) -> bool {
    forall|k: int| 0 <= k < s.len() ==> s[k] != '/'
}

/// Two equal concatenations with the same prefix have equal suffixes.
proof fn lemma_cancel_prefix(a: Seq<char>, b: Seq<char>, c: Seq<char>)
    requires
        a + b == a + c,
    ensures
        b == c,
{
    broadcast use vstd::seq::axiom_seq_add_len;

    assert((a + b).len() == (a + c).len());
    assert(a.add(b).len() == a.len() + b.len());
    assert(a.len() + b.len() == a.len() + c.len());
    assert(b.len() == c.len());
    assert forall|i: int| 0 <= i < b.len() implies b[i] == c[i] by {
        assert(0 <= a.len() + i < (a + b).len());
        assert((a + b)[a.len() + i] == b[i]);
        assert((a + b) =~= (a + c));
        assert((a + c)[a.len() + i] == c[i]);
    }
    assert(b =~= c);
}

/// Joining a slash-free head to a tail with `/` is injective.
proof fn lemma_slash_join_injective(x1: Seq<char>, y1: Seq<char>, x2: Seq<char>, y2: Seq<char>)
    requires
        slash_free(x1),
        slash_free(x2),
        x1 + seq!['/'] + y1 == x2 + seq!['/'] + y2,
    ensures
        x1 == x2,
        y1 == y2,
{
    let s1 = x1 + seq!['/'] + y1;
    let s2 = x2 + seq!['/'] + y2;
    assert(s1[x1.len() as int] == '/');
    assert(s2[x2.len() as int] == '/');
    if x1.len() < x2.len() {
        assert(s2[x1.len() as int] == x2[x1.len() as int]);
        assert(false);
    }
    if x2.len() < x1.len() {
        assert(s1[x2.len() as int] == x1[x2.len() as int]);
        assert(false);
    }
    assert forall|i: int| 0 <= i < x1.len() implies x1[i] == x2[i] by {
        assert(s1[i] == x1[i]);
        assert(s2[i] == x2[i]);
    }
    assert(x1 =~= x2);
    lemma_cancel_prefix(x1 + seq!['/'], y1, y2);
}

/// Isolation: two distinct test cases (distinct namespace, name or
/// version, all free of path separators) get distinct base directories,
/// so removing one case's directory cannot touch another's.
pub proof fn lemma_case_isolation(experiments_dir: Seq<char>, a: TestCase, b: TestCase)
    requires
        slash_free(a.namespace@),
        slash_free(b.namespace@),
        slash_free(a.package_name@),
        slash_free(b.package_name@),
        !(a.namespace@ == b.namespace@ && a.package_name@ == b.package_name@
            && a.package_version.version@ == b.package_version.version@),
    ensures
        base_dir_of(
            experiments_dir,
            a.namespace@,
            a.package_name@,
            a.package_version.version@,
        ) != base_dir_of(
            experiments_dir,
            b.namespace@,
            b.package_name@,
            b.package_version.version@,
        ),
{
    let pa = base_dir_of(experiments_dir, a.namespace@, a.package_name@, a.package_version.version@);
    let pb = base_dir_of(experiments_dir, b.namespace@, b.package_name@, b.package_version.version@);
    if pa == pb {
        let ta = a.namespace@ + seq!['/'] + a.package_name@ + seq!['/'] + a.package_version.version@;
        let tb = b.namespace@ + seq!['/'] + b.package_name@ + seq!['/'] + b.package_version.version@;
        assert(pa =~= (experiments_dir + seq!['/']) + ta);
        assert(pb =~= (experiments_dir + seq!['/']) + tb);
        lemma_cancel_prefix(experiments_dir + seq!['/'], ta, tb);
        assert(ta =~= a.namespace@ + seq!['/'] + (a.package_name@ + seq!['/']
            + a.package_version.version@));
        assert(tb =~= b.namespace@ + seq!['/'] + (b.package_name@ + seq!['/']
            + b.package_version.version@));
        lemma_slash_join_injective(
            a.namespace@,
            a.package_name@ + seq!['/'] + a.package_version.version@,
            b.namespace@,
            b.package_name@ + seq!['/'] + b.package_version.version@,
        );
        lemma_slash_join_injective(
            a.package_name@,
            a.package_version.version@,
            b.package_name@,
            b.package_version.version@,
        );
        assert(false);
    }
}

/// The two variable scopes a test case's templates resolve against.
#[derive(Debug, Clone, PartialEq, Eq)]
pub struct Env {
    /// Visible to both host-side and guest-side expansion.
    pub common: VarTable,
    /// Visible only to host-side expansion, shadowing `common`.
    pub host: VarTable,
}

/// What host-side expansion sees: host bindings first, so they win.
pub open spec fn host_scope(env: Env) -> Seq<(Seq<char>, Seq<char>)> {
    env.host@ + env.common@
}

/// What guest-side expansion sees: the common bindings only.
pub open spec fn guest_scope(env: Env) -> Seq<(Seq<char>, Seq<char>)> {
    env.common@
}

impl Env {
    /// The scopes of one test case.
    ///
    /// Common: `PKG_NAMESPACE`, `PKG_NAME`, `PKG_VERSION`,
    /// `TARBALL_FILENAME`, and `WEBC_FILENAME` when the case has a
    /// container.  Host-only: `TARBALL_PATH`, `WEBC_PATH` (when
    /// applicable) and `WORKING_DIR`, all absolute.
    pub fn new(working_dir: &str, test_case: &TestCase, has_webc: bool) -> (r: Env)
        ensures
            r.common@.len() == (if has_webc {
                5int
            } else {
                4int
            }),
            r.common@[0].0 == "PKG_NAMESPACE"@ && r.common@[0].1 == test_case.namespace@,
            r.common@[1].0 == "PKG_NAME"@ && r.common@[1].1 == test_case.package_name@,
            r.common@[2].0 == "PKG_VERSION"@ && r.common@[2].1
                == test_case.package_version.version@,
            r.common@[3].0 == "TARBALL_FILENAME"@ && r.common@[3].1 == "package.tar.gz"@,
            has_webc ==> r.common@[4].0 == "WEBC_FILENAME"@ && r.common@[4].1
                == "package.webc"@,
            r.host@.len() == (if has_webc {
                3int
            } else {
                2int
            }),
            r.host@[0].0 == "TARBALL_PATH"@ && r.host@[0].1 == working_dir@ + seq!['/']
                + "package.tar.gz"@,
            has_webc ==> r.host@[1].0 == "WEBC_PATH"@ && r.host@[1].1 == working_dir@
                + seq!['/'] + "package.webc"@,
            r.host@[r.host@.len() - 1].0 == "WORKING_DIR"@ && r.host@[r.host@.len() - 1].1
                == working_dir@,
    {
        let mut common = VarTable::new();
        common.push("PKG_NAMESPACE".to_owned(), test_case.namespace.clone());
        common.push("PKG_NAME".to_owned(), test_case.package_name.clone());
        common.push("PKG_VERSION".to_owned(), test_case.package_version.version.clone());
        common.push("TARBALL_FILENAME".to_owned(), "package.tar.gz".to_owned());
        if has_webc {
            common.push("WEBC_FILENAME".to_owned(), "package.webc".to_owned());
        }
        let mut host = VarTable::new();
        let tarball_path = path_join(working_dir, "package.tar.gz");
        host.push("TARBALL_PATH".to_owned(), tarball_path);
        if has_webc {
            let webc_path = path_join(working_dir, "package.webc");
            host.push("WEBC_PATH".to_owned(), webc_path);
        }
        host.push("WORKING_DIR".to_owned(), working_dir.to_owned());
        proof {
            reveal_strlit("/");
            assert(working_dir@ + "/"@ + "package.tar.gz"@ =~= working_dir@ + seq!['/']
                + "package.tar.gz"@);
            assert(working_dir@ + "/"@ + "package.webc"@ =~= working_dir@ + seq!['/']
                + "package.webc"@);
        }
        Env { common, host }
    }

    /// Host-scope lookup: host bindings first, then common ones.
    pub fn get_host(&self, var: &str) -> (r: Option<String>)
        ensures
            match r {
                Some(v) => table_lookup(host_scope(*self), var@) == Some(v@),
                None => table_lookup(host_scope(*self), var@) is None,
            },
    {
        proof {
            crate::template::lemma_table_lookup_concat(self.host@, self.common@, var@);
        }
        match self.host.lookup(var) {
            Some(v) => Some(v.clone()),
            None => match self.common.lookup(var) {
                Some(v) => Some(v.clone()),
                None => None,
            },
        }
    }

    /// Guest-scope lookup: the common bindings only.
    pub fn get_guest(&self, var: &str) -> (r: Option<String>)
        ensures
            match r {
                Some(v) => table_lookup(guest_scope(*self), var@) == Some(v@),
                None => table_lookup(guest_scope(*self), var@) is None,
            },
    {
        match self.common.lookup(var) {
            Some(v) => Some(v.clone()),
            None => None,
        }
    }

    /// The host scope as one lookup table.
    pub fn host_table(&self) -> (r: VarTable)
        ensures
            r@ == host_scope(*self),
    {
        let mut t = VarTable::new();
        let mut i: usize = 0;
        while i < self.host.len()
            invariant
                0 <= i <= self.host@.len(),
                t@ == self.host@.subrange(0, i as int),
            decreases self.host@.len() - i,
        {
            let (name, value) = self.host.entry(i);
            t.push(name.clone(), value.clone());
            proof {
                assert(t@ =~= self.host@.subrange(0, i + 1));
            }
            i += 1;
        }
        proof {
            assert(t@ =~= self.host@);
        }
        let mut j: usize = 0;
        while j < self.common.len()
            invariant
                0 <= j <= self.common@.len(),
                t@ == self.host@ + self.common@.subrange(0, j as int),
            decreases self.common@.len() - j,
        {
            let (name, value) = self.common.entry(j);
            t.push(name.clone(), value.clone());
            proof {
                assert(t@ =~= self.host@ + self.common@.subrange(0, j + 1));
            }
            j += 1;
        }
        proof {
            assert(self.common@.subrange(0, self.common@.len() as int) =~= self.common@);
            assert(t@ =~= host_scope(*self));
        }
        t
    }

    /// The guest scope as one lookup table.
    pub fn guest_table(&self) -> (r: VarTable)
        ensures
            r@ == guest_scope(*self),
    {
        let mut t = VarTable::new();
        let mut j: usize = 0;
        while j < self.common.len()
            invariant
                0 <= j <= self.common@.len(),
                t@ == self.common@.subrange(0, j as int),
            decreases self.common@.len() - j,
        {
            let (name, value) = self.common.entry(j);
            t.push(name.clone(), value.clone());
            proof {
                assert(t@ =~= self.common@.subrange(0, j + 1));
            }
            j += 1;
        }
        proof {
            assert(t@ =~= self.common@);
        }
        t
    }
}

/// One step of per-case setup.
#[derive(Debug, Clone, PartialEq, Eq)]
pub enum SetupStep {
    /// Remove a directory tree, ignoring "not found".
    RemoveDirAll(String),
    /// Create a directory and its ancestors.
    CreateDirAll(String),
    /// Write the pretty-printed test case to this path.
    WriteTestCaseJson { dest: String },
    /// Create a symlink at `link` pointing at `target`.
    Symlink { target: String, link: String },
    /// Create (truncate) an empty file for writing.
    CreateFile(String),
}

/// The setup steps of one test case, in order: clear and recreate the
/// base directory, record the test case, create `working/`, link the
/// assets under their stable names, and open the two capture files.
pub fn setup_plan(base_dir: &str, assets: &Assets) -> (r: Vec<SetupStep>)
    ensures
        r@.len() == (if assets.webc is Some {
            8int
        } else {
            7int
        }),
        r@[0] matches SetupStep::RemoveDirAll(p) && p@ == base_dir@,
        r@[1] matches SetupStep::CreateDirAll(p) && p@ == base_dir@,
        r@[2] matches SetupStep::WriteTestCaseJson { dest } && dest@ == base_dir@ + seq!['/']
            + "test_case.json"@,
        r@[3] matches SetupStep::CreateDirAll(p) && p@ == base_dir@ + seq!['/'] + "working"@,
        r@[4] matches SetupStep::Symlink { target, link } && target@ == assets.tarball@ && link@
            == base_dir@ + seq!['/'] + "working"@ + seq!['/'] + "package.tar.gz"@,
        assets.webc matches Some(webc) ==> (r@[5] matches SetupStep::Symlink { target, link }
            && target@ == webc@ && link@ == base_dir@ + seq!['/'] + "working"@ + seq!['/']
            + "package.webc"@),
        r@[r@.len() - 2] matches SetupStep::CreateFile(p) && p@ == base_dir@ + seq!['/']
            + "stdout.txt"@,
        r@[r@.len() - 1] matches SetupStep::CreateFile(p) && p@ == base_dir@ + seq!['/']
            + "stderr.txt"@,
{
    let working = path_join(base_dir, "working");
    let ghost working_view = working@;
    let mut plan: Vec<SetupStep> = Vec::new();
    plan.push(SetupStep::RemoveDirAll(base_dir.to_owned()));
    plan.push(SetupStep::CreateDirAll(base_dir.to_owned()));
    plan.push(SetupStep::WriteTestCaseJson { dest: path_join(base_dir, "test_case.json") });
    plan.push(SetupStep::CreateDirAll(working.clone()));
    plan.push(
        SetupStep::Symlink {
            target: assets.tarball.clone(),
            link: path_join(working.as_str(), "package.tar.gz"),
        },
    );
    match &assets.webc {
        Some(webc) => {
            plan.push(
                SetupStep::Symlink {
                    target: webc.clone(),
                    link: path_join(working.as_str(), "package.webc"),
                },
            );
        },
        None => {},
    }
    plan.push(SetupStep::CreateFile(path_join(base_dir, "stdout.txt")));
    plan.push(SetupStep::CreateFile(path_join(base_dir, "stderr.txt")));
    proof {
        reveal_strlit("/");
        assert(working_view =~= base_dir@ + seq!['/'] + "working"@);
        assert(base_dir@ + "/"@ + "test_case.json"@ =~= base_dir@ + seq!['/']
            + "test_case.json"@);
        assert(working_view + "/"@ + "package.tar.gz"@ =~= base_dir@ + seq!['/'] + "working"@
            + seq!['/'] + "package.tar.gz"@);
        assert(working_view + "/"@ + "package.webc"@ =~= base_dir@ + seq!['/'] + "working"@
            + seq!['/'] + "package.webc"@);
        assert(base_dir@ + "/"@ + "stdout.txt"@ =~= base_dir@ + seq!['/'] + "stdout.txt"@);
        assert(base_dir@ + "/"@ + "stderr.txt"@ =~= base_dir@ + seq!['/'] + "stderr.txt"@);
    }
    plan
}

/// The full command invocation for one test case, ready to spawn.
#[derive(Debug, PartialEq, Eq)]
pub struct CommandSpec {
    /// The program to run: the configured local binary, or `wasmer`
    /// resolved from `PATH`.
    pub program: String,
    /// The child's working directory: the case's base directory.
    pub current_dir: String,
    /// The child's entire environment, in order.
    pub env: Vec<(String, String)>,
    /// The arguments, in order.
    pub args: Vec<String>,
}

/// A guest environment argument: `--env=NAME=value`.
pub open spec fn env_arg_of(name: Seq<char>, value: Seq<char>) -> Seq<char> {
    "--env="@ + name + "="@ + value
}

/// One when present, zero when absent.
pub open spec fn opt_count<T>(o: Option<T>) -> int {
    if o is Some {
        1
    } else {
        0
    }
}

/// Build the `wasmer` invocation for one test case.
///
/// The environment is cleared; `PATH` and `WASMER_DIR` are forwarded
/// when the caller found them, then every `wasmer.env` entry resolved
/// against the host scope.  The arguments are `run`, the package, the
/// `wasmer.args` resolved against the host scope, one `--env=NAME=value`
/// per experiment environment entry with the value resolved against the
/// guest scope, the `--` separator, and the experiment arguments
/// resolved against the guest scope.  Host-only variables never reach
/// guest-side expansion.
pub fn build_command(
    experiment: &Experiment,
    env: &Env,
    base_dir: &str,
    home: Option<&str>,
    path_var: Option<String>,
    wasmer_dir_var: Option<String>,
) -> (r: CommandSpec)
    ensures
        experiment.wasmer.version matches WasmerVersion::Local { path } ==> r.program@ == path@,
        !(experiment.wasmer.version is Local) ==> r.program@ == "wasmer"@,
        r.current_dir@ == base_dir@,
        ({
            let np: int = opt_count(path_var);
            let nw: int = opt_count(wasmer_dir_var);
            &&& r.env@.len() == np + nw + experiment.wasmer.env@.len()
            &&& path_var matches Some(p) ==> r.env@[0].0@ == "PATH"@ && r.env@[0].1 == p
            &&& wasmer_dir_var matches Some(w) ==> r.env@[np].0@ == "WASMER_DIR"@ && r.env@[np].1
                == w
            &&& forall|i: int|
                0 <= i < experiment.wasmer.env@.len() ==> (#[trigger] r.env@[np + nw + i]).0@
                    == experiment.wasmer.env@[i].0 && r.env@[np + nw + i].1@ == expand_spec(
                    experiment.wasmer.env@[i].1,
                    opt_str_view(home),
                    host_scope(*env),
                )
        }),
        ({
            let na: int = experiment.wasmer.args@.len() as int;
            let ne: int = experiment.env@.len() as int;
            &&& r.args@.len() == 2 + na + ne + 1 + experiment.args@.len()
            &&& r.args@[0]@ == "run"@
            &&& r.args@[1]@ == experiment.package@
            &&& forall|i: int|
                0 <= i < na ==> (#[trigger] r.args@[2 + i])@ == expand_spec(
                    experiment.wasmer.args@[i]@,
                    opt_str_view(home),
                    host_scope(*env),
                )
            &&& forall|i: int|
                0 <= i < ne ==> (#[trigger] r.args@[2 + na + i])@ == env_arg_of(
                    experiment.env@[i].0,
                    expand_spec(experiment.env@[i].1, opt_str_view(home), guest_scope(*env)),
                )
            &&& r.args@[2 + na + ne]@ == "--"@
            &&& forall|i: int|
                0 <= i < experiment.args@.len() ==> (#[trigger] r.args@[2 + na + ne + 1 + i])@
                    == expand_spec(
                    experiment.args@[i]@,
                    opt_str_view(home),
                    guest_scope(*env),
                )
        }),
{
    let program = match &experiment.wasmer.version {
        WasmerVersion::Local { path } => path.clone(),
        _ => "wasmer".to_owned(),
    };
    let host_table = env.host_table();
    let guest_table = env.guest_table();

    let mut envs: Vec<(String, String)> = Vec::new();
    match path_var {
        Some(p) => envs.push(("PATH".to_owned(), p)),
        None => {},
    }
    match wasmer_dir_var {
        Some(w) => envs.push(("WASMER_DIR".to_owned(), w)),
        None => {},
    }
    let ghost np: int = opt_count(path_var);
    let ghost nw: int = opt_count(wasmer_dir_var);
    let mut i: usize = 0;
    while i < experiment.wasmer.env.len()
        invariant
            0 <= i <= experiment.wasmer.env@.len(),
            envs@.len() == np + nw + i,
            np == opt_count(path_var),
            nw == opt_count(wasmer_dir_var),
            path_var matches Some(p) ==> envs@[0].0@ == "PATH"@ && envs@[0].1 == p,
            wasmer_dir_var matches Some(w) ==> envs@[np].0@ == "WASMER_DIR"@ && envs@[np].1 == w,
            forall|k: int|
                0 <= k < i ==> (#[trigger] envs@[np + nw + k]).0@
                    == experiment.wasmer.env@[k].0 && envs@[np + nw + k].1@ == expand_spec(
                    experiment.wasmer.env@[k].1,
                    opt_str_view(home),
                    host_scope(*env),
                ),
            host_table@ == host_scope(*env),
        decreases experiment.wasmer.env@.len() - i,
    {
        let (name, value) = experiment.wasmer.env.entry(i);
        let resolved = value.resolve(home, &host_table);
        envs.push((name.clone(), resolved));
        i += 1;
    }

    let mut args: Vec<String> = Vec::new();
    args.push("run".to_owned());
    args.push(experiment.package.clone());
    let ghost na: int = experiment.wasmer.args@.len() as int;
    let ghost ne: int = experiment.env@.len() as int;
    let mut j: usize = 0;
    while j < experiment.wasmer.args.len()
        invariant
            0 <= j <= na,
            na == experiment.wasmer.args@.len(),
            args@.len() == 2 + j,
            args@[0]@ == "run"@,
            args@[1]@ == experiment.package@,
            forall|k: int|
                0 <= k < j ==> (#[trigger] args@[2 + k])@ == expand_spec(
                    experiment.wasmer.args@[k]@,
                    opt_str_view(home),
                    host_scope(*env),
                ),
            host_table@ == host_scope(*env),
        decreases na - j,
    {
        let resolved = experiment.wasmer.args[j].resolve(home, &host_table);
        args.push(resolved);
        j += 1;
    }
    let mut k: usize = 0;
    while k < experiment.env.len()
        invariant
            0 <= k <= ne,
            na == experiment.wasmer.args@.len(),
            ne == experiment.env@.len(),
            args@.len() == 2 + na + k,
            args@[0]@ == "run"@,
            args@[1]@ == experiment.package@,
            forall|m: int|
                0 <= m < na ==> (#[trigger] args@[2 + m])@ == expand_spec(
                    experiment.wasmer.args@[m]@,
                    opt_str_view(home),
                    host_scope(*env),
                ),
            forall|m: int|
                0 <= m < k ==> (#[trigger] args@[2 + na + m])@ == env_arg_of(
                    experiment.env@[m].0,
                    expand_spec(experiment.env@[m].1, opt_str_view(home), guest_scope(*env)),
                ),
            guest_table@ == guest_scope(*env),
        decreases ne - k,
    {
        let (name, value) = experiment.env.entry(k);
        let resolved = value.resolve(home, &guest_table);
        let head = str_concat3("--env=", name.as_str(), "=");
        let arg = str_concat(head.as_str(), resolved.as_str());
        proof {
            assert(arg@ =~= env_arg_of(
                experiment.env@[k as int].0,
                expand_spec(
                    experiment.env@[k as int].1,
                    opt_str_view(home),
                    guest_scope(*env),
                ),
            ));
        }
        args.push(arg);
        k += 1;
    }
    args.push("--".to_owned());
    let mut m: usize = 0;
    while m < experiment.args.len()
        invariant
            0 <= m <= experiment.args@.len(),
            na == experiment.wasmer.args@.len(),
            ne == experiment.env@.len(),
            args@.len() == 2 + na + ne + 1 + m,
            args@[0]@ == "run"@,
            args@[1]@ == experiment.package@,
            forall|q: int|
                0 <= q < na ==> (#[trigger] args@[2 + q])@ == expand_spec(
                    experiment.wasmer.args@[q]@,
                    opt_str_view(home),
                    host_scope(*env),
                ),
            forall|q: int|
                0 <= q < ne ==> (#[trigger] args@[2 + na + q])@ == env_arg_of(
                    experiment.env@[q].0,
                    expand_spec(experiment.env@[q].1, opt_str_view(home), guest_scope(*env)),
                ),
            args@[2 + na + ne]@ == "--"@,
            forall|q: int|
                0 <= q < m ==> (#[trigger] args@[2 + na + ne + 1 + q])@ == expand_spec(
                    experiment.args@[q]@,
                    opt_str_view(home),
                    guest_scope(*env),
                ),
            guest_table@ == guest_scope(*env),
        decreases experiment.args@.len() - m,
    {
        let resolved = experiment.args[m].resolve(home, &guest_table);
        args.push(resolved);
        m += 1;
    }
    CommandSpec { program, current_dir: base_dir.to_owned(), env: envs, args }
}

/// How one spawned (or failed) run ended, as the caller observed it.
#[derive(Debug, PartialEq, Eq)]
pub enum RunResult {
    /// The process ran to an exit.
    Completed { success: bool, code: Option<i32>, run_time_ms: u64 },
    /// The process could not be started (missing binary, permissions).
    SpawnFailed { error: SerializableError },
    /// A setup step failed before anything was spawned.
    SetupFailed { error: SerializableError },
}

/// Classify one case's run into its report.
///
/// A process that exited — successfully or not — is `Completed`; a
/// non-zero exit is a data point, not a pipeline error.  A spawn failure
/// is classified as `SetupFailed`, like any other setup failure;
/// `Outcome::SpawnFailed` stays reserved.
pub fn report_for_case(test_case: &TestCase, base_dir: String, result: RunResult) -> (r: Report)
    ensures
        r.display_name@ == display_name_of(test_case.namespace@, test_case.package_name@),
        r.package_version == test_case.package_version,
        result matches RunResult::Completed { success, code, run_time_ms } ==> (r.outcome
            matches Outcome::Completed { status, run_time_ms: t, base_dir: bd } && {
            &&& status.success == success
            &&& code matches Some(c) ==> status.code == c
            &&& code is None ==> status.code == 1
            &&& t == run_time_ms
            &&& bd == base_dir
        }),
        result matches RunResult::SpawnFailed { error } ==> (r.outcome matches
            Outcome::SetupFailed { base_dir: bd, error: e } && bd == base_dir && e == error),
        result matches RunResult::SetupFailed { error } ==> (r.outcome matches
            Outcome::SetupFailed { base_dir: bd, error: e } && bd == base_dir && e == error),
{
    let display_name = test_case.display_name();
    let package_version = test_case.package_version.clone();
    let outcome = match result {
        RunResult::Completed { success, code, run_time_ms } => Outcome::Completed {
            status: ExitStatus::from_raw(success, code),
            run_time_ms,
            base_dir,
        },
        RunResult::SpawnFailed { error } => Outcome::SetupFailed { base_dir, error },
        RunResult::SetupFailed { error } => Outcome::SetupFailed { base_dir, error },
    };
    Report { display_name, package_version, outcome }
}

/// The report for a case whose assets could not be fetched.
pub fn fetch_failed_report(test_case: &TestCase, error: SerializableError) -> (r: Report)
    ensures
        r.display_name@ == display_name_of(test_case.namespace@, test_case.package_name@),
        r.package_version == test_case.package_version,
        r.outcome matches Outcome::FetchFailed { error: e } && e == error,
{
    Report {
        display_name: test_case.display_name(),
        package_version: test_case.package_version.clone(),
        outcome: Outcome::FetchFailed { error },
    }
}

/// How many child processes may run at once: the logical CPU count with
/// a floor of four.
pub fn process_limit(parallelism: Option<usize>) -> (r: usize)
    ensures
        r == (match parallelism {
            Some(p) => if p > 4 {
                p as int
            } else {
                4int
            },
            None => 4int,
        }),
        r >= 4,
{
    match parallelism {
        Some(p) => if p > 4 {
            p
        } else {
            4
        },
        None => 4,
    }
}

/// How many downloads may run at once: the available parallelism with a
/// floor of sixteen.
pub fn download_limit(parallelism: Option<usize>) -> (r: usize)
    ensures
        r == (match parallelism {
            Some(p) => if p > 16 {
                p as int
            } else {
                16int
            },
            None => 16int,
        }),
        r >= 16,
{
    match parallelism {
        Some(p) => if p > 16 {
            p
        } else {
            16
        },
        None => 16,
    }
}

} // verus!
