//! The asset cache: layout, hit rule, and atomic publication.
//!
//! Each test case's artifacts live under a deterministic directory
//! `{cache_root}/{registry}/{namespace}/{package_name}/{version}/`.  A
//! case is a cache hit when that directory and its tarball exist; a miss
//! produces a download plan whose filesystem steps publish the artifacts
//! atomically: everything is written into a fresh temporary directory
//! and a single rename puts it in place, so an interrupted download
//! never leaves a half-written destination.  The plan is data; executing
//! its steps is the caller's job.

use vstd::prelude::*;

use crate::discovery::TestCase;
use crate::results::SerializableError;
use crate::strutil::{contains_seq, match_at, path_join, str_concat, str_concat3};

verus! {

/// The cache directory for one `(registry, namespace, name, version)`.
pub open spec fn package_dir_of(
    cache_root: Seq<char>,
    registry: Seq<char>,
    namespace: Seq<char>,
    package_name: Seq<char>,
    version: Seq<char>,
) -> Seq<char> {
    cache_root + seq!['/'] + registry + seq!['/'] + namespace + seq!['/'] + package_name
        + seq!['/'] + version
}

/// Its parent: the per-package directory.
pub open spec fn package_parent_of(
    cache_root: Seq<char>,
    registry: Seq<char>,
    namespace: Seq<char>,
    package_name: Seq<char>,
) -> Seq<char> {
    cache_root + seq!['/'] + registry + seq!['/'] + namespace + seq!['/'] + package_name
}

/// The cache directory a test case's artifacts live in.
pub fn package_version_dir(dir: &str, test_case: &TestCase) -> (r: String)
    ensures
        r@ == package_dir_of(
            dir@,
            test_case.registry@,
            test_case.namespace@,
            test_case.package_name@,
            test_case.package_version.version@,
        ),
{
    let a = path_join(dir, test_case.registry.as_str());
    let b = path_join(a.as_str(), test_case.namespace.as_str());
    let c = path_join(b.as_str(), test_case.package_name.as_str());
    let d = path_join(c.as_str(), test_case.package_version.version.as_str());
    proof {
        reveal_strlit("/");
        assert(d@ =~= package_dir_of(
            dir@,
            test_case.registry@,
            test_case.namespace@,
            test_case.package_name@,
            test_case.package_version.version@,
        ));
    }
    d
}

/// Every path the cache uses for one test case.
#[derive(Debug, PartialEq, Eq)]
pub struct CachePaths {
    /// The cache root the paths were derived from.
    pub root: String,
    /// The per-version cache directory.
    pub dir: String,
    /// Its parent, the per-package directory.
    pub parent: String,
    /// `{package_name}.tar.gz`.
    pub tarball_name: String,
    /// `{package_name}.webc`.
    pub webc_name: String,
    /// The tarball's final path inside `dir`.
    pub tarball: String,
    /// The container's final path inside `dir`.
    pub webc: String,
}

impl CachePaths {
    /// The paths are the ones `cache_paths` derives for this case.
    pub open spec fn wf(&self, test_case: TestCase) -> bool {
        &&& self.dir@ == package_dir_of(
            self.root@,
            test_case.registry@,
            test_case.namespace@,
            test_case.package_name@,
            test_case.package_version.version@,
        )
        &&& self.parent@ == package_parent_of(
            self.root@,
            test_case.registry@,
            test_case.namespace@,
            test_case.package_name@,
        )
        &&& self.tarball_name@ == test_case.package_name@ + ".tar.gz"@
        &&& self.webc_name@ == test_case.package_name@ + ".webc"@
        &&& self.tarball@ == self.dir@ + seq!['/'] + self.tarball_name@
        &&& self.webc@ == self.dir@ + seq!['/'] + self.webc_name@
    }
}

/// Derive every path the cache uses for one test case.  The derivation
/// is a function of the case's identity alone, so the cache location is
/// deterministic and stable across runs.
pub fn cache_paths(cache_root: &str, test_case: &TestCase) -> (r: CachePaths)
    ensures
        r.root@ == cache_root@,
        r.wf(*test_case),
{
    let a = path_join(cache_root, test_case.registry.as_str());
    let b = path_join(a.as_str(), test_case.namespace.as_str());
    let parent = path_join(b.as_str(), test_case.package_name.as_str());
    let dir = path_join(parent.as_str(), test_case.package_version.version.as_str());
    let tarball_name = str_concat(test_case.package_name.as_str(), ".tar.gz");
    let webc_name = str_concat(test_case.package_name.as_str(), ".webc");
    let tarball = path_join(dir.as_str(), tarball_name.as_str());
    let webc = path_join(dir.as_str(), webc_name.as_str());
    let r = CachePaths {
        root: cache_root.to_owned(),
        dir,
        parent,
        tarball_name,
        webc_name,
        tarball,
        webc,
    };
    proof {
        reveal_strlit("/");
        assert(r.dir@ =~= package_dir_of(
            cache_root@,
            test_case.registry@,
            test_case.namespace@,
            test_case.package_name@,
            test_case.package_version.version@,
        ));
        assert(r.parent@ =~= package_parent_of(
            cache_root@,
            test_case.registry@,
            test_case.namespace@,
            test_case.package_name@,
        ));
        assert(r.tarball@ =~= r.dir@ + seq!['/'] + r.tarball_name@);
        assert(r.webc@ =~= r.dir@ + seq!['/'] + r.webc_name@);
    }
    r
}

/// Cache determinism: two cases with the same identity always get the
/// same cache directory, and so the same artifact paths.
pub proof fn lemma_cache_path_deterministic(cache_root: Seq<char>, a: TestCase, b: TestCase)
    requires
        a.registry@ == b.registry@,
        a.namespace@ == b.namespace@,
        a.package_name@ == b.package_name@,
        a.package_version.version@ == b.package_version.version@,
    ensures
        package_dir_of(
            cache_root,
            a.registry@,
            a.namespace@,
            a.package_name@,
            a.package_version.version@,
        ) == package_dir_of(
            cache_root,
            b.registry@,
            b.namespace@,
            b.package_name@,
            b.package_version.version@,
        ),
{
}

/// What a look at the filesystem found, handed in by the caller.
#[derive(Debug, Clone, Copy, PartialEq, Eq)]
pub struct CacheProbe {
    /// The per-version cache directory exists.
    pub dir_exists: bool,
    /// Size of the tarball file, when it exists.
    pub tarball_size: Option<u64>,
    /// Size of the container file, when it exists.
    pub webc_size: Option<u64>,
}

/// The cache-hit rule: the directory exists and the tarball exists.
/// The container file is optional; on its own it is not a hit.
pub open spec fn is_cache_hit(probe: CacheProbe) -> bool {
    probe.dir_exists && probe.tarball_size is Some
}

pub fn cache_hit(probe: &CacheProbe) -> (r: bool)
    ensures
        r == is_cache_hit(*probe),
{
    probe.dir_exists && probe.tarball_size.is_some()
}

/// The on-disk artifacts a runner needs.
#[derive(Debug, PartialEq, Eq)]
pub struct Assets {
    pub tarball: String,
    pub webc: Option<String>,
    /// The total size of the assets on disk.
    pub total_size: u64,
}

/// The assets a cache hit hands out: the existing files, sized by the
/// probe.  No download and no filesystem write happens on a hit.
pub fn hit_assets(paths: &CachePaths, probe: &CacheProbe) -> (r: Assets)
    requires
        is_cache_hit(*probe),
        probe.tarball_size matches Some(t) ==> t + (match probe.webc_size {
            Some(w) => w,
            None => 0u64,
        }) <= u64::MAX,
    ensures
        r.tarball@ == paths.tarball@,
        probe.webc_size is Some ==> (r.webc matches Some(w) && w@ == paths.webc@),
        probe.webc_size is None ==> r.webc is None,
        r.total_size == probe.tarball_size.unwrap() + (match probe.webc_size {
            Some(w) => w as int,
            None => 0int,
        }),
{
    let tarball_size = match probe.tarball_size {
        Some(t) => t,
        None => 0,
    };
    match probe.webc_size {
        Some(w) => Assets {
            tarball: paths.tarball.clone(),
            webc: Some(paths.webc.clone()),
            total_size: tarball_size + w,
        },
        None => Assets {
            tarball: paths.tarball.clone(),
            webc: None,
            total_size: tarball_size,
        },
    }
}

/// One filesystem or network step of a download plan.
#[derive(Debug, Clone, PartialEq, Eq)]
pub enum FsAction {
    /// Create a directory and its ancestors.
    CreateDirAll(String),
    /// Fetch a URL and write the body to a file, in one write.
    DownloadTo { url: String, dest: String },
    /// Remove a directory tree, ignoring "not found".
    RemoveDirAll(String),
    /// Rename a directory: one atomic filesystem operation.
    Rename { from: String, to: String },
}

/// The path an action creates or writes, if any.  Removal creates
/// nothing.
pub open spec fn action_creates(a: FsAction) -> Option<Seq<char>> {
    match a {
        FsAction::CreateDirAll(p) => Some(p@),
        FsAction::DownloadTo { dest, .. } => Some(dest@),
        FsAction::RemoveDirAll(_) => None,
        FsAction::Rename { to, .. } => Some(to@),
    }
}

/// The publication plan for a cache miss, to run after the caller has
/// ensured the cache root exists and created a fresh temporary directory
/// `temp_dir` on the same filesystem:
///
/// 1. download the tarball (and the container, when the case has one)
///    into `temp_dir` under their final filenames;
/// 2. remove any stale destination directory;
/// 3. ensure the destination's parent exists;
/// 4. rename `temp_dir` onto the destination.
///
/// Atomic publication: the rename is the last step, and no earlier step
/// creates or writes the destination — a reader that interrupts the plan
/// anywhere before the rename sees the destination unchanged or, after
/// step 2, not present at all; never a half-written directory.
pub fn download_plan(paths: &CachePaths, test_case: &TestCase, temp_dir: &str) -> (r: Vec<
    FsAction,
>)
    requires
        paths.wf(*test_case),
        temp_dir@ != paths.dir@,
        !contains_seq(paths.dir@, temp_dir@ + seq!['/']),
    ensures
        r@.len() == (if test_case.package_version.distribution.pirita_download_url is Some {
            5int
        } else {
            4int
        }),
        r@[0] matches FsAction::DownloadTo { url, dest } && url@
            == test_case.package_version.distribution.download_url@ && dest@ == temp_dir@
            + seq!['/'] + paths.tarball_name@,
        test_case.package_version.distribution.pirita_download_url matches Some(webc_url)
            ==> (r@[1] matches FsAction::DownloadTo { url, dest } && url@ == webc_url@ && dest@
            == temp_dir@ + seq!['/'] + paths.webc_name@),
        r@[r@.len() - 3] matches FsAction::RemoveDirAll(p) && p@ == paths.dir@,
        r@[r@.len() - 2] matches FsAction::CreateDirAll(p) && p@ == paths.parent@,
        r@[r@.len() - 1] matches FsAction::Rename { from, to } && from@ == temp_dir@ && to@
            == paths.dir@,
        forall|i: int|
            0 <= i < r@.len() - 1 ==> action_creates(#[trigger] r@[i]) != Some(paths.dir@),
{
    let mut plan: Vec<FsAction> = Vec::new();
    let tarball_dest = path_join(temp_dir, paths.tarball_name.as_str());
    let ghost tarball_dest_view = tarball_dest@;
    plan.push(
        FsAction::DownloadTo {
            url: test_case.package_version.distribution.download_url.clone(),
            dest: tarball_dest,
        },
    );
    proof {
        reveal_strlit("/");
        assert(tarball_dest_view =~= temp_dir@ + seq!['/'] + paths.tarball_name@);
        lemma_inside_temp_not_dir(paths.dir@, temp_dir@, paths.tarball_name@);
        lemma_inside_temp_not_dir(paths.dir@, temp_dir@, paths.webc_name@);
        assert(paths.dir@.len() == paths.parent@.len() + 1
            + test_case.package_version.version@.len());
    }
    match &test_case.package_version.distribution.pirita_download_url {
        Some(webc_url) => {
            let webc_dest = path_join(temp_dir, paths.webc_name.as_str());
            let ghost webc_dest_view = webc_dest@;
            plan.push(FsAction::DownloadTo { url: webc_url.clone(), dest: webc_dest });
            plan.push(FsAction::RemoveDirAll(paths.dir.clone()));
            plan.push(FsAction::CreateDirAll(paths.parent.clone()));
            plan.push(
                FsAction::Rename { from: temp_dir.to_owned(), to: paths.dir.clone() },
            );
            proof {
                assert(webc_dest_view =~= temp_dir@ + seq!['/'] + paths.webc_name@);
                assert(plan@.len() == 5);
                assert forall|i: int| 0 <= i < plan@.len() - 1 implies action_creates(
                    #[trigger] plan@[i],
                ) != Some(paths.dir@) by {
                    if i == 0 {
                        assert(action_creates(plan@[0]) == Some(tarball_dest_view));
                    } else if i == 1 {
                        assert(action_creates(plan@[1]) == Some(webc_dest_view));
                    } else if i == 2 {
                        assert(action_creates(plan@[2]) is None);
                    } else {
                        assert(action_creates(plan@[3]) == Some(paths.parent@));
                    }
                }
            }
        },
        None => {
            plan.push(FsAction::RemoveDirAll(paths.dir.clone()));
            plan.push(FsAction::CreateDirAll(paths.parent.clone()));
            plan.push(
                FsAction::Rename { from: temp_dir.to_owned(), to: paths.dir.clone() },
            );
            proof {
                assert(plan@.len() == 4);
                assert forall|i: int| 0 <= i < plan@.len() - 1 implies action_creates(
                    #[trigger] plan@[i],
                ) != Some(paths.dir@) by {
                    if i == 0 {
                        assert(action_creates(plan@[0]) == Some(tarball_dest_view));
                    } else if i == 1 {
                        assert(action_creates(plan@[1]) is None);
                    } else {
                        assert(action_creates(plan@[2]) == Some(paths.parent@));
                    }
                }
            }
        },
    }
    plan
}

/// A path inside the temporary directory is never the destination: the
/// destination does not contain `temp_dir/` anywhere.
proof fn lemma_inside_temp_not_dir(dir: Seq<char>, temp_dir: Seq<char>, name: Seq<char>)
    requires
        !contains_seq(dir, temp_dir + seq!['/']),
    ensures
        temp_dir + seq!['/'] + name != dir,
{
    let candidate = temp_dir + seq!['/'] + name;
    if candidate == dir {
        assert(match_at(dir, temp_dir + seq!['/'], 0)) by {
            assert(forall|j: int|
                0 <= j < (temp_dir + seq!['/']).len() ==> dir[j] == (temp_dir + seq!['/'])[j]);
        }
        assert(contains_seq(dir, temp_dir + seq!['/']));
        assert(false);
    }
}

/// The assets a completed download hands out: the final paths, sized by
/// what was downloaded.
pub fn downloaded_assets(paths: &CachePaths, has_webc: bool, bytes_downloaded: u64) -> (r:
    Assets)
    ensures
        r.tarball@ == paths.tarball@,
        has_webc ==> (r.webc matches Some(w) && w@ == paths.webc@),
        !has_webc ==> r.webc is None,
        r.total_size == bytes_downloaded,
{
    Assets {
        tarball: paths.tarball.clone(),
        webc: if has_webc {
            Some(paths.webc.clone())
        } else {
            None
        },
        total_size: bytes_downloaded,
    }
}

/// What a `FetchAssets` request resolves to.
#[derive(Debug, PartialEq, Eq)]
pub enum FetchDecision {
    /// The artifacts are already on disk: hand them out as they are.
    Hit(Assets),
    /// The artifacts must be downloaded and published by this plan.
    Miss(Vec<FsAction>),
}

/// Resolve one fetch against the cache.  Cache-hit purity: a hit carries
/// the existing files and an empty plan — no download step and no
/// filesystem write at all.  A miss carries the atomic publication plan
/// of [`download_plan`].
pub fn decide_fetch(
    paths: &CachePaths,
    test_case: &TestCase,
    probe: &CacheProbe,
    temp_dir: &str,
) -> (r: FetchDecision)
    requires
        paths.wf(*test_case),
        temp_dir@ != paths.dir@,
        !contains_seq(paths.dir@, temp_dir@ + seq!['/']),
        probe.tarball_size matches Some(t) ==> t + (match probe.webc_size {
            Some(w) => w,
            None => 0u64,
        }) <= u64::MAX,
    ensures
        is_cache_hit(*probe) ==> (r matches FetchDecision::Hit(assets) && {
            &&& assets.tarball@ == paths.tarball@
            &&& probe.webc_size is Some ==> (assets.webc matches Some(w) && w@ == paths.webc@)
            &&& probe.webc_size is None ==> assets.webc is None
            &&& assets.total_size == probe.tarball_size.unwrap() + (match probe.webc_size {
                Some(w) => w as int,
                None => 0int,
            })
        }),
        !is_cache_hit(*probe) ==> (r matches FetchDecision::Miss(plan) && {
            &&& plan@.len() == (if test_case.package_version.distribution.pirita_download_url
                is Some {
                5int
            } else {
                4int
            })
            &&& plan@[0] matches FsAction::DownloadTo { url, dest } && url@
                == test_case.package_version.distribution.download_url@ && dest@ == temp_dir@
                + seq!['/'] + paths.tarball_name@
            &&& plan@[plan@.len() - 1] matches FsAction::Rename { from, to } && from@
                == temp_dir@ && to@ == paths.dir@
            &&& forall|i: int|
                0 <= i < plan@.len() - 1 ==> action_creates(#[trigger] plan@[i]) != Some(
                    paths.dir@,
                )
        }),
{
    if cache_hit(probe) {
        FetchDecision::Hit(hit_assets(paths, probe))
    } else {
        FetchDecision::Miss(download_plan(paths, test_case, temp_dir))
    }
}

/// The error recorded when downloading an artifact fails.  The failing
/// URL is part of the message and of the outermost cause, so a report
/// always names what could not be fetched.
pub fn download_failed_error(url: &str, cause: String) -> (r: SerializableError)
    ensures
        r.error@ == "Downloading \""@ + url@ + "\" failed"@,
        r.detailed_error@ == r.error@ + ": "@ + cause@,
        r.causes@.len() == 2,
        r.causes@[0]@ == r.error@,
        r.causes@[1] == cause,
        contains_seq(r.causes@[0]@, url@),
{
    let error = str_concat3("Downloading \"", url, "\" failed");
    let detailed_error = str_concat3(error.as_str(), ": ", cause.as_str());
    let mut causes: Vec<String> = Vec::new();
    causes.push(error.clone());
    causes.push(cause);
    proof {
        reveal_strlit("Downloading \"");
        assert(match_at(error@, url@, 13)) by {
            let prefix = "Downloading \""@;
            assert(prefix.len() == 13);
            assert(forall|j: int|
                0 <= j < url@.len() ==> (prefix + url@ + "\" failed"@)[13 + j] == url@[j]);
        }
    }
    SerializableError { error, detailed_error, causes }
}

} // verus!
