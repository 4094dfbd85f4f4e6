//! Discovery: turning filters and registry pages into test cases.
//!
//! The filters choose which listings to run (namespaces, then users, or
//! all packages when both are empty).  Each page of packages a listing
//! returns is filtered against the blacklist and expanded into test
//! cases: one per version when every version is wanted, otherwise one
//! for the latest version when the package has one.

use vstd::prelude::*;

use crate::config::Filters;
use crate::registry::{Package, PackageVersion};
use crate::strutil::{path_join, seq_contains_str, vec_contains_str};

verus! {

/// A package version that will be included in the experiment.
#[derive(Debug, PartialEq, Eq)]
pub struct TestCase {
    /// The hostname of the registry this test case came from.
    pub registry: String,
    /// The namespace or user that owns the package.
    pub namespace: String,
    /// The package's name.
    pub package_name: String,
    pub package_version: PackageVersion,
}

impl Clone for TestCase {
    fn clone(&self) -> (r: Self)
        ensures
            r == *self,
    {
        TestCase {
            registry: self.registry.clone(),
            namespace: self.namespace.clone(),
            package_name: self.package_name.clone(),
            package_version: self.package_version.clone(),
        }
    }
}

/// The `"namespace/package_name"` form a test case is known by.
pub open spec fn display_name_of(namespace: Seq<char>, package_name: Seq<char>) -> Seq<char> {
    namespace + seq!['/'] + package_name
}

/// A test case reduced to the values its identity consists of.
pub open spec fn case_view(tc: TestCase) -> (Seq<char>, Seq<char>, Seq<char>, PackageVersion) {
    (tc.registry@, tc.namespace@, tc.package_name@, tc.package_version)
}

/// One case per present version, in listing order.
pub open spec fn versions_cases(
    registry: Seq<char>,
    namespace: Seq<char>,
    package_name: Seq<char>,
    vs: Seq<Option<PackageVersion>>,
) -> Seq<(Seq<char>, Seq<char>, Seq<char>, PackageVersion)>
    decreases vs.len(),
{
    if vs.len() == 0 {
        Seq::empty()
    } else {
        versions_cases(registry, namespace, package_name, vs.drop_last()) + (match vs.last() {
            Some(v) => seq![(registry, namespace, package_name, v)],
            None => Seq::empty(),
        })
    }
}

/// The cases one package contributes: every present version, or just the
/// latest one when it exists.
pub open spec fn package_cases(
    registry: Seq<char>,
    pkg: Package,
    include_every_version: bool,
) -> Seq<(Seq<char>, Seq<char>, Seq<char>, PackageVersion)> {
    if include_every_version {
        versions_cases(registry, pkg.namespace@, pkg.package_name@, pkg.versions@)
    } else {
        match pkg.last_version {
            Some(v) => seq![(registry, pkg.namespace@, pkg.package_name@, v)],
            None => Seq::empty(),
        }
    }
}

/// The cases a whole page contributes, in page order, with blacklisted
/// packages dropped.
pub open spec fn page_cases(
    registry: Seq<char>,
    page: Seq<Package>,
    blacklist: Seq<String>,
    include_every_version: bool,
) -> Seq<(Seq<char>, Seq<char>, Seq<char>, PackageVersion)>
    decreases page.len(),
{
    if page.len() == 0 {
        Seq::empty()
    } else {
        let pkg = page.last();
        page_cases(registry, page.drop_last(), blacklist, include_every_version) + (if
        seq_contains_str(blacklist, display_name_of(pkg.namespace@, pkg.package_name@)) {
            Seq::empty()
        } else {
            package_cases(registry, pkg, include_every_version)
        })
    }
}

/// `r` holds exactly the cases of `target`, in order.
pub open spec fn cases_match(
    r: Seq<TestCase>,
    target: Seq<(Seq<char>, Seq<char>, Seq<char>, PackageVersion)>,
) -> bool {
    r.len() == target.len() && forall|i: int|
        0 <= i < r.len() ==> case_view(#[trigger] r[i]) == target[i]
}

impl TestCase {
    pub fn new(
        registry: String,
        namespace: String,
        package_name: String,
        package_version: PackageVersion,
    ) -> (r: TestCase)
        ensures
            r == (TestCase { registry, namespace, package_name, package_version }),
    {
        TestCase { registry, namespace, package_name, package_version }
    }

    /// One case per present version of the package.
    pub fn all(registry: &str, pkg: Package) -> (r: Vec<TestCase>)
        ensures
            cases_match(r@, package_cases(registry@, pkg, true)),
    {
        let ghost orig = pkg.versions@;
        let namespace = pkg.namespace;
        let package_name = pkg.package_name;
        let mut versions = pkg.versions;
        let mut out: Vec<TestCase> = Vec::new();
        let ghost mut k: int = 0;
        proof {
            assert(versions@ =~= orig.subrange(0, orig.len() as int));
        }
        while versions.len() > 0
            invariant
                0 <= k <= orig.len(),
                versions@ == orig.subrange(k, orig.len() as int),
                cases_match(
                    out@,
                    versions_cases(
                        registry@,
                        pkg.namespace@,
                        pkg.package_name@,
                        orig.subrange(0, k),
                    ),
                ),
                namespace@ == pkg.namespace@,
                package_name@ == pkg.package_name@,
            decreases versions@.len(),
        {
            let ghost prefix = orig.subrange(0, k);
            let ghost longer = orig.subrange(0, k + 1);
            proof {
                assert(longer.drop_last() =~= prefix);
                assert(longer.last() == orig[k]);
            }
            let v = versions.remove(0);
            match v {
                Some(version) => {
                    let ghost version_ghost = version;
                    let ghost out_pre = out@;
                    let tc_new = TestCase {
                        registry: registry.to_owned(),
                        namespace: namespace.clone(),
                        package_name: package_name.clone(),
                        package_version: version,
                    };
                    let ghost tc_ghost = tc_new;
                    out.push(tc_new);
                    proof {
                        let target = versions_cases(
                            registry@,
                            pkg.namespace@,
                            pkg.package_name@,
                            longer,
                        );
                        assert(target =~= versions_cases(
                            registry@,
                            pkg.namespace@,
                            pkg.package_name@,
                            prefix,
                        ) + seq![(registry@, pkg.namespace@, pkg.package_name@, version_ghost)]);
                        assert(case_view(tc_ghost) == (
                            registry@,
                            pkg.namespace@,
                            pkg.package_name@,
                            version_ghost,
                        ));
                        assert(cases_match(out@, target));
                    }
                },
                None => {
                    proof {
                        assert(versions_cases(
                            registry@,
                            pkg.namespace@,
                            pkg.package_name@,
                            longer,
                        ) =~= versions_cases(registry@, pkg.namespace@, pkg.package_name@, prefix));
                    }
                },
            }
            proof {
                assert(versions@ =~= orig.subrange(k + 1, orig.len() as int));
                k = k + 1;
            }
        }
        proof {
            assert(orig.subrange(0, orig.len() as int) =~= orig);
        }
        out
    }

    /// One case for the latest version, when the package has one.
    pub fn latest(registry: &str, pkg: Package) -> (r: Vec<TestCase>)
        ensures
            cases_match(r@, package_cases(registry@, pkg, false)),
    {
        let mut out: Vec<TestCase> = Vec::new();
        match pkg.last_version {
            Some(version) => {
                let tc_new = TestCase {
                    registry: registry.to_owned(),
                    namespace: pkg.namespace,
                    package_name: pkg.package_name,
                    package_version: version,
                };
                let ghost tc_ghost = tc_new;
                out.push(tc_new);
                proof {
                    assert(out@ =~= seq![tc_ghost]);
                }
            },
            None => {},
        }
        out
    }

    /// URL of the source tarball.
    pub fn tarball_url(&self) -> (r: &str)
        ensures
            r@ == self.package_version.distribution.download_url@,
    {
        self.package_version.distribution.download_url.as_str()
    }

    /// URL of the pre-compiled container, when one exists.
    pub fn webc_url(&self) -> (r: Option<&str>)
        ensures
            match r {
                Some(u) => self.package_version.distribution.pirita_download_url matches Some(p)
                    && u@ == p@,
                None => self.package_version.distribution.pirita_download_url is None,
            },
    {
        match &self.package_version.distribution.pirita_download_url {
            Some(u) => Some(u.as_str()),
            None => None,
        }
    }

    pub fn version(&self) -> (r: &str)
        ensures
            r@ == self.package_version.version@,
    {
        self.package_version.version.as_str()
    }

    /// The `"namespace/package_name"` form the case is known by.
    pub fn display_name(&self) -> (r: String)
        ensures
            r@ == display_name_of(self.namespace@, self.package_name@),
    {
        let r = path_join(self.namespace.as_str(), self.package_name.as_str());
        proof {
            reveal_strlit("/");
            assert(r@ =~= display_name_of(self.namespace@, self.package_name@));
        }
        r
    }
}

/// Expand one page of packages into test cases: drop blacklisted
/// packages, then emit every version or just the latest one.
pub fn test_cases_from_page(
    registry: &str,
    blacklist: &Vec<String>,
    include_every_version: bool,
    page: Vec<Package>,
) -> (r: Vec<TestCase>)
    ensures
        cases_match(r@, page_cases(registry@, page@, blacklist@, include_every_version)),
{
    let ghost orig = page@;
    let mut page = page;
    let mut out: Vec<TestCase> = Vec::new();
    let ghost mut k: int = 0;
    proof {
        assert(page@ =~= orig.subrange(0, orig.len() as int));
    }
    while page.len() > 0
        invariant
            0 <= k <= orig.len(),
            page@ == orig.subrange(k, orig.len() as int),
            cases_match(
                out@,
                page_cases(registry@, orig.subrange(0, k), blacklist@, include_every_version),
            ),
        decreases page@.len(),
    {
        let ghost prefix = orig.subrange(0, k);
        let ghost longer = orig.subrange(0, k + 1);
        proof {
            assert(longer.drop_last() =~= prefix);
            assert(longer.last() == orig[k]);
        }
        let pkg = page.remove(0);
        let ghost pkg_ghost = orig[k];
        let dn = path_join(pkg.namespace.as_str(), pkg.package_name.as_str());
        proof {
            reveal_strlit("/");
            assert(dn@ =~= display_name_of(pkg_ghost.namespace@, pkg_ghost.package_name@));
        }
        let ghost target_pre = page_cases(
            registry@,
            prefix,
            blacklist@,
            include_every_version,
        );
        let ghost target_post = page_cases(
            registry@,
            longer,
            blacklist@,
            include_every_version,
        );
        if !vec_contains_str(blacklist, dn.as_str()) {
            let ghost contribution = package_cases(registry@, pkg_ghost, include_every_version);
            proof {
                assert(target_post =~= target_pre + contribution);
            }
            let mut cases = if include_every_version {
                TestCase::all(registry, pkg)
            } else {
                TestCase::latest(registry, pkg)
            };
            let ghost mut drained: int = 0;
            while cases.len() > 0
                invariant
                    0 <= drained,
                    drained + cases@.len() == contribution.len(),
                    out@.len() == target_pre.len() + drained,
                    forall|i: int|
                        0 <= i < out@.len() ==> case_view(#[trigger] out@[i]) == (target_pre
                            + contribution)[i],
                    forall|j: int|
                        0 <= j < cases@.len() ==> case_view(#[trigger] cases@[j])
                            == contribution[drained + j],
                decreases cases@.len(),
            {
                let ghost cases_snap = cases@;
                let c = cases.remove(0);
                out.push(c);
                proof {
                    assert(cases@ =~= cases_snap.subrange(1, cases_snap.len() as int));
                    assert(case_view(cases_snap[0]) == contribution[drained]);
                    drained = drained + 1;
                }
            }
            proof {
                assert(cases_match(out@, target_post));
            }
        } else {
            proof {
                assert(target_post =~= target_pre);
            }
        }
        proof {
            assert(page@ =~= orig.subrange(k + 1, orig.len() as int));
            k = k + 1;
        }
    }
    proof {
        assert(orig.subrange(0, orig.len() as int) =~= orig);
    }
    out
}

/// One listing the discovery stage will run.
#[derive(Debug, Clone, PartialEq, Eq)]
pub enum Listing {
    /// Enumerate every package the registry knows.
    All,
    /// The packages under one namespace.
    Namespace(String),
    /// The packages under one user.
    User(String),
}

/// The listings an experiment's filters ask for, in order: each
/// namespace, then each user; or a single all-packages listing when both
/// lists are empty.
pub fn listings_for(filters: &Filters) -> (r: Vec<Listing>)
    ensures
        (filters.namespaces@.len() == 0 && filters.users@.len() == 0) ==> (r@.len() == 1 && r@[0]
            is All),
        (filters.namespaces@.len() > 0 || filters.users@.len() > 0) ==> {
            &&& r@.len() == filters.namespaces@.len() + filters.users@.len()
            &&& forall|i: int|
                0 <= i < filters.namespaces@.len() ==> (#[trigger] r@[i] matches
                Listing::Namespace(n) && n@ == filters.namespaces@[i]@)
            &&& forall|i: int|
                filters.namespaces@.len() <= i < r@.len() ==> (#[trigger] r@[i] matches
                Listing::User(u) && u@ == filters.users@[i - filters.namespaces@.len()]@)
        },
{
    let mut out: Vec<Listing> = Vec::new();
    if filters.namespaces.len() == 0 && filters.users.len() == 0 {
        out.push(Listing::All);
        return out;
    }
    let mut i: usize = 0;
    while i < filters.namespaces.len()
        invariant
            0 <= i <= filters.namespaces@.len(),
            out@.len() == i,
            forall|k: int|
                0 <= k < i ==> (#[trigger] out@[k] matches Listing::Namespace(n) && n@
                    == filters.namespaces@[k]@),
        decreases filters.namespaces@.len() - i,
    {
        out.push(Listing::Namespace(filters.namespaces[i].clone()));
        i += 1;
    }
    let mut j: usize = 0;
    while j < filters.users.len()
        invariant
            0 <= j <= filters.users@.len(),
            out@.len() == filters.namespaces@.len() + j,
            forall|k: int|
                0 <= k < filters.namespaces@.len() ==> (#[trigger] out@[k] matches
                Listing::Namespace(n) && n@ == filters.namespaces@[k]@),
            forall|k: int|
                filters.namespaces@.len() <= k < out@.len() ==> (#[trigger] out@[k] matches
                Listing::User(u) && u@ == filters.users@[k - filters.namespaces@.len()]@),
        decreases filters.users@.len() - j,
    {
        out.push(Listing::User(filters.users[j].clone()));
        j += 1;
    }
    out
}

/// No test case for a blacklisted package ever comes out of a page.
pub proof fn lemma_blacklist_excluded(
    registry: Seq<char>,
    page: Seq<Package>,
    blacklist: Seq<String>,
    include_every_version: bool,
)
    ensures
        forall|i: int|
            0 <= i < page_cases(registry, page, blacklist, include_every_version).len()
                ==> !seq_contains_str(
                blacklist,
                display_name_of(
                    #[trigger] page_cases(registry, page, blacklist, include_every_version)[i].1,
                    page_cases(registry, page, blacklist, include_every_version)[i].2,
                ),
            ),
    decreases page.len(),
{
    if page.len() > 0 {
        lemma_blacklist_excluded(registry, page.drop_last(), blacklist, include_every_version);
        let pkg = page.last();
        let prior = page_cases(registry, page.drop_last(), blacklist, include_every_version);
        let whole = page_cases(registry, page, blacklist, include_every_version);
        let dropped = seq_contains_str(
            blacklist,
            display_name_of(pkg.namespace@, pkg.package_name@),
        );
        let tail = package_cases(registry, pkg, include_every_version);
        lemma_package_cases_fields(registry, pkg, include_every_version);
        assert forall|i: int| 0 <= i < whole.len() implies !seq_contains_str(
            blacklist,
            display_name_of(#[trigger] whole[i].1, whole[i].2),
        ) by {
            if i < prior.len() {
                assert(whole[i] == prior[i]);
            } else {
                if dropped {
                    assert(whole =~= prior + Seq::<(
                        Seq<char>,
                        Seq<char>,
                        Seq<char>,
                        PackageVersion,
                    )>::empty());
                    assert(false);
                } else {
                    assert(whole == prior + tail);
                    assert(whole[i] == tail[i - prior.len()]);
                    assert(tail[i - prior.len()].0 == registry);
                    assert(whole[i].1 == pkg.namespace@);
                    assert(whole[i].2 == pkg.package_name@);
                }
            }
        }
    }
}

/// Every case a package contributes carries that package's namespace and
/// name.
pub proof fn lemma_package_cases_fields(
    registry: Seq<char>,
    pkg: Package,
    include_every_version: bool,
)
    ensures
        forall|i: int|
            0 <= i < package_cases(registry, pkg, include_every_version).len() ==> {
                &&& #[trigger] package_cases(registry, pkg, include_every_version)[i].0 == registry
                &&& package_cases(registry, pkg, include_every_version)[i].1 == pkg.namespace@
                &&& package_cases(registry, pkg, include_every_version)[i].2 == pkg.package_name@
            },
{
    if include_every_version {
        lemma_versions_cases_fields(registry, pkg.namespace@, pkg.package_name@, pkg.versions@);
    }
}

proof fn lemma_versions_cases_fields(
    registry: Seq<char>,
    namespace: Seq<char>,
    package_name: Seq<char>,
    vs: Seq<Option<PackageVersion>>,
)
    ensures
        forall|i: int|
            0 <= i < versions_cases(registry, namespace, package_name, vs).len() ==> {
                &&& #[trigger] versions_cases(registry, namespace, package_name, vs)[i].0
                    == registry
                &&& versions_cases(registry, namespace, package_name, vs)[i].1 == namespace
                &&& versions_cases(registry, namespace, package_name, vs)[i].2 == package_name
            },
    decreases vs.len(),
{
    if vs.len() > 0 {
        lemma_versions_cases_fields(registry, namespace, package_name, vs.drop_last());
        let prior = versions_cases(registry, namespace, package_name, vs.drop_last());
        let whole = versions_cases(registry, namespace, package_name, vs);
        assert forall|i: int| 0 <= i < whole.len() implies {
            &&& #[trigger] whole[i].0 == registry
            &&& whole[i].1 == namespace
            &&& whole[i].2 == package_name
        } by {
            if i < prior.len() {
                assert(whole[i] == prior[i]);
                assert(prior[i].0 == registry);
            } else {
                match vs.last() {
                    Some(v) => {
                        assert(whole == prior + seq![(registry, namespace, package_name, v)]);
                        assert(whole[i] == (registry, namespace, package_name, v));
                    },
                    None => {
                        assert(whole =~= prior + Seq::<(
                            Seq<char>,
                            Seq<char>,
                            Seq<char>,
                            PackageVersion,
                        )>::empty());
                        assert(false);
                    },
                }
            }
        }
    }
}

/// With `include_every_version` off, a package yields exactly one case —
/// its latest version — exactly when it has a latest version.
pub proof fn lemma_version_selection(registry: Seq<char>, pkg: Package)
    ensures
        pkg.last_version matches Some(v) ==> package_cases(registry, pkg, false) =~= seq![
            (registry, pkg.namespace@, pkg.package_name@, v),
        ],
        pkg.last_version is None ==> package_cases(registry, pkg, false) =~= Seq::<(
            Seq<char>,
            Seq<char>,
            Seq<char>,
            PackageVersion,
        )>::empty(),
{
}

} // verus!
