//! The registry's package-listing interface.
//!
//! The registry exposes a paginated GraphQL listing: packages by
//! namespace, by user, or all packages.  The wire encoding lives outside
//! the library; this module holds the response data model and the
//! pagination decisions — how a page of results advances the offset, when
//! a listing terminates, and which responses abort it.

use vstd::prelude::*;

verus! {

/// Where a package version's artifacts can be downloaded.
#[derive(Debug, PartialEq, Eq)]
pub struct PackageDistribution {
    pub download_url: String,
    /// Download URL of the pre-compiled container, when one exists.
    pub pirita_download_url: Option<String>,
}

impl Clone for PackageDistribution {
    fn clone(&self) -> (r: Self)
        ensures
            r == *self,
    {
        PackageDistribution {
            download_url: self.download_url.clone(),
            pirita_download_url: match &self.pirita_download_url {
                Some(url) => Some(url.clone()),
                None => None,
            },
        }
    }
}

/// One published version of a package.
#[derive(Debug, PartialEq, Eq)]
pub struct PackageVersion {
    pub id: String,
    pub version: String,
    pub distribution: PackageDistribution,
}

impl Clone for PackageVersion {
    fn clone(&self) -> (r: Self)
        ensures
            r == *self,
    {
        PackageVersion {
            id: self.id.clone(),
            version: self.version.clone(),
            distribution: self.distribution.clone(),
        }
    }
}

/// A package as the registry lists it.
#[derive(Debug, PartialEq, Eq)]
#[verifier::ext_equal]
pub struct Package {
    pub id: String,
    pub package_name: String,
    pub namespace: String,
    pub display_name: String,
    pub last_version: Option<PackageVersion>,
    pub versions: Vec<Option<PackageVersion>>,
}

impl Clone for Package {
    fn clone(&self) -> (r: Self)
        ensures
            r.id == self.id,
            r.package_name == self.package_name,
            r.namespace == self.namespace,
            r.display_name == self.display_name,
            r.last_version == self.last_version,
            r.versions@ == self.versions@,
    {
        let mut versions: Vec<Option<PackageVersion>> = Vec::new();
        let mut i: usize = 0;
        while i < self.versions.len()
            invariant
                0 <= i <= self.versions@.len(),
                versions@.len() == i,
                forall|k: int| 0 <= k < i ==> versions@[k] == self.versions@[k],
            decreases self.versions@.len() - i,
        {
            match &self.versions[i] {
                Some(v) => versions.push(Some(v.clone())),
                None => versions.push(None),
            }
            i += 1;
        }
        proof {
            assert(versions@ =~= self.versions@);
        }
        let r = Package {
            id: self.id.clone(),
            package_name: self.package_name.clone(),
            namespace: self.namespace.clone(),
            display_name: self.display_name.clone(),
            last_version: match &self.last_version {
                Some(v) => Some(v.clone()),
                None => None,
            },
            versions,
        };
        r
    }
}

/// Variables of one page request: the namespace or user being listed and
/// the offset to start from.
#[derive(Debug, Clone, PartialEq, Eq)]
pub struct Variables {
    pub name: String,
    pub offset: i32,
}

/// Variables of a namespace page request.
#[derive(Debug, Clone, PartialEq, Eq)]
pub struct GetNamespaceVariables {
    pub name: String,
    pub offset: i32,
}

/// One edge of the paginated package connection.
#[derive(Debug, Clone, PartialEq, Eq)]
pub struct PackageEdge {
    pub node: Option<Package>,
}

/// A page of packages.
#[derive(Debug, Clone, PartialEq, Eq)]
pub struct PackageConnection {
    pub edges: Vec<Option<PackageEdge>>,
}

/// Response payload of a namespace listing.
#[derive(Debug, Clone, PartialEq, Eq)]
pub struct Namespace {
    pub packages: PackageConnection,
}

#[derive(Debug, Clone, PartialEq, Eq)]
pub struct GetNamespace {
    pub get_namespace: Option<Namespace>,
}

/// Response payload of a user listing.
#[derive(Debug, Clone, PartialEq, Eq)]
pub struct User {
    pub packages: PackageConnection,
}

#[derive(Debug, Clone, PartialEq, Eq)]
pub struct GetUserPackages {
    pub get_user: Option<User>,
}

/// What one page response reduces to, after decoding.
#[derive(Debug, Clone, PartialEq, Eq)]
pub enum ListingData {
    /// The response carried no data object.
    Missing,
    /// The namespace or user does not exist.
    UnknownOwner,
    /// A page of packages.
    Packages(PackageConnection),
}

/// A decoded page response: GraphQL-level errors plus the data.
#[derive(Debug, Clone, PartialEq, Eq)]
pub struct ListingResponse {
    pub errors: Vec<String>,
    pub data: ListingData,
}

/// Why a listing was aborted.  An aborted listing is logged and the
/// pipeline continues with the remaining listings.
#[derive(Debug, Clone, PartialEq, Eq)]
pub enum ListingError {
    /// The response's `errors` array was non-empty.
    GraphQlErrors(Vec<String>),
    /// The response carried no data object.
    InvalidQuery,
    /// The namespace or user does not exist.
    UnknownOwner,
    /// Advancing the offset by the page size would overflow.
    OffsetOverflow,
}

/// What to do after one page response.
#[derive(Debug, Clone, PartialEq, Eq)]
pub enum PageStep {
    /// Forward these packages and request the next page at `next_offset`.
    Emit { packages: Vec<Package>, next_offset: i32 },
    /// The page was empty: the listing is complete.
    Done,
    /// The listing failed; no further pages are requested.
    Abort { error: ListingError },
}

/// The packages of a page, skipping null edges and null nodes, in order.
pub open spec fn flatten_edges(edges: Seq<Option<PackageEdge>>) -> Seq<Package>
    decreases edges.len(),
{
    if edges.len() == 0 {
        Seq::empty()
    } else {
        flatten_edges(edges.drop_last()) + (match edges.last() {
            Some(edge) => match edge.node {
                Some(pkg) => seq![pkg],
                None => Seq::empty(),
            },
            None => Seq::empty(),
        })
    }
}

/// Extract the packages of a page, skipping null edges and null nodes.
pub fn packages_from_connection(conn: PackageConnection) -> (r: Vec<Package>)
    ensures
        r@ == flatten_edges(conn.edges@),
{
    let ghost orig = conn.edges@;
    let mut edges = conn.edges;
    let mut out: Vec<Package> = Vec::new();
    let ghost mut k: int = 0;
    proof {
        assert(orig.subrange(0, 0) =~= Seq::<Option<PackageEdge>>::empty());
        assert(edges@ =~= orig.subrange(0, orig.len() as int));
    }
    while edges.len() > 0
        invariant
            0 <= k <= orig.len(),
            edges@ == orig.subrange(k, orig.len() as int),
            out@ == flatten_edges(orig.subrange(0, k)),
        decreases edges@.len(),
    {
        let edge = edges.remove(0);
        match edge {
            Some(e) => match e.node {
                Some(pkg) => {
                    out.push(pkg);
                },
                None => {},
            },
            None => {},
        }
        proof {
            let longer = orig.subrange(0, k + 1);
            assert(longer.drop_last() =~= orig.subrange(0, k));
            assert(longer.last() == orig[k]);
            assert(out@ =~= flatten_edges(longer));
            assert(edges@ =~= orig.subrange(k + 1, orig.len() as int));
            k = k + 1;
        }
    }
    proof {
        assert(orig.subrange(0, orig.len() as int) =~= orig);
    }
    out
}

/// Decide what one page response means for the listing.
///
/// A non-empty `errors` array aborts the listing, as does a missing data
/// object or an unknown namespace or user.  An empty page completes the
/// listing.  Otherwise the page's packages are forwarded and the offset
/// advances by the number of packages on the page.
pub fn listing_step(offset: i32, response: ListingResponse) -> (r: PageStep)
    requires
        offset >= 0,
    ensures
        response.errors@.len() > 0 ==> r == (PageStep::Abort {
            error: ListingError::GraphQlErrors(response.errors),
        }),
        response.errors@.len() == 0 && response.data is Missing ==> r == (PageStep::Abort {
            error: ListingError::InvalidQuery,
        }),
        response.errors@.len() == 0 && response.data is UnknownOwner ==> r == (PageStep::Abort {
            error: ListingError::UnknownOwner,
        }),
        response.errors@.len() == 0 ==> (response.data matches ListingData::Packages(conn) ==> {
            let packages = flatten_edges(conn.edges@);
            &&& packages.len() == 0 ==> r is Done
            &&& packages.len() > 0 && offset + packages.len() <= i32::MAX ==> (r matches
                PageStep::Emit { packages: p, next_offset } && p@ == packages && next_offset
                == offset + packages.len())
            &&& packages.len() > 0 && offset + packages.len() > i32::MAX ==> r
                == (PageStep::Abort { error: ListingError::OffsetOverflow })
        }),
{
    if response.errors.len() > 0 {
        return PageStep::Abort { error: ListingError::GraphQlErrors(response.errors) };
    }
    match response.data {
        ListingData::Missing => PageStep::Abort { error: ListingError::InvalidQuery },
        ListingData::UnknownOwner => PageStep::Abort { error: ListingError::UnknownOwner },
        ListingData::Packages(conn) => {
            let packages = packages_from_connection(conn);
            if packages.len() == 0 {
                PageStep::Done
            } else if packages.len() <= (i32::MAX - offset) as usize {
                let next_offset = offset + packages.len() as i32;
                PageStep::Emit { packages, next_offset }
            } else {
                PageStep::Abort { error: ListingError::OffsetOverflow }
            }
        },
    }
}

} // verus!
