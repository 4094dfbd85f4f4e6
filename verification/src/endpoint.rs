//! Registry endpoint handling.
//!
//! The CLI takes a registry as a bare domain name (`wasmer.io`), a full
//! URL, or anything in between, and turns it into the GraphQL endpoint
//! to query.  URL parsing itself comes from the `url` crate; everything
//! it computes for a given string is a function of that string alone,
//! so its results are named and the decision logic on top of them is
//! verified exactly.

use vstd::prelude::*;

use crate::strutil::{contains_seq, contains_sub, str_concat3, str_eq};

verus! {

/// What parsing a URL string yields, reduced to the values the endpoint
/// logic reads: whether the URL has a host, its path, its serialization,
/// and its serialization after replacing the path.
#[derive(Debug, Clone, PartialEq, Eq)]
pub struct UrlParts {
    pub has_host: bool,
    pub path: String,
    pub serialized: String,
    pub serialized_with_path: String,
}

/// What `url::Url::parse` and its accessors compute for a given input
/// string and replacement path: `None` when the input does not parse,
/// else `(has_host, path, serialization, serialization with the path
/// replaced)`.  Parsing is a function of the input alone.
pub uninterp spec fn url_parts_of(s: Seq<char>, replacement_path: Seq<char>) -> Option<
    (bool, Seq<char>, Seq<char>, Seq<char>),
>;

/// The values a `UrlParts` holds.
pub open spec fn url_parts_view(p: UrlParts) -> (bool, Seq<char>, Seq<char>, Seq<char>) {
    (p.has_host, p.path@, p.serialized@, p.serialized_with_path@)
}

/// Relies on `url::Url::parse`, `Url::has_host`, `Url::path`,
/// `Url::set_path` and the `Display` serialization of `Url`: parsing a
/// string and reading these four values back is deterministic in the
/// string and the replacement path, which is what `url_parts_of` names.
#[verifier::external_body]
fn parse_url_parts(s: &str, replacement_path: &str) -> (r: Option<UrlParts>)
    ensures
        match r {
            Some(p) => url_parts_of(s@, replacement_path@) == Some(url_parts_view(p)),
            None => url_parts_of(s@, replacement_path@) is None,
        },
{
    match url::Url::parse(s) {
        Ok(mut u) => {
            let has_host = u.has_host();
            let path = u.path().to_string();
            let serialized = u.to_string();
            u.set_path(replacement_path);
            let serialized_with_path = u.to_string();
            Some(UrlParts { has_host, path, serialized, serialized_with_path })
        },
        Err(_) => None,
    }
}

/// What `url::Url::parse` followed by `Url::host_str` yields for a given
/// string: the host part, or `None` when the string does not parse or
/// has no host.
pub uninterp spec fn url_host_of(s: Seq<char>) -> Option<Seq<char>>;

/// Relies on `url::Url::parse` and `url::Url::host_str`: the host of a
/// URL string is a function of the string alone.
#[verifier::external_body]
fn parse_url_host(s: &str) -> (r: Option<String>)
    ensures
        match r {
            Some(h) => url_host_of(s@) == Some(h@),
            None => url_host_of(s@) is None,
        },
{
    match url::Url::parse(s) {
        Ok(u) => match u.host_str() {
            Some(h) => Some(h.to_string()),
            None => None,
        },
        Err(_) => None,
    }
}

/// The registry hostname recorded on every test case: the endpoint
/// URL's host, or `"unknown"` when it has none.
pub fn registry_hostname(endpoint: &str) -> (r: String)
    ensures
        r@ == (match url_host_of(endpoint@) {
            Some(h) => h,
            None => "unknown"@,
        }),
{
    match parse_url_host(endpoint) {
        Some(h) => h,
        None => "unknown".to_owned(),
    }
}

/// By convention a bare domain name maps to its registry's GraphQL
/// endpoint: `localhost`-style names over plain HTTP, everything else
/// under `https://registry.{domain}/graphql`.
pub open spec fn endpoint_of_domain(domain: Seq<char>) -> Seq<char> {
    if contains_seq(domain, "localhost"@) {
        "http://"@ + domain + "/graphql"@
    } else {
        "https://registry."@ + domain + "/graphql"@
    }
}

pub fn endpoint_from_domain_name(domain_name: &str) -> (r: String)
    ensures
        r@ == endpoint_of_domain(domain_name@),
{
    if contains_sub(domain_name, "localhost") {
        str_concat3("http://", domain_name, "/graphql")
    } else {
        str_concat3("https://registry.", domain_name, "/graphql")
    }
}

/// The endpoint the registry argument denotes, given what URL parsing
/// made of it: a host-bearing URL is used as serialized, with its path
/// replaced by `/graphql` when it was bare; a plain domain name maps to
/// its conventional endpoint; anything else passes through unchanged in
/// the hope the user knows better.
pub open spec fn graphql_endpoint_spec(
    parts: Option<(bool, Seq<char>, Seq<char>, Seq<char>)>,
    registry: Seq<char>,
) -> Seq<char> {
    let fallback = if !contains_seq(registry, "://"@) && !contains_seq(registry, "/"@) {
        endpoint_of_domain(registry)
    } else {
        registry
    };
    match parts {
        Some((has_host, path, serialized, serialized_with_path)) => if has_host {
            if path == "/"@ {
                serialized_with_path
            } else {
                serialized
            }
        } else {
            fallback
        },
        None => fallback,
    }
}

/// The endpoint decision on the parse outcome, verified exactly.
pub fn graphql_endpoint_decision(parts: Option<UrlParts>, registry: &str) -> (r: String)
    ensures
        r@ == graphql_endpoint_spec(
            match parts {
                Some(p) => Some(url_parts_view(p)),
                None => None,
            },
            registry@,
        ),
{
    match parts {
        Some(p) => {
            if p.has_host {
                if str_eq(p.path.as_str(), "/") {
                    p.serialized_with_path
                } else {
                    p.serialized
                }
            } else {
                graphql_fallback(registry)
            }
        },
        None => graphql_fallback(registry),
    }
}

/// The non-URL path: a plain domain name becomes its conventional
/// endpoint; anything else is passed through as-is.
fn graphql_fallback(registry: &str) -> (r: String)
    ensures
        r@ == (if !contains_seq(registry@, "://"@) && !contains_seq(registry@, "/"@) {
            endpoint_of_domain(registry@)
        } else {
            registry@
        }),
{
    if !contains_sub(registry, "://") && !contains_sub(registry, "/") {
        endpoint_from_domain_name(registry)
    } else {
        registry.to_owned()
    }
}

/// Normalize a registry argument into the GraphQL endpoint to query.
pub fn format_graphql(registry: &str) -> (r: String)
    ensures
        r@ == graphql_endpoint_spec(url_parts_of(registry@, "/graphql"@), registry@),
{
    let parts = parse_url_parts(registry, "/graphql");
    graphql_endpoint_decision(parts, registry)
}

/// Where a registry publishes its GraphQL schema.
pub fn schema_download_url(registry: &str) -> (r: String)
    ensures
        r@ == "https://registry."@ + registry@ + "/graphql/schema.graphql"@,
{
    str_concat3("https://registry.", registry, "/graphql/schema.graphql")
}

/// The `User-Agent` header identifying the tool on every registry
/// request.
pub const USER_AGENT: &'static str = "wasmer-borealis/0.1.0";

/// The production registry's GraphQL endpoint, used when the caller
/// configures none.
pub const PRODUCTION_ENDPOINT: &'static str = "https://registry.wasmer.io/graphql";

} // verus!
