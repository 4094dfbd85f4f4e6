//! Registry endpoint normalization.

use wasmer_borealis::endpoint::{
    endpoint_from_domain_name, format_graphql, registry_hostname, schema_download_url,
    PRODUCTION_ENDPOINT, USER_AGENT,
};

#[test]
fn bare_domains_map_to_their_registry() {
    assert_eq!(format_graphql("wasmer.io"), "https://registry.wasmer.io/graphql");
    assert_eq!(format_graphql("wasmer.wtf"), "https://registry.wasmer.wtf/graphql");
}

#[test]
fn localhost_stays_on_plain_http() {
    assert_eq!(format_graphql("localhost:8000"), "http://localhost:8000/graphql");
    assert_eq!(endpoint_from_domain_name("localhost"), "http://localhost/graphql");
}

#[test]
fn a_bare_url_gets_the_graphql_path() {
    assert_eq!(
        format_graphql("http://registry.wasmer.io/"),
        "http://registry.wasmer.io/graphql"
    );
    assert_eq!(
        format_graphql("https://registry.wasmer.io"),
        "https://registry.wasmer.io/graphql"
    );
}

#[test]
fn a_url_with_a_path_is_used_as_is() {
    assert_eq!(
        format_graphql("https://registry.wasmer.io/something/else"),
        "https://registry.wasmer.io/something/else"
    );
}

#[test]
fn unparseable_input_passes_through() {
    assert_eq!(format_graphql("not a url/with spaces"), "not a url/with spaces");
}

#[test]
fn hostnames_come_from_the_endpoint_url() {
    assert_eq!(
        registry_hostname("https://registry.wasmer.io/graphql"),
        "registry.wasmer.io"
    );
    assert_eq!(registry_hostname("not a url"), "unknown");
}

#[test]
fn constants_describe_the_production_registry() {
    assert_eq!(PRODUCTION_ENDPOINT, "https://registry.wasmer.io/graphql");
    assert!(USER_AGENT.contains('/'));
    assert_eq!(
        schema_download_url("wasmer.io"),
        "https://registry.wasmer.io/graphql/schema.graphql"
    );
}
