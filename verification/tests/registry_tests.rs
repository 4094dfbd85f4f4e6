//! Pagination decisions over registry responses.

use wasmer_borealis::registry::{
    listing_step, packages_from_connection, ListingData, ListingError, ListingResponse, Package,
    PackageConnection, PackageDistribution, PackageEdge, PackageVersion, PageStep,
};

fn package(name: &str) -> Package {
    Package {
        id: name.to_string(),
        package_name: name.to_string(),
        namespace: "demo".to_string(),
        display_name: format!("demo/{name}"),
        last_version: None,
        versions: Vec::new(),
    }
}

fn connection(names: &[&str]) -> PackageConnection {
    PackageConnection {
        edges: names
            .iter()
            .map(|n| Some(PackageEdge { node: Some(package(n)) }))
            .collect(),
    }
}

#[test]
fn null_edges_and_nodes_are_skipped() {
    let conn = PackageConnection {
        edges: vec![
            None,
            Some(PackageEdge { node: None }),
            Some(PackageEdge { node: Some(package("a")) }),
            Some(PackageEdge { node: Some(package("b")) }),
        ],
    };
    let packages = packages_from_connection(conn);
    let names: Vec<&str> = packages.iter().map(|p| p.package_name.as_str()).collect();
    assert_eq!(names, vec!["a", "b"]);
}

#[test]
fn graphql_errors_abort_the_listing() {
    let response = ListingResponse {
        errors: vec!["boom".to_string()],
        data: ListingData::Packages(connection(&["a"])),
    };
    match listing_step(0, response) {
        PageStep::Abort { error: ListingError::GraphQlErrors(errors) } => {
            assert_eq!(errors, vec!["boom".to_string()]);
        }
        other => panic!("unexpected step: {other:?}"),
    }
}

#[test]
fn missing_data_and_unknown_owner_abort() {
    let missing = ListingResponse { errors: Vec::new(), data: ListingData::Missing };
    assert_eq!(
        listing_step(0, missing),
        PageStep::Abort { error: ListingError::InvalidQuery }
    );
    let unknown = ListingResponse { errors: Vec::new(), data: ListingData::UnknownOwner };
    assert_eq!(
        listing_step(0, unknown),
        PageStep::Abort { error: ListingError::UnknownOwner }
    );
}

#[test]
fn an_empty_page_ends_the_listing() {
    let response = ListingResponse {
        errors: Vec::new(),
        data: ListingData::Packages(PackageConnection { edges: Vec::new() }),
    };
    assert_eq!(listing_step(7, response), PageStep::Done);
}

#[test]
fn a_page_advances_the_offset_by_its_size() {
    let response = ListingResponse {
        errors: Vec::new(),
        data: ListingData::Packages(connection(&["a", "b", "c"])),
    };
    match listing_step(10, response) {
        PageStep::Emit { packages, next_offset } => {
            assert_eq!(packages.len(), 3);
            assert_eq!(next_offset, 13);
        }
        other => panic!("unexpected step: {other:?}"),
    }
}

#[test]
fn offset_overflow_aborts_instead_of_wrapping() {
    let response = ListingResponse {
        errors: Vec::new(),
        data: ListingData::Packages(connection(&["a", "b"])),
    };
    assert_eq!(
        listing_step(i32::MAX - 1, response),
        PageStep::Abort { error: ListingError::OffsetOverflow }
    );
}

#[test]
fn version_model_round_trips() {
    let v = PackageVersion {
        id: "id".to_string(),
        version: "1.2.3".to_string(),
        distribution: PackageDistribution {
            download_url: "https://example.com/pkg.tar.gz".to_string(),
            pirita_download_url: Some("https://example.com/pkg.webc".to_string()),
        },
    };
    let copy = v.clone();
    assert_eq!(copy, v);
}
