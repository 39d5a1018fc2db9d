use contract_registry::error::RegistryError;
use contract_registry::health::{liveness_report, uptime_secs, HealthStatus};
use contract_registry::ids::{id_from_parsed, parse_id};
use contract_registry::search::{build_search_plan, SearchFilter};
use contract_registry::publish::{ledger_failure, LedgerError};
use contract_registry::stats::RegistryStats;
use contract_registry::store::{NewPublisher, PublishRequest, Registry};
use contract_registry::verification::{accept_verification, VerificationState};

fn request(contract: &str, publisher: &str, name: &str, category: Option<&str>) -> PublishRequest {
    PublishRequest {
        contract_id: contract.to_string(),
        publisher_address: publisher.to_string(),
        name: name.to_string(),
        description: None,
        network: "testnet".to_string(),
        category: category.map(|c| c.to_string()),
        tags: vec!["tag".to_string()],
    }
}

fn hash(h: &str) -> Result<String, LedgerError> {
    Ok(h.to_string())
}

fn search_filter(query: Option<&str>, category: Option<&str>, page: i64, size: i64) -> SearchFilter {
    SearchFilter {
        query: query.map(|s| s.to_string()),
        verified_only: None,
        category: category.map(|s| s.to_string()),
        page: Some(page),
        page_size: Some(size),
    }
}

#[test]
fn first_publication_creates_publisher_and_contract() {
    let mut reg = Registry::new();
    let id = reg.publish_contract(request("C1", "PUB1", "Alpha", None), hash("h1"), 10).unwrap();
    assert_eq!(reg.publishers.len(), 1);
    assert_eq!(reg.contracts.len(), 1);
    let c = reg.get_contract(id).unwrap();
    assert_eq!(c.contract_id, "C1");
    assert_eq!(c.wasm_hash, "h1");
    assert_eq!(c.publisher_id, reg.publishers[0].id);
    assert_eq!(reg.publishers[0].stellar_address, "PUB1");
    assert!(!c.is_verified);
}

#[test]
fn second_publication_reuses_publisher() {
    let mut reg = Registry::new();
    reg.publish_contract(request("C1", "PUB1", "Alpha", None), hash("h1"), 10).unwrap();
    let id2 = reg.publish_contract(request("C2", "PUB1", "Beta", None), hash("h2"), 11).unwrap();
    assert_eq!(reg.publishers.len(), 1);
    assert_eq!(reg.contracts.len(), 2);
    assert_eq!(reg.get_contract(id2).unwrap().publisher_id, reg.publishers[0].id);
}

#[test]
fn registering_twice_yields_one_publisher() {
    let mut reg = Registry::new();
    let a = reg.register_publisher("GADDR".to_string(), 1).unwrap();
    let b = reg.register_publisher("GADDR".to_string(), 2).unwrap();
    assert_eq!(a, b);
    assert_eq!(reg.publishers.len(), 1);
    assert_eq!(reg.publishers[0].created_at, 1);
    let c = reg.register_publisher("OTHER".to_string(), 3).unwrap();
    assert_ne!(a, c);
    assert_eq!(reg.publishers.len(), 2);
}

#[test]
fn failed_lookup_leaves_no_contract_but_keeps_publisher() {
    let mut reg = Registry::new();
    let r = reg.publish_contract(request("C1", "PUB1", "Alpha", None), Err(LedgerError::NotFound), 5);
    assert!(matches!(r, Err(RegistryError::NotFound)));
    assert_eq!(reg.contracts.len(), 0);
    assert_eq!(reg.publishers.len(), 1);
    assert_eq!(reg.publishers[0].stellar_address, "PUB1");
    let r = reg.publish_contract(request("C1", "PUB1", "Alpha", None), Err(LedgerError::Unreachable), 6);
    assert!(matches!(r, Err(RegistryError::NetworkError)));
    assert_eq!(reg.contracts.len(), 0);
    assert_eq!(reg.publishers.len(), 1);
}

#[test]
fn ledger_failures_map_to_error_kinds() {
    assert_eq!(ledger_failure(LedgerError::NotFound), RegistryError::NotFound);
    assert_eq!(ledger_failure(LedgerError::Unreachable), RegistryError::NetworkError);
}

#[test]
fn create_publisher_conflicts_on_known_address() {
    let mut reg = Registry::new();
    let details = |addr: &str| NewPublisher {
        stellar_address: addr.to_string(),
        username: Some("alice".to_string()),
        email: None,
        github_url: None,
        website: Some("https://example.org".to_string()),
    };
    let id = reg.create_publisher(details("G1"), 3).unwrap();
    let p = reg.get_publisher(id).unwrap();
    assert_eq!(p.username.as_deref(), Some("alice"));
    assert!(matches!(reg.create_publisher(details("G1"), 4), Err(RegistryError::Conflict)));
    assert_eq!(reg.publishers.len(), 1);
    assert_eq!(reg.register_publisher("G1".to_string(), 5).unwrap(), id);
    assert_eq!(reg.get_publisher(id).unwrap().username.as_deref(), Some("alice"));
}

#[test]
fn unknown_ids_are_not_found() {
    let reg = Registry::new();
    assert!(matches!(reg.get_contract(42), Err(RegistryError::NotFound)));
    assert!(matches!(reg.get_publisher(42), Err(RegistryError::NotFound)));
}

fn sample() -> Registry {
    let mut reg = Registry::new();
    reg.publish_contract(request("C1", "GALICE", "Token Swap", Some("defi")), hash("h1"), 100).unwrap();
    reg.publish_contract(request("C2", "GBOB", "NFT Market", Some("nft")), hash("h2"), 300).unwrap();
    reg.publish_contract(request("C3", "GALICE", "Lending", Some("defi")), hash("h3"), 200).unwrap();
    reg.publish_contract(request("C4", "GALICE", "swap router", Some("defi")), hash("h4"), 300).unwrap();
    reg
}

#[test]
fn contracts_are_listed_newest_first_with_id_tie_break() {
    let reg = sample();
    let order: Vec<&str> = reg.contracts.iter().map(|c| c.contract_id.as_str()).collect();
    assert_eq!(order, vec!["C4", "C2", "C3", "C1"]);
}

#[test]
fn search_counts_and_pages_filtered_set() {
    let reg = sample();
    let plan = build_search_plan(search_filter(None, Some("defi"), 1, 2)).unwrap();
    let page = reg.search(&plan);
    assert_eq!(page.total, 3);
    let ids: Vec<&str> = page.items.iter().map(|c| c.contract_id.as_str()).collect();
    assert_eq!(ids, vec!["C4", "C3"]);
    let plan = build_search_plan(search_filter(None, Some("defi"), 2, 2)).unwrap();
    let page = reg.search(&plan);
    assert_eq!(page.total, 3);
    let ids: Vec<&str> = page.items.iter().map(|c| c.contract_id.as_str()).collect();
    assert_eq!(ids, vec!["C1"]);
    let plan = build_search_plan(search_filter(None, Some("defi"), 3, 2)).unwrap();
    let page = reg.search(&plan);
    assert_eq!(page.total, 3);
    assert!(page.items.is_empty());
}

#[test]
fn search_term_matches_name_ignoring_case() {
    let reg = sample();
    let plan = build_search_plan(search_filter(Some("SWAP"), None, 1, 20)).unwrap();
    let page = reg.search(&plan);
    assert_eq!(page.total, 2);
    let ids: Vec<&str> = page.items.iter().map(|c| c.contract_id.as_str()).collect();
    assert_eq!(ids, vec!["C4", "C1"]);
    let plan = build_search_plan(search_filter(Some("swap"), Some("nft"), 1, 20)).unwrap();
    assert_eq!(reg.search(&plan).total, 0);
}

#[test]
fn verified_only_restricts_to_verified() {
    let mut reg = sample();
    reg.contracts[1].is_verified = true;
    let f = SearchFilter { query: None, verified_only: Some(true), category: None, page: None, page_size: None };
    let page = reg.search(&build_search_plan(f).unwrap());
    assert_eq!(page.total, 1);
    assert_eq!(page.items[0].contract_id, "C2");
}

#[test]
fn publisher_contracts_in_listing_order() {
    let reg = sample();
    let alice = publisher_id_of(&reg, "GALICE");
    let ids: Vec<&str> = reg.publisher_contracts(alice).iter().map(|c| c.contract_id.as_str()).collect();
    assert_eq!(ids, vec!["C4", "C3", "C1"]);
}

fn publisher_id_of(reg: &Registry, addr: &str) -> u128 {
    let i = reg.find_publisher(&addr.to_string()).unwrap();
    reg.publishers[i].id
}

#[test]
fn versions_newest_first_per_contract() {
    let mut reg = sample();
    let c1 = reg.contracts[3].id;
    let c2 = reg.contracts[1].id;
    reg.add_version(c1, "1.0.0".to_string(), 10).unwrap();
    reg.add_version(c2, "0.1.0".to_string(), 15).unwrap();
    reg.add_version(c1, "1.1.0".to_string(), 20).unwrap();
    let v: Vec<&str> = reg.contract_versions(c1).iter().map(|v| v.version.as_str()).collect();
    assert_eq!(v, vec!["1.1.0", "1.0.0"]);
    assert_eq!(reg.contract_versions(c2).len(), 1);
    assert!(matches!(reg.add_version(999_999, "x".to_string(), 1), Err(RegistryError::NotFound)));
}

#[test]
fn stats_count_contracts_and_publishers() {
    let mut reg = sample();
    reg.contracts[0].is_verified = true;
    let s = reg.stats();
    assert_eq!(s.total_contracts, 4);
    assert_eq!(s.verified_contracts, 1);
    assert_eq!(s.total_publishers, 2);
    assert!(s.verified_contracts <= s.total_contracts);
    let empty = Registry::new().stats();
    assert_eq!((empty.total_contracts, empty.verified_contracts, empty.total_publishers), (0, 0, 0));
}

#[test]
fn stats_from_inconsistent_counts_is_internal_error() {
    let s = RegistryStats::from_counts(5, 2, 3).unwrap();
    assert_eq!((s.total_contracts, s.verified_contracts, s.total_publishers), (5, 2, 3));
    assert!(matches!(RegistryStats::from_counts(2, 5, 3), Err(RegistryError::InternalError)));
    assert!(matches!(RegistryStats::from_counts(-1, -2, 0), Err(RegistryError::InternalError)));
    assert!(matches!(RegistryStats::from_counts(1, 0, -1), Err(RegistryError::InternalError)));
}

#[test]
fn liveness_reports_degraded_not_error() {
    let down = liveness_report(false, 42);
    assert_eq!(down.status, HealthStatus::Degraded);
    assert_eq!(down.uptime_secs, 42);
    assert_eq!(down.status_code(), 503);
    assert_eq!(down.status.as_text(), "degraded");
    let up = liveness_report(true, 7);
    assert_eq!(up.status, HealthStatus::Healthy);
    assert_eq!(up.status_code(), 200);
    assert_eq!(up.status.as_text(), "ok");
}

#[test]
fn uptime_never_negative() {
    assert_eq!(uptime_secs(100, 160), 60);
    assert_eq!(uptime_secs(100, 100), 0);
    assert_eq!(uptime_secs(100, 40), 0);
}

#[test]
fn verification_request_is_pending() {
    let s = accept_verification();
    assert_eq!(s, VerificationState::Pending);
    assert!(!s.is_terminal());
    assert!(VerificationState::Verified.is_terminal());
    assert!(VerificationState::Failed.is_terminal());
    assert_eq!(s.as_text(), "pending");
}

#[test]
fn error_kinds_map_to_status_codes() {
    assert_eq!(RegistryError::NotFound.status_code(), 404);
    assert_eq!(RegistryError::Conflict.status_code(), 409);
    assert_eq!(RegistryError::ValidationError.status_code(), 400);
    assert_eq!(RegistryError::NetworkError.status_code(), 502);
    assert_eq!(RegistryError::InternalError.status_code(), 500);
}

#[test]
fn identifiers_parse_or_are_rejected() {
    assert_eq!(
        parse_id("a1a2a3a4-b1b2-c1c2-d1d2-d3d4d5d6d7d8").unwrap(),
        0xa1a2a3a4b1b2c1c2d1d2d3d4d5d6d7d8
    );
    assert!(matches!(parse_id("not-a-uuid"), Err(RegistryError::ValidationError)));
    assert!(matches!(parse_id(""), Err(RegistryError::ValidationError)));
    assert_eq!(id_from_parsed(Some(5)).unwrap(), 5);
    assert!(matches!(id_from_parsed(None), Err(RegistryError::ValidationError)));
}
