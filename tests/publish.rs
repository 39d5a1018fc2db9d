use contract_registry::error::RegistryError;
use contract_registry::publish::{next_publish_step, start_publish, PublishEvent, PublishStep};
use contract_registry::publish::LedgerError;

#[test]
fn publication_runs_upsert_lookup_insert() {
    let step = start_publish();
    assert!(matches!(step, PublishStep::UpsertPublisher));
    let step = next_publish_step(step, PublishEvent::PublisherUpserted(Ok(7)));
    assert!(matches!(step, PublishStep::ResolveHash { publisher_id: 7 }));
    let step = next_publish_step(step, PublishEvent::HashResolved(Ok("abc".to_string())));
    match &step {
        PublishStep::InsertContract { publisher_id, wasm_hash } => {
            assert_eq!(*publisher_id, 7);
            assert_eq!(wasm_hash, "abc");
        }
        _ => panic!("expected an insert"),
    }
    let step = next_publish_step(step, PublishEvent::ContractInserted(Ok(9)));
    assert!(matches!(step, PublishStep::Done { contract: 9 }));
}

#[test]
fn failed_lookup_stops_before_insert() {
    let step = next_publish_step(start_publish(), PublishEvent::PublisherUpserted(Ok(1)));
    let failed = next_publish_step(step, PublishEvent::HashResolved(Err(LedgerError::NotFound)));
    assert!(matches!(failed, PublishStep::Failed { error: RegistryError::NotFound }));
    let step = next_publish_step(start_publish(), PublishEvent::PublisherUpserted(Ok(1)));
    let failed = next_publish_step(step, PublishEvent::HashResolved(Err(LedgerError::Unreachable)));
    assert!(matches!(failed, PublishStep::Failed { error: RegistryError::NetworkError }));
}

#[test]
fn store_failures_end_the_publication() {
    let failed = next_publish_step(start_publish(), PublishEvent::PublisherUpserted(Err(RegistryError::InternalError)));
    assert!(matches!(failed, PublishStep::Failed { error: RegistryError::InternalError }));
    let step = PublishStep::InsertContract { publisher_id: 1, wasm_hash: "h".to_string() };
    let failed = next_publish_step(step, PublishEvent::ContractInserted(Err(RegistryError::InternalError)));
    assert!(matches!(failed, PublishStep::Failed { error: RegistryError::InternalError }));
}

#[test]
fn out_of_order_outcome_is_internal_error() {
    let step = start_publish();
    let r = next_publish_step(step, PublishEvent::HashResolved(Ok("h".to_string())));
    assert!(matches!(r, PublishStep::Failed { error: RegistryError::InternalError }));
    let r = next_publish_step(PublishStep::Done { contract: 1 }, PublishEvent::ContractInserted(Ok(2)));
    assert!(matches!(r, PublishStep::Failed { error: RegistryError::InternalError }));
}
