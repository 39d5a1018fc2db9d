use vstd::prelude::*;
use crate::error::RegistryError;

verus! {

/// How the external ledger's hash lookup can fail.
#[derive(Debug, Clone, Copy, PartialEq, Eq, Structural)]
pub enum LedgerError {
    /// No such contract on that network.
    NotFound,
    /// The ledger could not be reached.
    Unreachable,
}

pub open spec fn spec_ledger_failure(e: LedgerError) -> RegistryError {
    match e {
        LedgerError::NotFound => RegistryError::NotFound,
        LedgerError::Unreachable => RegistryError::NetworkError,
    }
}

/// The registry error under which a ledger failure is reported.
pub fn ledger_failure(e: LedgerError) -> (r: RegistryError)
    ensures
        r == spec_ledger_failure(e),
{
    match e {
        LedgerError::NotFound => RegistryError::NotFound,
        LedgerError::Unreachable => RegistryError::NetworkError,
    }
}

/// Where a publication stands, and what the caller is to do next.
pub enum PublishStep {
    /// Run the idempotent publisher upsert.
    UpsertPublisher,
    /// Ask the ledger for the contract's hash.
    ResolveHash { publisher_id: u128 },
    /// Insert the contract row with this owner and hash.
    InsertContract { publisher_id: u128, wasm_hash: String },
    /// The contract was inserted under this identifier.
    Done { contract: u128 },
    /// The publication stopped with this error.
    Failed { error: RegistryError },
}

/// The outcome of the action that the previous step asked for.
pub enum PublishEvent {
    PublisherUpserted(Result<u128, RegistryError>),
    HashResolved(Result<String, LedgerError>),
    ContractInserted(Result<u128, RegistryError>),
}

/// The step after `step` once `event` came back. The steps run in a fixed
/// order, upsert, then lookup, then insert; any failure ends the
/// publication, and an outcome that answers no pending action is an
/// internal error.
pub open spec fn spec_next_publish_step(step: PublishStep, event: PublishEvent) -> PublishStep {
    match (step, event) {
        (PublishStep::UpsertPublisher, PublishEvent::PublisherUpserted(Ok(id))) => PublishStep::ResolveHash {
            publisher_id: id,
        },
        (PublishStep::UpsertPublisher, PublishEvent::PublisherUpserted(Err(e))) => PublishStep::Failed {
            error: e,
        },
        (PublishStep::ResolveHash { publisher_id }, PublishEvent::HashResolved(Ok(h))) => PublishStep::InsertContract {
            publisher_id,
            wasm_hash: h,
        },
        (PublishStep::ResolveHash { .. }, PublishEvent::HashResolved(Err(e))) => PublishStep::Failed {
            error: spec_ledger_failure(e),
        },
        (PublishStep::InsertContract { .. }, PublishEvent::ContractInserted(Ok(id))) => PublishStep::Done {
            contract: id,
        },
        (PublishStep::InsertContract { .. }, PublishEvent::ContractInserted(Err(e))) => PublishStep::Failed {
            error: e,
        },
        _ => PublishStep::Failed { error: RegistryError::InternalError },
    }
}

/// The first step of every publication.
pub fn start_publish() -> (r: PublishStep)
    ensures
        r is UpsertPublisher,
{
    PublishStep::UpsertPublisher
}

/// Advances a publication by the outcome of its pending action.
pub fn next_publish_step(step: PublishStep, event: PublishEvent) -> (r: PublishStep)
    ensures
        r == spec_next_publish_step(step, event),
        r is InsertContract ==> step is ResolveHash && event matches PublishEvent::HashResolved(Ok(_)),
        r is Done ==> step is InsertContract,
{
    match step {
        PublishStep::UpsertPublisher => match event {
            PublishEvent::PublisherUpserted(Ok(id)) => PublishStep::ResolveHash { publisher_id: id },
            PublishEvent::PublisherUpserted(Err(e)) => PublishStep::Failed { error: e },
            _ => PublishStep::Failed { error: RegistryError::InternalError },
        },
        PublishStep::ResolveHash { publisher_id } => match event {
            PublishEvent::HashResolved(Ok(h)) => PublishStep::InsertContract { publisher_id, wasm_hash: h },
            PublishEvent::HashResolved(Err(e)) => PublishStep::Failed { error: ledger_failure(e) },
            _ => PublishStep::Failed { error: RegistryError::InternalError },
        },
        PublishStep::InsertContract { .. } => match event {
            PublishEvent::ContractInserted(Ok(id)) => PublishStep::Done { contract: id },
            PublishEvent::ContractInserted(Err(e)) => PublishStep::Failed { error: e },
            _ => PublishStep::Failed { error: RegistryError::InternalError },
        },
        _ => PublishStep::Failed { error: RegistryError::InternalError },
    }
}

} // verus!
