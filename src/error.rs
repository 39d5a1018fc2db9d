use vstd::prelude::*;

verus! {

/// The kinds of failure that the registry reports to its callers.
#[derive(Debug, Clone, Copy, PartialEq, Eq, Structural)]
pub enum RegistryError {
    /// The requested entity does not exist.
    NotFound,
    /// A non-idempotent create hit an existing unique key.
    Conflict,
    /// An input lies outside what an operation accepts.
    ValidationError,
    /// The external ledger could not be reached.
    NetworkError,
    /// The store failed or was found in an unexpected state.
    InternalError,
}

impl RegistryError {
    /// The HTTP status with which the boundary layer answers this failure.
    pub fn status_code(&self) -> (r: u16)
        ensures
            r == spec_status_code(*self),
    {
        match self {
            RegistryError::NotFound => 404,
            RegistryError::Conflict => 409,
            RegistryError::ValidationError => 400,
            RegistryError::NetworkError => 502,
            RegistryError::InternalError => 500,
        }
    }
}

pub open spec fn spec_status_code(e: RegistryError) -> u16 {
    match e {
        RegistryError::NotFound => 404,
        RegistryError::Conflict => 409,
        RegistryError::ValidationError => 400,
        RegistryError::NetworkError => 502,
        RegistryError::InternalError => 500,
    }
}

} // verus!
