use vstd::prelude::*;
use crate::error::RegistryError;
use crate::model::ContractRow;

verus! {

/// The verified contracts of `s`.
pub open spec fn verified_of(s: Seq<ContractRow>) -> Seq<ContractRow> {
    s.filter(|c: ContractRow| c.is_verified)
}

/// Aggregate counters over the registry.
pub struct RegistryStats {
    pub total_contracts: u64,
    pub verified_contracts: u64,
    pub total_publishers: u64,
}

impl RegistryStats {
    pub open spec fn wf(&self) -> bool {
        self.verified_contracts <= self.total_contracts
    }

    /// Counters read one by one from the store. Counts that cannot hold
    /// together (a negative one, more verified contracts than contracts) are
    /// reported as an internal error, never passed on.
    pub fn from_counts(total_contracts: i64, verified_contracts: i64, total_publishers: i64) -> (r: Result<
        RegistryStats,
        RegistryError,
    >)
        ensures
            r is Ok <==> (0 <= verified_contracts <= total_contracts && 0 <= total_publishers),
            r matches Ok(st) ==> st.wf() && st.total_contracts == total_contracts
                && st.verified_contracts == verified_contracts && st.total_publishers
                == total_publishers,
            r matches Err(e) ==> e == RegistryError::InternalError,
    {
        if verified_contracts < 0 || verified_contracts > total_contracts || total_publishers < 0 {
            return Err(RegistryError::InternalError);
        }
        Ok(
            RegistryStats {
                total_contracts: total_contracts as u64,
                verified_contracts: verified_contracts as u64,
                total_publishers: total_publishers as u64,
            },
        )
    }
}

} // verus!
