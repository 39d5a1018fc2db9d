use vstd::prelude::*;
use crate::error::RegistryError;
use crate::model::{ContractRow, PublisherRow, VersionRow};
use crate::model::row_matches;
use crate::publish::{spec_ledger_failure, ledger_failure, LedgerError};
use crate::search::{PaginatedResult, SearchPlan};
use crate::stats::{verified_of, RegistryStats};

verus! {

/// An in-memory store gateway: the three relations of the registry and the
/// source of fresh identifiers.
pub struct Registry {
    pub publishers: Vec<PublisherRow>,
    pub contracts: Vec<ContractRow>,
    pub versions: Vec<VersionRow>,
    pub next_id: u128,
}

/// The registry's state as mathematical sequences.
pub struct RegistryModel {
    pub publishers: Seq<PublisherRow>,
    pub contracts: Seq<ContractRow>,
    pub versions: Seq<VersionRow>,
    pub next_id: u128,
}

impl View for Registry {
    type V = RegistryModel;

    open spec fn view(&self) -> RegistryModel {
        RegistryModel {
            publishers: self.publishers@,
            contracts: self.contracts@,
            versions: self.versions@,
            next_id: self.next_id,
        }
    }
}

/// Publisher details supplied up front for a non-idempotent creation.
pub struct NewPublisher {
    pub stellar_address: String,
    pub username: Option<String>,
    pub email: Option<String>,
    pub github_url: Option<String>,
    pub website: Option<String>,
}

/// Whether some publisher in `pubs` has address `addr`.
pub open spec fn address_taken(pubs: Seq<PublisherRow>, addr: Seq<char>) -> bool {
    exists|i: int| 0 <= i < pubs.len() && #[trigger] pubs[i].stellar_address@ == addr
}

/// Whether exactly one publisher in `pubs` has address `addr`.
pub open spec fn exactly_one_with(pubs: Seq<PublisherRow>, addr: Seq<char>) -> bool {
    exists|i: int|
        0 <= i < pubs.len() && #[trigger] pubs[i].stellar_address@ == addr && (forall|j: int|
            0 <= j < pubs.len() && #[trigger] pubs[j].stellar_address@ == addr ==> j == i)
}

/// Whether some publisher in `pubs` has identifier `id`.
pub open spec fn has_publisher(pubs: Seq<PublisherRow>, id: u128) -> bool {
    exists|i: int| 0 <= i < pubs.len() && #[trigger] pubs[i].id == id
}

/// Whether contract `a` is listed before contract `b`: newer first, and on
/// equal creation times the larger identifier first.
pub open spec fn precedes(a: ContractRow, b: ContractRow) -> bool {
    a.created_at > b.created_at || (a.created_at == b.created_at && a.id > b.id)
}

/// Whether version `a` is listed before version `b`: newer first, then the larger identifier.
pub open spec fn version_precedes(a: VersionRow, b: VersionRow) -> bool {
    a.created_at > b.created_at || (a.created_at == b.created_at && a.id > b.id)
}

/// Whether a sequence of versions is in listing order.
pub open spec fn versions_newest_first(s: Seq<VersionRow>) -> bool {
    forall|i: int, j: int| 0 <= i < j < s.len() ==> version_precedes(#[trigger] s[i], #[trigger] s[j])
}

/// The versions of `s` that belong to contract `id`, in the order of `s`.
pub open spec fn versions_of(s: Seq<VersionRow>, id: u128) -> Seq<VersionRow> {
    s.filter(|v: VersionRow| v.contract_id == id)
}

/// Whether a sequence of contracts is in listing order.
pub open spec fn newest_first(s: Seq<ContractRow>) -> bool {
    forall|i: int, j: int| 0 <= i < j < s.len() ==> precedes(#[trigger] s[i], #[trigger] s[j])
}

impl RegistryModel {
    /// The store's invariants: unique addresses, identifiers below the next
    /// one, every contract owned by an existing publisher, contracts in
    /// listing order.
    pub open spec fn wf(&self) -> bool {
        &&& forall|i: int, j: int|
            0 <= i < j < self.publishers.len() ==> #[trigger] self.publishers[i].stellar_address@
                != #[trigger] self.publishers[j].stellar_address@
        &&& forall|i: int| 0 <= i < self.publishers.len() ==> #[trigger] self.publishers[i].id < self.next_id
        &&& forall|i: int| 0 <= i < self.contracts.len() ==> #[trigger] self.contracts[i].id < self.next_id
        &&& forall|i: int|
            0 <= i < self.contracts.len() ==> has_publisher(
                self.publishers,
                #[trigger] self.contracts[i].publisher_id,
            )
        &&& forall|i: int| 0 <= i < self.versions.len() ==> #[trigger] self.versions[i].id < self.next_id
        &&& newest_first(self.contracts)
        &&& versions_newest_first(self.versions)
    }

    /// The index of the publisher with address `addr`, if any.
    pub open spec fn publisher_index(&self, addr: Seq<char>) -> int
        recommends
            address_taken(self.publishers, addr),
    {
        choose|i: int| 0 <= i < self.publishers.len() && #[trigger] self.publishers[i].stellar_address@ == addr
    }
}

/// A fresh publisher row.
pub open spec fn fresh_publisher(id: u128, d: NewPublisher, now: i64) -> PublisherRow {
    PublisherRow {
        id,
        stellar_address: d.stellar_address,
        username: d.username,
        email: d.email,
        github_url: d.github_url,
        website: d.website,
        created_at: now,
    }
}

/// A publisher known only by its address.
pub open spec fn bare_publisher(addr: String) -> NewPublisher {
    NewPublisher { stellar_address: addr, username: None, email: None, github_url: None, website: None }
}

/// Idempotent registration: the existing publisher's identifier when the
/// address is known, else a new publisher under the next identifier.
pub open spec fn spec_register(m: RegistryModel, addr: String, now: i64) -> (RegistryModel, Result<u128, RegistryError>) {
    if address_taken(m.publishers, addr@) {
        (m, Ok(m.publishers[m.publisher_index(addr@)].id))
    } else if m.next_id == u128::MAX {
        (m, Err(RegistryError::InternalError))
    } else {
        (
            RegistryModel {
                publishers: m.publishers.push(fresh_publisher(m.next_id, bare_publisher(addr), now)),
                next_id: (m.next_id + 1) as u128,
                ..m
            },
            Ok(m.next_id),
        )
    }
}

/// Non-idempotent creation: a conflict when the address is already known.
pub open spec fn spec_create(m: RegistryModel, d: NewPublisher, now: i64) -> (RegistryModel, Result<u128, RegistryError>) {
    if address_taken(m.publishers, d.stellar_address@) {
        (m, Err(RegistryError::Conflict))
    } else if m.next_id == u128::MAX {
        (m, Err(RegistryError::InternalError))
    } else {
        (
            RegistryModel {
                publishers: m.publishers.push(fresh_publisher(m.next_id, d, now)),
                next_id: (m.next_id + 1) as u128,
                ..m
            },
            Ok(m.next_id),
        )
    }
}

impl Registry {
    pub open spec fn wf(&self) -> bool {
        self@.wf()
    }

    /// An empty registry.
    pub fn new() -> (r: Registry)
        ensures
            r.wf(),
            r@.publishers.len() == 0,
            r@.contracts.len() == 0,
            r@.versions.len() == 0,
            r@.next_id == 1,
    {
        Registry { publishers: Vec::new(), contracts: Vec::new(), versions: Vec::new(), next_id: 1 }
    }

    /// The position of the publisher with address `addr`.
    pub fn find_publisher(&self, addr: &String) -> (r: Option<usize>)
        ensures
            r matches Some(i) ==> i < self.publishers@.len() && self.publishers@[i as int].stellar_address@ == addr@,
            r is None <==> !address_taken(self.publishers@, addr@),
    {
        let mut i: usize = 0;
        while i < self.publishers.len()
            invariant
                i <= self.publishers@.len(),
                forall|k: int| 0 <= k < i ==> #[trigger] self.publishers@[k].stellar_address@ != addr@,
            decreases self.publishers@.len() - i,
        {
            if self.publishers[i].stellar_address == *addr {
                return Some(i);
            }
            i = i + 1;
        }
        None
    }

    fn insert_publisher(&mut self, d: NewPublisher, now: i64) -> (r: Result<u128, RegistryError>)
        requires
            old(self).wf(),
            !address_taken(old(self)@.publishers, d.stellar_address@),
        ensures
            (final(self)@, r) == spec_create(old(self)@, d, now),
            final(self).wf(),
    {
        if self.next_id == u128::MAX {
            return Err(RegistryError::InternalError);
        }
        let id = self.next_id;
        let ghost m = self@;
        let ghost row = fresh_publisher(id, d, now);
        self.publishers.push(
            PublisherRow {
                id,
                stellar_address: d.stellar_address,
                username: d.username,
                email: d.email,
                github_url: d.github_url,
                website: d.website,
                created_at: now,
            },
        );
        self.next_id = id + 1;
        assert(self.publishers@ == m.publishers.push(row));
        assert forall|i: int| 0 <= i < self@.contracts.len() implies has_publisher(
            self@.publishers,
            #[trigger] self@.contracts[i].publisher_id,
        ) by {
            let j = choose|j: int| 0 <= j < m.publishers.len() && #[trigger] m.publishers[j].id == m.contracts[i].publisher_id;
            assert(self@.publishers[j] == m.publishers[j]);
        }
        Ok(id)
    }

    /// Idempotent get-or-create of the publisher with address `addr`; other
    /// fields of a known publisher are left as they are.
    pub fn register_publisher(&mut self, addr: String, now: i64) -> (r: Result<u128, RegistryError>)
        requires
            old(self).wf(),
        ensures
            (final(self)@, r) == spec_register(old(self)@, addr, now),
            final(self).wf(),
    {
        match self.find_publisher(&addr) {
            Some(i) => {
                assert(self@.publishers[self@.publisher_index(addr@)].stellar_address@ == addr@);
                Ok(self.publishers[i].id)
            },
            None => self.insert_publisher(
                NewPublisher { stellar_address: addr, username: None, email: None, github_url: None, website: None },
                now,
            ),
        }
    }

    /// Creation with full details; a conflict when the address is known.
    pub fn create_publisher(&mut self, details: NewPublisher, now: i64) -> (r: Result<u128, RegistryError>)
        requires
            old(self).wf(),
        ensures
            (final(self)@, r) == spec_create(old(self)@, details, now),
            final(self).wf(),
    {
        match self.find_publisher(&details.stellar_address) {
            Some(_) => Err(RegistryError::Conflict),
            None => self.insert_publisher(details, now),
        }
    }

    /// Places `row` among the contracts so that listing order is kept.
    fn insert_contract(&mut self, row: ContractRow)
        requires
            old(self).wf(),
            row.id < old(self).next_id,
            has_publisher(old(self)@.publishers, row.publisher_id),
            forall|i: int| 0 <= i < old(self)@.contracts.len() ==> #[trigger] old(self)@.contracts[i].id != row.id,
        ensures
            final(self).wf(),
            final(self)@.publishers == old(self)@.publishers,
            final(self)@.versions == old(self)@.versions,
            final(self)@.next_id == old(self)@.next_id,
            contract_added(old(self)@.contracts, final(self)@.contracts, row),
    {
        let ghost m = self@;
        let mut k: usize = 0;
        while k < self.contracts.len() && contract_precedes(&self.contracts[k], &row)
            invariant
                self@ == m,
                k <= m.contracts.len(),
                forall|j: int| 0 <= j < k ==> precedes(#[trigger] m.contracts[j], row),
            decreases m.contracts.len() - k,
        {
            k = k + 1;
        }
        self.contracts.insert(k, row);
        let ghost s = self@.contracts;
        assert(s == m.contracts.insert(k as int, row));
        assert forall|i: int, j: int| 0 <= i < j < s.len() implies precedes(#[trigger] s[i], #[trigger] s[j]) by {
            if j < k {
                assert(s[i] == m.contracts[i] && s[j] == m.contracts[j]);
            } else if j == k {
                assert(s[i] == m.contracts[i]);
            } else if i < k {
                assert(s[i] == m.contracts[i] && s[j] == m.contracts[j - 1]);
            } else if i == k {
                assert(s[j] == m.contracts[j - 1]);
                assert(!precedes(m.contracts[k as int], row));
                assert(precedes(row, m.contracts[k as int]));
            } else {
                assert(s[i] == m.contracts[i - 1] && s[j] == m.contracts[j - 1]);
            }
        }
        assert forall|i: int| 0 <= i < s.len() implies #[trigger] s[i].id < self.next_id && has_publisher(
            self@.publishers,
            s[i].publisher_id,
        ) by {
            if i < k {
                assert(s[i] == m.contracts[i]);
            } else if i > k {
                assert(s[i] == m.contracts[i - 1]);
            } else {
                assert(s[i] == row);
            }
        }
        assert(newest_first(s));
        assert(self@.publishers == m.publishers);
        assert(self@.versions == m.versions);
        assert forall|i: int| 0 <= i < self@.versions.len() implies #[trigger] self@.versions[i].id < self.next_id by {
            assert(self@.versions[i] == m.versions[i]);
        }
    }

    /// Publishes a contract: registers its publisher (idempotently), then
    /// takes the outcome of the ledger's hash lookup, then inserts the
    /// contract. A failed lookup leaves no contract behind, and keeps the
    /// publisher that was registered.
    pub fn publish_contract(
        &mut self,
        req: PublishRequest,
        ledger: Result<String, LedgerError>,
        now: i64,
    ) -> (r: Result<u128, RegistryError>)
        requires
            old(self).wf(),
        ensures
            final(self).wf(),
            publish_post(old(self)@, final(self)@, req, ledger, now, r),
    {
        let publisher_id = match self.register_publisher(req.publisher_address, now) {
            Ok(id) => id,
            Err(e) => return Err(e),
        };
        let wasm_hash = match ledger {
            Ok(h) => h,
            Err(e) => return Err(ledger_failure(e)),
        };
        if self.next_id == u128::MAX {
            return Err(RegistryError::InternalError);
        }
        let id = self.next_id;
        self.next_id = id + 1;
        proof {
            if address_taken(old(self)@.publishers, req.publisher_address@) {
                let pi = old(self)@.publisher_index(req.publisher_address@);
                assert(old(self)@.publishers[pi].id == publisher_id);
            } else {
                assert(self@.publishers[self@.publishers.len() - 1].id == publisher_id);
            }
        }
        let row = ContractRow {
            id,
            contract_id: req.contract_id,
            wasm_hash,
            name: req.name,
            description: req.description,
            publisher_id,
            network: req.network,
            category: req.category,
            tags: req.tags,
            is_verified: false,
            created_at: now,
        };
        self.insert_contract(row);
        Ok(id)
    }

    /// One page of the contracts that satisfy `plan`, in listing order, with
    /// the number of them in all.
    pub fn search(&self, plan: &SearchPlan) -> (r: PaginatedResult<&ContractRow>)
        requires
            self.wf(),
            plan.wf(),
        ensures
            r.wf(),
            r.total == matching(self@.contracts, plan).len(),
            r.items@.map_values(|c: &ContractRow| *c) == page_of(
                matching(self@.contracts, plan),
                plan.offset as int,
                plan.page_size as int,
            ),
            r.page == plan.page,
            r.page_size == plan.page_size,
            newest_first(r.items@.map_values(|c: &ContractRow| *c)),
    {
        proof {
            lemma_filter_keeps_order(self@.contracts, |c: ContractRow| row_matches(plan, &c));
            lemma_window_keeps_order(
                matching(self@.contracts, plan),
                plan.offset as int,
                plan.page_size as int,
            );
        }
        let lo: u64 = plan.offset as u64;
        let hi: u64 = lo + plan.page_size as u64;
        let mut items: Vec<&ContractRow> = Vec::new();
        let mut count: usize = 0;
        let mut i: usize = 0;
        while i < self.contracts.len()
            invariant
                self.wf(),
                plan.wf(),
                lo == plan.offset,
                hi == plan.offset + plan.page_size,
                i <= self.contracts@.len(),
                count == matching(self.contracts@.take(i as int), plan).len(),
                count <= i,
                items@.map_values(|c: &ContractRow| *c) == page_of(
                    matching(self.contracts@.take(i as int), plan),
                    plan.offset as int,
                    plan.page_size as int,
                ),
            decreases self.contracts@.len() - i,
        {
            let row = &self.contracts[i];
            let ghost before = matching(self.contracts@.take(i as int), plan);
            assert(self.contracts@.take(i as int + 1) == self.contracts@.take(i as int).push(*row));
            proof {
                self.contracts@.take(i as int).lemma_filter_push(*row, |c: ContractRow| row_matches(plan, &c));
            }
            let ghost c0 = count as int;
            let ghost items0 = items@.map_values(|c: &ContractRow| *c);
            let hit = row.matches(plan);
            if hit {
                if lo <= count as u64 && (count as u64) < hi {
                    items.push(row);
                }
                count = count + 1;
            }
            i = i + 1;
            proof {
                let after = matching(self.contracts@.take(i as int), plan);
                let off = plan.offset as int;
                let sz = plan.page_size as int;
                if hit {
                    assert(after == before.push(*row));
                    if off <= c0 < off + sz {
                        assert(items@.map_values(|c: &ContractRow| *c) =~= items0.push(*row));
                        assert(page_of(after, off, sz) =~= page_of(before, off, sz).push(*row));
                    } else {
                        assert(items@.map_values(|c: &ContractRow| *c) =~= items0);
                        assert(page_of(after, off, sz) =~= page_of(before, off, sz));
                    }
                } else {
                    assert(after == before);
                }
            }
        }
        assert(self.contracts@.take(i as int) == self.contracts@);
        PaginatedResult { items, total: count as u64, page: plan.page, page_size: plan.page_size }
    }

    /// The contract with identifier `id`.
    pub fn get_contract(&self, id: u128) -> (r: Result<&ContractRow, RegistryError>)
        ensures
            r is Ok <==> exists|i: int| 0 <= i < self@.contracts.len() && #[trigger] self@.contracts[i].id == id,
            r matches Ok(c) ==> c.id == id && self@.contracts.contains(*c),
            r matches Err(e) ==> e == RegistryError::NotFound,
    {
        let mut i: usize = 0;
        while i < self.contracts.len()
            invariant
                i <= self@.contracts.len(),
                forall|k: int| 0 <= k < i ==> #[trigger] self@.contracts[k].id != id,
            decreases self@.contracts.len() - i,
        {
            if self.contracts[i].id == id {
                assert(self@.contracts[i as int] == self.contracts[i as int]);
                return Ok(&self.contracts[i]);
            }
            i = i + 1;
        }
        Err(RegistryError::NotFound)
    }

    /// The publisher with identifier `id`.
    pub fn get_publisher(&self, id: u128) -> (r: Result<&PublisherRow, RegistryError>)
        ensures
            r is Ok <==> has_publisher(self@.publishers, id),
            r matches Ok(p) ==> p.id == id && self@.publishers.contains(*p),
            r matches Err(e) ==> e == RegistryError::NotFound,
    {
        let mut i: usize = 0;
        while i < self.publishers.len()
            invariant
                i <= self@.publishers.len(),
                forall|k: int| 0 <= k < i ==> #[trigger] self@.publishers[k].id != id,
            decreases self@.publishers.len() - i,
        {
            if self.publishers[i].id == id {
                assert(self@.publishers[i as int] == self.publishers[i as int]);
                return Ok(&self.publishers[i]);
            }
            i = i + 1;
        }
        Err(RegistryError::NotFound)
    }

    /// The contracts owned by publisher `publisher_id`, in listing order.
    pub fn publisher_contracts(&self, publisher_id: u128) -> (r: Vec<&ContractRow>)
        ensures
            r@.map_values(|c: &ContractRow| *c) == owned_by(self@.contracts, publisher_id),
            self.wf() ==> newest_first(r@.map_values(|c: &ContractRow| *c)),
    {
        proof {
            if self.wf() {
                lemma_filter_keeps_order(self@.contracts, |c: ContractRow| c.publisher_id == publisher_id);
            }
        }
        let mut out: Vec<&ContractRow> = Vec::new();
        let mut i: usize = 0;
        while i < self.contracts.len()
            invariant
                i <= self.contracts@.len(),
                out@.map_values(|c: &ContractRow| *c) == owned_by(self.contracts@.take(i as int), publisher_id),
            decreases self.contracts@.len() - i,
        {
            let row = &self.contracts[i];
            assert(self.contracts@.take(i as int + 1) == self.contracts@.take(i as int).push(*row));
            proof {
                self.contracts@.take(i as int).lemma_filter_push(*row, |c: ContractRow| c.publisher_id == publisher_id);
            }
            if row.publisher_id == publisher_id {
                out.push(row);
            }
            i = i + 1;
            assert(out@.map_values(|c: &ContractRow| *c) =~= owned_by(self.contracts@.take(i as int), publisher_id));
        }
        assert(self.contracts@.take(i as int) == self.contracts@);
        out
    }

    /// The three registry counters, taken from one state of the store.
    pub fn stats(&self) -> (r: RegistryStats)
        ensures
            r.wf(),
            r.total_contracts == self@.contracts.len(),
            r.verified_contracts == verified_of(self@.contracts).len(),
            r.total_publishers == self@.publishers.len(),
    {
        let mut verified: usize = 0;
        let mut i: usize = 0;
        while i < self.contracts.len()
            invariant
                i <= self.contracts@.len(),
                verified == verified_of(self.contracts@.take(i as int)).len(),
                verified <= i,
            decreases self.contracts@.len() - i,
        {
            let row = &self.contracts[i];
            assert(self.contracts@.take(i as int + 1) == self.contracts@.take(i as int).push(*row));
            proof {
                self.contracts@.take(i as int).lemma_filter_push(*row, |c: ContractRow| c.is_verified);
            }
            if row.is_verified {
                verified = verified + 1;
            }
            i = i + 1;
        }
        assert(self.contracts@.take(i as int) == self.contracts@);
        RegistryStats {
            total_contracts: self.contracts.len() as u64,
            verified_contracts: verified as u64,
            total_publishers: self.publishers.len() as u64,
        }
    }

    /// Appends an entry to the history of contract `contract_id`.
    pub fn add_version(&mut self, contract_id: u128, version: String, now: i64) -> (r: Result<u128, RegistryError>)
        requires
            old(self).wf(),
        ensures
            final(self).wf(),
            final(self)@.publishers == old(self)@.publishers,
            final(self)@.contracts == old(self)@.contracts,
            r matches Err(e) ==> final(self)@ == old(self)@ && (e == RegistryError::NotFound || e
                == RegistryError::InternalError),
            r is Err && (exists|i: int| 0 <= i < old(self)@.contracts.len() && #[trigger] old(self)@.contracts[i].id == contract_id)
                ==> old(self)@.next_id == u128::MAX,
            r matches Err(e) ==> (e == RegistryError::NotFound <==> !(exists|i: int| 0 <= i < old(self)@.contracts.len() && #[trigger] old(self)@.contracts[i].id == contract_id)),
            r matches Ok(id) ==> id == old(self)@.next_id && exists|k: int|
                0 <= k <= old(self)@.versions.len() && final(self)@.versions == #[trigger] old(
                    self,
                )@.versions.insert(k, VersionRow { id, contract_id, version, created_at: now }),
    {
        match self.get_contract(contract_id) {
            Ok(_) => {},
            Err(e) => return Err(e),
        }
        if self.next_id == u128::MAX {
            return Err(RegistryError::InternalError);
        }
        let id = self.next_id;
        let ghost m = self@;
        let row = VersionRow { id, contract_id, version, created_at: now };
        let ghost grow = row;
        let mut k: usize = 0;
        while k < self.versions.len() && version_before(&self.versions[k], &row)
            invariant
                self@ == m,
                grow == row,
                k <= m.versions.len(),
                forall|j: int| 0 <= j < k ==> version_precedes(#[trigger] m.versions[j], grow),
            decreases m.versions.len() - k,
        {
            k = k + 1;
        }
        self.versions.insert(k, row);
        self.next_id = id + 1;
        let ghost s = self@.versions;
        assert(s == m.versions.insert(k as int, grow));
        assert forall|i: int, j: int| 0 <= i < j < s.len() implies version_precedes(#[trigger] s[i], #[trigger] s[j]) by {
            if j < k {
                assert(s[i] == m.versions[i] && s[j] == m.versions[j]);
            } else if j == k {
                assert(s[i] == m.versions[i]);
            } else if i < k {
                assert(s[i] == m.versions[i] && s[j] == m.versions[j - 1]);
            } else if i == k {
                assert(s[j] == m.versions[j - 1]);
                assert(!version_precedes(m.versions[k as int], grow));
            } else {
                assert(s[i] == m.versions[i - 1] && s[j] == m.versions[j - 1]);
            }
        }
        assert forall|i: int| 0 <= i < s.len() implies #[trigger] s[i].id < self.next_id by {
            if i < k {
                assert(s[i] == m.versions[i]);
            } else if i > k {
                assert(s[i] == m.versions[i - 1]);
            }
        }
        assert(self@.publishers == m.publishers);
        assert(self@.contracts == m.contracts);
        Ok(id)
    }

    /// The history of contract `contract_id`, newest first.
    pub fn contract_versions(&self, contract_id: u128) -> (r: Vec<&VersionRow>)
        ensures
            r@.map_values(|v: &VersionRow| *v) == versions_of(self@.versions, contract_id),
            self.wf() ==> versions_newest_first(r@.map_values(|v: &VersionRow| *v)),
    {
        proof {
            if self.wf() {
                lemma_version_filter_keeps_order(self@.versions, |v: VersionRow| v.contract_id == contract_id);
            }
        }
        let mut out: Vec<&VersionRow> = Vec::new();
        let mut i: usize = 0;
        while i < self.versions.len()
            invariant
                i <= self.versions@.len(),
                out@.map_values(|v: &VersionRow| *v) == versions_of(self.versions@.take(i as int), contract_id),
            decreases self.versions@.len() - i,
        {
            let row = &self.versions[i];
            assert(self.versions@.take(i as int + 1) == self.versions@.take(i as int).push(*row));
            proof {
                self.versions@.take(i as int).lemma_filter_push(*row, |v: VersionRow| v.contract_id == contract_id);
            }
            if row.contract_id == contract_id {
                out.push(row);
            }
            i = i + 1;
            assert(out@.map_values(|v: &VersionRow| *v) =~= versions_of(self.versions@.take(i as int), contract_id));
        }
        assert(self.versions@.take(i as int) == self.versions@);
        out
    }
}

/// The contracts of `s` owned by publisher `id`, in the order of `s`.
pub open spec fn owned_by(s: Seq<ContractRow>, id: u128) -> Seq<ContractRow> {
    s.filter(|c: ContractRow| c.publisher_id == id)
}

/// The contracts of `s` that satisfy every filter of `p`, in the order of `s`.
pub open spec fn matching(s: Seq<ContractRow>, p: &SearchPlan) -> Seq<ContractRow> {
    s.filter(|c: ContractRow| row_matches(p, &c))
}

/// The window `[offset, offset + size)` of `s`, cut at its end.
pub open spec fn page_of(s: Seq<ContractRow>, offset: int, size: int) -> Seq<ContractRow> {
    let lo = if offset < s.len() { offset } else { s.len() as int };
    let hi = if offset + size < s.len() { offset + size } else { s.len() as int };
    s.subrange(lo, hi)
}

/// Contract publication input.
pub struct PublishRequest {
    pub contract_id: String,
    pub publisher_address: String,
    pub name: String,
    pub description: Option<String>,
    pub network: String,
    pub category: Option<String>,
    pub tags: Vec<String>,
}

/// Whether version `v` is listed before version `w`.
pub fn version_before(v: &VersionRow, w: &VersionRow) -> (r: bool)
    ensures
        r == version_precedes(*v, *w),
{
    v.created_at > w.created_at || (v.created_at == w.created_at && v.id > w.id)
}

/// Whether `c` is listed before `d`.
pub fn contract_precedes(c: &ContractRow, d: &ContractRow) -> (r: bool)
    ensures
        r == precedes(*c, *d),
{
    c.created_at > d.created_at || (c.created_at == d.created_at && c.id > d.id)
}

/// `after` is `before` with `row` placed at some position, in listing order.
pub open spec fn contract_added(before: Seq<ContractRow>, after: Seq<ContractRow>, row: ContractRow) -> bool {
    exists|k: int| 0 <= k <= before.len() && after == #[trigger] before.insert(k, row)
}

/// The contract row that a publication inserts.
pub open spec fn published_row(req: PublishRequest, hash: String, publisher_id: u128, id: u128, now: i64) -> ContractRow {
    ContractRow {
        id,
        contract_id: req.contract_id,
        wasm_hash: hash,
        name: req.name,
        description: req.description,
        publisher_id,
        network: req.network,
        category: req.category,
        tags: req.tags,
        is_verified: false,
        created_at: now,
    }
}

/// What a publication does: the publisher step always takes effect as
/// `spec_register` says; a contract is added only when the lookup succeeded.
pub open spec fn publish_post(
    m0: RegistryModel,
    m: RegistryModel,
    req: PublishRequest,
    ledger: Result<String, LedgerError>,
    now: i64,
    r: Result<u128, RegistryError>,
) -> bool {
    let (m1, rp) = spec_register(m0, req.publisher_address, now);
    match rp {
        Err(e) => r == Err::<u128, RegistryError>(e) && m == m0,
        Ok(pid) => {
            &&& m.publishers == m1.publishers
            &&& m.versions == m0.versions
            &&& match ledger {
                Err(le) => r == Err::<u128, RegistryError>(spec_ledger_failure(le)) && m == m1,
                Ok(hash) => if m1.next_id == u128::MAX {
                    r == Err::<u128, RegistryError>(RegistryError::InternalError) && m == m1
                } else {
                    &&& r == Ok::<u128, RegistryError>(m1.next_id)
                    &&& m.next_id == m1.next_id + 1
                    &&& contract_added(m0.contracts, m.contracts, published_row(req, hash, pid, m1.next_id, now))
                },
            }
        },
    }
}

/// Filtering contracts keeps listing order.
pub proof fn lemma_filter_keeps_order(s: Seq<ContractRow>, pred: spec_fn(ContractRow) -> bool)
    requires
        newest_first(s),
    ensures
        newest_first(s.filter(pred)),
    decreases s.len(),
{
    reveal(Seq::filter);
    if s.len() > 0 {
        let d = s.drop_last();
        assert forall|i: int, j: int| 0 <= i < j < d.len() implies precedes(#[trigger] d[i], #[trigger] d[j]) by {
            assert(d[i] == s[i] && d[j] == s[j]);
        }
        lemma_filter_keeps_order(d, pred);
        let f = d.filter(pred);
        if pred(s.last()) {
            let g = f.push(s.last());
            assert forall|i: int, j: int| 0 <= i < j < g.len() implies precedes(#[trigger] g[i], #[trigger] g[j]) by {
                if j == f.len() {
                    assert(f.contains(f[i]));
                    d.lemma_filter_contains_rev(pred, f[i]);
                    let k = choose|k: int| 0 <= k < d.len() && d[k] == f[i];
                    assert(s[k] == f[i]);
                    assert(precedes(s[k], s[s.len() - 1]));
                } else {
                    assert(g[i] == f[i] && g[j] == f[j]);
                }
            }
        }
    }
}

/// Filtering versions keeps listing order.
pub proof fn lemma_version_filter_keeps_order(s: Seq<VersionRow>, pred: spec_fn(VersionRow) -> bool)
    requires
        versions_newest_first(s),
    ensures
        versions_newest_first(s.filter(pred)),
    decreases s.len(),
{
    reveal(Seq::filter);
    if s.len() > 0 {
        let d = s.drop_last();
        assert forall|i: int, j: int| 0 <= i < j < d.len() implies version_precedes(#[trigger] d[i], #[trigger] d[j]) by {
            assert(d[i] == s[i] && d[j] == s[j]);
        }
        lemma_version_filter_keeps_order(d, pred);
        let f = d.filter(pred);
        if pred(s.last()) {
            let g = f.push(s.last());
            assert forall|i: int, j: int| 0 <= i < j < g.len() implies version_precedes(#[trigger] g[i], #[trigger] g[j]) by {
                if j == f.len() {
                    assert(f.contains(f[i]));
                    d.lemma_filter_contains_rev(pred, f[i]);
                    let k = choose|k: int| 0 <= k < d.len() && d[k] == f[i];
                    assert(s[k] == f[i]);
                    assert(version_precedes(s[k], s[s.len() - 1]));
                } else {
                    assert(g[i] == f[i] && g[j] == f[j]);
                }
            }
        }
    }
}

/// A window of a sequence in listing order is in listing order.
pub proof fn lemma_window_keeps_order(s: Seq<ContractRow>, offset: int, size: int)
    requires
        newest_first(s),
        offset >= 0,
        size >= 0,
    ensures
        newest_first(page_of(s, offset, size)),
{
    let w = page_of(s, offset, size);
    let lo = if offset < s.len() { offset } else { s.len() as int };
    assert forall|i: int, j: int| 0 <= i < j < w.len() implies precedes(#[trigger] w[i], #[trigger] w[j]) by {
        assert(w[i] == s[lo + i] && w[j] == s[lo + j]);
    }
}

/// Registering one address twice, one call after the other, leaves exactly
/// one publisher with that address, and both calls return its identifier.
pub proof fn lemma_register_idempotent(m0: RegistryModel, addr: String, t1: i64, t2: i64)
    requires
        m0.wf(),
    ensures
        ({
            let (m1, r1) = spec_register(m0, addr, t1);
            let (m2, r2) = spec_register(m1, addr, t2);
            r1 is Ok ==> {
                &&& r2 == r1
                &&& m2 == m1
                &&& exactly_one_with(m2.publishers, addr@)
            }
        }),
{
    let (m1, r1) = spec_register(m0, addr, t1);
    if address_taken(m0.publishers, addr@) {
        let i = m0.publisher_index(addr@);
        assert forall|j: int| 0 <= j < m1.publishers.len() && #[trigger] m1.publishers[j].stellar_address@ == addr@ implies j == i by {
            if j < i {
                assert(m0.publishers[j].stellar_address@ != m0.publishers[i].stellar_address@);
            } else if i < j {
                assert(m0.publishers[i].stellar_address@ != m0.publishers[j].stellar_address@);
            }
        }
    } else if r1 is Ok {
        let n = m0.publishers.len() as int;
        assert(m1.publishers[n].stellar_address@ == addr@);
        assert(address_taken(m1.publishers, addr@));
        assert forall|j: int| 0 <= j < m1.publishers.len() && #[trigger] m1.publishers[j].stellar_address@ == addr@ implies j == n by {
            if j < n {
                assert(m1.publishers[j] == m0.publishers[j]);
            }
        }
        let k = m1.publisher_index(addr@);
        assert(k == n);
    }
}

/// A publication whose hash lookup fails adds no contract, and keeps the
/// publisher that its first step registered.
pub proof fn lemma_failed_lookup_keeps_publisher(
    m0: RegistryModel,
    m: RegistryModel,
    req: PublishRequest,
    failure: LedgerError,
    now: i64,
    r: Result<u128, RegistryError>,
)
    requires
        m0.wf(),
        publish_post(m0, m, req, Err(failure), now, r),
    ensures
        m.contracts == m0.contracts,
        r is Err,
        spec_register(m0, req.publisher_address, now).1 is Ok ==> address_taken(
            m.publishers,
            req.publisher_address@,
        ),
        m0.publishers.len() <= m.publishers.len(),
        forall|i: int| 0 <= i < m0.publishers.len() ==> #[trigger] m.publishers[i] == m0.publishers[i],
{
    let (m1, rp) = spec_register(m0, req.publisher_address, now);
    if rp is Ok && !address_taken(m0.publishers, req.publisher_address@) {
        assert(m.publishers[m0.publishers.len() as int].stellar_address@ == req.publisher_address@);
    }
}

} // verus!
