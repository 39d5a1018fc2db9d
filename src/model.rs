use vstd::prelude::*;
use vstd::string::*;
use crate::search::SearchPlan;

verus! {

/// A registered contract, as the store holds it.
pub struct ContractRow {
    pub id: u128,
    pub contract_id: String,
    pub wasm_hash: String,
    pub name: String,
    pub description: Option<String>,
    pub publisher_id: u128,
    pub network: String,
    pub category: Option<String>,
    pub tags: Vec<String>,
    pub is_verified: bool,
    /// Creation time, in seconds since the Unix epoch.
    pub created_at: i64,
}

/// A publisher, keyed by its unique ledger address.
pub struct PublisherRow {
    pub id: u128,
    pub stellar_address: String,
    pub username: Option<String>,
    pub email: Option<String>,
    pub github_url: Option<String>,
    pub website: Option<String>,
    pub created_at: i64,
}

/// One entry of a contract's version history.
pub struct VersionRow {
    pub id: u128,
    pub contract_id: u128,
    pub version: String,
    pub created_at: i64,
}

/// What `str::to_lowercase` makes of a sequence of characters.
pub uninterp spec fn lower_of(s: Seq<char>) -> Seq<char>;

/// Relies on `str::to_lowercase`: its result depends on the characters alone.
#[verifier::external_body]
fn lowercase(s: &str) -> (r: String)
    ensures
        r@ == lower_of(s@),
{
    s.to_lowercase()
}

/// Whether `needle` occurs as a contiguous run inside `hay`.
pub open spec fn contains_seq(hay: Seq<char>, needle: Seq<char>) -> bool {
    exists|i: int|
        0 <= i && i + needle.len() <= hay.len() && #[trigger] hay.subrange(i, i + needle.len())
            == needle
}

fn chars_of(s: &str) -> (r: Vec<char>)
    ensures
        r@ == s@,
{
    let n = s.unicode_len();
    let mut out: Vec<char> = Vec::new();
    let mut i: usize = 0;
    while i < n
        invariant
            n == s@.len(),
            i <= n,
            out@ == s@.subrange(0, i as int),
        decreases n - i,
    {
        out.push(s.get_char(i));
        i = i + 1;
        assert(out@ =~= s@.subrange(0, i as int));
    }
    assert(out@ =~= s@);
    out
}

fn occurs_at(hay: &Vec<char>, needle: &Vec<char>, at: usize) -> (r: bool)
    requires
        at + needle@.len() <= hay@.len() <= usize::MAX,
    ensures
        r == (hay@.subrange(at as int, at + needle@.len()) == needle@),
{
    let mut k: usize = 0;
    while k < needle.len()
        invariant
            at + needle@.len() <= hay@.len() <= usize::MAX,
            k <= needle@.len(),
            forall|m: int| 0 <= m < k ==> hay@[at + m] == needle@[m],
        decreases needle@.len() - k,
    {
        if hay[at + k] != needle[k] {
            assert(hay@.subrange(at as int, at + needle@.len())[k as int] != needle@[k as int]);
            return false;
        }
        k = k + 1;
    }
    assert(hay@.subrange(at as int, at + needle@.len()) =~= needle@);
    true
}

/// Whether `needle` occurs inside `hay`.
pub fn contains_text(hay: &str, needle: &str) -> (r: bool)
    ensures
        r == contains_seq(hay@, needle@),
{
    let h = chars_of(hay);
    let n = chars_of(needle);
    if n.len() > h.len() {
        return false;
    }
    if n.len() == 0 {
        assert(hay@.subrange(0, 0int + needle@.len()) =~= needle@);
        return true;
    }
    let last = h.len() - n.len();
    let mut at: usize = 0;
    while at <= last
        invariant
            last + n@.len() == h@.len() <= usize::MAX,
            n@.len() >= 1,
            h@ == hay@,
            n@ == needle@,
            forall|j: int| 0 <= j < at ==> #[trigger] h@.subrange(j, j + n@.len()) != n@,
        decreases last + 1 - at,
    {
        if occurs_at(&h, &n, at) {
            return true;
        }
        at = at + 1;
    }
    assert forall|j: int| 0 <= j && j + needle@.len() <= hay@.len() implies #[trigger] hay@.subrange(
        j,
        j + needle@.len(),
    ) != needle@ by {}
    false
}

/// Case-insensitive containment: both sides are lowered first.
pub open spec fn contains_folded(hay: Seq<char>, term: Seq<char>) -> bool {
    contains_seq(lower_of(hay), lower_of(term))
}

/// Whether a contract's name or description contains a search term, ignoring case.
pub open spec fn text_matches(term: Seq<char>, row: &ContractRow) -> bool {
    contains_folded(row.name@, term) || (row.description matches Some(d) && contains_folded(
        d@,
        term,
    ))
}

/// Whether a contract satisfies every filter of a plan.
pub open spec fn row_matches(p: &SearchPlan, row: &ContractRow) -> bool {
    &&& (p.text_term matches Some(t) ==> text_matches(t@, row))
    &&& (p.verified_only ==> row.is_verified)
    &&& (p.category matches Some(c) ==> (row.category matches Some(rc) && rc@ == c@))
}

/// Case-insensitive containment of `term` in `hay`.
pub fn contains_ignoring_case(hay: &str, term: &str) -> (r: bool)
    ensures
        r == contains_folded(hay@, term@),
{
    let h = lowercase(hay);
    let t = lowercase(term);
    matches_folded(h.as_str(), t.as_str())
}

/// Case-insensitive containment on text that is already lowered.
pub fn matches_folded(lowered_hay: &str, lowered_term: &str) -> (r: bool)
    ensures
        r == contains_seq(lowered_hay@, lowered_term@),
{
    contains_text(lowered_hay, lowered_term)
}

impl ContractRow {
    /// Whether this contract satisfies every filter of `plan`.
    pub fn matches(&self, plan: &SearchPlan) -> (r: bool)
        ensures
            r == row_matches(plan, self),
    {
        match &plan.text_term {
            Some(t) => {
                let in_name = contains_ignoring_case(self.name.as_str(), t.as_str());
                let in_desc = match &self.description {
                    Some(d) => contains_ignoring_case(d.as_str(), t.as_str()),
                    None => false,
                };
                if !in_name && !in_desc {
                    return false;
                }
            },
            None => {},
        }
        if plan.verified_only && !self.is_verified {
            return false;
        }
        match &plan.category {
            Some(c) => match &self.category {
                Some(rc) => *rc == *c,
                None => false,
            },
            None => true,
        }
    }
}

} // verus!
