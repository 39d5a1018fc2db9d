use vstd::prelude::*;
use crate::error::RegistryError;

verus! {

/// Page size used when a request names none.
pub const DEFAULT_PAGE_SIZE: i64 = 20;

/// Largest page size that is ever served.
pub const MAX_PAGE_SIZE: i64 = 100;

/// Untrusted search parameters as they arrive with a request.
pub struct SearchFilter {
    pub query: Option<String>,
    pub verified_only: Option<bool>,
    pub category: Option<String>,
    pub page: Option<i64>,
    pub page_size: Option<i64>,
}

/// The page number served for a requested one: absent or below 1 means 1.
pub open spec fn spec_effective_page(requested: Option<i64>) -> int {
    match requested {
        Some(p) => if p < 1 { 1 } else { p as int },
        None => 1,
    }
}

/// The page size served for a requested one: 20 when absent, else clamped to [1, 100].
pub open spec fn spec_effective_page_size(requested: Option<i64>) -> int {
    match requested {
        Some(s) => if s < 1 { 1 } else if s > 100 { 100 } else { s as int },
        None => 20,
    }
}

/// Number of matching rows that precede the served page.
pub open spec fn spec_offset(page: int, page_size: int) -> int {
    (page - 1) * page_size
}

pub fn effective_page(requested: Option<i64>) -> (r: i64)
    ensures
        r == spec_effective_page(requested),
        r >= 1,
{
    match requested {
        Some(p) => if p < 1 { 1 } else { p },
        None => 1,
    }
}

pub fn effective_page_size(requested: Option<i64>) -> (r: i64)
    ensures
        r == spec_effective_page_size(requested),
        1 <= r <= MAX_PAGE_SIZE,
{
    match requested {
        Some(s) => if s < 1 { 1 } else if s > MAX_PAGE_SIZE { MAX_PAGE_SIZE } else { s },
        None => DEFAULT_PAGE_SIZE,
    }
}

/// A normalised, bounded search: every untrusted value is kept apart from
/// the command text and is handed to the store as a bound parameter.
pub struct SearchPlan {
    pub text_term: Option<String>,
    pub verified_only: bool,
    pub category: Option<String>,
    pub page: i64,
    pub page_size: i64,
    pub offset: i64,
}

impl SearchPlan {
    pub open spec fn wf(&self) -> bool {
        &&& self.page >= 1
        &&& 1 <= self.page_size <= 100
        &&& self.offset == spec_offset(self.page as int, self.page_size as int)
    }
}

/// The plan that a filter yields, when its offset fits the store's integer.
pub open spec fn plan_of(f: &SearchFilter, p: &SearchPlan) -> bool {
    &&& p.text_term == f.query
    &&& p.verified_only == (f.verified_only == Some(true))
    &&& p.category == f.category
    &&& p.page == spec_effective_page(f.page)
    &&& p.page_size == spec_effective_page_size(f.page_size)
    &&& p.offset == spec_offset(p.page as int, p.page_size as int)
}

/// Whether the offset of a filter's page fits in an `i64`.
pub open spec fn offset_fits(f: &SearchFilter) -> bool {
    spec_offset(spec_effective_page(f.page), spec_effective_page_size(f.page_size)) <= i64::MAX
}

/// Normalises untrusted parameters into a plan. The only rejection is a
/// page so far out that its offset does not fit the store's integer.
pub fn build_search_plan(filter: SearchFilter) -> (r: Result<SearchPlan, RegistryError>)
    ensures
        r is Ok <==> offset_fits(&filter),
        r matches Ok(p) ==> plan_of(&filter, &p) && p.wf(),
        r matches Err(e) ==> e == RegistryError::ValidationError,
{
    let page = effective_page(filter.page);
    let page_size = effective_page_size(filter.page_size);
    assert(0 <= (page as int - 1) * (page_size as int) <= (i64::MAX as int) * 100) by (nonlinear_arith)
        requires
            1 <= page,
            1 <= page_size <= 100,
    ;
    let wide: i128 = (page as i128 - 1) * (page_size as i128);
    if wide > i64::MAX as i128 {
        return Err(RegistryError::ValidationError);
    }
    let verified_only = match filter.verified_only {
        Some(v) => v,
        None => false,
    };
    Ok(SearchPlan {
        text_term: filter.query,
        verified_only,
        category: filter.category,
        page,
        page_size,
        offset: wide as i64,
    })
}

/// The filtering part of the command text. It depends only on which filters
/// are present, never on their values, which travel as parameters.
pub open spec fn where_text(has_text: bool, verified: bool, has_category: bool) -> Seq<char> {
    " WHERE 1=1"@
        + (if has_text {
        " AND (strpos(lower(name), lower($1)) > 0 OR strpos(lower(description), lower($1)) > 0)"@
    } else {
        Seq::empty()
    }) + (if verified {
        " AND is_verified = true"@
    } else {
        Seq::empty()
    }) + (if has_category {
        if has_text {
            " AND category = $2"@
        } else {
            " AND category = $1"@
        }
    } else {
        Seq::empty()
    })
}

/// The ordering and window of a page, with its two integers bound after the text parameters.
pub open spec fn window_text(n_text_params: int) -> Seq<char> {
    " ORDER BY created_at DESC, id DESC"@ + (if n_text_params == 0 {
        " LIMIT $1 OFFSET $2"@
    } else if n_text_params == 1 {
        " LIMIT $2 OFFSET $3"@
    } else {
        " LIMIT $3 OFFSET $4"@
    })
}

/// Number of text values that a plan binds: the search term, then the category.
pub open spec fn spec_n_text_params(has_text: bool, has_category: bool) -> int {
    (if has_text { 1int } else { 0int }) + (if has_category { 1int } else { 0int })
}

pub open spec fn spec_select_text(has_text: bool, verified: bool, has_category: bool) -> Seq<char> {
    "SELECT * FROM contracts"@ + where_text(has_text, verified, has_category) + window_text(
        spec_n_text_params(has_text, has_category),
    )
}

pub open spec fn spec_count_text(has_text: bool, verified: bool, has_category: bool) -> Seq<char> {
    "SELECT COUNT(*) FROM contracts"@ + where_text(has_text, verified, has_category)
}

/// The text values bound to a plan's command, in placeholder order.
pub open spec fn spec_text_params(p: &SearchPlan) -> Seq<Seq<char>> {
    (match p.text_term {
        Some(t) => seq![t@],
        None => Seq::empty(),
    }) + (match p.category {
        Some(c) => seq![c@],
        None => Seq::empty(),
    })
}

impl SearchPlan {
    fn append_where(&self, out: &mut String)
        ensures
            final(out)@ == old(out)@ + where_text(
                self.text_term is Some,
                self.verified_only,
                self.category is Some,
            ),
    {
        let ghost start = out@;
        out.append(" WHERE 1=1");
        if self.text_term.is_some() {
            out.append(
                " AND (strpos(lower(name), lower($1)) > 0 OR strpos(lower(description), lower($1)) > 0)",
            );
        }
        if self.verified_only {
            out.append(" AND is_verified = true");
        }
        if self.category.is_some() {
            if self.text_term.is_some() {
                out.append(" AND category = $2");
            } else {
                out.append(" AND category = $1");
            }
        }
        assert(out@ =~= start + where_text(
            self.text_term is Some,
            self.verified_only,
            self.category is Some,
        ));
    }

    /// The command that reads one page of matching contracts.
    pub fn select_sql(&self) -> (r: String)
        ensures
            r@ == spec_select_text(self.text_term is Some, self.verified_only, self.category is Some),
    {
        let mut out = String::from_str("SELECT * FROM contracts");
        self.append_where(&mut out);
        out.append(" ORDER BY created_at DESC, id DESC");
        let n = self.n_text_params();
        if n == 0 {
            out.append(" LIMIT $1 OFFSET $2");
        } else if n == 1 {
            out.append(" LIMIT $2 OFFSET $3");
        } else {
            out.append(" LIMIT $3 OFFSET $4");
        }
        assert(out@ =~= spec_select_text(
            self.text_term is Some,
            self.verified_only,
            self.category is Some,
        ));
        out
    }

    /// The command that counts every matching contract, under the same filter.
    pub fn count_sql(&self) -> (r: String)
        ensures
            r@ == spec_count_text(self.text_term is Some, self.verified_only, self.category is Some),
    {
        let mut out = String::from_str("SELECT COUNT(*) FROM contracts");
        self.append_where(&mut out);
        out
    }

    pub fn n_text_params(&self) -> (r: usize)
        ensures
            r == spec_n_text_params(self.text_term is Some, self.category is Some),
            r == spec_text_params(self).len(),
    {
        let mut n: usize = 0;
        if self.text_term.is_some() {
            n = n + 1;
        }
        if self.category.is_some() {
            n = n + 1;
        }
        n
    }

    /// The text values to bind, in placeholder order; the page size and the
    /// offset are bound after them.
    pub fn text_params(&self) -> (r: Vec<String>)
        ensures
            r@.map_values(|s: String| s@) == spec_text_params(self),
    {
        let mut params: Vec<String> = Vec::new();
        match &self.text_term {
            Some(t) => params.push(t.clone()),
            None => {},
        }
        match &self.category {
            Some(c) => params.push(c.clone()),
            None => {},
        }
        assert(params@.map_values(|s: String| s@) =~= spec_text_params(self));
        params
    }
}

/// One page of an ordered result set, with the number of rows that match in all.
pub struct PaginatedResult<T> {
    pub items: Vec<T>,
    pub total: u64,
    pub page: i64,
    pub page_size: i64,
}

impl<T> PaginatedResult<T> {
    pub open spec fn wf(&self) -> bool {
        &&& self.items@.len() <= self.page_size
        &&& self.items@.len() <= self.total
        &&& self.page >= 1
        &&& 1 <= self.page_size <= 100
    }

    /// Assembles a page from what the store returned for `plan`. A store
    /// answer that breaks the page's bounds is an internal error.
    pub fn from_store(items: Vec<T>, total: i64, plan: &SearchPlan) -> (r: Result<
        PaginatedResult<T>,
        RegistryError,
    >)
        requires
            plan.wf(),
        ensures
            r is Ok <==> (0 <= items@.len() <= total && items@.len() <= plan.page_size),
            r matches Ok(p) ==> p.wf() && p.items@ == items@ && p.total == total && p.page
                == plan.page && p.page_size == plan.page_size,
            r matches Err(e) ==> e == RegistryError::InternalError,
    {
        if total < 0 || items.len() as u64 > total as u64 || items.len() as u64 > plan.page_size as u64 {
            return Err(RegistryError::InternalError);
        }
        Ok(PaginatedResult { items, total: total as u64, page: plan.page, page_size: plan.page_size })
    }
}

} // verus!
