//! The query engine's entry points: validating a view request and planning
//! the statements that create a view, and planning a density query.
//!
//! View and column names become identifiers and quoted literals in query
//! text; they are validated here, at write time, so that read-time query
//! assembly never sees a hostile name.  Predicate and extraction
//! expressions stay trusted server-side configuration.

use vstd::prelude::*;

use crate::density::bucket_width;
use crate::density::pick_tier;
use crate::density::tier_for;
use crate::density::width_for;
use crate::density::Tier;
use crate::json::core_char;
use crate::model::ViewQuery;
use crate::sqlgen::delete_assoc_sql;
use crate::sqlgen::drop_views_sql;
use crate::sqlgen::create_min_view_sql;
use crate::sqlgen::create_min_view_text;
use crate::sqlgen::create_sec_view_sql;
use crate::sqlgen::create_sec_view_text;
use crate::sqlgen::insert_assoc_sql;
use crate::sqlgen::insert_assoc_text;
use crate::sqlgen::insert_cols_sql;
use crate::sqlgen::insert_cols_text;
use crate::sqlgen::policy_min_sql;
use crate::sqlgen::policy_min_text;
use crate::sqlgen::policy_sec_sql;
use crate::sqlgen::policy_sec_text;
use crate::sqlgen::upsert_filter_sql;
use crate::sqlgen::upsert_filter_text;
use crate::sqlgen::views_of;

verus! {

/// Why a view request was refused; every variant is the caller's mistake,
/// not the store's.
#[derive(PartialEq, Eq, Structural, Clone, Copy, Debug)]
pub enum ViewError {
    /// The request named a different number of columns and expressions.
    MismatchedColumns,
    /// The request named no column at all.
    EmptyColumns,
    /// A view or column name held a character that an identifier may not.
    InvalidName,
}

impl ViewError {
    /// The caller-visible text of the error.
    pub fn message(&self) -> (r: String)
        ensures
            *self == ViewError::MismatchedColumns ==> r@
                == "column names and column queries differ in number"@,
            *self == ViewError::EmptyColumns ==> r@ == "a view needs at least one column"@,
            *self == ViewError::InvalidName ==> r@
                == "view and column names may hold only letters, digits, - and _"@,
    {
        match self {
            ViewError::MismatchedColumns => String::from_str(
                "column names and column queries differ in number",
            ),
            ViewError::EmptyColumns => String::from_str("a view needs at least one column"),
            ViewError::InvalidName => String::from_str(
                "view and column names may hold only letters, digits, - and _",
            ),
        }
    }
}

/// A character an identifier may hold: alphanumeric, `-` or `_`.
pub open spec fn ident_char(c: char) -> bool {
    core_char(c) || c == '_' || c == '-'
}

/// A usable view or column name: non-empty, of identifier characters only.
pub open spec fn valid_ident(s: Seq<char>) -> bool {
    s.len() > 0 && forall|i: int| 0 <= i < s.len() ==> ident_char(#[trigger] s[i])
}

/// Checks a name at the security boundary: only such names reach query
/// text.
pub fn check_ident(s: &str) -> (r: bool)
    ensures
        r == valid_ident(s@),
{
    let n = s.unicode_len();
    if n == 0 {
        return false;
    }
    let mut i: usize = 0;
    while i < n
        invariant
            n == s@.len(),
            i <= n,
            forall|j: int| 0 <= j < i ==> ident_char(#[trigger] s@[j]),
        decreases n - i,
    {
        let c = s.get_char(i);
        let u = c as u32;
        let ok = (65 <= u && u <= 90) || (97 <= u && u <= 122) || (48 <= u && u <= 57) || u == 95
            || u == 45;
        if !ok {
            assert(!ident_char(s@[i as int]));
            return false;
        }
        i = i + 1;
    }
    true
}

/// Whether a view request is acceptable: matched, non-empty columns and
/// clean names throughout.
pub open spec fn valid_view_request(
    names: Seq<String>,
    queries: Seq<String>,
    filter_name: Seq<char>,
) -> bool {
    &&& names.len() == queries.len()
    &&& names.len() >= 1
    &&& valid_ident(filter_name)
    &&& forall|i: int| 0 <= i < names.len() ==> valid_ident((#[trigger] names[i])@)
}

/// The statements of the registry half of a view creation, in execution
/// order; they run inside one transaction so the registry never shows a
/// half-applied view.
pub struct UpsertPlan {
    /// Upserts every named column's expression.
    pub insert_cols: String,
    /// Clears the filter's associations; the filter name is its `$1`.
    pub delete_assoc: String,
    /// Inserts the fresh associations in the given order.
    pub insert_assoc: String,
    /// Upserts the filter's predicate.
    pub upsert_filter: String,
}

/// Validates a view request and plans the registry statements.
pub fn upsert_columns_and_filters(
    column_names: &Vec<String>,
    columns_queries: &Vec<String>,
    filter_name: &String,
    filter_query: &String,
) -> (r: Result<UpsertPlan, ViewError>)
    ensures
        r is Ok <==> valid_view_request(column_names@, columns_queries@, filter_name@),
        column_names@.len() != columns_queries@.len() ==> r == Err::<UpsertPlan, ViewError>(
            ViewError::MismatchedColumns,
        ),
        column_names@.len() == columns_queries@.len() && column_names@.len() == 0 ==> r == Err::<
            UpsertPlan,
            ViewError,
        >(ViewError::EmptyColumns),
        column_names@.len() == columns_queries@.len() && column_names@.len() >= 1 && !(valid_ident(
            filter_name@,
        ) && (forall|i: int| 0 <= i < column_names@.len() ==> valid_ident((#[trigger] column_names@[i])@)))
            ==> r == Err::<UpsertPlan, ViewError>(ViewError::InvalidName),
        r matches Ok(plan) ==> {
            &&& plan.insert_cols@ == insert_cols_text(
                views_of(column_names@),
                views_of(columns_queries@),
            )
            &&& plan.delete_assoc@ == "DELETE FROM column_filter WHERE filter_name = $1"@
            &&& plan.insert_assoc@ == insert_assoc_text(views_of(column_names@), filter_name@)
            &&& plan.upsert_filter@ == upsert_filter_text(filter_name@, filter_query@)
        },
{
    if column_names.len() != columns_queries.len() {
        return Err(ViewError::MismatchedColumns);
    }
    if column_names.len() == 0 {
        return Err(ViewError::EmptyColumns);
    }
    if !check_ident(filter_name.as_str()) {
        return Err(ViewError::InvalidName);
    }
    let mut i: usize = 0;
    while i < column_names.len()
        invariant
            i <= column_names@.len(),
            column_names@.len() == columns_queries@.len(),
            column_names@.len() >= 1,
            valid_ident(filter_name@),
            forall|j: int| 0 <= j < i ==> valid_ident((#[trigger] column_names@[j])@),
        decreases column_names@.len() - i,
    {
        if !check_ident(column_names[i].as_str()) {
            assert(!valid_ident(column_names@[i as int]@));
            return Err(ViewError::InvalidName);
        }
        i = i + 1;
    }
    Ok(
        UpsertPlan {
            insert_cols: insert_cols_sql(column_names, columns_queries),
            delete_assoc: delete_assoc_sql(),
            insert_assoc: insert_assoc_sql(column_names, filter_name.as_str()),
            upsert_filter: upsert_filter_sql(filter_name.as_str(), filter_query.as_str()),
        },
    )
}

/// Every statement of a view creation, in execution order: the registry
/// transaction, then the rebuild of the two aggregates and their refresh
/// schedules.
pub struct CreateViewPlan {
    /// The registry half, run first as one transaction.
    pub upsert: UpsertPlan,
    /// Drops both aggregates of the view, if they exist.
    pub drop_views: String,
    /// Recreates the one-second aggregate from the view's predicate.
    pub create_sec: String,
    /// Recreates the one-minute aggregate from the view's predicate.
    pub create_min: String,
    /// Schedules the one-minute refresh, every ten minutes.
    pub policy_min: String,
    /// Schedules the one-second refresh, every ten seconds.
    pub policy_sec: String,
}

/// Validates a view request and plans every statement of its creation.
pub fn create_view(
    columns_queries: Vec<String>,
    column_names: Vec<String>,
    filter_name: String,
    filter_query: String,
) -> (r: Result<CreateViewPlan, ViewError>)
    ensures
        r is Ok <==> valid_view_request(column_names@, columns_queries@, filter_name@),
        r matches Err(e) ==> Err::<UpsertPlan, ViewError>(e) == upsert_error(
            column_names@,
            columns_queries@,
            filter_name@,
        ),
        r matches Ok(plan) ==> {
            &&& plan.upsert.insert_cols@ == insert_cols_text(
                views_of(column_names@),
                views_of(columns_queries@),
            )
            &&& plan.upsert.delete_assoc@ == "DELETE FROM column_filter WHERE filter_name = $1"@
            &&& plan.upsert.insert_assoc@ == insert_assoc_text(
                views_of(column_names@),
                filter_name@,
            )
            &&& plan.upsert.upsert_filter@ == upsert_filter_text(filter_name@, filter_query@)
            &&& plan.drop_views@ == crate::sqlgen::drop_views_text(filter_name@)
            &&& plan.create_sec@ == create_sec_view_text(filter_name@, filter_query@)
            &&& plan.create_min@ == create_min_view_text(filter_name@, filter_query@)
            &&& plan.policy_min@ == policy_min_text(filter_name@)
            &&& plan.policy_sec@ == policy_sec_text(filter_name@)
        },
{
    let upsert = match upsert_columns_and_filters(
        &column_names,
        &columns_queries,
        &filter_name,
        &filter_query,
    ) {
        Ok(plan) => plan,
        Err(e) => {
            return Err(e);
        },
    };
    Ok(
        CreateViewPlan {
            upsert,
            drop_views: drop_views_sql(filter_name.as_str()),
            create_sec: create_sec_view_sql(filter_name.as_str(), filter_query.as_str()),
            create_min: create_min_view_sql(filter_name.as_str(), filter_query.as_str()),
            policy_min: policy_min_sql(filter_name.as_str()),
            policy_sec: policy_sec_sql(filter_name.as_str()),
        },
    )
}

/// The error a view request draws, when it draws one.
pub open spec fn upsert_error(
    names: Seq<String>,
    queries: Seq<String>,
    filter_name: Seq<char>,
) -> Result<UpsertPlan, ViewError> {
    if names.len() != queries.len() {
        Err(ViewError::MismatchedColumns)
    } else if names.len() == 0 {
        Err(ViewError::EmptyColumns)
    } else {
        Err(ViewError::InvalidName)
    }
}

/// A view request's parts, ready for `create_view`: the columns unzipped
/// into names and expressions, and an unnamed filter defaulted to the raw
/// log table so that "no view" degrades to querying all logs.
pub struct ViewRequest {
    pub column_names: Vec<String>,
    pub column_queries: Vec<String>,
    pub filter_name: String,
    pub filter_query: String,
}

/// Unzips a view request and applies the filter-name default.
pub fn view_request_parts(q: ViewQuery) -> (r: ViewRequest)
    ensures
        r.column_names@.len() == q.columns@.len(),
        r.column_queries@.len() == q.columns@.len(),
        forall|i: int|
            0 <= i < q.columns@.len() ==> (#[trigger] r.column_names@[i])@ == q.columns@[i].name@
                && r.column_queries@[i]@ == q.columns@[i].query@,
        q.filter.name@.len() == 0 ==> r.filter_name@ == "logs"@,
        q.filter.name@.len() > 0 ==> r.filter_name@ == q.filter.name@,
        r.filter_query@ == q.filter.query@,
{
    let mut names: Vec<String> = Vec::new();
    let mut queries: Vec<String> = Vec::new();
    let mut i: usize = 0;
    while i < q.columns.len()
        invariant
            i <= q.columns@.len(),
            names@.len() == i,
            queries@.len() == i,
            forall|j: int|
                0 <= j < i ==> (#[trigger] names@[j])@ == q.columns@[j].name@ && queries@[j]@
                    == q.columns@[j].query@,
        decreases q.columns@.len() - i,
    {
        names.push(q.columns[i].name.clone());
        queries.push(q.columns[i].query.clone());
        proof {
            assert(names@[i as int]@ == q.columns@[i as int].name@);
            assert(queries@[i as int]@ == q.columns@[i as int].query@);
        }
        i = i + 1;
    }
    let filter_name = if q.filter.name.as_str().is_empty() {
        crate::model::default_table()
    } else {
        q.filter.name
    };
    ViewRequest { column_names: names, column_queries: queries, filter_name, filter_query: q.filter.query }
}

/// A density query's plan: the tier its span selects and the bucket width
/// it scans with.
pub struct DensityPlan {
    pub tier: Tier,
    pub width: i64,
}

/// The span's whole milliseconds, rounded toward zero, as the elapsed-time
/// arithmetic of the calendar library rounds.
pub open spec fn span_millis(span_micros: int) -> int {
    if span_micros >= 0 {
        span_micros / 1000
    } else {
        -((-span_micros) / 1000)
    }
}

/// Plans a density query from its time range.
pub fn density_plan(start: i64, end: i64) -> (r: DensityPlan)
    requires
        i64::MIN <= end - start <= i64::MAX,
    ensures
        r.tier == tier_for(span_millis(end - start)),
        r.width == width_for(end - start),
        r.width >= crate::density::MIN_BUCKET_MICROS,
{
    let span = end - start;
    let millis: i64 = if span >= 0 {
        ((span as u64) / 1000) as i64
    } else {
        let mag: u64 = ((-(span + 1)) as u64) + 1;
        let md = mag / 1000;
        proof {
            assert(mag as int <= 0x8000000000000000);
            assert(md as int <= 0x8000000000000000int / 1000) by {
                vstd::arithmetic::div_mod::lemma_div_is_ordered(
                    mag as int,
                    0x8000000000000000,
                    1000,
                );
            }
            assert(0x8000000000000000int / 1000 <= i64::MAX as int) by (nonlinear_arith);
        }
        -(md as i64)
    };
    DensityPlan { tier: pick_tier(millis), width: bucket_width(span) }
}

} // verus!
