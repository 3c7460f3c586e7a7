//! The request shapes of the query API, and their defaults.

use vstd::prelude::*;

verus! {

/// One projected column of a view: a name and the extraction expression it
/// stands for.
pub struct ColumnDef {
    pub name: String,
    pub query: String,
}

/// A view's filter: a name and the row predicate it stands for.
pub struct FilterDef {
    pub name: String,
    pub query: String,
}

/// A request to create or replace a view.
pub struct ViewQuery {
    pub columns: Vec<ColumnDef>,
    pub filter: FilterDef,
}

/// A log listing or density request: a time range in microseconds, the view
/// to read through, and a listing offset.
pub struct LogQuery {
    pub start: i64,
    pub end: i64,
    pub table: String,
    pub offset: i64,
}

/// The listing offset used when a request names none.
pub fn default_offset() -> (r: i64)
    ensures
        r == 0,
{
    0
}

/// The filter predicate used when a request names none: every row matches.
pub fn default_filter() -> (r: String)
    ensures
        r@ == "true"@,
{
    String::from_str("true")
}

/// The view used when a request names none: the raw log table itself.
pub fn default_table() -> (r: String)
    ensures
        r@ == "logs"@,
{
    String::from_str("logs")
}

/// The health check's message.
pub fn health_message() -> (r: String)
    ensures
        r@ == "Log viewer utility"@,
{
    String::from_str("Log viewer utility")
}

} // verus!
