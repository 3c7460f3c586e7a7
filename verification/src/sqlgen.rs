//! The query text the engine sends to the store, assembled exactly.
//!
//! Quoted names and predicate expressions are caller-controlled only at
//! view-creation time; quoted literal values have their quotes doubled.
//! Timestamps are interpolated as rendered literals; every statement's
//! exact text is pinned by its contract.

use vstd::prelude::*;

use crate::density::Tier;
use crate::numfmt::dec_str;
use crate::numfmt::int_str;
use crate::numfmt::i64_string;
use crate::numfmt::u64_string;
use crate::paging::PAGE_SIZE;
use crate::timefmt::render_timestamp;
use crate::timefmt::renderable_micros;
use crate::timefmt::timestamp_text;

verus! {

/// `q` with every single quote doubled: the escaping for a quoted literal.
pub open spec fn escaped(q: Seq<char>) -> Seq<char>
    decreases q.len(),
{
    if q.len() == 0 {
        Seq::empty()
    } else {
        escaped(q.drop_last()) + (if q.last() == '\'' {
            seq!['\'', '\'']
        } else {
            seq![q.last()]
        })
    }
}

/// The views of a sequence of strings, in order.
pub open spec fn views_of(s: Seq<String>) -> Seq<Seq<char>> {
    Seq::new(s.len(), |i: int| s[i]@)
}

/// Doubles every single quote of `s`.
pub fn escape_quotes(s: &str) -> (r: String)
    ensures
        r@ == escaped(s@),
{
    let n = s.unicode_len();
    let mut out = String::new();
    let mut i: usize = 0;
    while i < n
        invariant
            n == s@.len(),
            i <= n,
            out@ == escaped(s@.subrange(0, i as int)),
        decreases n - i,
    {
        let c = s.get_char(i);
        if c == '\'' {
            proof {
                reveal_strlit("''");
            }
            out.append("''");
        } else {
            out.append(s.substring_char(i, i + 1));
        }
        proof {
            let pre = s@.subrange(0, i as int);
            let post = s@.subrange(0, (i + 1) as int);
            assert(post.drop_last() =~= pre);
            assert(post.last() == s@[i as int]);
            assert(s@.subrange(i as int, (i + 1) as int) =~= seq![s@[i as int]]);
        }
        i = i + 1;
    }
    proof {
        assert(s@.subrange(0, n as int) =~= s@);
    }
    out
}

/// One `('name','query')` item of the column upsert, quotes of the query
/// doubled.
pub open spec fn col_value_item(n: Seq<char>, q: Seq<char>) -> Seq<char> {
    "('"@ + n + "','"@ + escaped(q) + "')"@
}

/// The comma-joined column upsert items.
pub open spec fn col_values_text(names: Seq<Seq<char>>, queries: Seq<Seq<char>>) -> Seq<char>
    decreases names.len(),
{
    if names.len() == 0 {
        Seq::empty()
    } else if names.len() == 1 {
        col_value_item(names[0], queries[0])
    } else {
        col_values_text(names.drop_last(), queries.drop_last()) + ","@ + col_value_item(
            names.last(),
            queries.last(),
        )
    }
}

/// The statement that upserts every named column's expression.
pub open spec fn insert_cols_text(names: Seq<Seq<char>>, queries: Seq<Seq<char>>) -> Seq<char> {
    "INSERT INTO cols (name, query) VALUES "@ + col_values_text(names, queries)
        + " ON CONFLICT (name) DO UPDATE SET query = EXCLUDED.query"@
}

/// Builds the column upsert statement.
pub fn insert_cols_sql(names: &Vec<String>, queries: &Vec<String>) -> (r: String)
    requires
        names@.len() == queries@.len(),
        names@.len() >= 1,
    ensures
        r@ == insert_cols_text(views_of(names@), views_of(queries@)),
{
    let mut out = String::from_str("INSERT INTO cols (name, query) VALUES ");
    let mut i: usize = 0;
    while i < names.len()
        invariant
            names@.len() == queries@.len(),
            i <= names@.len(),
            out@ == "INSERT INTO cols (name, query) VALUES "@ + col_values_text(
                views_of(names@).subrange(0, i as int),
                views_of(queries@).subrange(0, i as int),
            ),
        decreases names@.len() - i,
    {
        if i > 0 {
            out.append(",");
        }
        out.append("('");
        out.append(names[i].as_str());
        out.append("','");
        let esc = escape_quotes(queries[i].as_str());
        out.append(esc.as_str());
        out.append("')");
        proof {
            let nv = views_of(names@);
            let qv = views_of(queries@);
            let npost = nv.subrange(0, (i + 1) as int);
            let qpost = qv.subrange(0, (i + 1) as int);
            assert(npost.drop_last() =~= nv.subrange(0, i as int));
            assert(qpost.drop_last() =~= qv.subrange(0, i as int));
            assert(npost.last() == names@[i as int]@);
            assert(qpost.last() == queries@[i as int]@);
        }
        i = i + 1;
    }
    proof {
        assert(views_of(names@).subrange(0, names@.len() as int) =~= views_of(names@));
        assert(views_of(queries@).subrange(0, queries@.len() as int) =~= views_of(queries@));
    }
    out.append(" ON CONFLICT (name) DO UPDATE SET query = EXCLUDED.query");
    out
}

/// The parameterized statement that clears a filter's associations; the
/// filter name travels as the statement's one parameter.
pub fn delete_assoc_sql() -> (r: String)
    ensures
        r@ == "DELETE FROM column_filter WHERE filter_name = $1"@,
{
    String::from_str("DELETE FROM column_filter WHERE filter_name = $1")
}

/// One `('column', 'filter', position)` item of the association insert.
pub open spec fn assoc_item(n: Seq<char>, f: Seq<char>, i: int) -> Seq<char> {
    "('"@ + n + "', '"@ + f + "', "@ + dec_str(i as nat) + ")"@
}

/// The comma-joined association items of the first `upto` columns.
pub open spec fn assoc_values_text(names: Seq<Seq<char>>, f: Seq<char>, upto: int) -> Seq<char>
    decreases upto,
{
    if upto <= 0 {
        Seq::empty()
    } else if upto == 1 {
        assoc_item(names[0], f, 0)
    } else {
        assoc_values_text(names, f, upto - 1) + ","@ + assoc_item(names[upto - 1], f, upto - 1)
    }
}

/// The statement that inserts a filter's fresh column associations.
pub open spec fn insert_assoc_text(names: Seq<Seq<char>>, f: Seq<char>) -> Seq<char> {
    "INSERT INTO column_filter (column_name, filter_name, idx) VALUES "@ + assoc_values_text(
        names,
        f,
        names.len() as int,
    )
}

/// Builds the association insert statement.
pub fn insert_assoc_sql(names: &Vec<String>, filter_name: &str) -> (r: String)
    requires
        names@.len() >= 1,
    ensures
        r@ == insert_assoc_text(views_of(names@), filter_name@),
{
    let mut out = String::from_str("INSERT INTO column_filter (column_name, filter_name, idx) VALUES ");
    let mut i: usize = 0;
    while i < names.len()
        invariant
            i <= names@.len(),
            out@ == "INSERT INTO column_filter (column_name, filter_name, idx) VALUES "@
                + assoc_values_text(views_of(names@), filter_name@, i as int),
        decreases names@.len() - i,
    {
        if i > 0 {
            out.append(",");
        }
        out.append("('");
        out.append(names[i].as_str());
        out.append("', '");
        out.append(filter_name);
        out.append("', ");
        let num = u64_string(i as u64);
        out.append(num.as_str());
        out.append(")");
        i = i + 1;
    }
    out
}

/// The statement that upserts a filter's predicate, quotes doubled.
pub open spec fn upsert_filter_text(f: Seq<char>, q: Seq<char>) -> Seq<char> {
    "INSERT INTO filters (name, query) VALUES ('"@ + f + "', '"@ + escaped(q)
        + "') ON CONFLICT (name) DO UPDATE SET query = EXCLUDED.query"@
}

/// Builds the filter upsert statement.
pub fn upsert_filter_sql(filter_name: &str, filter_query: &str) -> (r: String)
    ensures
        r@ == upsert_filter_text(filter_name@, filter_query@),
{
    let mut out = String::from_str("INSERT INTO filters (name, query) VALUES ('");
    out.append(filter_name);
    out.append("', '");
    let esc = escape_quotes(filter_query);
    out.append(esc.as_str());
    out.append("') ON CONFLICT (name) DO UPDATE SET query = EXCLUDED.query");
    out
}

/// The statement that drops a view's two aggregates.
pub open spec fn drop_views_text(f: Seq<char>) -> Seq<char> {
    "DROP MATERIALIZED VIEW IF EXISTS "@ + f + "_sec_count; DROP MATERIALIZED VIEW IF EXISTS "@ + f
        + "_min_count; "@
}

/// Builds the aggregate drop statement.
pub fn drop_views_sql(filter_name: &str) -> (r: String)
    ensures
        r@ == drop_views_text(filter_name@),
{
    let mut out = String::from_str("DROP MATERIALIZED VIEW IF EXISTS ");
    out.append(filter_name);
    out.append("_sec_count; DROP MATERIALIZED VIEW IF EXISTS ");
    out.append(filter_name);
    out.append("_min_count; ");
    out
}

/// The statement that creates a view's one-second aggregate.
pub open spec fn create_sec_view_text(f: Seq<char>, q: Seq<char>) -> Seq<char> {
    "CREATE MATERIALIZED VIEW "@ + f
        + "_sec_count (time_bucket, count) WITH (timescaledb.continuous) AS SELECT time_bucket('1s', time), COUNT(*) from logs where "@
        + q + " GROUP BY time_bucket('1s', time)"@
}

/// Builds the one-second aggregate creation statement; the filter predicate
/// is trusted server-side configuration and goes in unquoted.
pub fn create_sec_view_sql(filter_name: &str, filter_query: &str) -> (r: String)
    ensures
        r@ == create_sec_view_text(filter_name@, filter_query@),
{
    let mut out = String::from_str("CREATE MATERIALIZED VIEW ");
    out.append(filter_name);
    out.append(
        "_sec_count (time_bucket, count) WITH (timescaledb.continuous) AS SELECT time_bucket('1s', time), COUNT(*) from logs where ",
    );
    out.append(filter_query);
    out.append(" GROUP BY time_bucket('1s', time)");
    out
}

/// The statement that creates a view's one-minute aggregate.
pub open spec fn create_min_view_text(f: Seq<char>, q: Seq<char>) -> Seq<char> {
    "CREATE MATERIALIZED VIEW "@ + f
        + "_min_count (time_bucket, count) WITH (timescaledb.continuous) AS SELECT time_bucket('1 minute', time), COUNT(*) from logs where "@
        + q + " GROUP BY time_bucket('1 minute', time)"@
}

/// Builds the one-minute aggregate creation statement.
pub fn create_min_view_sql(filter_name: &str, filter_query: &str) -> (r: String)
    ensures
        r@ == create_min_view_text(filter_name@, filter_query@),
{
    let mut out = String::from_str("CREATE MATERIALIZED VIEW ");
    out.append(filter_name);
    out.append(
        "_min_count (time_bucket, count) WITH (timescaledb.continuous) AS SELECT time_bucket('1 minute', time), COUNT(*) from logs where ",
    );
    out.append(filter_query);
    out.append(" GROUP BY time_bucket('1 minute', time)");
    out
}

/// The statement that schedules the one-second aggregate's refresh, every
/// ten seconds.
pub open spec fn policy_sec_text(f: Seq<char>) -> Seq<char> {
    "SELECT add_continuous_aggregate_policy('"@ + f
        + "_sec_count', start_offset => null, end_offset => null, schedule_interval => INTERVAL '10 seconds');"@
}

/// Builds the one-second refresh policy statement.
pub fn policy_sec_sql(filter_name: &str) -> (r: String)
    ensures
        r@ == policy_sec_text(filter_name@),
{
    let mut out = String::from_str("SELECT add_continuous_aggregate_policy('");
    out.append(filter_name);
    out.append(
        "_sec_count', start_offset => null, end_offset => null, schedule_interval => INTERVAL '10 seconds');",
    );
    out
}

/// The statement that schedules the one-minute aggregate's refresh, every
/// ten minutes.
pub open spec fn policy_min_text(f: Seq<char>) -> Seq<char> {
    "SELECT add_continuous_aggregate_policy('"@ + f
        + "_min_count', start_offset => null, end_offset => null, schedule_interval => INTERVAL '10 minute');"@
}

/// Builds the one-minute refresh policy statement.
pub fn policy_min_sql(filter_name: &str) -> (r: String)
    ensures
        r@ == policy_min_text(filter_name@),
{
    let mut out = String::from_str("SELECT add_continuous_aggregate_policy('");
    out.append(filter_name);
    out.append(
        "_min_count', start_offset => null, end_offset => null, schedule_interval => INTERVAL '10 minute');",
    );
    out
}

/// The parameterized statement that resolves a view: its column count, its
/// predicate, and its column expressions in stored order; the view name
/// travels as the statement's one parameter.
pub fn view_meta_sql() -> (r: String)
    ensures
        r@
            == "SELECT COUNT(*), filters.query, array_agg(cols.query ORDER BY idx) from column_filter JOIN filters ON filters.name = column_filter.filter_name JOIN cols ON cols.name = column_filter.column_name WHERE filters.name = $1 GROUP BY filters.name, filters.query"@,
{
    String::from_str(
        "SELECT COUNT(*), filters.query, array_agg(cols.query ORDER BY idx) from column_filter JOIN filters ON filters.name = column_filter.filter_name JOIN cols ON cols.name = column_filter.column_name WHERE filters.name = $1 GROUP BY filters.name, filters.query",
    )
}

/// The parameterized statement that lists every view with its column names
/// in stored order.
pub fn list_views_sql() -> (r: String)
    ensures
        r@
            == "SELECT filters.name, array_agg(cols.name ORDER BY idx) from filters JOIN column_filter ON filters.name = column_filter.filter_name JOIN cols ON cols.name = column_filter.column_name GROUP BY filters.name;"@,
{
    String::from_str(
        "SELECT filters.name, array_agg(cols.name ORDER BY idx) from filters JOIN column_filter ON filters.name = column_filter.filter_name JOIN cols ON cols.name = column_filter.column_name GROUP BY filters.name;",
    )
}

/// The comma-joined column expressions of a listing's projection.
pub open spec fn queries_join(qs: Seq<Seq<char>>) -> Seq<char>
    decreases qs.len(),
{
    if qs.len() == 0 {
        Seq::empty()
    } else if qs.len() == 1 {
        qs[0]
    } else {
        queries_join(qs.drop_last()) + ","@ + qs.last()
    }
}

/// The text of a log listing: projection, predicate, time range, and one
/// page at the given offset.
pub open spec fn logs_select_text(
    qs: Seq<Seq<char>>,
    filter: Seq<char>,
    start: int,
    end: int,
    offset: int,
) -> Seq<char> {
    "SELECT time, level, "@ + queries_join(qs) + " from logs WHERE "@ + filter + " AND time >= '"@
        + timestamp_text(start) + "'::TIMESTAMP AND time <= '"@ + timestamp_text(end)
        + "'::TIMESTAMP LIMIT 40 OFFSET "@ + int_str(offset)
}

/// Builds the log listing statement; nothing is returned when a timestamp
/// lies outside the renderable range.
pub fn logs_select_sql(
    column_queries: &Vec<String>,
    filter_query: &str,
    start: i64,
    end: i64,
    offset: i64,
) -> (r: Option<String>)
    ensures
        r is Some ==> r.unwrap()@ == logs_select_text(
            views_of(column_queries@),
            filter_query@,
            start as int,
            end as int,
            offset as int,
        ),
        renderable_micros(start as int) && renderable_micros(end as int) ==> r is Some,
{
    let start_text = match render_timestamp(start) {
        Some(t) => t,
        None => {
            return None;
        },
    };
    let end_text = match render_timestamp(end) {
        Some(t) => t,
        None => {
            return None;
        },
    };
    let mut out = String::from_str("SELECT time, level, ");
    let mut i: usize = 0;
    while i < column_queries.len()
        invariant
            i <= column_queries@.len(),
            out@ == "SELECT time, level, "@ + queries_join(
                views_of(column_queries@).subrange(0, i as int),
            ),
        decreases column_queries@.len() - i,
    {
        if i > 0 {
            out.append(",");
        }
        out.append(column_queries[i].as_str());
        proof {
            let qv = views_of(column_queries@);
            let post = qv.subrange(0, (i + 1) as int);
            assert(post.drop_last() =~= qv.subrange(0, i as int));
            assert(post.last() == column_queries@[i as int]@);
        }
        i = i + 1;
    }
    proof {
        assert(views_of(column_queries@).subrange(0, column_queries@.len() as int) =~= views_of(
            column_queries@,
        ));
    }
    out.append(" from logs WHERE ");
    out.append(filter_query);
    out.append(" AND time >= '");
    out.append(start_text.as_str());
    out.append("'::TIMESTAMP AND time <= '");
    out.append(end_text.as_str());
    out.append("'::TIMESTAMP LIMIT 40 OFFSET ");
    let off = i64_string(offset);
    out.append(off.as_str());
    Some(out)
}

/// The bucket-interval literal of a density scan: the width in
/// microseconds.
pub open spec fn interval_text(width: int) -> Seq<char> {
    dec_str(width as nat) + " microseconds"@
}

/// The text of a density scan for one tier: counts per bucket over the
/// range, sparse — buckets with no rows are absent and are filled in by the
/// caller.  Buckets are aligned to the range's start.
pub open spec fn density_text(
    tier: Tier,
    table: Seq<char>,
    start: int,
    end: int,
    width: int,
) -> Seq<char> {
    match tier {
        Tier::Raw => "SELECT time_bucket('"@ + interval_text(width) + "', time, '"@
            + timestamp_text(start) + "'::TIMESTAMP) AS bucket, COUNT(*)::bigint from "@ + table
            + " WHERE time >= '"@ + timestamp_text(start) + "'::TIMESTAMP AND time <= '"@
            + timestamp_text(end) + "'::TIMESTAMP GROUP BY bucket ORDER BY bucket"@,
        Tier::Seconds => "SELECT time_bucket('"@ + interval_text(width) + "', time_bucket, '"@
            + timestamp_text(start) + "'::TIMESTAMP) AS bucket, sum(count)::bigint from "@ + table
            + "_sec_count WHERE time_bucket >= '"@ + timestamp_text(start)
            + "'::TIMESTAMP AND time_bucket <= '"@ + timestamp_text(end)
            + "'::TIMESTAMP GROUP BY bucket ORDER BY bucket"@,
        Tier::Minutes => "SELECT time_bucket('"@ + interval_text(width) + "', time_bucket, '"@
            + timestamp_text(start) + "'::TIMESTAMP) AS bucket, sum(count)::bigint from "@ + table
            + "_min_count WHERE time_bucket >= '"@ + timestamp_text(start)
            + "'::TIMESTAMP AND time_bucket <= '"@ + timestamp_text(end)
            + "'::TIMESTAMP GROUP BY bucket ORDER BY bucket"@,
    }
}

/// Builds the density scan statement for a tier; nothing is returned when
/// a timestamp lies outside the renderable range.
pub fn density_sql(tier: Tier, table: &str, start: i64, end: i64, width: i64) -> (r: Option<
    String,
>)
    requires
        width >= 0,
    ensures
        r is Some ==> r.unwrap()@ == density_text(
            tier,
            table@,
            start as int,
            end as int,
            width as int,
        ),
        renderable_micros(start as int) && renderable_micros(end as int) ==> r is Some,
{
    let start_text = match render_timestamp(start) {
        Some(t) => t,
        None => {
            return None;
        },
    };
    let end_text = match render_timestamp(end) {
        Some(t) => t,
        None => {
            return None;
        },
    };
    let w = u64_string(width as u64);
    let mut out = String::from_str("SELECT time_bucket('");
    out.append(w.as_str());
    out.append(" microseconds");
    match tier {
        Tier::Raw => {
            out.append("', time, '");
            out.append(start_text.as_str());
            out.append("'::TIMESTAMP) AS bucket, COUNT(*)::bigint from ");
            out.append(table);
            out.append(" WHERE time >= '");
            out.append(start_text.as_str());
            out.append("'::TIMESTAMP AND time <= '");
            out.append(end_text.as_str());
            out.append("'::TIMESTAMP GROUP BY bucket ORDER BY bucket");
        },
        Tier::Seconds => {
            out.append("', time_bucket, '");
            out.append(start_text.as_str());
            out.append("'::TIMESTAMP) AS bucket, sum(count)::bigint from ");
            out.append(table);
            out.append("_sec_count WHERE time_bucket >= '");
            out.append(start_text.as_str());
            out.append("'::TIMESTAMP AND time_bucket <= '");
            out.append(end_text.as_str());
            out.append("'::TIMESTAMP GROUP BY bucket ORDER BY bucket");
        },
        Tier::Minutes => {
            out.append("', time_bucket, '");
            out.append(start_text.as_str());
            out.append("'::TIMESTAMP) AS bucket, sum(count)::bigint from ");
            out.append(table);
            out.append("_min_count WHERE time_bucket >= '");
            out.append(start_text.as_str());
            out.append("'::TIMESTAMP AND time_bucket <= '");
            out.append(end_text.as_str());
            out.append("'::TIMESTAMP GROUP BY bucket ORDER BY bucket");
        },
    }
    Some(out)
}

} // verus!
