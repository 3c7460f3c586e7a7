use logsearcher::engine::create_view;
use logsearcher::engine::upsert_columns_and_filters;
use logsearcher::engine::view_request_parts;
use logsearcher::engine::ViewError;
use logsearcher::model::ColumnDef;
use logsearcher::model::FilterDef;
use logsearcher::model::ViewQuery;
use logsearcher::registry::Registry;

fn strs(v: Vec<&str>) -> Vec<String> {
    v.into_iter().map(|s| s.to_string()).collect()
}

#[test]
fn view_round_trip() {
    let mut reg = Registry::new();
    reg.upsert_view(
        &strs(vec!["level"]),
        &strs(vec!["level"]),
        &"errors".to_string(),
        &"level = 'ERROR'".to_string(),
    );
    let views = reg.list_views();
    assert!(views
        .iter()
        .any(|(name, cols)| name == "errors" && *cols == strs(vec!["level"])));
}

#[test]
fn upsert_replaces_column_order() {
    let mut reg = Registry::new();
    reg.upsert_view(
        &strs(vec!["a", "b"]),
        &strs(vec!["qa", "qb"]),
        &"v".to_string(),
        &"true".to_string(),
    );
    reg.upsert_view(
        &strs(vec!["b", "c"]),
        &strs(vec!["qb2", "qc"]),
        &"v".to_string(),
        &"false".to_string(),
    );
    let views = reg.list_views();
    assert_eq!(views.len(), 1);
    assert_eq!(views[0].0, "v");
    assert_eq!(views[0].1, strs(vec!["b", "c"]));
}

#[test]
fn upsert_leaves_other_views_alone() {
    let mut reg = Registry::new();
    reg.upsert_view(&strs(vec!["x"]), &strs(vec!["qx"]), &"one".to_string(), &"true".to_string());
    reg.upsert_view(&strs(vec!["y"]), &strs(vec!["qy"]), &"two".to_string(), &"true".to_string());
    let views = reg.list_views();
    assert_eq!(views.len(), 2);
    assert!(views.iter().any(|(n, c)| n == "one" && *c == strs(vec!["x"])));
    assert!(views.iter().any(|(n, c)| n == "two" && *c == strs(vec!["y"])));
}

#[test]
fn mismatched_columns_refused() {
    let r = upsert_columns_and_filters(
        &strs(vec!["a", "b"]),
        &strs(vec!["qa"]),
        &"v".to_string(),
        &"true".to_string(),
    );
    assert_eq!(r.err(), Some(ViewError::MismatchedColumns));
}

#[test]
fn empty_columns_refused() {
    let r = upsert_columns_and_filters(
        &Vec::new(),
        &Vec::new(),
        &"v".to_string(),
        &"true".to_string(),
    );
    assert_eq!(r.err(), Some(ViewError::EmptyColumns));
}

#[test]
fn hostile_names_refused() {
    let r = upsert_columns_and_filters(
        &strs(vec!["a"]),
        &strs(vec!["qa"]),
        &"v; DROP TABLE logs".to_string(),
        &"true".to_string(),
    );
    assert_eq!(r.err(), Some(ViewError::InvalidName));
    let r = upsert_columns_and_filters(
        &strs(vec!["a'b"]),
        &strs(vec!["qa"]),
        &"v".to_string(),
        &"true".to_string(),
    );
    assert_eq!(r.err(), Some(ViewError::InvalidName));
}

#[test]
fn error_messages() {
    assert_eq!(
        ViewError::MismatchedColumns.message(),
        "column names and column queries differ in number"
    );
    assert_eq!(ViewError::EmptyColumns.message(), "a view needs at least one column");
    assert_eq!(
        ViewError::InvalidName.message(),
        "view and column names may hold only letters, digits, - and _"
    );
}

#[test]
fn create_view_plans_every_statement() {
    let plan = create_view(
        strs(vec!["level"]),
        strs(vec!["level"]),
        "errors".to_string(),
        "level = 'ERROR'".to_string(),
    )
    .unwrap();
    assert_eq!(
        plan.upsert.insert_cols,
        "INSERT INTO cols (name, query) VALUES ('level','level') ON CONFLICT (name) DO UPDATE SET query = EXCLUDED.query"
    );
    assert_eq!(plan.upsert.delete_assoc, "DELETE FROM column_filter WHERE filter_name = $1");
    assert_eq!(
        plan.upsert.insert_assoc,
        "INSERT INTO column_filter (column_name, filter_name, idx) VALUES ('level', 'errors', 0)"
    );
    assert_eq!(
        plan.upsert.upsert_filter,
        "INSERT INTO filters (name, query) VALUES ('errors', 'level = ''ERROR''') ON CONFLICT (name) DO UPDATE SET query = EXCLUDED.query"
    );
    assert_eq!(
        plan.drop_views,
        "DROP MATERIALIZED VIEW IF EXISTS errors_sec_count; DROP MATERIALIZED VIEW IF EXISTS errors_min_count; "
    );
    assert_eq!(
        plan.create_sec,
        "CREATE MATERIALIZED VIEW errors_sec_count (time_bucket, count) WITH (timescaledb.continuous) AS SELECT time_bucket('1s', time), COUNT(*) from logs where level = 'ERROR' GROUP BY time_bucket('1s', time)"
    );
    assert_eq!(
        plan.create_min,
        "CREATE MATERIALIZED VIEW errors_min_count (time_bucket, count) WITH (timescaledb.continuous) AS SELECT time_bucket('1 minute', time), COUNT(*) from logs where level = 'ERROR' GROUP BY time_bucket('1 minute', time)"
    );
    assert_eq!(
        plan.policy_min,
        "SELECT add_continuous_aggregate_policy('errors_min_count', start_offset => null, end_offset => null, schedule_interval => INTERVAL '10 minute');"
    );
    assert_eq!(
        plan.policy_sec,
        "SELECT add_continuous_aggregate_policy('errors_sec_count', start_offset => null, end_offset => null, schedule_interval => INTERVAL '10 seconds');"
    );
}

#[test]
fn column_query_quotes_are_doubled() {
    let plan = create_view(
        strs(vec!["logdata->>'msg'"]),
        strs(vec!["msg"]),
        "v".to_string(),
        "true".to_string(),
    )
    .unwrap();
    assert_eq!(
        plan.upsert.insert_cols,
        "INSERT INTO cols (name, query) VALUES ('msg','logdata->>''msg''') ON CONFLICT (name) DO UPDATE SET query = EXCLUDED.query"
    );
}

#[test]
fn assoc_positions_follow_column_order() {
    let plan = create_view(
        strs(vec!["qa", "qb", "qc"]),
        strs(vec!["a", "b", "c"]),
        "v".to_string(),
        "true".to_string(),
    )
    .unwrap();
    assert_eq!(
        plan.upsert.insert_assoc,
        "INSERT INTO column_filter (column_name, filter_name, idx) VALUES ('a', 'v', 0),('b', 'v', 1),('c', 'v', 2)"
    );
}

#[test]
fn view_request_defaults_empty_filter_name() {
    let q = ViewQuery {
        columns: vec![ColumnDef { name: "level".to_string(), query: "level".to_string() }],
        filter: FilterDef { name: "".to_string(), query: "true".to_string() },
    };
    let parts = view_request_parts(q);
    assert_eq!(parts.filter_name, "logs");
    assert_eq!(parts.filter_query, "true");
    assert_eq!(parts.column_names, strs(vec!["level"]));
    assert_eq!(parts.column_queries, strs(vec!["level"]));
}
