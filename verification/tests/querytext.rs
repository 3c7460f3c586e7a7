use logsearcher::density::Tier;
use logsearcher::model::default_filter;
use logsearcher::model::default_offset;
use logsearcher::model::default_table;
use logsearcher::model::health_message;
use logsearcher::numfmt::i64_string;
use logsearcher::numfmt::u64_string;
use logsearcher::sqlgen::density_sql;
use logsearcher::sqlgen::escape_quotes;
use logsearcher::sqlgen::list_views_sql;
use logsearcher::sqlgen::logs_select_sql;
use logsearcher::sqlgen::view_meta_sql;

fn strs(v: Vec<&str>) -> Vec<String> {
    v.into_iter().map(|s| s.to_string()).collect()
}

#[test]
fn decimal_rendering() {
    assert_eq!(u64_string(0), "0");
    assert_eq!(u64_string(1234), "1234");
    assert_eq!(u64_string(u64::MAX), "18446744073709551615");
    assert_eq!(i64_string(0), "0");
    assert_eq!(i64_string(-56), "-56");
    assert_eq!(i64_string(i64::MIN), "-9223372036854775808");
}

#[test]
fn quote_escaping() {
    assert_eq!(escape_quotes("a'b"), "a''b");
    assert_eq!(escape_quotes("''"), "''''");
    assert_eq!(escape_quotes("plain"), "plain");
    assert_eq!(escape_quotes(""), "");
}

#[test]
fn defaults() {
    assert_eq!(default_offset(), 0);
    assert_eq!(default_filter(), "true");
    assert_eq!(default_table(), "logs");
    assert_eq!(health_message(), "Log viewer utility");
}

#[test]
fn logs_select_text_is_exact() {
    let sql = logs_select_sql(&strs(vec!["logdata", "words"]), "true", 0, 1000000, 0).unwrap();
    assert_eq!(
        sql,
        "SELECT time, level, logdata,words from logs WHERE true AND time >= '1970-01-01 00:00:00'::TIMESTAMP AND time <= '1970-01-01 00:00:01'::TIMESTAMP LIMIT 40 OFFSET 0"
    );
}

#[test]
fn logs_select_pages_by_offset() {
    let p0 = logs_select_sql(&strs(vec!["logdata"]), "true", 0, 1000000, 0).unwrap();
    let p1 = logs_select_sql(&strs(vec!["logdata"]), "true", 0, 1000000, 40).unwrap();
    assert_ne!(p0, p1);
    assert!(p0.ends_with("LIMIT 40 OFFSET 0"));
    assert!(p1.ends_with("LIMIT 40 OFFSET 40"));
}

#[test]
fn density_text_raw_tier_is_exact() {
    let sql = density_sql(Tier::Raw, "logs", 0, 1000000, 12500).unwrap();
    assert_eq!(
        sql,
        "SELECT time_bucket('12500 microseconds', time, '1970-01-01 00:00:00'::TIMESTAMP) AS bucket, COUNT(*)::bigint from logs WHERE time >= '1970-01-01 00:00:00'::TIMESTAMP AND time <= '1970-01-01 00:00:01'::TIMESTAMP GROUP BY bucket ORDER BY bucket"
    );
}

#[test]
fn density_text_aggregate_tiers() {
    let sec = density_sql(Tier::Seconds, "errors", 0, 1000000000, 12500000).unwrap();
    assert!(sec.contains("from errors_sec_count"));
    assert!(sec.contains("sum(count)::bigint"));
    assert!(sec.contains("time_bucket >= '1970-01-01 00:00:00'::TIMESTAMP"));
    let min = density_sql(Tier::Minutes, "errors", 0, 1000000000, 12500000).unwrap();
    assert!(min.contains("from errors_min_count"));
}

#[test]
fn meta_and_listing_statements() {
    assert_eq!(
        view_meta_sql(),
        "SELECT COUNT(*), filters.query, array_agg(cols.query ORDER BY idx) from column_filter JOIN filters ON filters.name = column_filter.filter_name JOIN cols ON cols.name = column_filter.column_name WHERE filters.name = $1 GROUP BY filters.name, filters.query"
    );
    assert_eq!(
        list_views_sql(),
        "SELECT filters.name, array_agg(cols.name ORDER BY idx) from filters JOIN column_filter ON filters.name = column_filter.filter_name JOIN cols ON cols.name = column_filter.column_name GROUP BY filters.name;"
    );
}

#[test]
fn timestamps_with_fractional_seconds() {
    let sql = logs_select_sql(&strs(vec!["x"]), "true", 1500000, 2000001, 3).unwrap();
    assert!(sql.contains("time >= '1970-01-01 00:00:01.500'::TIMESTAMP"));
    assert!(sql.contains("time <= '1970-01-01 00:00:02.000001'::TIMESTAMP"));
    assert!(sql.ends_with("OFFSET 3"));
}
