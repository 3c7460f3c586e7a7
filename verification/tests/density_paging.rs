use logsearcher::batch::apply_batch_outcome;
use logsearcher::batch::batch_has_room;
use logsearcher::batch::MAX_BATCH;
use logsearcher::density::bucket_width;
use logsearcher::density::gap_fill;
use logsearcher::density::pick_tier;
use logsearcher::density::Tier;
use logsearcher::engine::density_plan;
use logsearcher::json::JsonValue;
use logsearcher::row::LogRow;

#[test]
fn tier_raw_boundary() {
    assert_eq!(pick_tier(100000), Tier::Raw);
    assert_eq!(pick_tier(100001), Tier::Seconds);
}

#[test]
fn tier_seconds_boundary() {
    assert_eq!(pick_tier(10000000), Tier::Seconds);
    assert_eq!(pick_tier(10000001), Tier::Minutes);
}

#[test]
fn tier_degenerate_spans() {
    assert_eq!(pick_tier(0), Tier::Raw);
    assert_eq!(pick_tier(-1), Tier::Minutes);
}

#[test]
fn width_floors_at_minimum() {
    assert_eq!(bucket_width(0), 10);
    assert_eq!(bucket_width(800), 10);
    assert_eq!(bucket_width(-5), 10);
}

#[test]
fn width_is_one_eightieth() {
    assert_eq!(bucket_width(8000), 100);
    assert_eq!(bucket_width(801), 10);
    assert_eq!(bucket_width(160000), 2000);
}

#[test]
fn plan_spans() {
    let p = density_plan(0, 100000000);
    assert_eq!(p.tier, Tier::Raw);
    assert_eq!(p.width, 1250000);
    let p = density_plan(0, 100001000);
    assert_eq!(p.tier, Tier::Seconds);
    let p = density_plan(0, 20000000000);
    assert_eq!(p.tier, Tier::Minutes);
}

#[test]
fn plan_sub_millisecond_reverse_span_counts_as_zero() {
    // 999 microseconds short of the start truncates to zero milliseconds,
    // which the raw tier takes.
    let p = density_plan(1000, 1);
    assert_eq!(p.tier, Tier::Raw);
    assert_eq!(p.width, 10);
}

#[test]
fn gap_fill_no_rows_is_all_zeros() {
    let rows: Vec<(i64, i64)> = Vec::new();
    let r = gap_fill(0, 1000, 100, &rows);
    assert_eq!(r.len(), 11);
    assert!(r.iter().all(|c| *c == 0));
}

#[test]
fn gap_fill_places_counts() {
    let rows = vec![(0, 3), (250, 7), (900, 2)];
    let r = gap_fill(0, 1000, 100, &rows);
    assert_eq!(r.len(), 11);
    assert_eq!(r[0], 3);
    assert_eq!(r[2], 7);
    assert_eq!(r[9], 2);
    assert_eq!(r.iter().filter(|c| **c == 0).count(), 8);
}

#[test]
fn gap_fill_ignores_out_of_range_rows() {
    let rows = vec![(-50, 4), (2000, 9)];
    let r = gap_fill(0, 1000, 100, &rows);
    assert!(r.iter().all(|c| *c == 0));
}

#[test]
fn batch_room() {
    assert!(batch_has_room(0));
    assert!(batch_has_room(MAX_BATCH - 1));
    assert!(!batch_has_room(MAX_BATCH));
}

fn row(level: &str) -> LogRow {
    LogRow::new(
        vec![("level".to_string(), JsonValue::Str(level.to_string()))],
        0,
    )
}

#[test]
fn failed_batch_leaves_store_unchanged() {
    let mut store = vec![row("A")];
    apply_batch_outcome(&mut store, vec![row("B"), row("C")], false);
    assert_eq!(store.len(), 1);
    assert_eq!(store[0].level, "A");
}

#[test]
fn committed_batch_appends_all_rows() {
    let mut store = vec![row("A")];
    apply_batch_outcome(&mut store, vec![row("B"), row("C")], true);
    assert_eq!(store.len(), 3);
    assert_eq!(store[1].level, "B");
    assert_eq!(store[2].level, "C");
}
