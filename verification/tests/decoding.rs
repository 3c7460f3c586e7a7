use logsearcher::decode::assemble_row;
use logsearcher::decode::extract_records;
use logsearcher::decode::resolve_cell;
use logsearcher::json::JsonValue;

fn is_str(v: &JsonValue, expect: &str) -> bool {
    matches!(v, JsonValue::Str(s) if s == expect)
}

#[test]
fn resolve_prefers_structured() {
    let r = resolve_cell(
        Some(JsonValue::Bool(true)),
        Some("1.5".to_string()),
        Some(vec!["w".to_string()]),
        Some("t".to_string()),
    );
    assert!(matches!(r, JsonValue::Bool(true)));
}

#[test]
fn resolve_number_next() {
    let r = resolve_cell(None, Some("1.5".to_string()), Some(vec!["w".to_string()]), None);
    assert!(matches!(r, JsonValue::Num(n) if n == "1.5"));
}

#[test]
fn resolve_word_list_next() {
    let r = resolve_cell(None, None, Some(vec!["a".to_string(), "b".to_string()]), None);
    match r {
        JsonValue::Arr(items) => {
            assert_eq!(items.len(), 2);
            assert!(is_str(&items[0], "a"));
            assert!(is_str(&items[1], "b"));
        }
        _ => panic!("expected an array"),
    }
}

#[test]
fn resolve_text_then_null() {
    let r = resolve_cell(None, None, None, Some("t".to_string()));
    assert!(is_str(&r, "t"));
    let r = resolve_cell(None, None, None, None);
    assert!(matches!(r, JsonValue::Null));
}

#[test]
fn assemble_row_shape() {
    let cells = vec![JsonValue::Num("1".to_string()), JsonValue::Null];
    let r = assemble_row("2024-01-01 00:00:00".to_string(), Some("WARN".to_string()), cells);
    assert_eq!(r.len(), 4);
    assert!(is_str(&r[0], "2024-01-01 00:00:00"));
    assert!(is_str(&r[1], "WARN"));
    assert!(matches!(&r[2], JsonValue::Num(n) if n == "1"));
    assert!(matches!(r[3], JsonValue::Null));
}

#[test]
fn assemble_row_missing_level_is_null() {
    let r = assemble_row("t".to_string(), None, Vec::new());
    assert_eq!(r.len(), 2);
    assert!(matches!(r[1], JsonValue::Null));
}

fn obj(k: &str) -> JsonValue {
    JsonValue::Obj(vec![(k.to_string(), JsonValue::Null)])
}

#[test]
fn extract_records_keeps_objects_in_order() {
    let payload = JsonValue::Arr(vec![obj("a"), JsonValue::Num("1".to_string()), obj("b")]);
    let r = extract_records(Some(payload));
    assert_eq!(r.len(), 2);
    assert_eq!(r[0][0].0, "a");
    assert_eq!(r[1][0].0, "b");
}

#[test]
fn extract_records_non_array_is_empty() {
    assert!(extract_records(Some(JsonValue::Null)).is_empty());
    assert!(extract_records(Some(obj("a"))).is_empty());
    assert!(extract_records(None).is_empty());
}

#[test]
fn extract_records_empty_array() {
    assert!(extract_records(Some(JsonValue::Arr(Vec::new()))).is_empty());
}
