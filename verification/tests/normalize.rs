use logsearcher::json::JsonValue;
use logsearcher::row::LogRow;

fn obj(fields: Vec<(&str, JsonValue)>) -> Vec<(String, JsonValue)> {
    fields.into_iter().map(|(k, v)| (k.to_string(), v)).collect()
}

fn s(v: &str) -> JsonValue {
    JsonValue::Str(v.to_string())
}

fn sorted_words(row: &LogRow) -> Vec<String> {
    let mut w = row.words.clone();
    w.sort();
    w
}

#[test]
fn normalize_end_to_end() {
    let fields = obj(vec![("level", s("WARN")), ("msg", s("disk-full on node-7"))]);
    let row = LogRow::new(fields, 1700000000000000);
    assert_eq!(row.time, 1700000000000000);
    assert_eq!(row.level, "WARN");
    assert_eq!(row.data.len(), 1);
    assert_eq!(row.data[0].0, "msg");
    for w in ["msg", "disk-full", "on", "node-7"] {
        assert!(row.words.iter().any(|x| x == w), "missing word {}", w);
    }
    assert_eq!(row.words.len(), 4);
}

#[test]
fn normalize_level_removed_from_data() {
    let fields = obj(vec![("level", s("ERROR")), ("a", s("b"))]);
    let row = LogRow::new(fields, 0);
    assert!(row.data.iter().all(|(k, _)| k != "level"));
    assert!(row.words.iter().all(|w| w != "level"));
}

#[test]
fn normalize_level_absent_defaults_info() {
    let row = LogRow::new(obj(vec![("a", s("b"))]), 5);
    assert_eq!(row.level, "INFO");
}

#[test]
fn normalize_level_empty_defaults_info() {
    let row = LogRow::new(obj(vec![("level", s(""))]), 5);
    assert_eq!(row.level, "INFO");
    assert!(row.data.is_empty());
}

#[test]
fn normalize_level_non_string_defaults_info() {
    let fields = obj(vec![("level", JsonValue::Num("5".to_string()))]);
    let row = LogRow::new(fields, 5);
    assert_eq!(row.level, "INFO");
    assert!(row.data.is_empty());
}

#[test]
fn normalize_collects_nested_words() {
    let inner = JsonValue::Obj(obj(vec![("b", JsonValue::Arr(vec![s("x y")]))]));
    let fields = obj(vec![("a", inner)]);
    let row = LogRow::new(fields, 0);
    let mut got = sorted_words(&row);
    got.sort();
    assert_eq!(got, vec!["a", "b", "x", "y"]);
}

#[test]
fn normalize_deduplicates_words() {
    let fields = obj(vec![("a", s("a a a")), ("b", s("a b"))]);
    let row = LogRow::new(fields, 0);
    let got = sorted_words(&row);
    assert_eq!(got, vec!["a", "b"]);
}

#[test]
fn normalize_scalars_contribute_nothing() {
    let fields = obj(vec![
        ("n", JsonValue::Num("12".to_string())),
        ("t", JsonValue::Bool(true)),
        ("z", JsonValue::Null),
    ]);
    let row = LogRow::new(fields, 0);
    let got = sorted_words(&row);
    assert_eq!(got, vec!["n", "t", "z"]);
}

#[test]
fn normalize_idempotent_on_residual() {
    let fields = obj(vec![("level", s("WARN")), ("msg", s("disk-full on node-7"))]);
    let first = LogRow::new(fields, 0);
    let first_len = first.data.len();
    let mut first_words = first.words;
    first_words.sort();
    let second = LogRow::new(first.data, 0);
    assert_eq!(second.level, "INFO");
    assert_eq!(first_words, sorted_words(&second));
    assert_eq!(first_len, second.data.len());
}

#[test]
fn normalize_empty_input() {
    let row = LogRow::new(Vec::new(), 7);
    assert_eq!(row.level, "INFO");
    assert!(row.data.is_empty());
    assert!(row.words.is_empty());
}
