use logsearcher::tokenize::tokenize;

fn toks(s: &str) -> Vec<String> {
    let mut t = tokenize(s);
    t.sort();
    t.dedup();
    t
}

#[test]
fn tokenize_plain_words() {
    assert_eq!(toks("disk full"), vec!["disk", "full"]);
}

#[test]
fn tokenize_joined_token() {
    assert_eq!(toks("disk-full"), vec!["disk-full"]);
    assert_eq!(toks("a_b-c"), vec!["a_b-c"]);
}

#[test]
fn tokenize_double_joiner_splits() {
    assert_eq!(toks("a--b"), vec!["a", "b"]);
    assert_eq!(toks("a__b"), vec!["a", "b"]);
    assert_eq!(toks("a-_b"), vec!["a", "b"]);
}

#[test]
fn tokenize_edge_joiners_dropped() {
    assert_eq!(toks("-a-"), vec!["a"]);
    assert_eq!(toks("_node-7_"), vec!["node-7"]);
}

#[test]
fn tokenize_empty_and_punctuation() {
    assert!(toks("").is_empty());
    assert!(toks("--").is_empty());
    assert!(toks(".,;!").is_empty());
}

#[test]
fn tokenize_digits_and_case() {
    assert_eq!(toks("Node7 x9-Y"), vec!["Node7", "x9-Y"]);
}

#[test]
fn tokenize_non_ascii_separates() {
    assert_eq!(toks("na\u{ef}ve test"), vec!["na", "test", "ve"]);
}

#[test]
fn tokenize_repeats_appear_per_occurrence() {
    let t = tokenize("a b a");
    assert_eq!(t.len(), 3);
    assert_eq!(toks("a b a"), vec!["a", "b"]);
}
