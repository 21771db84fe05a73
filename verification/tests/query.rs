use brush::query::parse_search;
use std::collections::HashMap;

fn as_map(v: Vec<(String, String)>) -> HashMap<String, String> {
    let n = v.len();
    let m: HashMap<String, String> = v.into_iter().collect();
    assert_eq!(m.len(), n, "keys must be distinct");
    m
}

#[test]
fn parses_pairs() {
    let m = as_map(parse_search("?url=a.ply&zen=true"));
    assert_eq!(m.len(), 2);
    assert_eq!(m["url"], "a.ply");
    assert_eq!(m["zen"], "true");
}

#[test]
fn decodes_percent_escapes() {
    let m = as_map(parse_search("?url=https%3A%2F%2Fx.com%2Fa%20b.ply"));
    assert_eq!(m["url"], "https://x.com/a b.ply");
}

#[test]
fn later_settings_win_and_bad_pairs_are_skipped() {
    let m = as_map(parse_search("??a=1&b&a=2&c=x=y&=v&d=%FF"));
    assert_eq!(m["a"], "2");
    assert!(!m.contains_key("b"));
    assert_eq!(m["c"], "x=y");
    assert_eq!(m[""], "v");
    assert_eq!(m["d"], "");
}

#[test]
fn empty_search() {
    assert!(parse_search("").is_empty());
    assert!(parse_search("?").is_empty());
}
