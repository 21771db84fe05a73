use brush::source::{all_ply, classify_peek, parse_source, view_frame, with_https_scheme, DataSource, PeekKind};

#[test]
fn parse_source_keywords() {
    assert!(matches!(parse_source("pick-file", true), Ok(DataSource::PickFile)));
    assert!(matches!(parse_source("Pick-Directory", true), Ok(DataSource::PickDirectory)));
    assert!(matches!(parse_source("DIR", false), Ok(DataSource::PickDirectory)));
}

#[test]
fn parse_source_urls_are_lowercased() {
    match parse_source("HTTPS://Example.com/A.ply", false) {
        Ok(DataSource::Url(u)) => assert_eq!(u, "https://example.com/a.ply"),
        _ => panic!("url expected"),
    }
}

#[test]
fn parse_source_paths() {
    match parse_source("Data/Scene.zip", true) {
        Ok(DataSource::Path(p)) => assert_eq!(p, "data/scene.zip"),
        _ => panic!("path expected"),
    }
    match parse_source("Missing", false) {
        Err(m) => assert_eq!(m, "Invalid data source. Can't find missing"),
        _ => panic!("error expected"),
    }
}

#[test]
fn peek_classification() {
    assert!(matches!(classify_peek(b"ply\nformat ascii"), PeekKind::Ply));
    assert!(matches!(classify_peek(b"PK\x03\x04"), PeekKind::Zip));
    assert!(matches!(classify_peek(b"<!DOCTYPE html><html>"), PeekKind::Html));
    match classify_peek(b"BRUSH_PATH/home/u/data") {
        PeekKind::BrushPath(p) => assert_eq!(p, b"/home/u/data".to_vec()),
        _ => panic!("path expected"),
    }
    assert!(matches!(classify_peek(b"pl"), PeekKind::Unknown));
    assert!(matches!(classify_peek(b""), PeekKind::Unknown));
}

#[test]
fn https_scheme_added() {
    assert_eq!(with_https_scheme("splat.com/example.ply"), "https://splat.com/example.ply");
    assert_eq!(with_https_scheme("http://a.b/c"), "http://a.b/c");
    assert_eq!(with_https_scheme("https://a.b/c"), "https://a.b/c");
}

#[test]
fn ply_only_sources() {
    let v = |s: &[&str]| -> Vec<String> { s.iter().map(|x| x.to_string()).collect() };
    assert!(all_ply(&v(&["a.ply", "dir/b.ply"])));
    assert!(!all_ply(&v(&["a.ply", "b.PLY"])));
    assert!(!all_ply(&v(&["a.zip"])));
    assert!(all_ply(&v(&[])));
}

#[test]
fn frames_while_viewing() {
    assert_eq!(view_frame(0, 1, 3, 10), (3, 10));
    assert_eq!(view_frame(2, 5, 3, 10), (2, 5));
}

#[test]
fn scheme_completion_is_idempotent() {
    for u in ["a.com/x", "http://a", "https://b", "ftp://c", ""] {
        let once = with_https_scheme(u);
        assert_eq!(with_https_scheme(&once), once);
        assert!(once.starts_with("http://") || once.starts_with("https://"));
    }
}
