use brush::launch::launch_settings;
use brush::source::DataSource;

fn url_of(s: &str) -> Option<String> {
    match launch_settings(s).source {
        Some(DataSource::Url(u)) => Some(u),
        _ => None,
    }
}

#[test]
fn empty_address_asks_nothing() {
    let l = launch_settings("");
    assert!(!l.zen);
    assert!(l.source.is_none());
}

#[test]
fn zen_and_url() {
    let l = launch_settings("?zen=true&url=splat.com/a.ply");
    assert!(l.zen);
    assert_eq!(url_of("?zen=true&url=splat.com/a.ply").as_deref(), Some("splat.com/a.ply"));
    assert!(!launch_settings("?zen=yes").zen);
    assert!(!launch_settings("?zen=TRUE").zen);
    assert!(!launch_settings("?zen").zen);
}

#[test]
fn later_values_win_and_values_stop_at_equals() {
    assert!(!launch_settings("?zen=true&zen=false").zen);
    assert_eq!(url_of("?url=a&url=b").as_deref(), Some("b"));
    assert_eq!(url_of("?url=a=b").as_deref(), Some("a"));
    assert_eq!(url_of("?url=").as_deref(), Some(""));
    // Values are taken as written, without percent-decoding.
    assert_eq!(url_of("?url=a%20b").as_deref(), Some("a%20b"));
}
