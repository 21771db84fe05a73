use brush::visualize::VisualizeTools;

#[test]
fn disabled_tools_never_connect() {
    let mut tried = false;
    let t = VisualizeTools::new(false, || {
        tried = true;
        true
    });
    assert!(!t.logs());
    assert!(!tried);
}

#[test]
fn enabled_tools_follow_the_connection() {
    assert!(VisualizeTools::new(true, || true).logs());
    assert!(!VisualizeTools::new(true, || false).logs());
}

#[test]
fn growth_is_signed() {
    assert_eq!(VisualizeTools::effective_growth(10, 3), 7);
    assert_eq!(VisualizeTools::effective_growth(3, 10), -7);
    assert_eq!(VisualizeTools::effective_growth(0, u32::MAX), -(u32::MAX as i64));
}
