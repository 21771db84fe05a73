use brush::settings_panel::SettingsPanel;
use brush::source::DataSource;

#[test]
fn settings_panel_defaults() {
    let p = SettingsPanel::new();
    assert_eq!(p.model_config.sh_degree, 3);
    assert_eq!(p.load_config.max_frames, None);
    assert_eq!(p.load_config.eval_split_every, None);
    assert_eq!(p.process_config.seed, 42);
    assert_eq!(p.process_config.export_every, 5000);
    assert_eq!(p.process_config.export_name, "./export_{iter}.ply");
    assert!(!p.rerun_config.rerun_enabled);
    assert_eq!(p.rerun_config.rerun_max_img_size, 512);
    assert_eq!(p.url, "splat.com/example.ply");
    assert_eq!(p.title(), "Settings");
}

#[test]
fn settings_panel_sh_degree_is_clamped() {
    let mut p = SettingsPanel::new();
    p.set_sh_degree(9);
    assert_eq!(p.model_config.sh_degree, 4);
    p.set_sh_degree(1);
    assert_eq!(p.model_config.sh_degree, 1);
    p.set_sh_degree(0);
    assert_eq!(p.model_config.sh_degree, 0);
}

#[test]
fn settings_panel_toggles() {
    let mut p = SettingsPanel::new();
    p.toggle_limit_frames();
    assert_eq!(p.load_config.max_frames, Some(32));
    p.toggle_limit_frames();
    assert_eq!(p.load_config.max_frames, None);
    p.toggle_eval_split();
    assert_eq!(p.load_config.eval_split_every, Some(8));
    p.toggle_eval_split();
    assert_eq!(p.load_config.eval_split_every, None);
}

#[test]
fn settings_panel_rerun_options() {
    let mut p = SettingsPanel::new();
    p.set_rerun_enabled(true);
    assert!(p.rerun_config.rerun_enabled);
    p.set_visualize_splats(true);
    assert_eq!(p.rerun_config.rerun_log_splats_every, Some(500));
    p.rerun_config.rerun_log_splats_every = Some(20);
    p.set_visualize_splats(true);
    assert_eq!(p.rerun_config.rerun_log_splats_every, Some(20));
    p.set_visualize_splats(false);
    assert_eq!(p.rerun_config.rerun_log_splats_every, None);
}

#[test]
fn settings_panel_load_request_precedence() {
    let mut p = SettingsPanel::new();
    assert!(p.load_request(false, false, false).is_none());
    p.set_sh_degree(2);
    let r = p.load_request(true, true, true).unwrap();
    assert!(matches!(r.source, DataSource::PickFile));
    assert_eq!(r.model_config.sh_degree, 2);
    let r = p.load_request(false, true, true).unwrap();
    assert!(matches!(r.source, DataSource::PickDirectory));
    let r = p.load_request(false, false, true).unwrap();
    assert!(matches!(&r.source, DataSource::Url(u) if u == "splat.com/example.ply"));
    assert_eq!(r.process_config.export_name, "./export_{iter}.ply");
}
