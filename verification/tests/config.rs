use brush::config::{
    Cli, CliError, LoadDataseConfig, ModelConfig, ProcessConfig, RandomSplatsConfig, RenderStats,
    RerunConfig,
};
use brush::source::DataSource;

#[test]
fn load_config_defaults_and_builders() {
    let c = LoadDataseConfig::new();
    assert_eq!(c.max_frames, None);
    assert_eq!(c.max_resolution, None);
    assert_eq!(c.eval_split_every, None);
    assert_eq!(c.subsample_frames, None);
    assert_eq!(c.subsample_points, None);
    let c = c.with_max_frames(Some(4)).with_subsample_points(Some(2));
    assert_eq!(c.max_frames, Some(4));
    assert_eq!(c.subsample_points, Some(2));
    assert_eq!(c.max_resolution, None);
}

#[test]
fn model_config_default_degree() {
    assert_eq!(ModelConfig::new().sh_degree, 3);
    assert_eq!(ModelConfig::new().with_sh_degree(1).sh_degree, 1);
}

#[test]
fn process_config_defaults() {
    let c = ProcessConfig::new();
    assert_eq!(c.seed, 42);
    assert_eq!(c.eval_every, 1000);
    assert!(!c.eval_save_to_disk);
    assert_eq!(c.export_every, 5000);
    assert_eq!(c.export_path, None);
    assert_eq!(c.export_name, "./export_{iter}.ply");
}

#[test]
fn rerun_config_defaults() {
    let c = RerunConfig::new();
    assert!(!c.rerun_enabled);
    assert_eq!(c.rerun_log_train_stats_every, 50);
    assert_eq!(c.rerun_log_splats_every, None);
    assert_eq!(c.rerun_max_img_size, 512);
}

#[test]
fn random_splats_default_count() {
    assert_eq!(RandomSplatsConfig::new().init_count(), 10000);
    assert_eq!(RandomSplatsConfig::new().with_init_count(7).init_count(), 7);
    let s = RenderStats { num_visible: 3, num_intersections: 9 };
    assert_eq!(s.num_visible, 3);
}

#[test]
fn cli_needs_viewer_or_source() {
    let cli = Cli { source: None, with_viewer: false, reset_windows: false };
    match cli.validate() {
        Err(e) => {
            assert_eq!(e, CliError::MissingSource);
            assert_eq!(e.message(), "When --with-viewer is false, --source must be provided");
        }
        Ok(_) => panic!("must be refused"),
    }
    let cli = Cli { source: Some(DataSource::PickFile), with_viewer: false, reset_windows: true };
    let ok = cli.validate().ok().expect("accepted");
    assert!(ok.reset_windows && !ok.with_viewer);
    let cli = Cli { source: None, with_viewer: true, reset_windows: false };
    assert!(cli.validate().is_ok());
    assert!(Cli::default_with_viewer(false));
    assert!(!Cli::default_with_viewer(true));
}
