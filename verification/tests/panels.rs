use brush::control::ProcessEvent;
use brush::panels::{LoadDataPanel, Quality, RerunAction, RerunPanel};
use brush::source::DataSource;

#[test]
fn load_panel_defaults() {
    let p = LoadDataPanel::new();
    assert_eq!(p.title(), "Load data");
    assert_eq!(p.load_args().max_resolution, Some(1920));
    assert_eq!(p.load_args().max_frames, None);
    assert_eq!(p.sh_degree(), 3);
    assert_eq!(p.quality(), Quality::Normal);
    assert_eq!(p.url(), "splat.com/example.ply");
}

#[test]
fn load_request_priorities() {
    let mut p = LoadDataPanel::new();
    assert!(p.load_request(false, false, false).is_none());
    assert!(matches!(p.load_request(true, true, true).map(|r| r.source), Some(DataSource::PickFile)));
    assert!(matches!(p.load_request(false, true, true).map(|r| r.source), Some(DataSource::PickDirectory)));
    p.set_url("example.org/x.zip".to_string());
    p.set_quality(Quality::Low);
    let r = p.load_request(false, false, true).expect("url load");
    match r.source {
        DataSource::Url(u) => assert_eq!(u, "example.org/x.zip"),
        _ => panic!("url expected"),
    }
    assert!(r.low_quality);
    assert_eq!(r.sh_degree, 3);
    assert_eq!(r.load_args.max_resolution, Some(1920));
}

#[test]
fn load_panel_toggles_and_sliders() {
    let mut p = LoadDataPanel::new();
    p.toggle_limit_resolution();
    assert_eq!(p.load_args().max_resolution, None);
    p.set_max_resolution(100);
    assert_eq!(p.load_args().max_resolution, None);
    p.toggle_limit_resolution();
    assert_eq!(p.load_args().max_resolution, Some(800));
    p.set_max_resolution(4000);
    assert_eq!(p.load_args().max_resolution, Some(2048));
    p.set_max_resolution(1);
    assert_eq!(p.load_args().max_resolution, Some(32));
    p.toggle_limit_frames();
    assert_eq!(p.load_args().max_frames, Some(32));
    p.set_max_frames(0);
    assert_eq!(p.load_args().max_frames, Some(1));
    p.toggle_eval_split();
    assert_eq!(p.load_args().eval_split_every, Some(8));
    p.set_eval_split_every(100);
    assert_eq!(p.load_args().eval_split_every, Some(32));
    p.toggle_subsample_frames();
    assert_eq!(p.load_args().subsample_frames, Some(2));
    p.set_subsample_frames(5);
    assert_eq!(p.load_args().subsample_frames, Some(5));
    p.toggle_subsample_points();
    assert_eq!(p.load_args().subsample_points, Some(2));
    p.set_subsample_points(1);
    assert_eq!(p.load_args().subsample_points, Some(2));
    p.toggle_subsample_points();
    assert_eq!(p.load_args().subsample_points, None);
    p.set_sh_degree(9);
    assert_eq!(p.sh_degree(), 4);
}

#[test]
fn rerun_panel_defaults() {
    let p = RerunPanel::new();
    assert_eq!(p.title(), "Rerun");
    assert!(!p.recording());
    assert_eq!(p.eval_every(), 1000);
    assert_eq!(p.eval_view_count(), None);
}

#[test]
fn rerun_logs_only_while_recording() {
    let mut p = RerunPanel::new();
    assert!(p.on_message(ProcessEvent::TrainStep { iter: 50 }).is_empty());
    p.enable();
    assert_eq!(
        p.on_message(ProcessEvent::TrainStep { iter: 50 }),
        vec![RerunAction::LogSplatStats { iter: 50 }, RerunAction::LogTrainStats { iter: 50 }]
    );
    assert_eq!(p.on_message(ProcessEvent::TrainStep { iter: 51 }), vec![RerunAction::LogSplatStats { iter: 51 }]);
    p.set_visualize_splats(true);
    assert_eq!(
        p.on_message(ProcessEvent::TrainStep { iter: 1000 }),
        vec![
            RerunAction::LogSplats { iter: 1000 },
            RerunAction::LogSplatStats { iter: 1000 },
            RerunAction::LogTrainStats { iter: 1000 }
        ]
    );
    assert_eq!(p.on_message(ProcessEvent::RefineStep { iter: 7 }), vec![RerunAction::LogRefineStats { iter: 7 }]);
    assert_eq!(p.on_message(ProcessEvent::EvalResult { iter: 8 }), vec![RerunAction::LogEvalStats { iter: 8 }]);
    assert_eq!(p.on_message(ProcessEvent::StartLoading { training: true }), vec![RerunAction::Restart]);
    assert!(p.recording());
    assert_eq!(p.on_message(ProcessEvent::StartLoading { training: false }), vec![RerunAction::Stop]);
    assert!(!p.recording());
    assert!(p.on_message(ProcessEvent::StartLoading { training: true }).is_empty());
}

#[test]
fn rerun_dataset_logged_once() {
    let mut p = RerunPanel::new();
    p.on_message(ProcessEvent::DoneLoading { training: true });
    assert!(!p.take_dataset_log());
    p.enable();
    assert!(p.take_dataset_log());
    assert!(!p.take_dataset_log());
}

#[test]
fn rerun_settings_stay_in_range() {
    let mut p = RerunPanel::new();
    p.enable();
    p.set_log_train_stats_every(0);
    assert_eq!(
        p.on_message(ProcessEvent::TrainStep { iter: 3 }),
        vec![RerunAction::LogSplatStats { iter: 3 }, RerunAction::LogTrainStats { iter: 3 }]
    );
    p.set_eval_every(9000);
    assert_eq!(p.eval_every(), 5000);
    p.set_limit_eval_views(true);
    assert_eq!(p.eval_view_count(), Some(4));
    p.set_eval_view_count(500);
    assert_eq!(p.eval_view_count(), Some(100));
    p.set_limit_eval_views(true);
    assert_eq!(p.eval_view_count(), Some(100));
    p.set_limit_eval_views(false);
    assert_eq!(p.eval_view_count(), None);
    p.set_visualize_splats(true);
    p.set_visualize_splats_every(0);
    assert_eq!(
        p.on_message(ProcessEvent::TrainStep { iter: 5 }),
        vec![
            RerunAction::LogSplats { iter: 5 },
            RerunAction::LogSplatStats { iter: 5 },
            RerunAction::LogTrainStats { iter: 5 }
        ]
    );
}
