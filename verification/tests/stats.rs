use brush::control::ProcessEvent;
use brush::stats::StatsCounters;

#[test]
fn stats_counters_follow_a_run() {
    let mut s = StatsCounters::new();
    assert!(!s.is_open());
    s.set_open(true);
    assert_eq!(s.on_message(ProcessEvent::StartLoading { training: true }, 7, 7), None);
    assert!(s.training_started);
    assert_eq!(s.num_splats, 0);
    assert_eq!(s.on_message(ProcessEvent::TrainStep { iter: 10 }, 1000, 1), Some(10));
    assert_eq!(s.on_message(ProcessEvent::TrainStep { iter: 25 }, 1200, 2), Some(15));
    assert_eq!(s.num_splats, 1200);
    assert_eq!(s.cur_sh_degree, 2);
    assert_eq!(s.last_train_iter, 25);
    assert_eq!(s.on_message(ProcessEvent::EvalResult { iter: 25 }, 0, 0), None);
    assert!(s.has_eval);
    assert_eq!(s.num_splats, 1200);
    assert!(s.is_open());
}

#[test]
fn stats_counters_view_and_reset() {
    let mut s = StatsCounters::new();
    s.set_open(true);
    s.on_message(ProcessEvent::ViewSplats { frame: 3, total_frames: 9 }, 500, 3);
    assert_eq!(s.frames, 3);
    assert_eq!(s.num_splats, 500);
    assert_eq!(s.cur_sh_degree, 3);
    s.on_message(ProcessEvent::StartLoading { training: false }, 0, 0);
    assert_eq!(s.frames, 3);
    assert_eq!(s.num_splats, 0);
    assert!(!s.training_started);
    s.on_message(ProcessEvent::NewSource, 0, 0);
    assert_eq!(s, StatsCounters::new());
    assert!(!s.is_open());
}
