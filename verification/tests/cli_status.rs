use brush::cli_status::{eval_line, loading_line, progress_position, splat_count_line, status_line, stops_at, training_took};
use brush::control::ProcessEvent;

#[test]
fn training_duration_text() {
    assert_eq!(training_took(3723), "Training took 1h 2m 3s");
    assert_eq!(training_took(0), "Training took 0s");
    assert_eq!(
        training_took(90061),
        format!("Training took {}", humantime::format_duration(std::time::Duration::from_secs(90061)))
    );
}

#[test]
fn status_lines() {
    assert_eq!(status_line(ProcessEvent::NewSource).as_deref(), Some("Starting process..."));
    assert_eq!(status_line(ProcessEvent::StartLoading { training: true }).as_deref(), Some("Loading data..."));
    assert_eq!(status_line(ProcessEvent::StartLoading { training: false }), None);
    assert_eq!(status_line(ProcessEvent::DoneLoading { training: true }).as_deref(), Some("Dataset loaded"));
    assert_eq!(status_line(ProcessEvent::TrainStep { iter: 4 }).as_deref(), Some("Training"));
    assert_eq!(status_line(ProcessEvent::Dataset), None);
    assert!(stops_at(ProcessEvent::StartLoading { training: false }));
    assert!(!stops_at(ProcessEvent::StartLoading { training: true }));
    assert_eq!(progress_position(ProcessEvent::TrainStep { iter: 77 }), Some(77));
    assert_eq!(progress_position(ProcessEvent::EvalResult { iter: 77 }), None);
}

#[test]
fn info_lines() {
    assert_eq!(loading_line(120, 15), "Loading data... 120 training, 15 eval views");
    assert_eq!(eval_line(1000, None), "evaluating every 1000 steps");
    assert_eq!(eval_line(1000, Some(8)), "evaluating 8 views every 1000 steps");
    assert_eq!(splat_count_line(123456), "Current splat count 123456");
}

#[test]
fn training_took_long_durations() {
    assert_eq!(training_took(65_918_017), "Training took 2years 1month 2days 1s");
    assert_eq!(training_took(31_557_600), "Training took 1year");
    assert_eq!(training_took(60), "Training took 1m");
}
