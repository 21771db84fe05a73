use brush::app_state::AppStatus;
use brush::control::{must_pause, resumes, ControlMessage, ControlsState, ProcessEvent, TrainGate};

#[test]
fn pausing_happens_after_train_steps_only() {
    assert!(must_pause(true, Some(ControlMessage::Paused(true))));
    assert!(!must_pause(true, Some(ControlMessage::Paused(false))));
    assert!(!must_pause(true, None));
    assert!(!must_pause(false, Some(ControlMessage::Paused(true))));
}

#[test]
fn only_resume_ends_the_wait() {
    assert!(resumes(Some(ControlMessage::Paused(false))));
    assert!(!resumes(Some(ControlMessage::Paused(true))));
    assert!(!resumes(None));
}

#[test]
fn controls_start_hidden_and_running() {
    let c = ControlsState::new();
    assert!(!c.is_open());
    assert!(!c.get_paused());
    assert!(c.get_live_update());
}

#[test]
fn toggling_pause_sends_the_new_state() {
    let mut c = ControlsState::new();
    assert_eq!(c.toggle_paused(), ControlMessage::Paused(true));
    assert!(c.get_paused());
    assert_eq!(c.toggle_paused(), ControlMessage::Paused(false));
    assert!(!c.toggle_live_update());
    assert!(c.toggle_live_update());
}

#[test]
fn training_load_shows_and_resets_controls() {
    let mut c = ControlsState::new();
    c.set_paused(true);
    c.set_live_update(false);
    c.on_message(ProcessEvent::StartLoading { training: false });
    assert!(!c.is_open() && c.get_paused() && !c.get_live_update());
    c.on_message(ProcessEvent::StartLoading { training: true });
    assert!(c.is_open() && !c.get_paused() && c.get_live_update());
    c.set_open(false);
    c.on_message(ProcessEvent::DoneLoading { training: true });
    assert!(c.is_open());
    c.set_open(false);
    c.set_paused(true);
    c.on_message(ProcessEvent::NewSource);
    assert!(!c.is_open() && !c.get_paused());
    c.set_paused(true);
    c.on_message(ProcessEvent::TrainStep { iter: 3 });
    assert!(c.get_paused());
    c.reset_state();
    assert!(!c.get_paused() && c.get_live_update());
}

#[test]
fn app_follows_process() {
    let mut app = AppStatus::new();
    let mut c = ControlsState::new();
    assert!(!app.training() && !app.loading());
    let r = app.on_message(&mut c, ProcessEvent::StartLoading { training: true });
    assert!(app.training() && app.loading());
    assert!(!r.add_dataset_panel && !r.keep_latest_splats && r.autosave_step.is_none());
    let r = app.on_message(&mut c, ProcessEvent::Dataset);
    assert!(r.add_dataset_panel);
    let r = app.on_message(&mut c, ProcessEvent::Dataset);
    assert!(!r.add_dataset_panel);
    let r = app.on_message(&mut c, ProcessEvent::TrainStep { iter: 12 });
    assert!(r.keep_latest_splats);
    assert_eq!(r.autosave_step, Some(12));
    let r = app.on_message(&mut c, ProcessEvent::ViewSplats { frame: 0, total_frames: 1 });
    assert!(r.keep_latest_splats && r.autosave_step.is_none());
    app.on_message(&mut c, ProcessEvent::DoneLoading { training: true });
    assert!(!app.loading() && app.training());
    assert!(c.is_open());
}

#[test]
fn train_gate_follows_requests() {
    let mut g = TrainGate::new();
    assert!(!g.waits_for_control());
    g.on_control(None);
    assert!(!g.paused);
    g.on_control(Some(ControlMessage::Paused(true)));
    assert!(g.waits_for_control());
    g.on_control(None);
    assert!(g.paused);
    g.on_control(Some(ControlMessage::Paused(false)));
    assert!(!g.paused);
}
