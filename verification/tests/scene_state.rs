use brush::control::ControlMessage;
use brush::scene_state::SceneFrames;

#[test]
fn loaded_frames_replace_later_ones() {
    let mut s: SceneFrames<&str> = SceneFrames::new();
    assert!(s.shows_start_hint(false, false));
    assert!(!s.shows_start_hint(true, false));
    assert!(!s.shows_start_hint(false, true));
    s.on_view_splats("a", 0, 3);
    s.on_view_splats("b", 1, 3);
    s.on_view_splats("c", 2, 3);
    assert_eq!(s.len(), 3);
    assert!(s.shows_playback_control());
    s.on_view_splats("B", 1, 3);
    assert_eq!(s.len(), 2);
    assert_eq!(s.frame(1), Some(&"B"));
    assert_eq!(s.frame(2), None);
    assert!(!s.shows_playback_control());
    s.on_view_splats("x", 9, 10);
    assert_eq!(s.len(), 3);
    assert_eq!(s.frame(2), Some(&"x"));
    assert_eq!(s.frame_count(), 10);
}

#[test]
fn frames_frozen_without_live_update() {
    let mut s: SceneFrames<u32> = SceneFrames::new();
    s.on_train_step(1);
    s.on_train_step(2);
    assert_eq!(s.len(), 1);
    assert_eq!(s.frame(0), Some(&2));
    s.toggle_live_update();
    assert!(!s.live_update());
    s.on_train_step(3);
    s.on_view_splats(4, 0, 5);
    assert_eq!(s.frame(0), Some(&2));
    assert_eq!(s.frame_count(), 5);
}

#[test]
fn new_source_resets() {
    let mut s: SceneFrames<u8> = SceneFrames::new();
    s.on_view_splats(1, 0, 1);
    s.toggle_playback();
    s.toggle_live_update();
    s.on_error("boom".to_string(), vec!["cause".to_string()]);
    assert_eq!(s.error().map(|e| e.headline.clone()), Some("boom".to_string()));
    assert!(!s.shows_start_hint(false, false));
    s.on_new_source();
    assert_eq!(s.len(), 0);
    assert_eq!(s.frame_count(), 0);
    assert!(!s.paused() && s.live_update() && s.error().is_none());
}

#[test]
fn training_pause_request() {
    let mut s: SceneFrames<u8> = SceneFrames::new();
    assert_eq!(s.toggle_training(), ControlMessage::Paused(true));
    assert_eq!(s.toggle_training(), ControlMessage::Paused(false));
}
