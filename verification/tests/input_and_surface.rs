use engine::input::{CameraStep, CursorSettings, InputState, Key, KeyResponse, MouseButton};
use engine::surface::{frame_action, initial_extent, resize_extent, FrameAction, FrameStatus, SurfaceExtent};

#[test]
fn cursor_starts_free_and_toggles() {
    let mut s = InputState::new();
    assert!(!s.cursor_grabbed);
    assert_eq!(s.toggle_cursor_grab(true), Some(CursorSettings { locked: true, visible: false }));
    assert!(s.cursor_grabbed);
    assert_eq!(s.toggle_cursor_grab(true), Some(CursorSettings { locked: false, visible: true }));
    assert!(!s.cursor_grabbed);
}

#[test]
fn toggling_without_a_window_does_nothing() {
    let mut s = InputState { cursor_grabbed: true };
    assert_eq!(s.toggle_cursor_grab(false), None);
    assert!(s.cursor_grabbed);
}

#[test]
fn left_click_grabs_a_free_cursor_only() {
    let mut s = InputState::new();
    assert_eq!(s.mouse_pressed(MouseButton::Other, true), None);
    assert!(!s.cursor_grabbed);
    assert_eq!(s.mouse_pressed(MouseButton::Left, true), Some(CursorSettings { locked: true, visible: false }));
    assert!(s.cursor_grabbed);
    assert_eq!(s.mouse_pressed(MouseButton::Left, true), None);
    assert!(s.cursor_grabbed);
}

#[test]
fn escape_frees_a_grabbed_cursor_and_uploads_nothing() {
    let mut s = InputState { cursor_grabbed: true };
    let r = s.key_pressed(Key::Escape, true);
    assert_eq!(r, KeyResponse { cursor: Some(CursorSettings { locked: false, visible: true }), step: None, upload_camera: false });
    assert!(!s.cursor_grabbed);
    let r = s.key_pressed(Key::Escape, true);
    assert_eq!(r, KeyResponse { cursor: None, step: None, upload_camera: false });
    assert!(!s.cursor_grabbed);
}

#[test]
fn movement_keys_step_the_camera() {
    let mut s = InputState { cursor_grabbed: true };
    assert_eq!(s.key_pressed(Key::W, true).step, Some(CameraStep::Forward));
    assert_eq!(s.key_pressed(Key::S, true).step, Some(CameraStep::Backward));
    assert_eq!(s.key_pressed(Key::A, true).step, Some(CameraStep::Left));
    let r = s.key_pressed(Key::D, true);
    assert_eq!(r, KeyResponse { cursor: None, step: Some(CameraStep::Right), upload_camera: true });
    let r = s.key_pressed(Key::Other, true);
    assert_eq!(r, KeyResponse { cursor: None, step: None, upload_camera: true });
    assert!(s.cursor_grabbed);
}

#[test]
fn surface_extent_is_at_least_one_pixel() {
    assert_eq!(initial_extent(0, 0), SurfaceExtent { width: 1, height: 1 });
    assert_eq!(initial_extent(800, 0), SurfaceExtent { width: 800, height: 1 });
    assert_eq!(initial_extent(640, 480), SurfaceExtent { width: 640, height: 480 });
}

#[test]
fn resize_skips_an_empty_side() {
    assert_eq!(resize_extent(1024, 768), Some(SurfaceExtent { width: 1024, height: 768 }));
    assert_eq!(resize_extent(0, 768), None);
    assert_eq!(resize_extent(1024, 0), None);
}

#[test]
fn frame_outcomes() {
    assert_eq!(frame_action(FrameStatus::Acquired), FrameAction::Draw);
    assert_eq!(frame_action(FrameStatus::Lost), FrameAction::Reconfigure);
    assert_eq!(frame_action(FrameStatus::Outdated), FrameAction::Reconfigure);
    assert_eq!(frame_action(FrameStatus::Timeout), FrameAction::ReportAndSkip);
    assert_eq!(frame_action(FrameStatus::OutOfMemory), FrameAction::ReportAndSkip);
    assert_eq!(frame_action(FrameStatus::Other), FrameAction::ReportAndSkip);
}
