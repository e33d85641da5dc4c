use oxidact::render::{frame_error_action, resized_size, surface_size, FrameAction, FrameError};
use oxidact::web::change_message;

#[test]
fn surface_is_at_least_one_pixel() {
    assert_eq!(surface_size(0, 0), (1, 1));
    assert_eq!(surface_size(800, 0), (800, 1));
    assert_eq!(surface_size(640, 480), (640, 480));
}

#[test]
fn resize_ignores_empty_windows() {
    assert_eq!(resized_size(0, 600), None);
    assert_eq!(resized_size(800, 0), None);
    assert_eq!(resized_size(1024, 768), Some((1024, 768)));
}

#[test]
fn frame_errors() {
    assert_eq!(frame_error_action(FrameError::Lost), FrameAction::Reconfigure);
    assert_eq!(frame_error_action(FrameError::Outdated), FrameAction::Reconfigure);
    assert_eq!(frame_error_action(FrameError::OutOfMemory), FrameAction::Exit);
    assert_eq!(frame_error_action(FrameError::Timeout), FrameAction::Skip);
}

#[test]
fn change_message_names_handler_key_and_value() {
    assert_eq!(change_message("on_email", "login_email", "a@b.c"), "on_email => login_email=a@b.c");
    assert_eq!(change_message("h", "k", ""), "h => k=");
}
