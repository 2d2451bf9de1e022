use cocomiro::error::{
    app_error_report, js_error_to_app_error, log_error_and_default, log_error_and_none, AppError,
    CanvasError, PerformanceLogger,
};

#[test]
fn app_error_messages_name_their_kind() {
    assert_eq!(
        AppError::BrowserEnv("no window".to_string()).to_string(),
        "Browser environment error: no window"
    );
    assert_eq!(AppError::Canvas("x".to_string()).to_string(), "Canvas error: x");
    assert_eq!(AppError::Dom("x".to_string()).to_string(), "DOM error: x");
    assert_eq!(AppError::Event("x".to_string()).to_string(), "Event error: x");
    assert_eq!(AppError::State("x".to_string()).to_string(), "State error: x");
    assert_eq!(AppError::Render("x".to_string()).to_string(), "Render error: x");
    assert_eq!(AppError::Generic("x".to_string()).to_string(), "Application error: x");
}

#[test]
fn recovery_hints_per_kind() {
    assert_eq!(
        AppError::Canvas(String::new()).recovery_hint(),
        "Try resizing the window or refreshing the page."
    );
    assert_eq!(
        AppError::Generic(String::new()).recovery_hint(),
        "An unexpected error occurred. Try refreshing the page."
    );
}

#[test]
fn error_report_joins_operation_message_and_hint() {
    let report = app_error_report(&AppError::Dom("gone".to_string()), "rendering");
    assert_eq!(
        report,
        "CoCoMiro Error during 'rendering': DOM error: gone\nRecovery: The page may have been modified. Try refreshing."
    );
}

#[test]
fn js_errors_become_event_errors() {
    assert_eq!(
        js_error_to_app_error("TypeError", "failed to attach listener"),
        AppError::Event("failed to attach listener: TypeError".to_string())
    );
}

#[test]
fn canvas_error_messages() {
    assert_eq!(CanvasError::CanvasNotFound.to_string(), "Canvas element not found");
    assert_eq!(
        CanvasError::ElementCastFailed("HtmlCanvasElement".to_string()).to_string(),
        "Failed to cast element to HtmlCanvasElement"
    );
    assert_eq!(
        CanvasError::SyntheticEventFailed("wheel".to_string()).to_string(),
        "Failed to create synthetic wheel event"
    );
    assert_eq!(
        CanvasError::WindowAccessFailed.log_line("setup"),
        "setup: Failed to access window object"
    );
    assert_eq!(CanvasError::from_js_error(42), CanvasError::ContextNotAvailable);
}

#[test]
fn canvas_error_fallbacks() {
    let n: u32 = log_error_and_default(CanvasError::CanvasNotFound, "ctx");
    assert_eq!(n, 0);
    let s: String = log_error_and_default(CanvasError::CanvasNotFound, "ctx");
    assert!(s.is_empty());
    let o: Option<u8> = log_error_and_none(CanvasError::ContextNotAvailable, "ctx");
    assert!(o.is_none());
}

#[test]
fn performance_log_lines() {
    assert_eq!(PerformanceLogger::log_state_change("Canvas", "zoom"), "State change in Canvas: zoom");
    assert_eq!(
        PerformanceLogger::log_user_interaction("click", "toolbar"),
        "User interaction: click - toolbar"
    );
    assert_eq!(PerformanceLogger::log_error("render", "boom"), "Error in render: boom");
}
