use cocomiro::editor::{paste_source, PasteSource};
use cocomiro::editor::{editor_initial_html, formatting_tag, get_available_colors};
use cocomiro::markup::{app_markup, APP_MARKUP};
use cocomiro::shared::{health_check_outcome, ApiError, HealthResponse};
use cocomiro::sticky_notes::{ResizeHandle, TextFormat};

#[test]
fn plain_content_gets_br_tags() {
    assert_eq!(editor_initial_html("one\ntwo\n"), "one<br>two<br>");
    assert_eq!(editor_initial_html("no breaks"), "no breaks");
    assert_eq!(editor_initial_html(""), "");
}

#[test]
fn html_content_is_kept() {
    assert_eq!(editor_initial_html("<b>x</b>\ny"), "<b>x</b>\ny");
    assert_eq!(editor_initial_html("a < b\nc"), "a < b<br>c");
}

#[test]
fn formatting_tags() {
    assert_eq!(formatting_tag("bold"), Some("b"));
    assert_eq!(formatting_tag("italic"), Some("i"));
    assert_eq!(formatting_tag("underline"), Some("u"));
    assert_eq!(formatting_tag("strike"), None);
}

#[test]
fn available_colors_in_order() {
    let colors = get_available_colors();
    assert_eq!(colors.len(), 5);
    assert_eq!(colors[0], ("#ffff88", "Yellow"));
    assert_eq!(colors[4], ("#d3d3d3", "Light Grey"));
}

#[test]
fn markup_has_the_shell_elements() {
    let markup = app_markup();
    assert_eq!(markup, APP_MARKUP);
    for id in ["infinite-canvas", "floating-toolbar", "floating-toolbar-handle", "add-note-button", "login-overlay", "canvas-status"] {
        assert!(markup.contains(&format!("id=\"{id}\"")), "missing {id}");
    }
}

#[test]
fn resize_handle_cursors() {
    assert_eq!(ResizeHandle::TopLeft.cursor(), "nw-resize");
    assert_eq!(ResizeHandle::BottomRight.cursor(), "nw-resize");
    assert_eq!(ResizeHandle::Top.cursor(), "n-resize");
    assert_eq!(ResizeHandle::Bottom.cursor(), "n-resize");
    assert_eq!(ResizeHandle::TopRight.cursor(), "ne-resize");
    assert_eq!(ResizeHandle::BottomLeft.cursor(), "ne-resize");
    assert_eq!(ResizeHandle::Left.cursor(), "e-resize");
    assert_eq!(ResizeHandle::Right.cursor(), "e-resize");
    let span = TextFormat { start: 0, end: 3, bold: true, italic: false, underline: false };
    assert_eq!(span.end - span.start, 3);
}

#[test]
fn health_replies() {
    let reply = HealthResponse::healthy("2024-01-01T00:00:00Z".to_string());
    assert_eq!(reply.status, "OK");
    assert_eq!(reply.timestamp, "2024-01-01T00:00:00Z");
    assert_eq!(health_check_outcome(200, Some("ok".to_string())), Ok("ok".to_string()));
    assert_eq!(health_check_outcome(200, None), Ok(String::new()));
    assert_eq!(health_check_outcome(503, Some("down".to_string())), Err("Health check failed".to_string()));
    let error = ApiError { message: "bad".to_string(), code: 400 };
    assert_eq!(error.code, 400);
}

#[test]
fn paste_prefers_plain_text() {
    assert_eq!(
        paste_source(Some("hi".to_string()), Some("<b>x</b>".to_string())),
        PasteSource::Plain("hi".to_string())
    );
    assert_eq!(
        paste_source(Some(String::new()), Some("<b>x</b>".to_string())),
        PasteSource::Html("<b>x</b>".to_string())
    );
    assert_eq!(paste_source(None, Some(String::new())), PasteSource::Html(String::new()));
    assert_eq!(paste_source(Some(String::new()), None), PasteSource::Nothing);
    assert_eq!(paste_source(None, None), PasteSource::Nothing);
}
