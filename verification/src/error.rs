//! Error types of the canvas application and the messages reported for them.
use vstd::prelude::*;

use crate::strings::concat2;

verus! {

/// Application errors, by the part of the application that failed.
#[derive(Debug, Clone, PartialEq)]
pub enum AppError {
    /// Browser environment errors (missing window, document, ...).
    BrowserEnv(String),
    /// Canvas errors (context creation, rendering failures).
    Canvas(String),
    /// DOM manipulation errors (element access, property setting).
    Dom(String),
    /// Event handling errors (listener attachment failures).
    Event(String),
    /// State management errors (invalid state transitions).
    State(String),
    /// Rendering errors (drawing failures, context issues).
    Render(String),
    /// Any other application error.
    Generic(String),
}

/// The prefix that the message of each kind of error starts with.
pub open spec fn app_error_prefix(e: AppError) -> Seq<char> {
    match e {
        AppError::BrowserEnv(_) => "Browser environment error: "@,
        AppError::Canvas(_) => "Canvas error: "@,
        AppError::Dom(_) => "DOM error: "@,
        AppError::Event(_) => "Event error: "@,
        AppError::State(_) => "State error: "@,
        AppError::Render(_) => "Render error: "@,
        AppError::Generic(_) => "Application error: "@,
    }
}

/// The detail text an error carries.
pub open spec fn app_error_detail(e: AppError) -> Seq<char> {
    match e {
        AppError::BrowserEnv(m) => m@,
        AppError::Canvas(m) => m@,
        AppError::Dom(m) => m@,
        AppError::Event(m) => m@,
        AppError::State(m) => m@,
        AppError::Render(m) => m@,
        AppError::Generic(m) => m@,
    }
}

/// The recovery advice logged with each kind of error.
pub open spec fn app_error_hint(e: AppError) -> Seq<char> {
    match e {
        AppError::BrowserEnv(_) => "Try refreshing the page or checking your browser compatibility."@,
        AppError::Canvas(_) => "Try resizing the window or refreshing the page."@,
        AppError::Dom(_) => "The page may have been modified. Try refreshing."@,
        AppError::Event(_) => "Interaction may be limited. Try refreshing the page."@,
        AppError::State(_) => "Application state may be corrupted. Try refreshing the page."@,
        AppError::Render(_) => "Rendering failed. Try refreshing the page."@,
        AppError::Generic(_) => "An unexpected error occurred. Try refreshing the page."@,
    }
}

impl AppError {
    /// The human-readable message of the error: a prefix naming its kind,
    /// then its detail text.
    pub fn to_string(&self) -> (s: String)
        ensures
            s@ == app_error_prefix(*self) + app_error_detail(*self),
    {
        match self {
            AppError::BrowserEnv(m) => concat2("Browser environment error: ", m.as_str()),
            AppError::Canvas(m) => concat2("Canvas error: ", m.as_str()),
            AppError::Dom(m) => concat2("DOM error: ", m.as_str()),
            AppError::Event(m) => concat2("Event error: ", m.as_str()),
            AppError::State(m) => concat2("State error: ", m.as_str()),
            AppError::Render(m) => concat2("Render error: ", m.as_str()),
            AppError::Generic(m) => concat2("Application error: ", m.as_str()),
        }
    }

    /// The recovery advice for this kind of error.
    pub fn recovery_hint(&self) -> (h: &'static str)
        ensures
            h@ == app_error_hint(*self),
    {
        match self {
            AppError::BrowserEnv(_) => "Try refreshing the page or checking your browser compatibility.",
            AppError::Canvas(_) => "Try resizing the window or refreshing the page.",
            AppError::Dom(_) => "The page may have been modified. Try refreshing.",
            AppError::Event(_) => "Interaction may be limited. Try refreshing the page.",
            AppError::State(_) => "Application state may be corrupted. Try refreshing the page.",
            AppError::Render(_) => "Rendering failed. Try refreshing the page.",
            AppError::Generic(_) => "An unexpected error occurred. Try refreshing the page.",
        }
    }
}

/// The report logged when `operation` fails with `error`.
pub open spec fn app_error_report_text(error: AppError, operation: Seq<char>) -> Seq<char> {
    "CoCoMiro Error during '"@ + operation + "': "@ + app_error_prefix(error) + app_error_detail(
        error,
    ) + "\nRecovery: "@ + app_error_hint(error)
}

/// The console report for a failed operation: the operation, the error's
/// message and its recovery advice.
pub fn app_error_report(error: &AppError, operation: &str) -> (s: String)
    ensures
        s@ == app_error_report_text(*error, operation@),
{
    let mut s = String::from_str("CoCoMiro Error during '");
    s.append(operation);
    s.append("': ");
    let message = error.to_string();
    s.append(message.as_str());
    s.append("\nRecovery: ");
    s.append(error.recovery_hint());
    s
}

/// The event error for a failed JavaScript call: the context, a colon, and
/// the text of the JavaScript error (its string value, or its debug form).
pub fn js_error_to_app_error(js_message: &str, context: &str) -> (e: AppError)
    ensures
        e matches AppError::Event(m) && m@ == context@ + ": "@ + js_message@,
{
    let mut m = String::from_str(context);
    m.append(": ");
    m.append(js_message);
    AppError::Event(m)
}

/// Errors of canvas and DOM operations in the component front end.
#[derive(Debug, Clone, PartialEq)]
pub enum CanvasError {
    CanvasNotFound,
    ContextNotAvailable,
    ElementCastFailed(String),
    WindowAccessFailed,
    SyntheticEventFailed(String),
}

/// The message of each canvas error.
pub open spec fn canvas_error_text(e: CanvasError) -> Seq<char> {
    match e {
        CanvasError::CanvasNotFound => "Canvas element not found"@,
        CanvasError::ContextNotAvailable => "Canvas 2D context not available"@,
        CanvasError::ElementCastFailed(t) => "Failed to cast element to "@ + t@,
        CanvasError::WindowAccessFailed => "Failed to access window object"@,
        CanvasError::SyntheticEventFailed(t) => "Failed to create synthetic "@ + t@ + " event"@,
    }
}

impl CanvasError {
    /// The human-readable message of the error.
    pub fn to_string(&self) -> (s: String)
        ensures
            s@ == canvas_error_text(*self),
    {
        match self {
            CanvasError::CanvasNotFound => String::from_str("Canvas element not found"),
            CanvasError::ContextNotAvailable => String::from_str("Canvas 2D context not available"),
            CanvasError::ElementCastFailed(t) => concat2("Failed to cast element to ", t.as_str()),
            CanvasError::WindowAccessFailed => String::from_str("Failed to access window object"),
            CanvasError::SyntheticEventFailed(t) => {
                let mut s = String::from_str("Failed to create synthetic ");
                s.append(t.as_str());
                s.append(" event");
                s
            },
        }
    }

    /// The canvas error that any failed JavaScript call is reported as.
    pub fn from_js_error<E>(_error: E) -> (e: CanvasError)
        ensures
            e is ContextNotAvailable,
    {
        CanvasError::ContextNotAvailable
    }

    /// The line logged for this error in the given context.
    pub fn log_line(&self, context: &str) -> (s: String)
        ensures
            s@ == context@ + ": "@ + canvas_error_text(*self),
    {
        let mut s = String::from_str(context);
        s.append(": ");
        let message = self.to_string();
        s.append(message.as_str());
        s
    }
}

/// The fallback value after a logged canvas error: the type's default.
pub fn log_error_and_default<T: Default>(_error: CanvasError, _context: &str) -> (r: T)
    ensures
        call_ensures(T::default, (), r),
{
    T::default()
}

/// The fallback value after a logged canvas error: nothing.
pub fn log_error_and_none<T>(_error: CanvasError, _context: &str) -> (r: Option<T>)
    ensures
        r is None,
{
    None
}

/// Formats the log lines of the component front end.
pub struct PerformanceLogger;

impl PerformanceLogger {
    /// The line logged for a state change in a component.
    pub fn log_state_change(component: &str, action: &str) -> (s: String)
        ensures
            s@ == "State change in "@ + component@ + ": "@ + action@,
    {
        let mut s = String::from_str("State change in ");
        s.append(component);
        s.append(": ");
        s.append(action);
        s
    }

    /// The line logged for a user interaction.
    pub fn log_user_interaction(interaction: &str, details: &str) -> (s: String)
        ensures
            s@ == "User interaction: "@ + interaction@ + " - "@ + details@,
    {
        let mut s = String::from_str("User interaction: ");
        s.append(interaction);
        s.append(" - ");
        s.append(details);
        s
    }

    /// The line logged for an error in a context.
    pub fn log_error(context: &str, error: &str) -> (s: String)
        ensures
            s@ == "Error in "@ + context@ + ": "@ + error@,
    {
        let mut s = String::from_str("Error in ");
        s.append(context);
        s.append(": ");
        s.append(error);
        s
    }
}

} // verus!
