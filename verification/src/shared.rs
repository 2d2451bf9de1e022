//! Data exchanged between the front end and the health-check server.
use vstd::prelude::*;

verus! {

/// The reply of the server's health check.
#[derive(Debug, Clone, PartialEq)]
pub struct HealthResponse {
    pub status: String,
    pub timestamp: String,
}

/// A sticky note as the front end and the server exchange it.  Its position
/// `P` and size `S` are geometry that the application shell defines; no
/// decision of the library reads them.
#[derive(Debug, Clone, PartialEq)]
pub struct StickyNote<P, S> {
    pub id: String,
    pub position: P,
    pub content: String,
    pub size: S,
}

/// A sticky note with its texts taken as character sequences.
pub struct NoteView<P, S> {
    pub id: Seq<char>,
    pub position: P,
    pub content: Seq<char>,
    pub size: S,
}

impl<P, S> View for StickyNote<P, S> {
    type V = NoteView<P, S>;

    open spec fn view(&self) -> NoteView<P, S> {
        NoteView { id: self.id@, position: self.position, content: self.content@, size: self.size }
    }
}

/// An error reported by the server.
#[derive(Debug, Clone, PartialEq)]
pub struct ApiError {
    pub message: String,
    pub code: u16,
}

impl HealthResponse {
    /// The reply of a healthy server: status "OK", stamped with `timestamp`.
    pub fn healthy(timestamp: String) -> (r: HealthResponse)
        ensures
            r.status@ == "OK"@,
            r.timestamp == timestamp,
    {
        HealthResponse { status: String::from_str("OK"), timestamp }
    }
}

/// The outcome of the front end's health check, from the HTTP status of the
/// reply and its body text (`None` when the body is not a string): the body,
/// empty if missing, for status 200; an error for any other status.
pub fn health_check_outcome(status: u16, body: Option<String>) -> (r: Result<String, String>)
    ensures
        status == 200 ==> match body {
            Some(b) => r == Ok::<String, String>(b),
            None => r is Ok && r.unwrap()@ == Seq::<char>::empty(),
        },
        status != 200 ==> r is Err && r->Err_0@ == "Health check failed"@,
{
    if status == 200 {
        match body {
            Some(b) => Ok(b),
            None => Ok(String::new()),
        }
    } else {
        Err(String::from_str("Health check failed"))
    }
}

} // verus!
