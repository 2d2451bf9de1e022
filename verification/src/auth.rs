//! Authentication state of the application.
//!
//! The browser side of sign-in (Google OAuth, stored tokens) is reached
//! through JavaScript calls that the application shell makes; this module
//! holds the state those calls drive and decides every transition from the
//! outcome the shell hands back.
use vstd::prelude::*;

verus! {

/// An authenticated user.
#[derive(Debug, Clone, PartialEq)]
pub struct User {
    /// Unique user identifier from Google.
    pub id: String,
    /// The user's email address.
    pub email: String,
    /// The user's display name.
    pub name: String,
    /// URL of the user's profile picture.
    pub picture: Option<String>,
}

impl User {
    /// Creates a user from its four fields.
    pub fn new(id: String, email: String, name: String, picture: Option<String>) -> (u: Self)
        ensures
            u.id == id,
            u.email == email,
            u.name == name,
            u.picture == picture,
    {
        User { id, email, name, picture }
    }
}

/// The authentication state of the application.
#[derive(Debug, Clone, PartialEq)]
pub enum AuthState {
    /// No user is signed in.
    Unauthenticated,
    /// The given user is signed in.
    Authenticated(User),
    /// A sign-in flow is in progress.
    Authenticating,
    /// Sign-in failed with the given message.
    Error(String),
}

impl Default for AuthState {
    fn default() -> (s: Self)
        ensures
            s is Unauthenticated,
    {
        AuthState::Unauthenticated
    }
}

impl AuthState {
    /// Whether a user is signed in.
    pub fn is_authenticated(&self) -> (b: bool)
        ensures
            b == (*self is Authenticated),
    {
        match self {
            AuthState::Authenticated(_) => true,
            _ => false,
        }
    }

    /// Whether a sign-in flow is in progress.
    pub fn is_authenticating(&self) -> (b: bool)
        ensures
            b == (*self is Authenticating),
    {
        match self {
            AuthState::Authenticating => true,
            _ => false,
        }
    }

    /// Whether sign-in failed.
    pub fn has_error(&self) -> (b: bool)
        ensures
            b == (*self is Error),
    {
        match self {
            AuthState::Error(_) => true,
            _ => false,
        }
    }

    /// The signed-in user, if any.
    pub fn user(&self) -> (u: Option<&User>)
        ensures
            match *self {
                AuthState::Authenticated(v) => u == Some(&v),
                _ => u is None,
            },
    {
        match self {
            AuthState::Authenticated(user) => Some(user),
            _ => None,
        }
    }

    /// The sign-in error message, if any.
    pub fn error_message(&self) -> (m: Option<&str>)
        ensures
            match *self {
                AuthState::Error(msg) => m is Some && m.unwrap()@ == msg@,
                _ => m is None,
            },
    {
        match self {
            AuthState::Error(msg) => Some(msg.as_str()),
            _ => None,
        }
    }
}

/// The state that `clear_error` leaves behind: an error becomes
/// unauthenticated, any other state stays.
pub open spec fn cleared(s: AuthState) -> AuthState {
    if s is Error {
        AuthState::Unauthenticated
    } else {
        s
    }
}

/// The error the shell reports for a JavaScript call into the sign-in module:
/// the call itself failed, or it returned something the library cannot use.
#[derive(Debug, Clone, PartialEq)]
pub enum JsCallError<E> {
    /// The JavaScript call failed with this value.
    Js(E),
    /// The call returned an unusable value; the message says what was wrong.
    Invalid(String),
}

/// The message reported when `GoogleAuth.isAuthenticated` returns no boolean.
pub open spec fn not_boolean_message() -> Seq<char> {
    "Expected boolean result from isAuthenticated"@
}

/// The fields of a user object returned by the sign-in module, each as the
/// string it holds, or `None` where the field is missing or not a string.
#[derive(Debug, Clone, PartialEq)]
pub struct UserRecord {
    pub id: Option<String>,
    pub email: Option<String>,
    pub name: Option<String>,
    pub picture: Option<String>,
}

/// The message reported for a missing or non-string required field.
pub open spec fn missing_field_message(field: Seq<char>) -> Seq<char> {
    "Missing or invalid "@ + field + " field"@
}

/// What converting a user record gives: the first missing required field,
/// in the order id, email, name, is reported; otherwise the user it describes.
pub open spec fn spec_user_of(r: UserRecord) -> Result<User, Seq<char>> {
    match (r.id, r.email, r.name) {
        (None, _, _) => Err(missing_field_message("id"@)),
        (Some(_), None, _) => Err(missing_field_message("email"@)),
        (Some(_), Some(_), None) => Err(missing_field_message("name"@)),
        (Some(id), Some(email), Some(name)) => Ok(
            User { id: id, email: email, name: name, picture: r.picture },
        ),
    }
}

fn missing_field(field: &str) -> (m: String)
    ensures
        m@ == missing_field_message(field@),
{
    let mut m = String::from_str("Missing or invalid ");
    m.append(field);
    m.append(" field");
    m
}

impl UserRecord {
    /// Converts the record into a user, reporting the first missing field.
    pub fn into_user(self) -> (r: Result<User, String>)
        ensures
            match (r, spec_user_of(self)) {
                (Ok(u), Ok(v)) => u == v,
                (Err(m), Err(w)) => m@ == w,
                _ => false,
            },
    {
        match self.id {
            None => Err(missing_field("id")),
            Some(id) => match self.email {
                None => Err(missing_field("email")),
                Some(email) => match self.name {
                    None => Err(missing_field("name")),
                    Some(name) => Ok(User::new(id, email, name, self.picture)),
                },
            },
        }
    }
}

/// Holds the authentication state and performs its transitions.
#[derive(Debug, Clone)]
pub struct AuthManager {
    state: AuthState,
}

impl View for AuthManager {
    type V = AuthState;

    closed spec fn view(&self) -> AuthState {
        self.state
    }
}

impl Default for AuthManager {
    fn default() -> (m: Self)
        ensures
            m@ is Unauthenticated,
    {
        Self::new()
    }
}

impl AuthManager {
    /// A manager with no user signed in.
    pub fn new() -> (m: Self)
        ensures
            m@ is Unauthenticated,
    {
        AuthManager { state: AuthState::Unauthenticated }
    }

    /// The current state.
    pub fn state(&self) -> (s: &AuthState)
        ensures
            *s == self@,
    {
        &self.state
    }

    /// Signs the given user in.
    pub fn set_authenticated(&mut self, user: User)
        ensures
            final(self)@ == AuthState::Authenticated(user),
    {
        self.state = AuthState::Authenticated(user);
    }

    /// Signs out.
    pub fn set_unauthenticated(&mut self)
        ensures
            final(self)@ is Unauthenticated,
    {
        self.state = AuthState::Unauthenticated;
    }

    /// Marks a sign-in flow as in progress.
    pub fn set_authenticating(&mut self)
        ensures
            final(self)@ is Authenticating,
    {
        self.state = AuthState::Authenticating;
    }

    /// Records a sign-in failure with the given message.
    pub fn set_error(&mut self, message: String)
        ensures
            final(self)@ == AuthState::Error(message),
    {
        self.state = AuthState::Error(message);
    }

    /// Clears an error, leaving the manager unauthenticated; other states stay.
    pub fn clear_error(&mut self)
        ensures
            final(self)@ == cleared(old(self)@),
    {
        if self.state.has_error() {
            self.state = AuthState::Unauthenticated;
        }
    }

    /// Applies the outcome of `GoogleAuth.restoreState`: on failure the manager
    /// becomes unauthenticated, on success it stays as it is (the sign-in
    /// module reports a restored user later).  Never fails.
    pub fn initialize_from_storage<T, E>(&mut self, restored: Result<T, E>) -> (r: Result<
        (),
        String,
    >)
        ensures
            r is Ok,
            restored is Ok ==> final(self)@ == old(self)@,
            restored is Err ==> final(self)@ is Unauthenticated,
    {
        match restored {
            Ok(_) => Ok(()),
            Err(_) => {
                self.set_unauthenticated();
                Ok(())
            },
        }
    }

    /// Starts the sign-in flow: the manager becomes authenticating, and the
    /// outcome of `GoogleAuth.login` is returned.
    pub fn login<T, E>(&mut self, started: Result<T, E>) -> (r: Result<(), E>)
        ensures
            final(self)@ is Authenticating,
            match started {
                Ok(_) => r is Ok,
                Err(e) => r == Err::<(), E>(e),
            },
    {
        self.set_authenticating();
        match started {
            Ok(_) => Ok(()),
            Err(e) => Err(e),
        }
    }

    /// Signs out: the manager becomes unauthenticated whatever the outcome of
    /// `GoogleAuth.logout`, and that outcome's error is returned.
    pub fn logout<T, E>(&mut self, cleared_storage: Result<T, E>) -> (r: Result<(), E>)
        ensures
            final(self)@ is Unauthenticated,
            match cleared_storage {
                Ok(_) => r is Ok,
                Err(e) => r == Err::<(), E>(e),
            },
    {
        match cleared_storage {
            Ok(_) => {
                self.set_unauthenticated();
                Ok(())
            },
            Err(e) => {
                self.set_unauthenticated();
                Err(e)
            },
        }
    }

    /// Records a successful sign-in reported by the sign-in module.
    pub fn handle_auth_success(&mut self, user: User)
        ensures
            final(self)@ == AuthState::Authenticated(user),
    {
        self.set_authenticated(user);
    }

    /// Records a sign-in error reported by the sign-in module.
    pub fn handle_auth_error(&mut self, error: String)
        ensures
            final(self)@ == AuthState::Error(error),
    {
        self.set_error(error);
    }

    /// Interprets the reply of `GoogleAuth.isAuthenticated`: `Some(b)` when
    /// the call returned the boolean `b`, `None` when it returned anything
    /// else.  The state is left unchanged.
    pub fn check_auth_status<E>(&mut self, reply: Result<Option<bool>, E>) -> (r: Result<
        bool,
        JsCallError<E>,
    >)
        ensures
            final(self)@ == old(self)@,
            match reply {
                Ok(Some(b)) => r == Ok::<bool, JsCallError<E>>(b),
                Ok(None) => r matches Err(JsCallError::Invalid(m)) && m@ == not_boolean_message(),
                Err(e) => r == Err::<bool, JsCallError<E>>(JsCallError::Js(e)),
            },
    {
        match reply {
            Ok(Some(b)) => Ok(b),
            Ok(None) => Err(
                JsCallError::Invalid(String::from_str("Expected boolean result from isAuthenticated")),
            ),
            Err(e) => Err(JsCallError::Js(e)),
        }
    }

    /// Interprets the reply of `GoogleAuth.getUser`: `Ok(None)` when it
    /// returned null or undefined, `Ok(Some(record))` for a user object.
    pub fn get_current_user<E>(&self, reply: Result<Option<UserRecord>, E>) -> (r: Result<
        Option<User>,
        JsCallError<E>,
    >)
        ensures
            match reply {
                Ok(None) => r == Ok::<Option<User>, JsCallError<E>>(None),
                Ok(Some(rec)) => match spec_user_of(rec) {
                    Ok(u) => r == Ok::<Option<User>, JsCallError<E>>(Some(u)),
                    Err(m) => r matches Err(JsCallError::Invalid(w)) && w@ == m,
                },
                Err(e) => r == Err::<Option<User>, JsCallError<E>>(JsCallError::Js(e)),
            },
    {
        match reply {
            Ok(None) => Ok(None),
            Ok(Some(record)) => match record.into_user() {
                Ok(user) => Ok(Some(user)),
                Err(message) => Err(JsCallError::Invalid(message)),
            },
            Err(e) => Err(JsCallError::Js(e)),
        }
    }
}

/// A user record with an id, an email and a name converts to the user with
/// that id, email, name and picture, field for field; a record missing any of
/// the three converts to an error.
pub proof fn law_complete_record_is_its_user(r: UserRecord)
    ensures
        (r.id is Some && r.email is Some && r.name is Some) <==> spec_user_of(r) is Ok,
        spec_user_of(r) matches Ok(u) ==> {
            &&& Some(u.id) == r.id
            &&& Some(u.email) == r.email
            &&& Some(u.name) == r.name
            &&& u.picture == r.picture
        },
{
}

/// Exactly one of the four states holds at any time: signed in, signing in,
/// failed, or signed out.
pub proof fn law_states_exclusive(s: AuthState)
    ensures
        (s is Authenticated) as int + (s is Authenticating) as int + (s is Error) as int + (
        s is Unauthenticated) as int == 1,
{
}

/// Clearing an error twice is the same as clearing it once, and leaves no error.
pub proof fn law_clear_error_idempotent(s: AuthState)
    ensures
        cleared(cleared(s)) == cleared(s),
        !(cleared(s) is Error),
{
}

} // verus!
