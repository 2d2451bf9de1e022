use cocomiro::auth::{AuthManager, AuthState, JsCallError, User, UserRecord};

fn alice() -> User {
    User::new(
        "id-1".to_string(),
        "alice@example.com".to_string(),
        "Alice".to_string(),
        None,
    )
}

#[test]
fn new_manager_is_unauthenticated() {
    let manager = AuthManager::new();
    assert_eq!(manager.state(), &AuthState::Unauthenticated);
    assert!(!manager.state().is_authenticated());
    assert!(manager.state().user().is_none());
    assert_eq!(AuthState::default(), AuthState::Unauthenticated);
}

#[test]
fn auth_success_reports_the_user() {
    let mut manager = AuthManager::default();
    manager.handle_auth_success(alice());
    assert!(manager.state().is_authenticated());
    assert_eq!(manager.state().user(), Some(&alice()));
    assert!(!manager.state().has_error());
    assert!(manager.state().error_message().is_none());
}

#[test]
fn auth_error_then_clear() {
    let mut manager = AuthManager::new();
    manager.handle_auth_error("denied".to_string());
    assert!(manager.state().has_error());
    assert_eq!(manager.state().error_message(), Some("denied"));
    manager.clear_error();
    assert_eq!(manager.state(), &AuthState::Unauthenticated);
    manager.clear_error();
    assert_eq!(manager.state(), &AuthState::Unauthenticated);
}

#[test]
fn clear_error_keeps_other_states() {
    let mut manager = AuthManager::new();
    manager.set_authenticated(alice());
    manager.clear_error();
    assert!(manager.state().is_authenticated());
    manager.set_authenticating();
    manager.clear_error();
    assert!(manager.state().is_authenticating());
}

#[test]
fn login_marks_authenticating_and_passes_the_error_on() {
    let mut manager = AuthManager::new();
    assert_eq!(manager.login::<(), &str>(Ok(())), Ok(()));
    assert!(manager.state().is_authenticating());
    let mut manager = AuthManager::new();
    assert_eq!(manager.login::<(), &str>(Err("popup blocked")), Err("popup blocked"));
    assert!(manager.state().is_authenticating());
}

#[test]
fn logout_always_signs_out() {
    let mut manager = AuthManager::new();
    manager.set_authenticated(alice());
    assert_eq!(manager.logout::<(), i32>(Ok(())), Ok(()));
    assert_eq!(manager.state(), &AuthState::Unauthenticated);
    manager.set_authenticated(alice());
    assert_eq!(manager.logout::<(), i32>(Err(7)), Err(7));
    assert_eq!(manager.state(), &AuthState::Unauthenticated);
}

#[test]
fn initialize_from_storage_never_fails() {
    let mut manager = AuthManager::new();
    manager.set_authenticating();
    assert_eq!(manager.initialize_from_storage::<(), ()>(Ok(())), Ok(()));
    assert!(manager.state().is_authenticating());
    assert_eq!(manager.initialize_from_storage::<(), ()>(Err(())), Ok(()));
    assert_eq!(manager.state(), &AuthState::Unauthenticated);
}

#[test]
fn check_auth_status_reads_a_boolean() {
    let mut manager = AuthManager::new();
    assert_eq!(manager.check_auth_status::<()>(Ok(Some(true))), Ok(true));
    assert_eq!(manager.check_auth_status::<()>(Ok(Some(false))), Ok(false));
    assert_eq!(
        manager.check_auth_status::<()>(Ok(None)),
        Err(JsCallError::Invalid(
            "Expected boolean result from isAuthenticated".to_string()
        ))
    );
    assert_eq!(manager.check_auth_status::<u8>(Err(3)), Err(JsCallError::Js(3)));
    assert_eq!(manager.state(), &AuthState::Unauthenticated);
}

#[test]
fn get_current_user_reads_the_record() {
    let manager = AuthManager::new();
    assert_eq!(manager.get_current_user::<()>(Ok(None)), Ok(None));
    let record = UserRecord {
        id: Some("id-1".to_string()),
        email: Some("alice@example.com".to_string()),
        name: Some("Alice".to_string()),
        picture: Some("https://example.com/a.png".to_string()),
    };
    let user = manager.get_current_user::<()>(Ok(Some(record))).unwrap().unwrap();
    assert_eq!(user.name, "Alice");
    assert_eq!(user.picture.as_deref(), Some("https://example.com/a.png"));
    assert_eq!(manager.get_current_user::<i8>(Err(-1)), Err(JsCallError::Js(-1)));
}

#[test]
fn missing_fields_are_reported_in_order() {
    let record = UserRecord { id: None, email: None, name: None, picture: None };
    assert_eq!(record.into_user(), Err("Missing or invalid id field".to_string()));
    let record = UserRecord { id: Some("i".to_string()), email: None, name: None, picture: None };
    assert_eq!(record.into_user(), Err("Missing or invalid email field".to_string()));
    let record = UserRecord {
        id: Some("i".to_string()),
        email: Some("e".to_string()),
        name: None,
        picture: None,
    };
    let manager = AuthManager::new();
    assert_eq!(
        manager.get_current_user::<()>(Ok(Some(record))),
        Err(JsCallError::Invalid("Missing or invalid name field".to_string()))
    );
}

#[test]
fn states_are_mutually_exclusive() {
    let states = [
        AuthState::Unauthenticated,
        AuthState::Authenticated(alice()),
        AuthState::Authenticating,
        AuthState::Error("e".to_string()),
    ];
    for state in states.iter() {
        let flags = [state.is_authenticated(), state.is_authenticating(), state.has_error()];
        assert!(flags.iter().filter(|f| **f).count() <= 1);
    }
}
