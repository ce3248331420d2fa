use homebase::auth::{authenticate, login_retry_target, login_success_target, User};

fn user(password: &str) -> User {
    User { id: 7, username: "jane".to_string(), password_hash: password_auth::generate_hash(password) }
}

#[test]
fn authenticate_checks_the_password() {
    let u = authenticate(Some(user("password")), "password").expect("right password");
    assert_eq!(u.id(), 7);
    assert!(authenticate(Some(user("password")), "wrong").is_none());
    assert!(authenticate(None, "password").is_none());
}

#[test]
fn session_hash_is_the_password_hash() {
    let u = user("password");
    assert_eq!(u.session_auth_hash(), u.password_hash.as_bytes());
}

#[test]
fn login_redirect_targets() {
    assert_eq!(login_success_target(&None), "/");
    assert_eq!(login_success_target(&Some("/dashboard".to_string())), "/dashboard");
    assert_eq!(login_retry_target(&None), "/login");
    assert_eq!(login_retry_target(&Some("/dashboard".to_string())), "/login?next=/dashboard");
}
