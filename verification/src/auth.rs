//! Users, their credentials, and where a login attempt leads.

use vstd::prelude::*;
use vstd::string::StringExecFns;

verus! {

/// A user of the application; the password is kept only as a hash.
pub struct User {
    pub id: i64,
    pub username: String,
    pub password_hash: String,
}

impl User {
    /// The identifier sessions remember the user by.
    pub fn id(&self) -> (r: i64)
        ensures
            r == self.id,
    {
        self.id
    }

    /// The bytes that tie a session to the user's current password: the
    /// password hash, so that changing the password ends existing sessions.
    pub fn session_auth_hash(&self) -> (r: &[u8])
        ensures
            r@ == vstd::utf8::encode_utf8(self.password_hash@),
    {
        self.password_hash.as_str().as_bytes()
    }
}

/// What the login form submits.
#[derive(Debug)]
pub struct Credentials {
    pub username: String,
    pub password: String,
    /// Where to go after signing in.
    pub next: Option<String>,
}

/// Whether `password_auth::verify_password` accepts `password` against the
/// stored `hash`.
pub uninterp spec fn password_verifies(password: Seq<char>, hash: Seq<char>) -> bool;

/// `password_auth::verify_password(password, hash).is_ok()`: whether the hash
/// (a PHC string naming its algorithm, parameters and salt) was made from this
/// password. The answer depends on the two strings alone.
#[verifier::external_body]
fn verify_password(password: &str, hash: &str) -> (r: bool)
    ensures
        r == password_verifies(password@, hash@),
{
    password_auth::verify_password(password, hash).is_ok()
}

/// Keeps the user found under the submitted username only when the submitted
/// password matches the user's hash.
pub fn authenticate(user: Option<User>, password: &str) -> (r: Option<User>)
    ensures
        r == (match user {
            Some(u) => if password_verifies(password@, u.password_hash@) { Some(u) } else { None },
            None => None,
        }),
{
    match user {
        Some(u) => {
            if verify_password(password, u.password_hash.as_str()) {
                Some(u)
            } else {
                None
            }
        },
        None => None,
    }
}

/// Where a signed-in user is sent: the requested page, or home.
pub fn login_success_target(next: &Option<String>) -> (r: String)
    ensures
        r@ == (match next {
            Some(n) => n@,
            None => "/"@,
        }),
{
    match next {
        Some(n) => n.clone(),
        None => String::from_str("/"),
    }
}

/// Where a failed login is sent: back to the login page, keeping the page
/// that was asked for.
pub fn login_retry_target(next: &Option<String>) -> (r: String)
    ensures
        r@ == (match next {
            Some(n) => "/login?next="@ + n@,
            None => "/login"@,
        }),
{
    match next {
        Some(n) => {
            let mut r = String::from_str("/login?next=");
            r.append(n.as_str());
            r
        },
        None => String::from_str("/login"),
    }
}

} // verus!
