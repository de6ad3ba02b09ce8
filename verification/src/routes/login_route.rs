//! `POST api/auth/login` and what its answers mean.

use crate::routes::Route;
use vstd::prelude::*;

verus! {

/// `POST api/auth/login`: the credentials, and the two-factor code when the
/// account needs one (left out of the body when absent).
pub struct LoginRoute {
    pub username: String,
    pub password: String,
    pub two_factor: Option<String>,
}

impl Route for LoginRoute {
    fn get_route() -> (r: &'static str)
        ensures
            r@ == "api/auth/login"@,
    {
        "api/auth/login"
    }
}

/// The server's answer to a login attempt. The wire form tells the variants
/// apart by constant fields (`loggedIn: true`, `error: "password_wrong"`, ...),
/// which carry nothing beyond the variant itself.
#[derive(Debug, PartialEq)]
pub enum LoginResponse {
    Success,
    PasswordExpired {
        email_for_messages_enabled: bool,
        email_for_substitutions_enabled: bool,
        show_switch_notification_substitution: bool,
    },
    InvalidPassword,
    InvalidUser,
    TwoFactorNeeded,
    /// Any other refusal (`loggedIn: false`), with the server's error code and
    /// optional message.
    Failure { error: String, message: Option<String> },
}

/// The reason a login attempt did not produce a session.
#[derive(Debug, PartialEq)]
pub enum SchoolLoginErrorInner {
    PasswordExpired,
    InvalidPassword,
    InvalidUser,
    TwoFactorNeeded,
    OtherError { error: String, message: String },
}

/// Whether a login answer maps to the given error.
pub open spec fn login_error_of(response: LoginResponse, e: SchoolLoginErrorInner) -> bool {
    match response {
        LoginResponse::Success => false,
        LoginResponse::PasswordExpired { .. } => e == SchoolLoginErrorInner::PasswordExpired,
        LoginResponse::InvalidPassword => e == SchoolLoginErrorInner::InvalidPassword,
        LoginResponse::InvalidUser => e == SchoolLoginErrorInner::InvalidUser,
        LoginResponse::TwoFactorNeeded => e == SchoolLoginErrorInner::TwoFactorNeeded,
        LoginResponse::Failure { error, message } => e matches SchoolLoginErrorInner::OtherError {
            error: e_error,
            message: e_message,
        } && e_error@ == error@ && e_message@ == match message {
            Some(m) => m@,
            None => error@,
        },
    }
}

impl LoginResponse {
    /// What the answer means for the login: success, or the reason it failed;
    /// a failure without a message repeats its error code as the message.
    pub fn into_outcome(self) -> (r: Result<(), SchoolLoginErrorInner>)
        ensures
            self is Success <==> r is Ok,
            r matches Err(e) ==> login_error_of(self, e),
    {
        match self {
            LoginResponse::Success => Ok(()),
            LoginResponse::PasswordExpired { .. } => Err(SchoolLoginErrorInner::PasswordExpired),
            LoginResponse::InvalidPassword => Err(SchoolLoginErrorInner::InvalidPassword),
            LoginResponse::InvalidUser => Err(SchoolLoginErrorInner::InvalidUser),
            LoginResponse::TwoFactorNeeded => Err(SchoolLoginErrorInner::TwoFactorNeeded),
            LoginResponse::Failure { error, message } => {
                let message = match message {
                    Some(m) => m,
                    None => error.clone(),
                };
                Err(SchoolLoginErrorInner::OtherError { error, message })
            },
        }
    }
}

impl SchoolLoginErrorInner {
    /// The error's message.
    pub fn to_string(&self) -> (r: String)
        ensures
            r@ == match self {
                SchoolLoginErrorInner::PasswordExpired => "the password has expired"@,
                SchoolLoginErrorInner::InvalidPassword => "the password is wrong"@,
                SchoolLoginErrorInner::InvalidUser => "the user was not found"@,
                SchoolLoginErrorInner::TwoFactorNeeded => "2fa needed"@,
                SchoolLoginErrorInner::OtherError { error, message } => "["@ + error@ + "] "@
                    + message@,
            },
    {
        match self {
            SchoolLoginErrorInner::PasswordExpired => String::from_str("the password has expired"),
            SchoolLoginErrorInner::InvalidPassword => String::from_str("the password is wrong"),
            SchoolLoginErrorInner::InvalidUser => String::from_str("the user was not found"),
            SchoolLoginErrorInner::TwoFactorNeeded => String::from_str("2fa needed"),
            SchoolLoginErrorInner::OtherError { error, message } => {
                let mut out = String::from_str("[");
                out.append(error.as_str());
                out.append("] ");
                out.append(message.as_str());
                out
            },
        }
    }
}

} // verus!
