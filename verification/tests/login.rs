use digreg_api::routes::login_route::{LoginResponse, SchoolLoginErrorInner};
use digreg_api::routes::FetchError;
use digreg_api::{School, SchoolLoginError};

fn outcome(response: LoginResponse) -> Result<(), SchoolLoginErrorInner> {
    response.into_outcome()
}

#[test]
fn success_response_maps_to_ok() {
    assert_eq!(outcome(LoginResponse::Success), Ok(()));
}

#[test]
fn wrong_password_response_maps_to_invalid_password() {
    assert_eq!(outcome(LoginResponse::InvalidPassword), Err(SchoolLoginErrorInner::InvalidPassword));
}

#[test]
fn unknown_user_response_maps_to_invalid_user() {
    assert_eq!(outcome(LoginResponse::InvalidUser), Err(SchoolLoginErrorInner::InvalidUser));
}

#[test]
fn password_expired_response_maps_to_password_expired() {
    let response = LoginResponse::PasswordExpired {
        email_for_messages_enabled: false,
        email_for_substitutions_enabled: true,
        show_switch_notification_substitution: false,
    };
    assert_eq!(outcome(response), Err(SchoolLoginErrorInner::PasswordExpired));
}

#[test]
fn generic_failure_response_keeps_error_and_message() {
    let response = LoginResponse::Failure {
        error: "wrong_credentials".to_owned(),
        message: Some("Benutzername oder Passwort falsch.".to_owned()),
    };
    assert_eq!(
        outcome(response),
        Err(SchoolLoginErrorInner::OtherError {
            error: "wrong_credentials".to_owned(),
            message: "Benutzername oder Passwort falsch.".to_owned(),
        }),
    );
}

#[test]
fn a_failure_without_message_repeats_its_error() {
    let response = LoginResponse::Failure { error: "locked".to_owned(), message: None };
    let error = outcome(response).unwrap_err();
    assert_eq!(error, SchoolLoginErrorInner::OtherError { error: "locked".to_owned(), message: "locked".to_owned() });
    assert_eq!(error.to_string(), "[locked] locked");
    assert_eq!(SchoolLoginErrorInner::TwoFactorNeeded.to_string(), "2fa needed");
    assert_eq!(outcome(LoginResponse::TwoFactorNeeded), Err(SchoolLoginErrorInner::TwoFactorNeeded));
}

#[test]
fn accepting_a_login_hands_back_the_headers() {
    let accepted = School::accept_login(Ok((200, "cookie", LoginResponse::Success)));
    assert_eq!(accepted.unwrap(), "cookie");
    let refused = School::accept_login(Ok((200, "cookie", LoginResponse::InvalidPassword)));
    assert!(matches!(refused, Err(SchoolLoginError::Login(SchoolLoginErrorInner::InvalidPassword))));
    let failed = School::accept_login::<&str>(Err(FetchError::Logout));
    assert!(matches!(failed, Err(SchoolLoginError::Request(FetchError::Logout))));
}
