use digreg_api::routes::FetchError;
use digreg_api::utils::http_util::{only_200, only_200_done};
use digreg_api::utils::int_bool::parse_int_bool;

#[test]
fn passes_a_success_status_through_with_its_body() {
    let result = Ok((200u16, (), 42));
    let (_, body) = only_200(result).unwrap();
    assert_eq!(body, 42);
}

#[test]
fn turns_a_non_success_status_into_a_status_error() {
    let result = Ok((418u16, (), 0));
    assert!(matches!(only_200(result), Err(FetchError::StatusError(418))));
}

#[test]
fn propagates_an_upstream_error_untouched() {
    let result: Result<(u16, (), i32), FetchError> = Err(FetchError::Logout);
    assert!(matches!(only_200(result), Err(FetchError::Logout)));
}

#[test]
fn every_2xx_status_is_a_success_and_nothing_else() {
    assert!(only_200(Ok((204u16, (), ()))).is_ok());
    assert!(only_200(Ok((299u16, (), ()))).is_ok());
    assert!(matches!(only_200(Ok((199u16, (), ()))), Err(FetchError::StatusError(199))));
    assert!(matches!(only_200(Ok((300u16, (), ()))), Err(FetchError::StatusError(300))));
    assert!(only_200_done(Ok((200u16, (), "ignored"))).is_ok());
    assert!(matches!(only_200_done(Ok((500u16, (), ()))), Err(FetchError::StatusError(500))));
}

#[test]
fn zero_is_false() {
    assert!(!parse_int_bool(0));
}

#[test]
fn any_non_zero_integer_is_true() {
    assert!(parse_int_bool(1));
    assert!(parse_int_bool(5));
}
