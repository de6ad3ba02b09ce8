use digreg_api::routes::{check_logout_page, finish_fetch, FetchError};

const LOGOUT_PAGE: &str = "<script type=\"text/javascript\">window.location = \"https://myschool.digitalesregister.it/v2/login\";</script>";

#[test]
fn the_logout_page_is_a_logout() {
    assert!(matches!(check_logout_page(LOGOUT_PAGE), Err(FetchError::Logout)));
    let padded = format!("\n  {LOGOUT_PAGE}\r\n\t");
    assert!(matches!(check_logout_page(&padded), Err(FetchError::Logout)));
}

#[test]
fn other_bodies_pass_the_logout_page_check() {
    assert!(check_logout_page(r#"{"loggedIn":true}"#).is_ok());
    assert!(check_logout_page("").is_ok());
    assert!(check_logout_page("<script type=\"text/javascript\">alert(1);</script>").is_ok());
    let elsewhere = "<script type=\"text/javascript\">window.location = \"https://example.org/\";</script>";
    assert!(check_logout_page(elsewhere).is_ok());
    let unclosed = "<script type=\"text/javascript\">window.location = \"https://a.digitalesregister.it/v2/login\";";
    assert!(check_logout_page(unclosed).is_ok());
}

#[test]
fn finishing_a_fetch_prefers_the_logout_signal() {
    let ok: Result<i32, serde_json::Error> = Ok(7);
    assert!(matches!(finish_fetch(200, (), true, ok), Err(FetchError::Logout)));
    let ok: Result<i32, serde_json::Error> = Ok(7);
    let (status, (), body) = finish_fetch(201, (), false, ok).unwrap();
    assert_eq!((status, body), (201, 7));
    let bad = serde_json::from_str::<i32>("\"x\"");
    assert!(matches!(finish_fetch(200, (), false, bad), Err(FetchError::ParseJson(_))));
}
