use digreg_api::{School, SchoolCreationError};

fn school(subdomain: &str) -> School {
    School::from_subdomain(subdomain.to_owned())
}

#[test]
fn builds_the_v2_base_url_from_the_subdomain() {
    assert_eq!(
        school("vinzentinum").get_full_url(),
        "https://vinzentinum.digitalesregister.it/v2/",
    );
}

#[test]
fn extends_the_base_url_with_a_route() {
    assert_eq!(
        school("myschool").extend_base_url("api/auth/login"),
        "https://myschool.digitalesregister.it/v2/api/auth/login",
    );
}

#[test]
fn display_renders_the_full_url() {
    assert_eq!(
        school("myschool").to_string(),
        "https://myschool.digitalesregister.it/v2/",
    );
}

#[test]
fn get_subdomain_returns_the_configured_value() {
    assert_eq!(school("myschool").get_subdomain(), "myschool");
}

#[test]
fn create_rejects_an_empty_subdomain_without_a_request() {
    let error = school("").validation_target().unwrap_err();
    assert!(matches!(error, SchoolCreationError::EmptySubdomain));
}

#[test]
fn create_rejects_the_reserved_www_subdomain_without_a_request() {
    let error = school("www").validation_target().unwrap_err();
    assert!(matches!(error, SchoolCreationError::ReservedSubdomain));
}

#[test]
fn validation_target_parses_the_base_url_and_its_host() {
    let (url, host) = school("myschool").validation_target().unwrap();
    assert_eq!(url, "https://myschool.digitalesregister.it/v2/");
    assert_eq!(host.as_deref(), Some("myschool.digitalesregister.it"));
}

#[test]
fn a_subdomain_that_breaks_the_url_is_an_invalid_url() {
    let error = school("a b").validation_target().unwrap_err();
    assert!(matches!(error, SchoolCreationError::InvalidUrl(_)));
}

#[test]
fn a_redirect_to_another_host_is_not_a_school() {
    let accepted = school("myschool").accept_validation(
        Some("myschool.digitalesregister.it".to_owned()),
        Some("myschool.digitalesregister.it".to_owned()),
    );
    assert_eq!(accepted.unwrap().get_subdomain(), "myschool");

    let refused = school("nope").accept_validation(
        Some("nope.digitalesregister.it".to_owned()),
        Some("www.digitalesregister.it".to_owned()),
    );
    assert!(matches!(refused, Err(SchoolCreationError::InvalidSchool)));

    let refused = school("nope").accept_validation(Some("nope.digitalesregister.it".to_owned()), None);
    assert!(matches!(refused, Err(SchoolCreationError::InvalidSchool)));
}

#[test]
fn the_validation_host_is_the_base_url_host() {
    let (url, host) = school("Vinzentinum").validation_target().unwrap();
    assert_eq!(url, "https://Vinzentinum.digitalesregister.it/v2/");
    assert_eq!(host.as_deref(), url::Url::parse(&url).unwrap().host_str());
    assert_eq!(host.as_deref(), Some("vinzentinum.digitalesregister.it"));
}

#[test]
fn the_session_url_is_the_base_url() {
    let url = school("myschool").session_url().unwrap();
    assert_eq!(url, "https://myschool.digitalesregister.it/v2/");
    assert!(matches!(school("a b").session_url(), Err(digreg_api::SchoolLoginError::InvalidUrl(_))));
}
