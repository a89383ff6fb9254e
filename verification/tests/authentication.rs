use surepet::{Config, Error};

#[test]
fn it_returns_the_token() {
    let body = r#"{"data": {"token": "some_token"}}"#;
    assert_eq!(surepet::login_response(200, body).unwrap(), "some_token");
}

#[test]
fn it_panics_when_environment_variables_are_missing() {
    let r = Config::from_values(None, Some("password".to_string()));
    assert_eq!(r.unwrap_err(), Error::MissingConfiguration);
    let r = Config::from_values(Some("some_email@example.com".to_string()), None);
    assert_eq!(r.unwrap_err(), Error::MissingConfiguration);
    let r = Config::from_values(Some("".to_string()), Some("password".to_string()));
    assert_eq!(r.unwrap_err(), Error::MissingConfiguration);
}

#[test]
fn it_panics_when_credentials_are_invalid() {
    assert_eq!(surepet::login_response(401, "").unwrap_err(), Error::InvalidCredentials);
}

#[test]
fn login_it_panics_when_response_is_not_handled() {
    assert_eq!(surepet::login_response(500, "").unwrap_err(), Error::UnexpectedResponse);
}

#[test]
fn a_success_without_a_token_in_the_body_is_unexpected() {
    assert_eq!(
        surepet::login_response(200, r#"{"data": {}}"#).unwrap_err(),
        Error::UnexpectedResponse
    );
    assert_eq!(surepet::login_response(200, "not json").unwrap_err(), Error::UnexpectedResponse);
}

#[test]
fn the_login_body_carries_the_credentials_and_the_placeholder_device() {
    let cfg = Config::from_values(
        Some("some_email@example.com".to_string()),
        Some("password".to_string()),
    )
    .unwrap();
    assert_eq!(
        surepet::login_request_body(&cfg),
        r#"{"device_id":".","email_address":"some_email@example.com","password":"password"}"#
    );
}

#[test]
fn credentials_with_quotes_are_escaped_in_the_login_body() {
    let cfg = Config::from_values(
        Some("a@b".to_string()),
        Some("pa\"ss".to_string()),
    )
    .unwrap();
    assert_eq!(
        surepet::login_request_body(&cfg),
        r#"{"device_id":".","email_address":"a@b","password":"pa\"ss"}"#
    );
}

#[test]
fn devices_it_panics_when_response_is_not_handled() {
    assert_eq!(surepet::classify_fetch_status(500).unwrap_err(), Error::UnexpectedResponse);
}

#[test]
fn pets_it_panics_when_response_is_not_handled() {
    assert_eq!(surepet::classify_fetch_status(500).unwrap_err(), Error::UnexpectedResponse);
}

#[test]
fn a_stale_token_is_reported_as_expired() {
    assert_eq!(surepet::classify_fetch_status(401).unwrap_err(), Error::TokenExpired);
    assert!(surepet::classify_fetch_status(200).is_ok());
}
