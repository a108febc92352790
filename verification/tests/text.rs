use not_redis::auth::{secret_is_valid, AuthDecision, Validation};
use not_redis::text::{decimal_text, RequestLogger};

#[test]
fn decimal_text_writes_digits() {
    assert_eq!(decimal_text(0), "0");
    assert_eq!(decimal_text(7), "7");
    assert_eq!(decimal_text(10), "10");
    assert_eq!(decimal_text(1234567890), "1234567890");
    assert_eq!(decimal_text(u128::MAX), u128::MAX.to_string());
}

#[test]
fn request_line_with_and_without_address() {
    assert_eq!(RequestLogger::request_line("GET", "/api/life/alive", None), "GET \t/api/life/alive");
    assert_eq!(
        RequestLogger::request_line("POST", "/api/queue/create/a", Some("10.0.0.1:5000")),
        "POST \t/api/queue/create/a -> from: 10.0.0.1:5000"
    );
}

#[test]
fn response_line_gives_status_and_elapsed_time() {
    assert_eq!(RequestLogger::response_line("200 OK", 1532), "Response code: 200 OK, Elapsed: 1532us");
    assert_eq!(RequestLogger::response_line("401 Unauthorized", 0), "Response code: 401 Unauthorized, Elapsed: 0us");
}

#[test]
fn only_the_secret_is_valid() {
    assert!(secret_is_valid("1234"));
    assert!(!secret_is_valid("12345"));
    assert!(!secret_is_valid(""));
    assert!(!secret_is_valid("123"));
}

#[test]
fn requests_without_the_secret_are_turned_away() {
    assert!(matches!(Validation::authorize(Some("1234")), AuthDecision::Forward));
    match Validation::authorize(None) {
        AuthDecision::Unauthorized(body) => assert_eq!(body, "No secret token found"),
        AuthDecision::Forward => panic!("no token accepted"),
    }
    match Validation::authorize(Some("4321")) {
        AuthDecision::Unauthorized(body) => assert_eq!(body, "Invalid secret token"),
        AuthDecision::Forward => panic!("wrong token accepted"),
    }
}
