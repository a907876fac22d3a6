use gdrive_api::{ApiError, ErrorSource};

#[test]
fn custom_error_message_has_domain_and_text() {
    let e = ApiError::custom("no root object".to_string(), "auth");
    assert_eq!(e.message(), "auth: no root object");
    assert_eq!(e.domain(), "auth");
    assert_eq!(e.as_http_status(), None);
}

#[test]
fn wrapped_errors_keep_their_cause() {
    let e = ApiError::wrap(ErrorSource::Io("disk full".to_string()), "config save");
    assert_eq!(e.message(), "config save: disk full");
    assert!(matches!(e.source(), ErrorSource::Io(m) if m == "disk full"));
}

#[test]
fn io_json_and_http_errors_have_their_domains() {
    assert_eq!(ApiError::io("broken pipe".to_string()).message(), "i/o: broken pipe");
    assert_eq!(ApiError::json("unexpected EOF".to_string()).message(), "json: unexpected EOF");
    let e = ApiError::http(Some(404), "status code 404".to_string());
    assert_eq!(e.message(), "http: status code 404");
    assert_eq!(e.domain(), "http");
}

#[test]
fn http_status_only_for_status_errors() {
    assert_eq!(ApiError::http(Some(401), "unauthorized".to_string()).as_http_status(), Some(401));
    assert_eq!(ApiError::http(None, "connection refused".to_string()).as_http_status(), None);
    assert_eq!(ApiError::io("x".to_string()).as_http_status(), None);
    assert_eq!(ApiError::custom("x".to_string(), "http").as_http_status(), None);
}

#[test]
fn source_text_is_the_cause_message() {
    let e = ApiError::wrap(ErrorSource::Http { status: Some(500), message: "oops".to_string() }, "http");
    assert_eq!(e.source().text(), "oops");
}
