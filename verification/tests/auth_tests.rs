use gdrive_api::auth::{
    auth_code_from_request_line, auth_params, auth_response, auth_token_from_response, auth_url,
    auth_token_from_body, code_from_query_pairs, redirect_uri, refresh_request, refreshed_token,
    refreshed_token_from_body, token_request,
};
use gdrive_api::http::HttpMethod;
use gdrive_api::{ApiConfig, AuthRequest, Json};

fn config() -> ApiConfig {
    ApiConfig {
        client_id: "cid".to_string(),
        client_secret: "csecret".to_string(),
        access_token: "old-access".to_string(),
        refresh_token: "the-refresh".to_string(),
    }
}

fn request(config: &ApiConfig) -> AuthRequest<'_> {
    AuthRequest {
        config,
        browser_command: "xdg-open".to_string(),
        response_port: 8066,
        response_msg: "done".to_string(),
    }
}

fn pairs(v: &[(String, String)]) -> Vec<(&str, &str)> {
    v.iter().map(|(a, b)| (a.as_str(), b.as_str())).collect()
}

fn obj(members: Vec<(&str, Json)>) -> Json {
    Json::Object(members.into_iter().map(|(k, v)| (k.to_string(), v)).collect())
}

#[test]
fn redirect_uri_names_the_local_port() {
    assert_eq!(redirect_uri(8066), "http://127.0.0.1:8066");
    assert_eq!(redirect_uri(0), "http://127.0.0.1:0");
}

#[test]
fn consent_url_query() {
    let c = config();
    let r = request(&c);
    assert_eq!(
        pairs(&auth_params(&r)),
        vec![
            ("client_id", "cid"),
            ("redirect_uri", "http://127.0.0.1:8066"),
            ("response_type", "code"),
            ("scope", "https://www.googleapis.com/auth/drive"),
        ]
    );
}

#[test]
fn consent_url_is_encoded_as_ureq_does() {
    let c = config();
    let r = request(&c);
    let expected = "https://accounts.google.com/o/oauth2/v2/auth?client_id=cid&redirect_uri=http%3A%2F%2F127.0.0.1%3A8066&response_type=code&scope=https%3A%2F%2Fwww.googleapis.com%2Fauth%2Fdrive";
    assert_eq!(auth_url(&r).unwrap(), expected);
    let via_ureq = ureq::get("https://accounts.google.com/o/oauth2/v2/auth")
        .query("client_id", "cid")
        .query("redirect_uri", "http://127.0.0.1:8066")
        .query("response_type", "code")
        .query("scope", "https://www.googleapis.com/auth/drive");
    assert_eq!(via_ureq.url(), expected);
}

#[test]
fn code_comes_from_request_line() {
    let code = auth_code_from_request_line("GET /?code=4%2F0Ab+x&scope=drive HTTP/1.1\r\n").unwrap();
    assert_eq!(code, "4/0Ab x");
}

#[test]
fn first_code_pair_wins() {
    assert_eq!(auth_code_from_request_line("GET /?state=1&code=a&code=b HTTP/1.1").unwrap(), "a");
    let p = vec![("x".to_string(), "1".to_string()), ("code".to_string(), "c1".to_string()), ("code".to_string(), "c2".to_string())];
    assert_eq!(code_from_query_pairs(&p).unwrap(), "c1");
}

#[test]
fn request_line_errors() {
    assert_eq!(auth_code_from_request_line("GET").unwrap_err().message(), "auth: invalid response format");
    assert_eq!(
        auth_code_from_request_line("GET /?error=access_denied HTTP/1.1").unwrap_err().message(),
        "auth: no code in auth response"
    );
    let e = auth_code_from_request_line("GET :99999 HTTP/1.1").unwrap_err();
    assert_eq!(e.message(), "auth: malformed url: invalid port number");
    assert_eq!(code_from_query_pairs(&vec![]).unwrap_err().message(), "auth: no code in auth response");
}

#[test]
fn browser_answer_counts_bytes() {
    assert_eq!(
        auth_response("Auth tokens have been received, you may close the browser now"),
        "HTTP/1.1 200 OK\nContent-Length: 61\nContent-Type: text/plain; charset=utf-8\n\nAuth tokens have been received, you may close the browser now"
    );
    assert_eq!(
        auth_response("héllo"),
        "HTTP/1.1 200 OK\nContent-Length: 6\nContent-Type: text/plain; charset=utf-8\n\nhéllo"
    );
}

#[test]
fn token_request_form() {
    let c = config();
    let r = request(&c);
    let t = token_request(&r, "the-code");
    assert_eq!(t.method, HttpMethod::Post);
    assert_eq!(t.url, "https://oauth2.googleapis.com/token");
    assert!(t.headers.is_empty() && t.query.is_empty());
    assert_eq!(
        pairs(&t.form),
        vec![
            ("client_id", "cid"),
            ("client_secret", "csecret"),
            ("code", "the-code"),
            ("grant_type", "authorization_code"),
            ("redirect_uri", "http://127.0.0.1:8066"),
        ]
    );
}

#[test]
fn tokens_from_answer() {
    let root = obj(vec![
        ("access_token", Json::Str("A".to_string())),
        ("expires_in", Json::Number),
        ("refresh_token", Json::Str("R".to_string())),
    ]);
    let t = auth_token_from_response(&root).unwrap();
    assert_eq!((t.access.as_str(), t.refresh.as_str()), ("A", "R"));
    let root = obj(vec![("access_token", Json::Str("A".to_string()))]);
    assert_eq!(auth_token_from_response(&root).unwrap_err().message(), "auth: no 'refresh_token' field");
    assert_eq!(auth_token_from_response(&Json::Null).unwrap_err().message(), "auth: no root object");
}

#[test]
fn refresh_request_and_answer() {
    let c = config();
    let r = refresh_request(&c);
    assert_eq!(r.method, HttpMethod::Post);
    assert_eq!(r.url, "https://oauth2.googleapis.com/token");
    assert_eq!(
        pairs(&r.form),
        vec![
            ("client_id", "cid"),
            ("client_secret", "csecret"),
            ("grant_type", "refresh_token"),
            ("refresh_token", "the-refresh"),
        ]
    );
    let t = refreshed_token(&c, &obj(vec![("access_token", Json::Str("new".to_string()))])).unwrap();
    assert_eq!((t.access.as_str(), t.refresh.as_str()), ("new", "the-refresh"));
    let e = refreshed_token(&c, &obj(vec![("access_token", Json::Bool(true))])).unwrap_err();
    assert_eq!(e.message(), "auth: invalid format of `access_token` field");
}

#[test]
fn tokens_from_body_text() {
    let t = auth_token_from_body(r#"{"access_token": "A", "refresh_token": "R", "expires_in": 3599}"#).unwrap();
    assert_eq!((t.access.as_str(), t.refresh.as_str()), ("A", "R"));
    assert_eq!(auth_token_from_body("oops").unwrap_err().domain(), "json");
    let c = config();
    let t = refreshed_token_from_body(&c, r#"{"access_token": "N"}"#).unwrap();
    assert_eq!((t.access.as_str(), t.refresh.as_str()), ("N", "the-refresh"));
    assert_eq!(refreshed_token_from_body(&c, "{}").unwrap_err().message(), "auth: no 'access_token' field");
}
