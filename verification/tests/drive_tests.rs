use gdrive_api::drive::{decode_file_page, drive_file, FileListing};
use gdrive_api::http::HttpMethod;
use gdrive_api::{ApiConfig, AuthToken, GoogleDriveApi, Json};

fn s(v: &str) -> Json {
    Json::Str(v.to_string())
}

fn obj(members: Vec<(&str, Json)>) -> Json {
    Json::Object(members.into_iter().map(|(k, v)| (k.to_string(), v)).collect())
}

fn api() -> GoogleDriveApi {
    GoogleDriveApi::new(ApiConfig {
        client_id: "cid".to_string(),
        client_secret: "cs".to_string(),
        access_token: "tok".to_string(),
        refresh_token: "ref".to_string(),
    })
}

fn pairs(v: &[(String, String)]) -> Vec<(&str, &str)> {
    v.iter().map(|(a, b)| (a.as_str(), b.as_str())).collect()
}

#[test]
fn file_list_keeps_order_and_sizes() {
    let root = obj(vec![(
        "files",
        Json::Array(vec![
            obj(vec![("id", s("1")), ("name", s("a.epub")), ("size", s("2048"))]),
            obj(vec![("id", s("2")), ("name", s("folder"))]),
            obj(vec![("id", s("3")), ("name", s("b.pdf")), ("size", s("big"))]),
            obj(vec![("id", s("4")), ("name", s("c.pdf")), ("size", Json::Number)]),
        ]),
    )]);
    let (files, next) = decode_file_page(&root).unwrap();
    assert!(next.is_none());
    let got: Vec<(&str, &str, Option<u64>)> =
        files.iter().map(|f| (f.id.as_str(), f.name.as_str(), f.size)).collect();
    assert_eq!(got, vec![("1", "a.epub", Some(2048)), ("2", "folder", None), ("3", "b.pdf", None), ("4", "c.pdf", None)]);
}

#[test]
fn empty_file_list() {
    let (files, next) = decode_file_page(&obj(vec![("files", Json::Array(vec![]))])).unwrap();
    assert!(files.is_empty());
    assert!(next.is_none());
}

#[test]
fn file_list_errors() {
    assert_eq!(decode_file_page(&Json::Array(vec![])).unwrap_err().message(), "files api: no root object");
    assert_eq!(decode_file_page(&obj(vec![])).unwrap_err().message(), "files api: no 'files' field");
    let root = obj(vec![("files", Json::Array(vec![obj(vec![("id", s("1")), ("name", s("a"))]), s("x")]))]);
    assert_eq!(decode_file_page(&root).unwrap_err().message(), "files api: invalid file object");
    let root = obj(vec![("files", Json::Array(vec![obj(vec![("id", s("1"))])]))]);
    assert_eq!(decode_file_page(&root).unwrap_err().message(), "files api: no 'name' field");
    let e = drive_file(&obj(vec![("name", s("n")), ("id", Json::Number)])).unwrap_err();
    assert_eq!(e.message(), "files api: invalid format of `id` field");
}

#[test]
fn list_request() {
    let r = api().list_files_request("'FOLDER' in parents", None);
    assert_eq!(r.method, HttpMethod::Get);
    assert_eq!(r.url, "https://www.googleapis.com/drive/v3/files");
    assert_eq!(pairs(&r.headers), vec![("Authorization", "Bearer tok")]);
    assert_eq!(
        pairs(&r.query),
        vec![("q", "'FOLDER' in parents"), ("fields", "nextPageToken,files(id,name,size)")]
    );
    assert!(r.form.is_empty());
    let r = api().list_files_request("q1", Some("tok2"));
    assert_eq!(
        pairs(&r.query),
        vec![("q", "q1"), ("fields", "nextPageToken,files(id,name,size)"), ("pageToken", "tok2")]
    );
}

#[test]
fn download_request() {
    let r = api().download_request("abc123");
    assert_eq!(r.method, HttpMethod::Get);
    assert_eq!(r.url, "https://www.googleapis.com/drive/v3/files/abc123");
    assert_eq!(pairs(&r.headers), vec![("Authorization", "Bearer tok")]);
    assert_eq!(pairs(&r.query), vec![("alt", "media")]);
}

#[test]
fn auth_replaces_both_tokens() {
    let mut a = api();
    a.auth(AuthToken { access: "A2".to_string(), refresh: "R2".to_string() });
    let c = a.config();
    assert_eq!((c.client_id.as_str(), c.client_secret.as_str()), ("cid", "cs"));
    assert_eq!((c.access_token.as_str(), c.refresh_token.as_str()), ("A2", "R2"));
}

#[test]
fn auth_refresh_keeps_refresh_token() {
    let mut a = api();
    a.auth_refresh(AuthToken { access: "A3".to_string(), refresh: "ignored".to_string() });
    let c = a.config();
    assert_eq!((c.access_token.as_str(), c.refresh_token.as_str()), ("A3", "ref"));
    assert_eq!(c.client_id, "cid");
}

#[test]
fn auth_request_constants() {
    let a = api();
    let r = a.auth_request();
    assert_eq!(r.browser_command, "xdg-open");
    assert_eq!(r.response_port, 8066);
    assert_eq!(r.response_msg, "Auth tokens have been received, you may close the browser now");
    assert_eq!(r.config.client_id, "cid");
}

#[test]
fn page_token_is_read() {
    let root = obj(vec![("nextPageToken", s("p2")), ("files", Json::Array(vec![]))]);
    let (_, next) = decode_file_page(&root).unwrap();
    assert_eq!(next.as_deref(), Some("p2"));
    let root = obj(vec![("nextPageToken", Json::Number), ("files", Json::Array(vec![]))]);
    assert!(decode_file_page(&root).unwrap().1.is_none());
}

#[test]
fn listing_goes_through_all_pages() {
    let a = api();
    let mut l = FileListing::new("'F' in parents");
    let r1 = l.next_request(&a).unwrap();
    assert_eq!(pairs(&r1.query).len(), 2);
    l.take_page_text(r#"{"nextPageToken": "t2", "files": [{"id": "1", "name": "a", "size": "10"}]}"#).unwrap();
    let r2 = l.next_request(&a).unwrap();
    assert_eq!(pairs(&r2.query)[2], ("pageToken", "t2"));
    l.take_page_text(r#"{"files": [{"id": "2", "name": "b"}, {"id": "3", "name": "c", "size": "7"}]}"#).unwrap();
    assert!(l.next_request(&a).is_none());
    let files = l.into_files();
    let got: Vec<(&str, &str, Option<u64>)> = files.iter().map(|f| (f.id.as_str(), f.name.as_str(), f.size)).collect();
    assert_eq!(got, vec![("1", "a", Some(10)), ("2", "b", None), ("3", "c", Some(7))]);
}

#[test]
fn listing_page_error_leaves_listing() {
    let a = api();
    let mut l = FileListing::new("q");
    l.take_page_text(r#"{"nextPageToken": "t2", "files": [{"id": "1", "name": "a"}]}"#).unwrap();
    let e = l.take_page_text(r#"{"files": [{"id": "2"}]}"#).unwrap_err();
    assert_eq!(e.message(), "files api: no 'name' field");
    let e = l.take_page_text("not json").unwrap_err();
    assert_eq!(e.domain(), "json");
    let r = l.next_request(&a).unwrap();
    assert_eq!(pairs(&r.query)[2], ("pageToken", "t2"));
    assert_eq!(l.into_files().len(), 1);
}

#[test]
fn config_changes_only_by_auth_and_refresh() {
    let mut a = api();
    let _ = a.list_files_request("q", None);
    let _ = a.download_request("x");
    a.auth(AuthToken { access: "A1".to_string(), refresh: "R1".to_string() });
    a.auth_refresh(AuthToken { access: "A2".to_string(), refresh: "other".to_string() });
    a.auth_refresh(AuthToken { access: "A3".to_string(), refresh: "other".to_string() });
    let c = a.config();
    assert_eq!((c.client_id.as_str(), c.client_secret.as_str()), ("cid", "cs"));
    assert_eq!((c.access_token.as_str(), c.refresh_token.as_str()), ("A3", "R1"));
}
