use gdrive_api::json::{array_field, get_member, object_field, parse_json, root_object, str_field, try_get_field};
use gdrive_api::{Json, JsonKind};

fn s(v: &str) -> Json {
    Json::Str(v.to_string())
}

fn obj(members: Vec<(&str, Json)>) -> Vec<(String, Json)> {
    members.into_iter().map(|(k, v)| (k.to_string(), v)).collect()
}

#[test]
fn try_get_field_finds_member_of_right_kind() {
    let root = obj(vec![("a", s("x")), ("b", Json::Number), ("c", Json::Array(vec![]))]);
    let v = try_get_field(&root, "a", JsonKind::Str, "d").unwrap();
    assert!(matches!(v, Json::Str(t) if t == "x"));
    assert!(matches!(try_get_field(&root, "c", JsonKind::Array, "d"), Ok(Json::Array(_))));
}

#[test]
fn try_get_field_missing_member() {
    let root = obj(vec![("a", s("x"))]);
    let e = try_get_field(&root, "zz", JsonKind::Str, "files api").unwrap_err();
    assert_eq!(e.message(), "files api: no 'zz' field");
}

#[test]
fn try_get_field_wrong_kind() {
    let root = obj(vec![("a", Json::Number)]);
    let e = try_get_field(&root, "a", JsonKind::Str, "auth").unwrap_err();
    assert_eq!(e.message(), "auth: invalid format of `a` field");
    assert_eq!(e.domain(), "auth");
}

#[test]
fn typed_fields() {
    let root = obj(vec![
        ("name", s("book.pdf")),
        ("inner", Json::Object(obj(vec![("k", s("v"))]))),
        ("list", Json::Array(vec![Json::Null, Json::Bool(true)])),
    ]);
    assert_eq!(str_field(&root, "name", "d").unwrap(), "book.pdf");
    assert_eq!(object_field(&root, "inner", "d").unwrap().len(), 1);
    assert_eq!(array_field(&root, "list", "d").unwrap().len(), 2);
    assert_eq!(str_field(&root, "list", "d").unwrap_err().message(), "d: invalid format of `list` field");
    assert_eq!(object_field(&root, "name", "d").unwrap_err().message(), "d: invalid format of `name` field");
    assert_eq!(array_field(&root, "none", "d").unwrap_err().message(), "d: no 'none' field");
}

#[test]
fn get_member_and_root_object() {
    let root = Json::Object(obj(vec![("size", s("12"))]));
    let m = root_object(&root, "d").unwrap();
    assert!(matches!(get_member(m, "size"), Some(Json::Str(t)) if t == "12"));
    assert!(get_member(m, "id").is_none());
    assert_eq!(root_object(&Json::Array(vec![]), "config load").unwrap_err().message(), "config load: no root object");
    assert_eq!(Json::Null.kind(), JsonKind::Null);
}

#[test]
fn parse_json_converts_every_kind() {
    let j = parse_json(r#"{"a": [1, true, null, "s"], "b": {"c": "d"}}"#).unwrap();
    let m = root_object(&j, "d").unwrap();
    assert_eq!(m.len(), 2);
    let a = array_field(m, "a", "d").unwrap();
    assert!(matches!(a[0], Json::Number));
    assert!(matches!(a[1], Json::Bool(true)));
    assert!(matches!(a[2], Json::Null));
    assert!(matches!(&a[3], Json::Str(t) if t == "s"));
    assert_eq!(str_field(object_field(m, "b", "d").unwrap(), "c", "d").unwrap(), "d");
}

#[test]
fn parse_json_error_is_json_domain() {
    let e = parse_json("{\"a\": ").unwrap_err();
    assert_eq!(e.domain(), "json");
    let expected = "{\"a\": ".parse::<tinyjson::JsonValue>().unwrap_err().to_string();
    assert_eq!(e.message(), format!("json: {}", expected));
}
