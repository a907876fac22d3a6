use gdrive_api::{ApiConfig, ExportedConfig, Json};

fn s(v: &str) -> Json {
    Json::Str(v.to_string())
}

fn obj(members: Vec<(&str, Json)>) -> Json {
    Json::Object(members.into_iter().map(|(k, v)| (k.to_string(), v)).collect())
}

fn config() -> ApiConfig {
    ApiConfig {
        client_id: "id".to_string(),
        client_secret: "secret".to_string(),
        access_token: "acc".to_string(),
        refresh_token: "ref".to_string(),
    }
}

#[test]
fn import_reads_installed_section() {
    let root = obj(vec![(
        "installed",
        obj(vec![("client_id", s("123.apps")), ("client_secret", s("SECRET-REDACTED")), ("project_id", s("p"))]),
    )]);
    let c = ExportedConfig::import(&root).unwrap();
    assert_eq!(c.client_id, "123.apps");
    assert_eq!(c.client_secret, "SECRET-REDACTED");
}

#[test]
fn import_errors() {
    assert_eq!(ExportedConfig::import(&s("x")).unwrap_err().message(), "config import: no root object");
    assert_eq!(
        ExportedConfig::import(&obj(vec![("web", obj(vec![]))])).unwrap_err().message(),
        "config import: no 'installed' field"
    );
    assert_eq!(
        ExportedConfig::import(&obj(vec![("installed", s("x"))])).unwrap_err().message(),
        "config import: invalid format of `installed` field"
    );
    assert_eq!(
        ExportedConfig::import(&obj(vec![("installed", obj(vec![("client_id", s("a"))]))])).unwrap_err().message(),
        "config import: no 'client_secret' field"
    );
}

#[test]
fn load_reads_all_four_members() {
    let root = obj(vec![
        ("client_id", s("id")),
        ("client_secret", s("secret")),
        ("access_token", s("acc")),
        ("refresh_token", s("ref")),
    ]);
    let c = ApiConfig::load(&root).unwrap();
    assert_eq!(c.client_id, "id");
    assert_eq!(c.client_secret, "secret");
    assert_eq!(c.access_token, "acc");
    assert_eq!(c.refresh_token, "ref");
}

#[test]
fn load_reports_first_missing_member() {
    let root = obj(vec![("client_id", s("id")), ("client_secret", s("secret")), ("refresh_token", Json::Null)]);
    assert_eq!(ApiConfig::load(&root).unwrap_err().message(), "config load: no 'access_token' field");
    let root = obj(vec![
        ("client_id", s("id")),
        ("client_secret", s("secret")),
        ("access_token", s("a")),
        ("refresh_token", Json::Null),
    ]);
    assert_eq!(ApiConfig::load(&root).unwrap_err().message(), "config load: invalid format of `refresh_token` field");
}

#[test]
fn save_writes_the_config_file_text() {
    assert_eq!(
        config().save(),
        "{\n \"client_id\": \"id\",\n \"client_secret\": \"secret\",\n \"access_token\": \"acc\",\n \"refresh_token\": \"ref\"\n}\n"
    );
}

#[test]
fn saved_text_is_json_that_loads_back() {
    let text = config().save();
    let parsed: tinyjson::JsonValue = text.parse().unwrap();
    let map: &std::collections::HashMap<String, tinyjson::JsonValue> = parsed.get().unwrap();
    for (k, v) in [("client_id", "id"), ("client_secret", "secret"), ("access_token", "acc"), ("refresh_token", "ref")] {
        assert_eq!(map[k].get::<String>().unwrap(), v);
    }
}

#[test]
fn exported_config_has_no_tokens() {
    let c = ApiConfig::from_exported(ExportedConfig { client_id: "i".to_string(), client_secret: "s".to_string() });
    assert_eq!(c.client_id, "i");
    assert_eq!(c.client_secret, "s");
    assert_eq!(c.access_token, "");
    assert_eq!(c.refresh_token, "");
}

#[test]
fn config_from_text() {
    let c = ApiConfig::load_text(&config().save()).unwrap();
    assert_eq!((c.client_id.as_str(), c.client_secret.as_str()), ("id", "secret"));
    assert_eq!((c.access_token.as_str(), c.refresh_token.as_str()), ("acc", "ref"));
    let e = ApiConfig::load_text("{").unwrap_err();
    assert_eq!(e.domain(), "json");
    let e = ApiConfig::load_text("[]").unwrap_err();
    assert_eq!(e.message(), "config load: no root object");
    let x = ExportedConfig::import_text(r#"{"installed": {"client_id": "a", "client_secret": "b"}}"#).unwrap();
    assert_eq!((x.client_id.as_str(), x.client_secret.as_str()), ("a", "b"));
    assert_eq!(ExportedConfig::import_text("{}").unwrap_err().message(), "config import: no 'installed' field");
}
