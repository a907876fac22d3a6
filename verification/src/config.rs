//! The OAuth client credentials and tokens, as read from and written to JSON.
use vstd::prelude::*;
use crate::error::{ApiError, ApiErrorView};
use crate::text::{free_of, split_on, lemma_split_concat};
use crate::json::{Json, JsonModel, json_model, parse_json, tinyjson_value, is_json_error, root_object, object_field, str_field, root_object_model, object_field_model, str_field_model};

verus! {

/// The client credentials of an OAuth client as the Google Cloud console
/// exports them (the `installed` section).
#[derive(Debug)]
pub struct ExportedConfig {
    pub client_id: String,
    pub client_secret: String,
}

/// The mathematical model of an [`ExportedConfig`].
pub struct ExportedConfigView {
    pub client_id: Seq<char>,
    pub client_secret: Seq<char>,
}

impl View for ExportedConfig {
    type V = ExportedConfigView;

    open spec fn view(&self) -> ExportedConfigView {
        ExportedConfigView { client_id: self.client_id@, client_secret: self.client_secret@ }
    }
}

/// The client credentials together with the access and refresh tokens.
#[derive(Debug)]
pub struct ApiConfig {
    pub client_id: String,
    pub client_secret: String,
    pub access_token: String,
    pub refresh_token: String,
}

/// The mathematical model of an [`ApiConfig`].
pub struct ApiConfigView {
    pub client_id: Seq<char>,
    pub client_secret: Seq<char>,
    pub access_token: Seq<char>,
    pub refresh_token: Seq<char>,
}

impl View for ApiConfig {
    type V = ApiConfigView;

    open spec fn view(&self) -> ApiConfigView {
        ApiConfigView {
            client_id: self.client_id@,
            client_secret: self.client_secret@,
            access_token: self.access_token@,
            refresh_token: self.refresh_token@,
        }
    }
}

/// What reading exported credentials from the JSON value `root` gives.
pub open spec fn import_spec(root: JsonModel) -> Result<ExportedConfigView, ApiErrorView> {
    let d = "config import"@;
    match root_object_model(root, d) {
        Err(e) => Err(e),
        Ok(m) => match object_field_model(m, "installed"@, d) {
            Err(e) => Err(e),
            Ok(installed) => match str_field_model(installed, "client_id"@, d) {
                Err(e) => Err(e),
                Ok(client_id) => match str_field_model(installed, "client_secret"@, d) {
                    Err(e) => Err(e),
                    Ok(client_secret) => Ok(ExportedConfigView { client_id, client_secret }),
                },
            },
        },
    }
}

/// What reading a configuration from the JSON value `root` gives.
pub open spec fn load_spec(root: JsonModel) -> Result<ApiConfigView, ApiErrorView> {
    let d = "config load"@;
    match root_object_model(root, d) {
        Err(e) => Err(e),
        Ok(m) => match str_field_model(m, "client_id"@, d) {
            Err(e) => Err(e),
            Ok(client_id) => match str_field_model(m, "client_secret"@, d) {
                Err(e) => Err(e),
                Ok(client_secret) => match str_field_model(m, "access_token"@, d) {
                    Err(e) => Err(e),
                    Ok(access_token) => match str_field_model(m, "refresh_token"@, d) {
                        Err(e) => Err(e),
                        Ok(refresh_token) => Ok(ApiConfigView { client_id, client_secret, access_token, refresh_token }),
                    },
                },
            },
        },
    }
}

/// The text of a saved configuration: a JSON object with the four members,
/// one per line, the values written between quotes as they are.
pub open spec fn save_text(c: ApiConfigView) -> Seq<char> {
    "{\n"@ + " \"client_id\": \""@ + c.client_id + "\",\n"@ + " \"client_secret\": \""@ + c.client_secret
        + "\",\n"@ + " \"access_token\": \""@ + c.access_token + "\",\n"@ + " \"refresh_token\": \""@
        + c.refresh_token + "\"\n"@ + "}\n"@
}

/// A member line of a saved configuration: the key and the value between
/// quotes, then a comma unless it is the last member.
pub open spec fn saved_line(key: Seq<char>, value: Seq<char>, last: bool) -> Seq<char> {
    seq![' ', '"'] + key + seq!['"', ':', ' ', '"'] + value + if last { seq!['"'] } else { seq!['"', ','] }
}

/// A saved configuration is seven lines: `{`, the members `client_id`,
/// `client_secret`, `access_token` and `refresh_token`, each with its own
/// value and in that order, `}`, and the empty rest after the last line
/// break; provided that no value holds a line break.
pub proof fn lemma_save_lines(c: ApiConfigView)
    requires
        free_of(c.client_id, '\n'),
        free_of(c.client_secret, '\n'),
        free_of(c.access_token, '\n'),
        free_of(c.refresh_token, '\n'),
    ensures
        split_on(save_text(c), '\n') == seq![
            seq!['{'],
            saved_line("client_id"@, c.client_id, false),
            saved_line("client_secret"@, c.client_secret, false),
            saved_line("access_token"@, c.access_token, false),
            saved_line("refresh_token"@, c.refresh_token, true),
            seq!['}'],
            Seq::<char>::empty(),
        ],
{
    reveal_strlit("{\n");
    reveal_strlit(" \"client_id\": \"");
    reveal_strlit("\",\n");
    reveal_strlit(" \"client_secret\": \"");
    reveal_strlit(" \"access_token\": \"");
    reveal_strlit(" \"refresh_token\": \"");
    reveal_strlit("\"\n");
    reveal_strlit("}\n");
    reveal_strlit("client_id");
    reveal_strlit("client_secret");
    reveal_strlit("access_token");
    reveal_strlit("refresh_token");
    let nl = seq!['\n'];
    let l0 = seq!['{'];
    let l1 = saved_line("client_id"@, c.client_id, false);
    let l2 = saved_line("client_secret"@, c.client_secret, false);
    let l3 = saved_line("access_token"@, c.access_token, false);
    let l4 = saved_line("refresh_token"@, c.refresh_token, true);
    let l5 = seq!['}'];
    let e = Seq::<char>::empty();
    let r5 = l5 + nl + e;
    let r4 = l4 + nl + r5;
    let r3 = l3 + nl + r4;
    let r2 = l2 + nl + r3;
    let r1 = l1 + nl + r2;
    let r0 = l0 + nl + r1;
    assert(save_text(c) =~= r0);
    assert(free_of(l0, '\n'));
    assert(free_of(l5, '\n'));
    assert forall|k: int| 0 <= k < l1.len() implies #[trigger] l1[k] != '\n' by {
        if 15 <= k < 15 + c.client_id.len() { assert(l1[k] == c.client_id[k - 15]); }
    }
    assert forall|k: int| 0 <= k < l2.len() implies #[trigger] l2[k] != '\n' by {
        if 19 <= k < 19 + c.client_secret.len() { assert(l2[k] == c.client_secret[k - 19]); }
    }
    assert forall|k: int| 0 <= k < l3.len() implies #[trigger] l3[k] != '\n' by {
        if 18 <= k < 18 + c.access_token.len() { assert(l3[k] == c.access_token[k - 18]); }
    }
    assert forall|k: int| 0 <= k < l4.len() implies #[trigger] l4[k] != '\n' by {
        if 19 <= k < 19 + c.refresh_token.len() { assert(l4[k] == c.refresh_token[k - 19]); }
    }
    lemma_split_concat(l0, '\n', r1);
    lemma_split_concat(l1, '\n', r2);
    lemma_split_concat(l2, '\n', r3);
    lemma_split_concat(l3, '\n', r4);
    lemma_split_concat(l4, '\n', r5);
    lemma_split_concat(l5, '\n', e);
    assert(split_on(save_text(c), '\n') =~= seq![l0, l1, l2, l3, l4, l5, e]);
}

/// A configuration object with the four members, each a string, reads back
/// as the configuration with those four values, whatever else it holds.
pub proof fn lemma_load_members(m: Map<Seq<char>, JsonModel>, c: ApiConfigView)
    requires
        m.contains_key("client_id"@) && m["client_id"@] == JsonModel::Str(c.client_id),
        m.contains_key("client_secret"@) && m["client_secret"@] == JsonModel::Str(c.client_secret),
        m.contains_key("access_token"@) && m["access_token"@] == JsonModel::Str(c.access_token),
        m.contains_key("refresh_token"@) && m["refresh_token"@] == JsonModel::Str(c.refresh_token),
    ensures
        load_spec(JsonModel::Object(m)) == Ok::<ApiConfigView, ApiErrorView>(c),
{
}

impl ExportedConfig {
    /// Reads exported credentials from the text of the exported file.
    pub fn import_text(text: &str) -> (r: Result<ExportedConfig, ApiError>)
        ensures
            match r {
                Ok(c) => tinyjson_value(text@) matches Some(m) && import_spec(m) == Ok::<ExportedConfigView, ApiErrorView>(c@),
                Err(e) => match tinyjson_value(text@) {
                    None => is_json_error(e@),
                    Some(m) => import_spec(m) == Err::<ExportedConfigView, ApiErrorView>(e@),
                },
            },
    {
        match parse_json(text) {
            Ok(j) => ExportedConfig::import(&j),
            Err(e) => Err(e),
        }
    }

    /// Reads exported credentials from the parsed JSON of the exported file:
    /// `installed.client_id` and `installed.client_secret`.
    pub fn import(root: &Json) -> (r: Result<ExportedConfig, ApiError>)
        ensures
            match r {
                Ok(c) => import_spec(json_model(*root)) == Ok::<ExportedConfigView, ApiErrorView>(c@),
                Err(e) => import_spec(json_model(*root)) == Err::<ExportedConfigView, ApiErrorView>(e@),
            },
    {
        let m = match root_object(root, "config import") {
            Ok(m) => m,
            Err(e) => return Err(e),
        };
        let installed = match object_field(m, "installed", "config import") {
            Ok(i) => i,
            Err(e) => return Err(e),
        };
        let client_id = match str_field(installed, "client_id", "config import") {
            Ok(s) => s,
            Err(e) => return Err(e),
        };
        let client_secret = match str_field(installed, "client_secret", "config import") {
            Ok(s) => s,
            Err(e) => return Err(e),
        };
        Ok(ExportedConfig { client_id, client_secret })
    }
}

impl ApiConfig {
    /// Reads a configuration from the text of its file.
    pub fn load_text(text: &str) -> (r: Result<ApiConfig, ApiError>)
        ensures
            match r {
                Ok(c) => tinyjson_value(text@) matches Some(m) && load_spec(m) == Ok::<ApiConfigView, ApiErrorView>(c@),
                Err(e) => match tinyjson_value(text@) {
                    None => is_json_error(e@),
                    Some(m) => load_spec(m) == Err::<ApiConfigView, ApiErrorView>(e@),
                },
            },
    {
        match parse_json(text) {
            Ok(j) => ApiConfig::load(&j),
            Err(e) => Err(e),
        }
    }

    /// Reads a configuration from the parsed JSON of a saved configuration.
    pub fn load(root: &Json) -> (r: Result<ApiConfig, ApiError>)
        ensures
            match r {
                Ok(c) => load_spec(json_model(*root)) == Ok::<ApiConfigView, ApiErrorView>(c@),
                Err(e) => load_spec(json_model(*root)) == Err::<ApiConfigView, ApiErrorView>(e@),
            },
    {
        let m = match root_object(root, "config load") {
            Ok(m) => m,
            Err(e) => return Err(e),
        };
        let client_id = match str_field(m, "client_id", "config load") {
            Ok(s) => s,
            Err(e) => return Err(e),
        };
        let client_secret = match str_field(m, "client_secret", "config load") {
            Ok(s) => s,
            Err(e) => return Err(e),
        };
        let access_token = match str_field(m, "access_token", "config load") {
            Ok(s) => s,
            Err(e) => return Err(e),
        };
        let refresh_token = match str_field(m, "refresh_token", "config load") {
            Ok(s) => s,
            Err(e) => return Err(e),
        };
        Ok(ApiConfig { client_id, client_secret, access_token, refresh_token })
    }

    /// The text that saving this configuration writes to its file.
    pub fn save(&self) -> (r: String)
        ensures
            r@ == save_text(self@),
    {
        String::from_str("{\n").concat(" \"client_id\": \"").concat(self.client_id.as_str())
            .concat("\",\n").concat(" \"client_secret\": \"").concat(self.client_secret.as_str())
            .concat("\",\n").concat(" \"access_token\": \"").concat(self.access_token.as_str())
            .concat("\",\n").concat(" \"refresh_token\": \"").concat(self.refresh_token.as_str())
            .concat("\"\n").concat("}\n")
    }

    /// The configuration for exported credentials: no tokens yet.
    pub fn from_exported(value: ExportedConfig) -> (r: ApiConfig)
        ensures
            r@ == (ApiConfigView {
                client_id: value.client_id@,
                client_secret: value.client_secret@,
                access_token: Seq::empty(),
                refresh_token: Seq::empty(),
            }),
    {
        ApiConfig {
            client_id: value.client_id,
            client_secret: value.client_secret,
            access_token: String::new(),
            refresh_token: String::new(),
        }
    }
}

} // verus!
