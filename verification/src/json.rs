//! JSON values as the library reads them, and the lookup of an object's fields.
use vstd::prelude::*;
use crate::error::{ApiError, ApiErrorView, SourceView, custom_error};

verus! {

/// A JSON value. Numbers keep no value: nothing in the library reads one.
/// An object is the list of its members; lookups find the first member with
/// a key, and an object that the parser made has each key once
/// ([`keys_unique`]).
#[derive(Debug)]
pub enum Json {
    Null,
    Bool(bool),
    Number,
    Str(String),
    Array(Vec<Json>),
    Object(Vec<(String, Json)>),
}

/// A JSON value as a mathematical object: an object is a map from keys to
/// values, so that it does not depend on the order of its members.
pub enum JsonModel {
    Null,
    Bool(bool),
    Number,
    Str(Seq<char>),
    Array(Seq<JsonModel>),
    Object(Map<Seq<char>, JsonModel>),
}

/// The model of a JSON value.
pub open spec fn json_model(j: Json) -> JsonModel
    decreases j,
{
    match j {
        Json::Null => JsonModel::Null,
        Json::Bool(b) => JsonModel::Bool(b),
        Json::Number => JsonModel::Number,
        Json::Str(s) => JsonModel::Str(s@),
        Json::Array(a) => JsonModel::Array(items_model(a@)),
        Json::Object(m) => JsonModel::Object(entries_model(m@)),
    }
}

/// The models of an array's items, in order.
pub open spec fn items_model(items: Seq<Json>) -> Seq<JsonModel>
    decreases items,
{
    if items.len() == 0 {
        Seq::empty()
    } else {
        seq![json_model(items[0])] + items_model(items.drop_first())
    }
}

/// The map of an object's members; where a key comes twice, the first member
/// counts, as lookups by [`member`] find it.
pub open spec fn entries_model(entries: Seq<(String, Json)>) -> Map<Seq<char>, JsonModel>
    decreases entries,
{
    if entries.len() == 0 {
        Map::empty()
    } else {
        entries_model(entries.drop_first()).insert(entries[0].0@, json_model(entries[0].1))
    }
}

/// Whether every object in `j` has each key once, as a parsed object has.
pub open spec fn keys_unique(j: Json) -> bool
    decreases j,
{
    match j {
        Json::Array(a) => items_unique(a@),
        Json::Object(m) => entries_unique(m@),
        _ => true,
    }
}

/// Whether every item of an array has each key once in its objects.
pub open spec fn items_unique(items: Seq<Json>) -> bool
    decreases items,
{
    items.len() == 0 || (keys_unique(items[0]) && items_unique(items.drop_first()))
}

/// Whether the members of an object have distinct keys, and their values
/// have each key once in their objects.
pub open spec fn entries_unique(entries: Seq<(String, Json)>) -> bool
    decreases entries,
{
    entries.len() == 0 || (member(entries.drop_first(), entries[0].0@).is_none() && keys_unique(entries[0].1)
        && entries_unique(entries.drop_first()))
}

/// The kinds of JSON value.
#[derive(Debug, Clone, Copy, PartialEq, Eq, Structural)]
pub enum JsonKind {
    Null,
    Bool,
    Number,
    Str,
    Array,
    Object,
}

/// The kind of a JSON value.
pub open spec fn kind_of(j: Json) -> JsonKind {
    match j {
        Json::Null => JsonKind::Null,
        Json::Bool(_) => JsonKind::Bool,
        Json::Number => JsonKind::Number,
        Json::Str(_) => JsonKind::Str,
        Json::Array(_) => JsonKind::Array,
        Json::Object(_) => JsonKind::Object,
    }
}

impl Json {
    /// The kind of this value.
    pub fn kind(&self) -> (r: JsonKind)
        ensures
            r == kind_of(*self),
    {
        match self {
            Json::Null => JsonKind::Null,
            Json::Bool(_) => JsonKind::Bool,
            Json::Number => JsonKind::Number,
            Json::Str(_) => JsonKind::Str,
            Json::Array(_) => JsonKind::Array,
            Json::Object(_) => JsonKind::Object,
        }
    }
}

/// The value of the first member of `entries` whose key is `key`.
pub open spec fn member(entries: Seq<(String, Json)>, key: Seq<char>) -> Option<Json>
    decreases entries.len(),
{
    if entries.len() == 0 {
        None
    } else if entries[0].0@ == key {
        Some(entries[0].1)
    } else {
        member(entries.drop_first(), key)
    }
}

/// What looking up the member `name` of the kind `kind` gives: its value,
/// or the error that says that it is missing or of another kind.
pub open spec fn field_spec(
    root: Seq<(String, Json)>,
    name: Seq<char>,
    kind: JsonKind,
    domain: Seq<char>,
) -> Result<Json, ApiErrorView> {
    match member(root, name) {
        None => Err(custom_error("no '"@ + name + "' field"@, domain)),
        Some(v) => if kind_of(v) == kind {
            Ok(v)
        } else {
            Err(custom_error("invalid format of `"@ + name + "` field"@, domain))
        },
    }
}

/// The kind of a value's model.
pub open spec fn kind_of_model(m: JsonModel) -> JsonKind {
    match m {
        JsonModel::Null => JsonKind::Null,
        JsonModel::Bool(_) => JsonKind::Bool,
        JsonModel::Number => JsonKind::Number,
        JsonModel::Str(_) => JsonKind::Str,
        JsonModel::Array(_) => JsonKind::Array,
        JsonModel::Object(_) => JsonKind::Object,
    }
}

/// The value of the member `key` of an object's model.
pub open spec fn model_member(m: Map<Seq<char>, JsonModel>, key: Seq<char>) -> Option<JsonModel> {
    if m.contains_key(key) {
        Some(m[key])
    } else {
        None
    }
}

/// What looking up the member `name` of the kind `kind` in an object's model
/// gives: its value, or the error that says that it is missing or of
/// another kind.
pub open spec fn field_model(m: Map<Seq<char>, JsonModel>, name: Seq<char>, kind: JsonKind, domain: Seq<char>) -> Result<JsonModel, ApiErrorView> {
    match model_member(m, name) {
        None => Err(custom_error("no '"@ + name + "' field"@, domain)),
        Some(v) => if kind_of_model(v) == kind {
            Ok(v)
        } else {
            Err(custom_error("invalid format of `"@ + name + "` field"@, domain))
        },
    }
}

/// The member `name` of an object's model as a string.
pub open spec fn str_field_model(m: Map<Seq<char>, JsonModel>, name: Seq<char>, domain: Seq<char>) -> Result<Seq<char>, ApiErrorView> {
    match field_model(m, name, JsonKind::Str, domain) {
        Ok(JsonModel::Str(s)) => Ok(s),
        Ok(_) => Err(custom_error("invalid format of `"@ + name + "` field"@, domain)),
        Err(e) => Err(e),
    }
}

/// The member `name` of an object's model as an object.
pub open spec fn object_field_model(m: Map<Seq<char>, JsonModel>, name: Seq<char>, domain: Seq<char>) -> Result<Map<Seq<char>, JsonModel>, ApiErrorView> {
    match field_model(m, name, JsonKind::Object, domain) {
        Ok(JsonModel::Object(o)) => Ok(o),
        Ok(_) => Err(custom_error("invalid format of `"@ + name + "` field"@, domain)),
        Err(e) => Err(e),
    }
}

/// The member `name` of an object's model as an array's items.
pub open spec fn array_field_model(m: Map<Seq<char>, JsonModel>, name: Seq<char>, domain: Seq<char>) -> Result<Seq<JsonModel>, ApiErrorView> {
    match field_model(m, name, JsonKind::Array, domain) {
        Ok(JsonModel::Array(a)) => Ok(a),
        Ok(_) => Err(custom_error("invalid format of `"@ + name + "` field"@, domain)),
        Err(e) => Err(e),
    }
}

/// The members of the object `m`, or the error that there is none.
pub open spec fn root_object_model(m: JsonModel, domain: Seq<char>) -> Result<Map<Seq<char>, JsonModel>, ApiErrorView> {
    match m {
        JsonModel::Object(o) => Ok(o),
        _ => Err(custom_error("no root object"@, domain)),
    }
}

/// Looking up a member in an object's list of members finds what its model's
/// map holds for the key.
pub proof fn lemma_member_model(entries: Seq<(String, Json)>, key: Seq<char>)
    ensures
        match member(entries, key) {
            Some(v) => model_member(entries_model(entries), key) == Some(json_model(v)),
            None => model_member(entries_model(entries), key).is_none(),
        },
    decreases entries.len(),
{
    if entries.len() > 0 {
        lemma_member_model(entries.drop_first(), key);
    }
}

/// The models of an array's items are the items' models, one for one.
pub proof fn lemma_items_model(items: Seq<Json>)
    ensures
        items_model(items).len() == items.len(),
        forall|i: int| 0 <= i < items.len() ==> #[trigger] items_model(items)[i] == json_model(items[i]),
    decreases items.len(),
{
    if items.len() > 0 {
        lemma_items_model(items.drop_first());
        assert forall|i: int| 0 <= i < items.len() implies #[trigger] items_model(items)[i] == json_model(items[i]) by {
            if i > 0 {
                assert(items_model(items)[i] == items_model(items.drop_first())[i - 1]);
            }
        }
    }
}

proof fn lemma_member_skip(entries: Seq<(String, Json)>, key: Seq<char>, i: int)
    requires
        0 <= i < entries.len(),
        entries[i].0@ != key,
    ensures
        member(entries.skip(i), key) == member(entries.skip(i + 1), key),
{
    assert(entries.skip(i).drop_first() =~= entries.skip(i + 1));
}

/// The value of the member `name` of an object, as `HashMap::get` finds it.
pub fn get_member<'a>(root: &'a Vec<(String, Json)>, name: &str) -> (r: Option<&'a Json>)
    ensures
        match r {
            Some(v) => member(root@, name@) == Some(*v),
            None => member(root@, name@).is_none(),
        },
        match r {
            Some(v) => model_member(entries_model(root@), name@) == Some(json_model(*v)),
            None => model_member(entries_model(root@), name@).is_none(),
        },
{
    proof { lemma_member_model(root@, name@); }
    let key = String::from_str(name);
    let mut i: usize = 0;
    assert(root@.skip(0) =~= root@);
    while i < root.len()
        invariant
            i <= root@.len(),
            key@ == name@,
            member(root@, name@) == member(root@.skip(i as int), name@),
            match member(root@, name@) {
                Some(v) => model_member(entries_model(root@), name@) == Some(json_model(v)),
                None => model_member(entries_model(root@), name@).is_none(),
            },
        decreases root.len() - i,
    {
        assert(root@.skip(i as int)[0] == root@[i as int]);
        if root[i].0 == key {
            assert(member(root@, name@) == Some(root@[i as int].1));
            return Some(&root[i].1);
        }
        proof { lemma_member_skip(root@, name@, i as int); }
        i = i + 1;
    }
    assert(root@.skip(i as int) =~= Seq::<(String, Json)>::empty());
    None
}

/// Looks up the member `name` of an object and checks that it is of the kind
/// `kind`; each failure is an error of the domain `err_domain`.
pub fn try_get_field<'a>(
    root: &'a Vec<(String, Json)>,
    name: &str,
    kind: JsonKind,
    err_domain: &'static str,
) -> (r: Result<&'a Json, ApiError>)
    ensures
        match r {
            Ok(v) => field_spec(root@, name@, kind, err_domain@) == Ok::<Json, ApiErrorView>(*v),
            Err(e) => field_spec(root@, name@, kind, err_domain@) == Err::<Json, ApiErrorView>(e@),
        },
        match r {
            Ok(v) => field_model(entries_model(root@), name@, kind, err_domain@) == Ok::<JsonModel, ApiErrorView>(json_model(*v)),
            Err(e) => field_model(entries_model(root@), name@, kind, err_domain@) == Err::<JsonModel, ApiErrorView>(e@),
        },
{
    proof { lemma_member_model(root@, name@); }
    match get_member(root, name) {
        Some(v) => if v.kind() == kind {
            Ok(v)
        } else {
            let msg = String::from_str("invalid format of `").concat(name).concat("` field");
            Err(ApiError::custom(msg, err_domain))
        },
        None => {
            let msg = String::from_str("no '").concat(name).concat("' field");
            Err(ApiError::custom(msg, err_domain))
        },
    }
}

/// The members of the object `v`; an error of the domain `err_domain` when
/// `v` is no object.
pub fn root_object<'a>(v: &'a Json, err_domain: &'static str) -> (r: Result<&'a Vec<(String, Json)>, ApiError>)
    ensures
        match r {
            Ok(m) => root_object_model(json_model(*v), err_domain@) == Ok::<Map<Seq<char>, JsonModel>, ApiErrorView>(entries_model(m@)),
            Err(e) => root_object_model(json_model(*v), err_domain@) == Err::<Map<Seq<char>, JsonModel>, ApiErrorView>(e@),
        },
{
    match v {
        Json::Object(m) => Ok(m),
        _ => Err(ApiError::custom(String::from_str("no root object"), err_domain)),
    }
}

/// The member `name` of `root`, which must be a string.
pub fn str_field(root: &Vec<(String, Json)>, name: &str, err_domain: &'static str) -> (r: Result<String, ApiError>)
    ensures
        match r {
            Ok(s) => str_field_model(entries_model(root@), name@, err_domain@) == Ok::<Seq<char>, ApiErrorView>(s@),
            Err(e) => str_field_model(entries_model(root@), name@, err_domain@) == Err::<Seq<char>, ApiErrorView>(e@),
        },
{
    match try_get_field(root, name, JsonKind::Str, err_domain) {
        Ok(Json::Str(s)) => Ok(s.clone()),
        Ok(_) => {
            let msg = String::from_str("invalid format of `").concat(name).concat("` field");
            Err(ApiError::custom(msg, err_domain))
        },
        Err(e) => Err(e),
    }
}

/// The member `name` of `root`, which must be an object.
pub fn object_field<'a>(root: &'a Vec<(String, Json)>, name: &str, err_domain: &'static str) -> (r: Result<&'a Vec<(String, Json)>, ApiError>)
    ensures
        match r {
            Ok(m) => object_field_model(entries_model(root@), name@, err_domain@) == Ok::<Map<Seq<char>, JsonModel>, ApiErrorView>(entries_model(m@)),
            Err(e) => object_field_model(entries_model(root@), name@, err_domain@) == Err::<Map<Seq<char>, JsonModel>, ApiErrorView>(e@),
        },
{
    match try_get_field(root, name, JsonKind::Object, err_domain) {
        Ok(Json::Object(m)) => Ok(m),
        Ok(_) => {
            let msg = String::from_str("invalid format of `").concat(name).concat("` field");
            Err(ApiError::custom(msg, err_domain))
        },
        Err(e) => Err(e),
    }
}

/// The member `name` of `root`, which must be an array.
pub fn array_field<'a>(root: &'a Vec<(String, Json)>, name: &str, err_domain: &'static str) -> (r: Result<&'a Vec<Json>, ApiError>)
    ensures
        match r {
            Ok(a) => array_field_model(entries_model(root@), name@, err_domain@) == Ok::<Seq<JsonModel>, ApiErrorView>(items_model(a@)),
            Err(e) => array_field_model(entries_model(root@), name@, err_domain@) == Err::<Seq<JsonModel>, ApiErrorView>(e@),
        },
{
    match try_get_field(root, name, JsonKind::Array, err_domain) {
        Ok(Json::Array(a)) => Ok(a),
        Ok(_) => {
            let msg = String::from_str("invalid format of `").concat(name).concat("` field");
            Err(ApiError::custom(msg, err_domain))
        },
        Err(e) => Err(e),
    }
}

#[verifier::external_type_specification]
#[verifier::external_body]
pub struct ExJsonValue(tinyjson::JsonValue);

/// The value that tinyjson's parser makes of the text `text`, or none when
/// the text is not JSON that it reads.
pub uninterp spec fn tinyjson_value(text: Seq<char>) -> Option<JsonModel>;

/// Turns a tinyjson value into a [`Json`], variant for variant, members and
/// items converted in turn; a number keeps no value.
#[verifier::external_body]
fn json_of_value(v: tinyjson::JsonValue) -> Json {
    match v {
        tinyjson::JsonValue::Number(_) => Json::Number,
        tinyjson::JsonValue::Boolean(b) => Json::Bool(b),
        tinyjson::JsonValue::String(s) => Json::Str(s),
        tinyjson::JsonValue::Null => Json::Null,
        tinyjson::JsonValue::Array(a) => Json::Array(a.into_iter().map(json_of_value).collect()),
        tinyjson::JsonValue::Object(m) => Json::Object(m.into_iter().map(|(k, v)| (k, json_of_value(v))).collect()),
    }
}

/// Calls tinyjson's parser (`str::parse::<tinyjson::JsonValue>`) and converts
/// the value, or `Display` on the parse error. The contract claims that the
/// result's model is the one named `tinyjson_value` for the same text, and
/// that each object has each key once (tinyjson keeps objects in a `HashMap`);
/// on failure, only that the name gives none. Left unsaid: the order of an
/// object's members and the error's message, which can print a `HashMap`
/// and so depend on the order in which the map is walked.
#[verifier::external_body]
fn parse_json_text(text: &str) -> (r: Result<Json, String>)
    ensures
        match r {
            Ok(j) => tinyjson_value(text@) == Some(json_model(j)) && keys_unique(j),
            Err(_) => tinyjson_value(text@).is_none(),
        },
{
    match text.parse::<tinyjson::JsonValue>() {
        Ok(v) => Ok(json_of_value(v)),
        Err(e) => Err(e.to_string()),
    }
}

/// Whether `e` is an error of the JSON parser: the domain `json`, the cause
/// a parse failure.
pub open spec fn is_json_error(e: ApiErrorView) -> bool {
    e.domain == "json"@ && e.source is Json
}

/// Parses JSON text with tinyjson.
pub fn parse_json(text: &str) -> (r: Result<Json, ApiError>)
    ensures
        match r {
            Ok(j) => tinyjson_value(text@) == Some(json_model(j)) && keys_unique(j),
            Err(e) => tinyjson_value(text@).is_none() && is_json_error(e@),
        },
{
    match parse_json_text(text) {
        Ok(j) => Ok(j),
        Err(msg) => Err(ApiError::json(msg)),
    }
}

} // verus!
