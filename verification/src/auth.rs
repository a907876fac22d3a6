//! The OAuth flow: the consent URL, the code in the browser's redirect, the
//! answer to the browser, and the token requests and responses.
use vstd::prelude::*;
use crate::config::ApiConfig;
use crate::error::{ApiError, ApiErrorView, custom_error};
use crate::http::{HttpMethod, HttpRequest, HttpRequestView, pair, pairs_view};
use crate::json::{Json, JsonModel, json_model, parse_json, tinyjson_value, is_json_error, root_object, str_field, root_object_model, str_field_model};
use crate::text::{decimal, decimal_spec, second_field, second_field_spec, free_of, lemma_split_concat};

verus! {

/// What the desktop authorization needs: the client, the command that opens
/// the browser, the local port that receives the redirect, and the text that
/// the browser shows once the code has come.
pub struct AuthRequest<'a> {
    pub config: &'a ApiConfig,
    pub browser_command: String,
    pub response_port: u16,
    pub response_msg: String,
}

/// An access token and the refresh token that renews it.
#[derive(Debug)]
pub struct AuthToken {
    pub access: String,
    pub refresh: String,
}

/// The mathematical model of an [`AuthToken`].
pub struct AuthTokenView {
    pub access: Seq<char>,
    pub refresh: Seq<char>,
}

impl View for AuthToken {
    type V = AuthTokenView;

    open spec fn view(&self) -> AuthTokenView {
        AuthTokenView { access: self.access@, refresh: self.refresh@ }
    }
}

/// The consent page of Google's OAuth service.
pub open spec fn auth_endpoint() -> Seq<char> {
    "https://accounts.google.com/o/oauth2/v2/auth"@
}

/// Google's OAuth token endpoint.
pub open spec fn token_endpoint() -> Seq<char> {
    "https://oauth2.googleapis.com/token"@
}

/// The redirect URI for the local port `port`.
pub open spec fn redirect_uri_spec(port: u16) -> Seq<char> {
    "http://127.0.0.1:"@ + decimal_spec(port as nat)
}

/// The URL with `params` added to its query, as `url::Url::parse_with_params`
/// gives it, or the URL parser's message when `base` is no URL.
pub uninterp spec fn url_with_params(base: Seq<char>, params: Seq<(Seq<char>, Seq<char>)>) -> Result<Seq<char>, Seq<char>>;

/// The decoded name-value pairs of the query of `url`, as
/// `url::Url::parse(url)` followed by `query_pairs` gives them, or the URL
/// parser's message when `url` is no URL.
pub uninterp spec fn url_query_pairs(url: Seq<char>) -> Result<Seq<(Seq<char>, Seq<char>)>, Seq<char>>;

/// Calls `url::Url::parse_with_params`, then `Display` on the URL or on the
/// parse error. The contract claims only that the result is the one named
/// `url_with_params` for the same base and pairs.
#[verifier::external_body]
fn parse_url_with_params(base: &str, params: &Vec<(String, String)>) -> (r: Result<String, String>)
    ensures
        match r {
            Ok(u) => url_with_params(base@, pairs_view(params@)) == Ok::<Seq<char>, Seq<char>>(u@),
            Err(e) => url_with_params(base@, pairs_view(params@)) == Err::<Seq<char>, Seq<char>>(e@),
        },
{
    match url::Url::parse_with_params(base, params.iter().map(|p| (p.0.as_str(), p.1.as_str()))) {
        Ok(u) => Ok(u.to_string()),
        Err(e) => Err(e.to_string()),
    }
}

/// Calls `url::Url::parse` and then `query_pairs` on the URL, turning each
/// decoded pair into owned strings, or `Display` on the parse error. The
/// contract claims only that the result is the one named `url_query_pairs`
/// for the same text.
#[verifier::external_body]
fn parse_query_pairs(url: &str) -> (r: Result<Vec<(String, String)>, String>)
    ensures
        match r {
            Ok(p) => url_query_pairs(url@) == Ok::<Seq<(Seq<char>, Seq<char>)>, Seq<char>>(pairs_view(p@)),
            Err(e) => url_query_pairs(url@) == Err::<Seq<(Seq<char>, Seq<char>)>, Seq<char>>(e@),
        },
{
    match url::Url::parse(url) {
        Ok(u) => Ok(u.query_pairs().map(|(k, v)| (k.into_owned(), v.into_owned())).collect()),
        Err(e) => Err(e.to_string()),
    }
}

/// The redirect URI for the local port `port`, `http://127.0.0.1:<port>`.
pub fn redirect_uri(port: u16) -> (r: String)
    ensures
        r@ == redirect_uri_spec(port),
{
    String::from_str("http://127.0.0.1:").concat(decimal(port as u64).as_str())
}

/// The query of the consent page.
pub open spec fn auth_params_spec(request: AuthRequest) -> Seq<(Seq<char>, Seq<char>)> {
    seq![
        ("client_id"@, request.config.client_id@),
        ("redirect_uri"@, redirect_uri_spec(request.response_port)),
        ("response_type"@, "code"@),
        ("scope"@, "https://www.googleapis.com/auth/drive"@),
    ]
}

/// The query parameters of the consent page for `request`.
pub fn auth_params(request: &AuthRequest) -> (r: Vec<(String, String)>)
    ensures
        pairs_view(r@) == auth_params_spec(*request),
{
    let mut v: Vec<(String, String)> = Vec::new();
    v.push(pair("client_id", request.config.client_id.as_str()));
    let uri = redirect_uri(request.response_port);
    v.push(pair("redirect_uri", uri.as_str()));
    v.push(pair("response_type", "code"));
    v.push(pair("scope", "https://www.googleapis.com/auth/drive"));
    assert(pairs_view(v@) =~= auth_params_spec(*request));
    v
}

/// What the consent URL for `request` is.
pub open spec fn auth_url_spec(request: AuthRequest) -> Result<Seq<char>, ApiErrorView> {
    match url_with_params(auth_endpoint(), auth_params_spec(request)) {
        Ok(u) => Ok(u),
        Err(e) => Err(custom_error("malformed url: "@ + e, "auth"@)),
    }
}

/// The URL of the consent page that the browser opens for `request`.
pub fn auth_url(request: &AuthRequest) -> (r: Result<String, ApiError>)
    ensures
        match r {
            Ok(u) => auth_url_spec(*request) == Ok::<Seq<char>, ApiErrorView>(u@),
            Err(e) => auth_url_spec(*request) == Err::<Seq<char>, ApiErrorView>(e@),
        },
{
    let params = auth_params(request);
    match parse_url_with_params("https://accounts.google.com/o/oauth2/v2/auth", &params) {
        Ok(u) => Ok(u),
        Err(e) => Err(ApiError::custom(String::from_str("malformed url: ").concat(e.as_str()), "auth")),
    }
}

/// The value of the first pair named `name`.
pub open spec fn first_value(pairs: Seq<(Seq<char>, Seq<char>)>, name: Seq<char>) -> Option<Seq<char>>
    decreases pairs.len(),
{
    if pairs.len() == 0 {
        None
    } else if pairs[0].0 == name {
        Some(pairs[0].1)
    } else {
        first_value(pairs.drop_first(), name)
    }
}

/// What the authorization code in the query pairs of the redirect is.
pub open spec fn code_spec(pairs: Seq<(Seq<char>, Seq<char>)>) -> Result<Seq<char>, ApiErrorView> {
    match first_value(pairs, "code"@) {
        Some(c) => Ok(c),
        None => Err(custom_error("no code in auth response"@, "auth"@)),
    }
}

proof fn lemma_first_value_at(pairs: Seq<(Seq<char>, Seq<char>)>, name: Seq<char>, i: int)
    requires
        0 <= i < pairs.len(),
        pairs[i].0 == name,
        forall|k: int| 0 <= k < i ==> pairs[k].0 != name,
    ensures
        first_value(pairs, name) == Some(pairs[i].1),
    decreases i,
{
    if i > 0 {
        let rest = pairs.drop_first();
        assert(pairs[0].0 != name);
        assert forall|k: int| 0 <= k < i - 1 implies rest[k].0 != name by {
            assert(rest[k] == pairs[k + 1]);
        }
        lemma_first_value_at(rest, name, i - 1);
    }
}

proof fn lemma_first_value_none(pairs: Seq<(Seq<char>, Seq<char>)>, name: Seq<char>)
    requires
        first_value(pairs, name).is_none(),
    ensures
        forall|k: int| 0 <= k < pairs.len() ==> pairs[k].0 != name,
    decreases pairs.len(),
{
    if pairs.len() > 0 {
        let rest = pairs.drop_first();
        lemma_first_value_none(rest, name);
        assert forall|k: int| 0 <= k < pairs.len() implies pairs[k].0 != name by {
            if k > 0 {
                assert(rest[k - 1] == pairs[k]);
            }
        }
    }
}

proof fn lemma_first_value_some(pairs: Seq<(Seq<char>, Seq<char>)>, name: Seq<char>)
    requires
        first_value(pairs, name).is_some(),
    ensures
        exists|i: int| 0 <= i < pairs.len() && #[trigger] pairs[i].0 == name,
    decreases pairs.len(),
{
    if pairs[0].0 != name {
        let rest = pairs.drop_first();
        lemma_first_value_some(rest, name);
        let i = choose|i: int| 0 <= i < rest.len() && #[trigger] rest[i].0 == name;
        assert(pairs[i + 1] == rest[i]);
    }
}

/// The code is found exactly when some query pair is named `code`, whatever
/// the number of pairs, and then it is the value of the first such pair;
/// otherwise the error says that no code came.
pub proof fn lemma_code_is_first_code_pair(pairs: Seq<(Seq<char>, Seq<char>)>)
    ensures
        code_spec(pairs) is Ok <==> exists|i: int| 0 <= i < pairs.len() && #[trigger] pairs[i].0 == "code"@,
        forall|i: int| 0 <= i < pairs.len() && #[trigger] pairs[i].0 == "code"@
            && (forall|k: int| 0 <= k < i ==> pairs[k].0 != "code"@) ==> code_spec(pairs) == Ok::<Seq<char>, ApiErrorView>(pairs[i].1),
        code_spec(pairs) is Err ==> code_spec(pairs) == Err::<Seq<char>, ApiErrorView>(custom_error("no code in auth response"@, "auth"@)),
{
    let name = "code"@;
    if first_value(pairs, name).is_some() {
        lemma_first_value_some(pairs, name);
    } else {
        lemma_first_value_none(pairs, name);
    }
    assert forall|i: int| 0 <= i < pairs.len() && #[trigger] pairs[i].0 == name
        && (forall|k: int| 0 <= k < i ==> pairs[k].0 != name) implies code_spec(pairs) == Ok::<Seq<char>, ApiErrorView>(pairs[i].1) by {
        lemma_first_value_at(pairs, name, i);
    }
}

/// The authorization code: the value of the first query pair named `code`.
pub fn code_from_query_pairs(pairs: &Vec<(String, String)>) -> (r: Result<String, ApiError>)
    ensures
        match r {
            Ok(c) => code_spec(pairs_view(pairs@)) == Ok::<Seq<char>, ApiErrorView>(c@),
            Err(e) => code_spec(pairs_view(pairs@)) == Err::<Seq<char>, ApiErrorView>(e@),
        },
{
    let ghost p = pairs_view(pairs@);
    let code = String::from_str("code");
    let mut i: usize = 0;
    assert(p.skip(0) =~= p);
    while i < pairs.len()
        invariant
            i <= pairs@.len(),
            p == pairs_view(pairs@),
            code@ == "code"@,
            first_value(p, "code"@) == first_value(p.skip(i as int), "code"@),
        decreases pairs.len() - i,
    {
        assert(p.skip(i as int).drop_first() =~= p.skip(i + 1));
        if pairs[i].0 == code {
            return Ok(pairs[i].1.clone());
        }
        i = i + 1;
    }
    assert(p.skip(i as int) =~= Seq::<(Seq<char>, Seq<char>)>::empty());
    Err(ApiError::custom(String::from_str("no code in auth response"), "auth"))
}

/// What the authorization code in the browser's request line is: the request
/// target (the second space-separated piece of the line) is read as a URL of
/// `http://127.0.0.1`, and the code is its query's `code` value.
pub open spec fn request_line_code_spec(line: Seq<char>) -> Result<Seq<char>, ApiErrorView> {
    match second_field_spec(line) {
        None => Err(custom_error("invalid response format"@, "auth"@)),
        Some(target) => match url_query_pairs("http://127.0.0.1"@ + target) {
            Err(e) => Err(custom_error("malformed url: "@ + e, "auth"@)),
            Ok(pairs) => code_spec(pairs),
        },
    }
}

/// For a request line `method target rest`, whose method and target hold no
/// space, the code is read from the target alone: when the target's URL
/// gives the query pairs `pairs`, the code is found exactly when some pair
/// is named `code`, however many pairs there are, and then it is the value
/// of the first such pair.
pub proof fn lemma_request_line_code(
    method: Seq<char>,
    target: Seq<char>,
    rest: Seq<char>,
    pairs: Seq<(Seq<char>, Seq<char>)>,
)
    requires
        free_of(method, ' '),
        free_of(target, ' '),
        url_query_pairs("http://127.0.0.1"@ + target) == Ok::<Seq<(Seq<char>, Seq<char>)>, Seq<char>>(pairs),
    ensures
        ({
            let line = method + seq![' '] + target + seq![' '] + rest;
            &&& (request_line_code_spec(line) is Ok) <==> exists|i: int| 0 <= i < pairs.len() && #[trigger] pairs[i].0 == "code"@
            &&& forall|i: int| 0 <= i < pairs.len() && #[trigger] pairs[i].0 == "code"@
                && (forall|k: int| 0 <= k < i ==> pairs[k].0 != "code"@)
                ==> request_line_code_spec(line) == Ok::<Seq<char>, ApiErrorView>(pairs[i].1)
        }),
{
    let tail = target + seq![' '] + rest;
    let line = method + seq![' '] + target + seq![' '] + rest;
    assert(line =~= method + seq![' '] + tail);
    lemma_split_concat(method, ' ', tail);
    lemma_split_concat(target, ' ', rest);
    assert(second_field_spec(line) == Some(target));
    lemma_code_is_first_code_pair(pairs);
}

/// The authorization code in the first line of the browser's redirected request.
pub fn auth_code_from_request_line(line: &str) -> (r: Result<String, ApiError>)
    ensures
        match r {
            Ok(c) => request_line_code_spec(line@) == Ok::<Seq<char>, ApiErrorView>(c@),
            Err(e) => request_line_code_spec(line@) == Err::<Seq<char>, ApiErrorView>(e@),
        },
{
    let target = match second_field(line) {
        Some(t) => t,
        None => return Err(ApiError::custom(String::from_str("invalid response format"), "auth")),
    };
    let url = String::from_str("http://127.0.0.1").concat(target.as_str());
    match parse_query_pairs(url.as_str()) {
        Err(e) => Err(ApiError::custom(String::from_str("malformed url: ").concat(e.as_str()), "auth")),
        Ok(pairs) => code_from_query_pairs(&pairs),
    }
}

/// The HTTP response that the browser gets once the code has come: status
/// 200 and `msg` as plain text, its length in bytes in `Content-Length`.
pub open spec fn auth_response_spec(msg: &str) -> Seq<char> {
    "HTTP/1.1 200 OK\nContent-Length: "@ + decimal_spec(msg.len() as nat)
        + "\nContent-Type: text/plain; charset=utf-8\n\n"@ + msg@
}

/// The HTTP response that tells the browser that the code has come.
pub fn auth_response(msg: &str) -> (r: String)
    ensures
        r@ == auth_response_spec(msg),
{
    let len = msg.len();
    String::from_str("HTTP/1.1 200 OK\nContent-Length: ").concat(decimal(len as u64).as_str())
        .concat("\nContent-Type: text/plain; charset=utf-8\n\n").concat(msg)
}

/// The request that trades the code for tokens.
pub open spec fn token_request_spec(request: AuthRequest, code: Seq<char>) -> HttpRequestView {
    HttpRequestView {
        method: HttpMethod::Post,
        url: token_endpoint(),
        headers: seq![],
        query: seq![],
        form: seq![
            ("client_id"@, request.config.client_id@),
            ("client_secret"@, request.config.client_secret@),
            ("code"@, code),
            ("grant_type"@, "authorization_code"@),
            ("redirect_uri"@, redirect_uri_spec(request.response_port)),
        ],
    }
}

/// The request that trades the authorization code `code` for tokens.
pub fn token_request(request: &AuthRequest, code: &str) -> (r: HttpRequest)
    ensures
        r@ == token_request_spec(*request, code@),
{
    let mut form: Vec<(String, String)> = Vec::new();
    form.push(pair("client_id", request.config.client_id.as_str()));
    form.push(pair("client_secret", request.config.client_secret.as_str()));
    form.push(pair("code", code));
    form.push(pair("grant_type", "authorization_code"));
    let uri = redirect_uri(request.response_port);
    form.push(pair("redirect_uri", uri.as_str()));
    let r = HttpRequest {
        method: HttpMethod::Post,
        url: String::from_str("https://oauth2.googleapis.com/token"),
        headers: Vec::new(),
        query: Vec::new(),
        form,
    };
    assert(r@.form =~= token_request_spec(*request, code@).form);
    assert(r@.headers =~= Seq::<(Seq<char>, Seq<char>)>::empty());
    assert(r@.query =~= Seq::<(Seq<char>, Seq<char>)>::empty());
    r
}

/// What the tokens in the token endpoint's JSON answer are.
pub open spec fn token_response_spec(root: JsonModel) -> Result<AuthTokenView, ApiErrorView> {
    match root_object_model(root, "auth"@) {
        Err(e) => Err(e),
        Ok(m) => match str_field_model(m, "access_token"@, "auth"@) {
            Err(e) => Err(e),
            Ok(access) => match str_field_model(m, "refresh_token"@, "auth"@) {
                Err(e) => Err(e),
                Ok(refresh) => Ok(AuthTokenView { access, refresh }),
            },
        },
    }
}

/// The tokens in the token endpoint's answer to the code.
pub fn auth_token_from_response(root: &Json) -> (r: Result<AuthToken, ApiError>)
    ensures
        match r {
            Ok(t) => token_response_spec(json_model(*root)) == Ok::<AuthTokenView, ApiErrorView>(t@),
            Err(e) => token_response_spec(json_model(*root)) == Err::<AuthTokenView, ApiErrorView>(e@),
        },
{
    let m = match root_object(root, "auth") {
        Ok(m) => m,
        Err(e) => return Err(e),
    };
    let access = match str_field(m, "access_token", "auth") {
        Ok(s) => s,
        Err(e) => return Err(e),
    };
    let refresh = match str_field(m, "refresh_token", "auth") {
        Ok(s) => s,
        Err(e) => return Err(e),
    };
    Ok(AuthToken { access, refresh })
}

/// The request that renews the access token of `config`.
pub open spec fn refresh_request_spec(config: ApiConfig) -> HttpRequestView {
    HttpRequestView {
        method: HttpMethod::Post,
        url: token_endpoint(),
        headers: seq![],
        query: seq![],
        form: seq![
            ("client_id"@, config.client_id@),
            ("client_secret"@, config.client_secret@),
            ("grant_type"@, "refresh_token"@),
            ("refresh_token"@, config.refresh_token@),
        ],
    }
}

/// The request that renews the access token with the refresh token of `config`.
pub fn refresh_request(config: &ApiConfig) -> (r: HttpRequest)
    ensures
        r@ == refresh_request_spec(*config),
{
    let mut form: Vec<(String, String)> = Vec::new();
    form.push(pair("client_id", config.client_id.as_str()));
    form.push(pair("client_secret", config.client_secret.as_str()));
    form.push(pair("grant_type", "refresh_token"));
    form.push(pair("refresh_token", config.refresh_token.as_str()));
    let r = HttpRequest {
        method: HttpMethod::Post,
        url: String::from_str("https://oauth2.googleapis.com/token"),
        headers: Vec::new(),
        query: Vec::new(),
        form,
    };
    assert(r@.form =~= refresh_request_spec(*config).form);
    assert(r@.headers =~= Seq::<(Seq<char>, Seq<char>)>::empty());
    assert(r@.query =~= Seq::<(Seq<char>, Seq<char>)>::empty());
    r
}

/// What the renewed tokens are: the new access token from the answer, the
/// refresh token kept from `config`.
pub open spec fn refresh_response_spec(config: ApiConfig, root: JsonModel) -> Result<AuthTokenView, ApiErrorView> {
    match root_object_model(root, "auth"@) {
        Err(e) => Err(e),
        Ok(m) => match str_field_model(m, "access_token"@, "auth"@) {
            Err(e) => Err(e),
            Ok(access) => Ok(AuthTokenView { access, refresh: config.refresh_token@ }),
        },
    }
}

/// The renewed tokens in the token endpoint's answer to a refresh request.
pub fn refreshed_token(config: &ApiConfig, root: &Json) -> (r: Result<AuthToken, ApiError>)
    ensures
        match r {
            Ok(t) => refresh_response_spec(*config, json_model(*root)) == Ok::<AuthTokenView, ApiErrorView>(t@),
            Err(e) => refresh_response_spec(*config, json_model(*root)) == Err::<AuthTokenView, ApiErrorView>(e@),
        },
{
    let m = match root_object(root, "auth") {
        Ok(m) => m,
        Err(e) => return Err(e),
    };
    let access = match str_field(m, "access_token", "auth") {
        Ok(s) => s,
        Err(e) => return Err(e),
    };
    Ok(AuthToken { access, refresh: config.refresh_token.clone() })
}

/// The tokens in the text of the token endpoint's answer to the code.
pub fn auth_token_from_body(body: &str) -> (r: Result<AuthToken, ApiError>)
    ensures
        match r {
            Ok(t) => tinyjson_value(body@) matches Some(m) && token_response_spec(m) == Ok::<AuthTokenView, ApiErrorView>(t@),
            Err(e) => match tinyjson_value(body@) {
                None => is_json_error(e@),
                Some(m) => token_response_spec(m) == Err::<AuthTokenView, ApiErrorView>(e@),
            },
        },
{
    match parse_json(body) {
        Ok(j) => auth_token_from_response(&j),
        Err(e) => Err(e),
    }
}

/// The renewed tokens in the text of the token endpoint's answer to a refresh.
pub fn refreshed_token_from_body(config: &ApiConfig, body: &str) -> (r: Result<AuthToken, ApiError>)
    ensures
        match r {
            Ok(t) => tinyjson_value(body@) matches Some(m) && refresh_response_spec(*config, m) == Ok::<AuthTokenView, ApiErrorView>(t@),
            Err(e) => match tinyjson_value(body@) {
                None => is_json_error(e@),
                Some(m) => refresh_response_spec(*config, m) == Err::<AuthTokenView, ApiErrorView>(e@),
            },
        },
{
    match parse_json(body) {
        Ok(j) => refreshed_token(config, &j),
        Err(e) => Err(e),
    }
}

} // verus!
