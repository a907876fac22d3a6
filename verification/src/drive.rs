//! The Drive client: its configuration, the file-listing and download
//! requests, and the decoding of the file list.
use vstd::prelude::*;
use crate::auth::{AuthRequest, AuthToken};
use crate::config::{ApiConfig, ApiConfigView};
use crate::error::{ApiError, ApiErrorView, custom_error};
use crate::http::{HttpMethod, HttpRequest, HttpRequestView, pair, pairs_view};
use crate::json::{Json, JsonModel, json_model, parse_json, tinyjson_value, is_json_error, items_model, entries_model, lemma_items_model, model_member, get_member, root_object, array_field, str_field, root_object_model, array_field_model, str_field_model};
use crate::text::{parse_u64, parse_u64_spec, all_digits, digits_value, is_digit, unsigned_digits, decimal_spec, lemma_parse_decimal_roundtrip};

verus! {

/// A file of a Drive folder. `size` is known for files with content.
#[derive(Debug)]
pub struct DriveFile {
    pub id: String,
    pub name: String,
    pub size: Option<u64>,
}

/// The mathematical model of a [`DriveFile`].
pub struct DriveFileView {
    pub id: Seq<char>,
    pub name: Seq<char>,
    pub size: Option<u64>,
}

impl View for DriveFile {
    type V = DriveFileView;

    open spec fn view(&self) -> DriveFileView {
        DriveFileView { id: self.id@, name: self.name@, size: self.size }
    }
}

/// The size of a listed file: its `size` member, a decimal string, when it
/// has one that reads as a number.
pub open spec fn size_spec(m: Map<Seq<char>, JsonModel>) -> Option<u64> {
    match model_member(m, "size"@) {
        Some(JsonModel::Str(s)) => parse_u64_spec(s),
        _ => None,
    }
}

/// What the file that the JSON value `f` lists is.
pub open spec fn drive_file_spec(f: JsonModel) -> Result<DriveFileView, ApiErrorView> {
    let d = "files api"@;
    match f {
        JsonModel::Object(m) => match str_field_model(m, "name"@, d) {
            Err(e) => Err(e),
            Ok(name) => match str_field_model(m, "id"@, d) {
                Err(e) => Err(e),
                Ok(id) => Ok(DriveFileView { id, name, size: size_spec(m) }),
            },
        },
        _ => Err(custom_error("invalid file object"@, d)),
    }
}

/// A listed file's size is what `str::parse::<u64>` reads from its `size`
/// string, whatever the string's length: a string of decimal digits gives
/// the number it denotes when that fits in 64 bits, and in particular the
/// decimal text of any `n` gives `n`. A file without a `size` member has
/// no size.
pub proof fn lemma_file_size(m: Map<Seq<char>, JsonModel>)
    requires
        drive_file_spec(JsonModel::Object(m)) is Ok,
    ensures
        !m.contains_key("size"@) ==> drive_file_spec(JsonModel::Object(m))->Ok_0.size.is_none(),
        m.contains_key("size"@) && m["size"@] is Str ==>
            drive_file_spec(JsonModel::Object(m))->Ok_0.size == parse_u64_spec(m["size"@]->Str_0),
        forall|s: Seq<char>| m.contains_key("size"@) && m["size"@] == JsonModel::Str(s) && s.len() > 0 && all_digits(s)
            && digits_value(s) <= u64::MAX ==> drive_file_spec(JsonModel::Object(m))->Ok_0.size == Some(digits_value(s) as u64),
        forall|n: u64| m.contains_key("size"@) && m["size"@] == JsonModel::Str(decimal_spec(n as nat))
            ==> drive_file_spec(JsonModel::Object(m))->Ok_0.size == Some(n),
{
    assert forall|s: Seq<char>| m.contains_key("size"@) && m["size"@] == JsonModel::Str(s) && s.len() > 0 && all_digits(s)
        && digits_value(s) <= u64::MAX implies drive_file_spec(JsonModel::Object(m))->Ok_0.size == Some(digits_value(s) as u64) by {
        assert(is_digit(s[0]));
        assert(unsigned_digits(s) == s);
    }
    assert forall|n: u64| m.contains_key("size"@) && m["size"@] == JsonModel::Str(decimal_spec(n as nat))
        implies drive_file_spec(JsonModel::Object(m))->Ok_0.size == Some(n) by {
        lemma_parse_decimal_roundtrip(n);
    }
}

/// A listed file is read from an object with string members `id` and
/// `name`, and from nothing else: its id and name are those strings, each
/// in its own field.
pub proof fn lemma_file_fields(f: JsonModel)
    ensures
        match f {
            JsonModel::Object(m) => {
                &&& (drive_file_spec(f) is Ok) <==> (m.contains_key("id"@) && m["id"@] is Str
                    && m.contains_key("name"@) && m["name"@] is Str)
                &&& drive_file_spec(f) is Ok ==> drive_file_spec(f)->Ok_0.id == m["id"@]->Str_0
                    && drive_file_spec(f)->Ok_0.name == m["name"@]->Str_0
            },
            _ => drive_file_spec(f) is Err,
        },
{
}

/// What the files that `items` list are, in their order; the error of the
/// first item that is no file.
pub open spec fn drive_files_spec(items: Seq<JsonModel>) -> Result<Seq<DriveFileView>, ApiErrorView>
    decreases items.len(),
{
    if items.len() == 0 {
        Ok(seq![])
    } else {
        match drive_file_spec(items[0]) {
            Err(e) => Err(e),
            Ok(f) => match drive_files_spec(items.drop_first()) {
                Err(e) => Err(e),
                Ok(rest) => Ok(seq![f] + rest),
            },
        }
    }
}

/// The token of the next page, when the answer names one.
pub open spec fn page_token_spec(m: Map<Seq<char>, JsonModel>) -> Option<Seq<char>> {
    match model_member(m, "nextPageToken"@) {
        Some(JsonModel::Str(t)) => Some(t),
        _ => None,
    }
}

/// What one page of a listing holds: its files, in order, and the token of
/// the page after it (none on the last page).
pub open spec fn file_page_spec(root: JsonModel) -> Result<(Seq<DriveFileView>, Option<Seq<char>>), ApiErrorView> {
    let d = "files api"@;
    match root_object_model(root, d) {
        Err(e) => Err(e),
        Ok(m) => match array_field_model(m, "files"@, d) {
            Err(e) => Err(e),
            Ok(items) => match drive_files_spec(items) {
                Err(e) => Err(e),
                Ok(files) => Ok((files, page_token_spec(m))),
            },
        },
    }
}

/// The files' models, in order.
pub open spec fn files_view(v: Seq<DriveFile>) -> Seq<DriveFileView> {
    v.map_values(|f: DriveFile| f@)
}

/// An optional string as an optional sequence of characters.
pub open spec fn opt_view(o: Option<String>) -> Option<Seq<char>> {
    match o {
        Some(s) => Some(s@),
        None => None,
    }
}

spec fn prepend_files(s: Seq<DriveFileView>, r: Result<Seq<DriveFileView>, ApiErrorView>) -> Result<Seq<DriveFileView>, ApiErrorView> {
    match r {
        Ok(rest) => Ok(s + rest),
        Err(e) => Err(e),
    }
}

/// A page that decodes gives one file for each item, in the items' order.
pub proof fn lemma_file_list_length(items: Seq<JsonModel>)
    ensures
        drive_files_spec(items) matches Ok(files) ==> files.len() == items.len()
            && forall|i: int| 0 <= i < items.len() ==> drive_file_spec(#[trigger] items[i]) == Ok::<DriveFileView, ApiErrorView>(files[i]),
    decreases items.len(),
{
    if items.len() > 0 {
        lemma_file_list_length(items.drop_first());
        if let Ok(files) = drive_files_spec(items) {
            let rest = drive_files_spec(items.drop_first())->Ok_0;
            assert forall|i: int| 0 <= i < items.len() implies drive_file_spec(#[trigger] items[i]) == Ok::<DriveFileView, ApiErrorView>(files[i]) by {
                if i > 0 {
                    assert(items[i] == items.drop_first()[i - 1]);
                    assert(files[i] == rest[i - 1]);
                }
            }
        }
    }
}

/// The file that the JSON value `f` of a listing describes.
pub fn drive_file(f: &Json) -> (r: Result<DriveFile, ApiError>)
    ensures
        match r {
            Ok(file) => drive_file_spec(json_model(*f)) == Ok::<DriveFileView, ApiErrorView>(file@),
            Err(e) => drive_file_spec(json_model(*f)) == Err::<DriveFileView, ApiErrorView>(e@),
        },
{
    let m = match f {
        Json::Object(m) => m,
        _ => return Err(ApiError::custom(String::from_str("invalid file object"), "files api")),
    };
    let name = match str_field(m, "name", "files api") {
        Ok(s) => s,
        Err(e) => return Err(e),
    };
    let id = match str_field(m, "id", "files api") {
        Ok(s) => s,
        Err(e) => return Err(e),
    };
    let size = match get_member(m, "size") {
        Some(Json::Str(s)) => parse_u64(s.as_str()),
        _ => None,
    };
    Ok(DriveFile { id, name, size })
}

/// One page of the JSON answer to a listing request: the `files` array of
/// the root object, in order, and the `nextPageToken` when it is a string.
pub fn decode_file_page(root: &Json) -> (r: Result<(Vec<DriveFile>, Option<String>), ApiError>)
    ensures
        match r {
            Ok((files, token)) => file_page_spec(json_model(*root))
                == Ok::<(Seq<DriveFileView>, Option<Seq<char>>), ApiErrorView>((files_view(files@), opt_view(token))),
            Err(e) => file_page_spec(json_model(*root)) == Err::<(Seq<DriveFileView>, Option<Seq<char>>), ApiErrorView>(e@),
        },
{
    let m = match root_object(root, "files api") {
        Ok(m) => m,
        Err(e) => return Err(e),
    };
    let items = match array_field(m, "files", "files api") {
        Ok(a) => a,
        Err(e) => return Err(e),
    };
    let ghost models = items_model(items@);
    proof { lemma_items_model(items@); }
    let mut out: Vec<DriveFile> = Vec::new();
    let mut i: usize = 0;
    assert(models.skip(0) =~= models);
    assert(files_view(out@) + seq![] =~= files_view(out@));
    while i < items.len()
        invariant
            i <= items@.len(),
            models == items_model(items@),
            models.len() == items@.len(),
            forall|k: int| 0 <= k < items@.len() ==> #[trigger] models[k] == json_model(items@[k]),
            drive_files_spec(models) == prepend_files(files_view(out@), drive_files_spec(models.skip(i as int))),
            file_page_spec(json_model(*root)) == (match drive_files_spec(models) {
                Err(e) => Err(e),
                Ok(f) => Ok::<(Seq<DriveFileView>, Option<Seq<char>>), ApiErrorView>((f, page_token_spec(entries_model(m@)))),
            }),
        decreases items.len() - i,
    {
        let ghost rest = models.skip(i as int);
        assert(rest[0] == models[i as int]);
        assert(rest.drop_first() =~= models.skip(i + 1));
        assert(models[i as int] == json_model(items@[i as int]));
        match drive_file(&items[i]) {
            Err(e) => {
                assert(drive_files_spec(rest) == Err::<Seq<DriveFileView>, ApiErrorView>(e@));
                return Err(e);
            },
            Ok(f) => {
                let ghost before = files_view(out@);
                out.push(f);
                assert(files_view(out@) =~= before + seq![f@]);
                assert forall|x: Seq<DriveFileView>| #![auto] before + (seq![f@] + x) == files_view(out@) + x by {
                    assert(before + (seq![f@] + x) =~= files_view(out@) + x);
                }
            },
        }
        i = i + 1;
    }
    assert(models.skip(i as int) =~= Seq::<JsonModel>::empty());
    assert(files_view(out@) + seq![] =~= files_view(out@));
    let token = match get_member(m, "nextPageToken") {
        Some(Json::Str(t)) => Some(t.clone()),
        _ => None,
    };
    Ok((out, token))
}

/// A change of a client's configuration: the tokens of an authorization, or
/// the access token of a refresh.
pub enum ConfigUpdate {
    Auth(Seq<char>, Seq<char>),
    Refresh(Seq<char>),
}

/// The configuration after the changes `updates`, in turn.
pub open spec fn config_after(c: ApiConfigView, updates: Seq<ConfigUpdate>) -> ApiConfigView
    decreases updates.len(),
{
    if updates.len() == 0 {
        c
    } else {
        let before = config_after(c, updates.drop_last());
        match updates.last() {
            ConfigUpdate::Auth(access, refresh) => ApiConfigView { access_token: access, refresh_token: refresh, ..before },
            ConfigUpdate::Refresh(access) => ApiConfigView { access_token: access, ..before },
        }
    }
}

/// Whatever authorizations and refreshes a client goes through, its client
/// id and secret stay those it was made with, and with no change at all its
/// configuration is the one it was made with.
pub proof fn lemma_config_changes(c: ApiConfigView, updates: Seq<ConfigUpdate>)
    ensures
        config_after(c, updates).client_id == c.client_id,
        config_after(c, updates).client_secret == c.client_secret,
        updates.len() == 0 ==> config_after(c, updates) == c,
    decreases updates.len(),
{
    if updates.len() > 0 {
        lemma_config_changes(c, updates.drop_last());
    }
}

/// A Google Drive client.
pub struct GoogleDriveApi {
    config: ApiConfig,
}

impl View for GoogleDriveApi {
    type V = ApiConfigView;

    closed spec fn view(&self) -> ApiConfigView {
        self.config@
    }
}

/// The files endpoint of the Drive API.
pub open spec fn files_endpoint() -> Seq<char> {
    "https://www.googleapis.com/drive/v3/files"@
}

/// The `Authorization` header for the access token `token`.
pub open spec fn bearer_header(token: Seq<char>) -> Seq<(Seq<char>, Seq<char>)> {
    seq![("Authorization"@, "Bearer "@ + token)]
}

/// The query of a listing request: the search `q`, the members asked for
/// (the next page's token and each file's id, name and size), and the token
/// of the page to give, when it is not the first.
pub open spec fn list_query_spec(q: Seq<char>, page_token: Option<Seq<char>>) -> Seq<(Seq<char>, Seq<char>)> {
    seq![("q"@, q), ("fields"@, "nextPageToken,files(id,name,size)"@)] + match page_token {
        Some(t) => seq![("pageToken"@, t)],
        None => seq![],
    }
}

/// The request for one page of the files that the search `q` finds.
pub open spec fn list_request_spec(c: ApiConfigView, q: Seq<char>, page_token: Option<Seq<char>>) -> HttpRequestView {
    HttpRequestView {
        method: HttpMethod::Get,
        url: files_endpoint(),
        headers: bearer_header(c.access_token),
        query: list_query_spec(q, page_token),
        form: seq![],
    }
}

/// The request that fetches the content of the file `id`.
pub open spec fn download_request_spec(c: ApiConfigView, id: Seq<char>) -> HttpRequestView {
    HttpRequestView {
        method: HttpMethod::Get,
        url: files_endpoint() + "/"@ + id,
        headers: bearer_header(c.access_token),
        query: seq![("alt"@, "media"@)],
        form: seq![],
    }
}

impl GoogleDriveApi {
    /// A client with the configuration `config`.
    pub fn new(config: ApiConfig) -> (r: GoogleDriveApi)
        ensures
            r@ == config@,
    {
        GoogleDriveApi { config }
    }

    /// The client's configuration.
    pub fn config(&self) -> (r: &ApiConfig)
        ensures
            r@ == self@,
    {
        &self.config
    }

    /// What the desktop authorization of this client needs: `xdg-open` opens
    /// the browser, the redirect comes to port 8066.
    pub fn auth_request(&self) -> (r: AuthRequest<'_>)
        ensures
            r.config@ == self@,
            r.browser_command@ == "xdg-open"@,
            r.response_port == 8066,
            r.response_msg@ == "Auth tokens have been received, you may close the browser now"@,
    {
        AuthRequest {
            config: &self.config,
            browser_command: String::from_str("xdg-open"),
            response_port: 8066,
            response_msg: String::from_str("Auth tokens have been received, you may close the browser now"),
        }
    }

    /// Takes the tokens that the authorization gave: both replace the
    /// configuration's tokens; the client credentials stay.
    pub fn auth(&mut self, token: AuthToken)
        ensures
            final(self)@ == (ApiConfigView {
                client_id: old(self)@.client_id,
                client_secret: old(self)@.client_secret,
                access_token: token.access@,
                refresh_token: token.refresh@,
            }),
            final(self)@ == config_after(old(self)@, seq![ConfigUpdate::Auth(token.access@, token.refresh@)]),
    {
        assert(seq![ConfigUpdate::Auth(token.access@, token.refresh@)].drop_last() =~= Seq::<ConfigUpdate>::empty());
        proof { reveal_with_fuel(config_after, 2); }
        self.config.access_token = token.access;
        self.config.refresh_token = token.refresh;
    }

    /// Takes the tokens that a refresh gave: the access token is replaced,
    /// everything else stays.
    pub fn auth_refresh(&mut self, token: AuthToken)
        ensures
            final(self)@ == (ApiConfigView { access_token: token.access@, ..old(self)@ }),
            final(self)@ == config_after(old(self)@, seq![ConfigUpdate::Refresh(token.access@)]),
    {
        assert(seq![ConfigUpdate::Refresh(token.access@)].drop_last() =~= Seq::<ConfigUpdate>::empty());
        proof { reveal_with_fuel(config_after, 2); }
        self.config.access_token = token.access;
    }

    fn bearer(&self) -> (r: Vec<(String, String)>)
        ensures
            pairs_view(r@) == bearer_header(self@.access_token),
    {
        let mut h: Vec<(String, String)> = Vec::new();
        let value = String::from_str("Bearer ").concat(self.config.access_token.as_str());
        h.push(pair("Authorization", value.as_str()));
        assert(pairs_view(h@) =~= bearer_header(self@.access_token));
        h
    }

    /// The request for one page of the files that the search query `q`
    /// finds, with their ids, names and sizes: the first page, or the page
    /// that `page_token` names.
    pub fn list_files_request(&self, q: &str, page_token: Option<&str>) -> (r: HttpRequest)
        ensures
            r@ == list_request_spec(self@, q@, match page_token {
                Some(t) => Some(t@),
                None => None,
            }),
    {
        let mut query: Vec<(String, String)> = Vec::new();
        query.push(pair("q", q));
        query.push(pair("fields", "nextPageToken,files(id,name,size)"));
        match page_token {
            Some(t) => query.push(pair("pageToken", t)),
            None => {},
        }
        let r = HttpRequest {
            method: HttpMethod::Get,
            url: String::from_str("https://www.googleapis.com/drive/v3/files"),
            headers: self.bearer(),
            query,
            form: Vec::new(),
        };
        assert(r@.query =~= list_request_spec(self@, q@, match page_token {
            Some(t) => Some(t@),
            None => None,
        }).query);
        assert(r@.form =~= Seq::<(Seq<char>, Seq<char>)>::empty());
        r
    }

    /// The request that fetches the content of the file with the id `id`.
    pub fn download_request(&self, id: &str) -> (r: HttpRequest)
        ensures
            r@ == download_request_spec(self@, id@),
    {
        let mut query: Vec<(String, String)> = Vec::new();
        query.push(pair("alt", "media"));
        let r = HttpRequest {
            method: HttpMethod::Get,
            url: String::from_str("https://www.googleapis.com/drive/v3/files").concat("/").concat(id),
            headers: self.bearer(),
            query,
            form: Vec::new(),
        };
        assert(r@.query =~= download_request_spec(self@, id@).query);
        assert(r@.form =~= Seq::<(Seq<char>, Seq<char>)>::empty());
        r
    }
}

/// The files of the pages `pages` of a listing, one page after the other,
/// and the token that the last page names; the error of the first page that
/// does not decode.
pub open spec fn pages_spec(pages: Seq<JsonModel>) -> Result<(Seq<DriveFileView>, Option<Seq<char>>), ApiErrorView>
    decreases pages.len(),
{
    if pages.len() == 0 {
        Ok((seq![], None))
    } else {
        match pages_spec(pages.drop_last()) {
            Err(e) => Err(e),
            Ok((files, _)) => match file_page_spec(pages.last()) {
                Err(e) => Err(e),
                Ok((more, token)) => Ok((files + more, token)),
            },
        }
    }
}

/// Taking one more page adds its files after all those before, in order,
/// and the listing ends exactly when a page names no next page: the files of
/// a listing are those of all its pages, one page after the other.
pub proof fn lemma_listing_pages(query: Seq<char>, pages: Seq<JsonModel>, page: JsonModel)
    requires
        pages_spec(pages) is Ok,
        file_page_spec(page) is Ok,
    ensures
        pages_spec(pages.push(page)) is Ok,
        listing_after(query, pages.push(page)).files
            == listing_after(query, pages).files + file_page_spec(page)->Ok_0.0,
        listing_after(query, pages.push(page)).finished == file_page_spec(page)->Ok_0.1.is_none(),
{
    assert(pages.push(page).drop_last() =~= pages);
}

/// The state of a listing: the search, the pages taken so far, their files
/// in order, the token of the next page, and whether the last page came.
pub struct FileListingView {
    pub query: Seq<char>,
    pub pages: Seq<JsonModel>,
    pub files: Seq<DriveFileView>,
    pub next: Option<Seq<char>>,
    pub finished: bool,
}

/// The state of the listing of `query` once the pages `pages` were taken.
pub open spec fn listing_after(query: Seq<char>, pages: Seq<JsonModel>) -> FileListingView {
    let (files, next) = match pages_spec(pages) {
        Ok(p) => p,
        Err(_) => (seq![], None),
    };
    FileListingView { query, pages, files, next, finished: pages.len() > 0 && next.is_none() }
}

/// A listing of all the files that a search finds, page after page: each
/// page's request names the token that the page before gave, until a page
/// gives none.
pub struct FileListing {
    query: String,
    files: Vec<DriveFile>,
    next: Option<String>,
    started: bool,
    pages: Ghost<Seq<JsonModel>>,
}

impl View for FileListing {
    type V = FileListingView;

    closed spec fn view(&self) -> FileListingView {
        FileListingView {
            query: self.query@,
            pages: self.pages@,
            files: files_view(self.files@),
            next: opt_view(self.next),
            finished: self.started && self.next.is_none(),
        }
    }
}

impl FileListing {
    #[verifier::type_invariant]
    spec fn listing_inv(self) -> bool {
        &&& pages_spec(self.pages@) == Ok::<(Seq<DriveFileView>, Option<Seq<char>>), ApiErrorView>((files_view(self.files@), opt_view(self.next)))
        &&& self.started == (self.pages@.len() > 0)
    }

    /// A listing of the files that the search query `q` finds, no page taken yet.
    pub fn new(q: &str) -> (r: FileListing)
        ensures
            r@ == listing_after(q@, seq![]),
    {
        let files: Vec<DriveFile> = Vec::new();
        assert(files_view(files@) =~= Seq::<DriveFileView>::empty());
        FileListing { query: String::from_str(q), files, next: None, started: false, pages: Ghost(Seq::empty()) }
    }

    /// The request for the next page, or none once the last page came.
    pub fn next_request(&self, api: &GoogleDriveApi) -> (r: Option<HttpRequest>)
        ensures
            r.is_none() == self@.finished,
            r matches Some(req) ==> req@ == list_request_spec(api@, self@.query, self@.next),
    {
        if self.started && self.next.is_none() {
            return None;
        }
        match &self.next {
            Some(t) => Some(api.list_files_request(self.query.as_str(), Some(t.as_str()))),
            None => Some(api.list_files_request(self.query.as_str(), None)),
        }
    }

    /// Takes in the next page, the JSON answer to the request for it: its
    /// files join the listing after those before, and its token names the
    /// page after it. A page that does not decode leaves the listing as it was.
    pub fn take_page(&mut self, root: &Json) -> (r: Result<(), ApiError>)
        ensures
            match file_page_spec(json_model(*root)) {
                Ok(_) => r is Ok && final(self)@ == listing_after(old(self)@.query, old(self)@.pages.push(json_model(*root))),
                Err(e) => r matches Err(err) && err@ == e && final(self)@ == old(self)@,
            },
    {
        proof { use_type_invariant(&*self); }
        match decode_file_page(root) {
            Err(e) => Err(e),
            Ok((page, token)) => {
                let ghost pages = self.pages@.push(json_model(*root));
                assert(pages.drop_last() =~= self.pages@);
                let mut current = FileListing::new("");
                std::mem::swap(&mut current, self);
                let FileListing { query, files, next: _, started: _, pages: _ } = current;
                let ghost before = files_view(files@);
                let mut files = files;
                let mut page = page;
                let ghost more = files_view(page@);
                files.append(&mut page);
                assert(files_view(files@) =~= before + more);
                *self = FileListing { query, files, next: token, started: true, pages: Ghost(pages) };
                Ok(())
            },
        }
    }

    /// Takes in the next page as the text of the answer to its request.
    pub fn take_page_text(&mut self, body: &str) -> (r: Result<(), ApiError>)
        ensures
            match tinyjson_value(body@) {
                None => r matches Err(err) && is_json_error(err@) && final(self)@ == old(self)@,
                Some(m) => match file_page_spec(m) {
                    Ok(_) => r is Ok && final(self)@ == listing_after(old(self)@.query, old(self)@.pages.push(m)),
                    Err(e) => r matches Err(err) && err@ == e && final(self)@ == old(self)@,
                },
            },
    {
        match parse_json(body) {
            Ok(j) => self.take_page(&j),
            Err(e) => Err(e),
        }
    }

    /// The files listed so far, in order.
    pub fn into_files(self) -> (r: Vec<DriveFile>)
        ensures
            files_view(r@) == self@.files,
    {
        self.files
    }
}

} // verus!
