//! The library's error: what went wrong, and in which part of the work.
use vstd::prelude::*;

verus! {

/// The cause of an [`ApiError`], each with the text that describes it.
#[derive(Debug)]
pub enum ErrorSource {
    /// A failed read or write; the text is the I/O error's message.
    Io(String),
    /// A failed HTTP exchange; `status` is the response's status code when the
    /// server answered with an error status.
    Http { status: Option<u16>, message: String },
    /// Text that is not JSON; the text is the parser's message.
    Json(String),
    /// A condition that the library itself checks.
    Custom(String),
}

/// The mathematical model of an [`ErrorSource`].
pub enum SourceView {
    Io(Seq<char>),
    Http(Option<u16>, Seq<char>),
    Json(Seq<char>),
    Custom(Seq<char>),
}

impl View for ErrorSource {
    type V = SourceView;

    open spec fn view(&self) -> SourceView {
        match self {
            ErrorSource::Io(m) => SourceView::Io(m@),
            ErrorSource::Http { status, message } => SourceView::Http(*status, message@),
            ErrorSource::Json(m) => SourceView::Json(m@),
            ErrorSource::Custom(m) => SourceView::Custom(m@),
        }
    }
}

/// The text that describes a cause.
pub open spec fn source_text(s: SourceView) -> Seq<char> {
    match s {
        SourceView::Io(m) => m,
        SourceView::Http(_, m) => m,
        SourceView::Json(m) => m,
        SourceView::Custom(m) => m,
    }
}

impl ErrorSource {
    /// The text that describes this cause.
    pub fn text(&self) -> (r: String)
        ensures
            r@ == source_text(self@),
    {
        match self {
            ErrorSource::Io(m) => m.clone(),
            ErrorSource::Http { message, .. } => message.clone(),
            ErrorSource::Json(m) => m.clone(),
            ErrorSource::Custom(m) => m.clone(),
        }
    }
}

/// An error of the library: its cause and the part of the work (the domain)
/// in which it came.
#[derive(Debug)]
pub struct ApiError {
    source: ErrorSource,
    domain: &'static str,
}

/// The mathematical model of an [`ApiError`].
pub struct ApiErrorView {
    pub source: SourceView,
    pub domain: Seq<char>,
}

impl View for ApiError {
    type V = ApiErrorView;

    closed spec fn view(&self) -> ApiErrorView {
        ApiErrorView { source: self.source@, domain: self.domain@ }
    }
}

/// The model of the error that [`ApiError::custom`] makes.
pub open spec fn custom_error(msg: Seq<char>, domain: Seq<char>) -> ApiErrorView {
    ApiErrorView { source: SourceView::Custom(msg), domain }
}

/// The model of an error's full message, `"<domain>: <cause>"`.
pub open spec fn error_message(e: ApiErrorView) -> Seq<char> {
    e.domain + ": "@ + source_text(e.source)
}

impl ApiError {
    /// An error with the given cause, in the given domain.
    pub fn wrap(source: ErrorSource, domain: &'static str) -> (r: ApiError)
        ensures
            r@ == (ApiErrorView { source: source@, domain: domain@ }),
    {
        ApiError { source, domain }
    }

    /// An error that the library itself detected, with the message `msg`.
    pub fn custom(msg: String, domain: &'static str) -> (r: ApiError)
        ensures
            r@ == custom_error(msg@, domain@),
    {
        ApiError { source: ErrorSource::Custom(msg), domain }
    }

    /// A failed read or write, in the domain `i/o`.
    pub fn io(message: String) -> (r: ApiError)
        ensures
            r@ == (ApiErrorView { source: SourceView::Io(message@), domain: "i/o"@ }),
    {
        ApiError { source: ErrorSource::Io(message), domain: "i/o" }
    }

    /// A failed HTTP exchange, in the domain `http`.
    pub fn http(status: Option<u16>, message: String) -> (r: ApiError)
        ensures
            r@ == (ApiErrorView { source: SourceView::Http(status, message@), domain: "http"@ }),
    {
        ApiError { source: ErrorSource::Http { status, message }, domain: "http" }
    }

    /// Text that could not be read as JSON, in the domain `json`.
    pub fn json(message: String) -> (r: ApiError)
        ensures
            r@ == (ApiErrorView { source: SourceView::Json(message@), domain: "json"@ }),
    {
        ApiError { source: ErrorSource::Json(message), domain: "json" }
    }

    /// The status code of the HTTP response, when the error is one.
    pub fn as_http_status(&self) -> (r: Option<u16>)
        ensures
            r == (match self@.source {
                SourceView::Http(status, _) => status,
                _ => None,
            }),
    {
        match &self.source {
            ErrorSource::Http { status, .. } => *status,
            _ => None,
        }
    }

    /// The part of the work in which the error came.
    pub fn domain(&self) -> (r: &'static str)
        ensures
            r@ == self@.domain,
    {
        self.domain
    }

    /// The cause of the error.
    pub fn source(&self) -> (r: &ErrorSource)
        ensures
            r@ == self@.source,
    {
        &self.source
    }

    /// The error's message, `"<domain>: <cause>"`.
    pub fn message(&self) -> (r: String)
        ensures
            r@ == error_message(self@),
    {
        let s = String::from_str(self.domain);
        let s = s.concat(": ");
        s.concat(self.source.text().as_str())
    }
}

} // verus!
