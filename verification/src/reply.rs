//! The replies the proxy answers with itself: plain-text ones and
//! OpenAI-style JSON error objects.

use vstd::prelude::*;
use vstd::string::*;
use crate::text::views;

verus! {

/// `200 OK`
pub const STATUS_OK: u16 = 200;

/// `400 Bad Request`
pub const STATUS_BAD_REQUEST: u16 = 400;

/// `401 Unauthorized`
pub const STATUS_UNAUTHORIZED: u16 = 401;

/// `404 Not Found`
pub const STATUS_NOT_FOUND: u16 = 404;

/// `503 Service Unavailable`
pub const STATUS_SERVICE_UNAVAILABLE: u16 = 503;

/// An OpenAI-style error object, the value under `"error"` in an error body.
#[derive(Debug, Clone, PartialEq, Eq)]
pub struct ErrorObject {
    /// The error's `type`.
    pub error_type: String,
    pub message: String,
    pub code: Option<String>,
    pub param: Option<String>,
    /// The candidates a model reference matched, where it matters.
    pub matches: Option<Vec<String>>,
}

pub struct ErrorObjectView {
    pub error_type: Seq<char>,
    pub message: Seq<char>,
    pub code: Option<Seq<char>>,
    pub param: Option<Seq<char>>,
    pub matches: Option<Seq<Seq<char>>>,
}

pub open spec fn opt_view(o: Option<String>) -> Option<Seq<char>> {
    match o {
        Some(s) => Some(s@),
        None => None,
    }
}

pub open spec fn opt_views(o: Option<Vec<String>>) -> Option<Seq<Seq<char>>> {
    match o {
        Some(v) => Some(views(v@)),
        None => None,
    }
}

impl View for ErrorObject {
    type V = ErrorObjectView;

    open spec fn view(&self) -> ErrorObjectView {
        ErrorObjectView {
            error_type: self.error_type@,
            message: self.message@,
            code: opt_view(self.code),
            param: opt_view(self.param),
            matches: opt_views(self.matches),
        }
    }
}

/// An error object with only a type and a message.
pub open spec fn plain_error(error_type: Seq<char>, message: Seq<char>) -> ErrorObjectView {
    ErrorObjectView { error_type, message, code: None, param: None, matches: None }
}

impl ErrorObject {
    /// An error of the given type and message, with nothing else set.
    pub fn new(error_type: &str, message: &str) -> (e: Self)
        ensures
            e@ == plain_error(error_type@, message@),
    {
        ErrorObject {
            error_type: String::from_str(error_type),
            message: String::from_str(message),
            code: None,
            param: None,
            matches: None,
        }
    }

    /// The same error with its `code` set.
    pub fn with_code(self, code: &str) -> (e: Self)
        ensures
            e@ == (ErrorObjectView { code: Some(code@), ..self@ }),
    {
        ErrorObject { code: Some(String::from_str(code)), ..self }
    }

    /// The same error with its `param` set.
    pub fn with_param(self, param: &str) -> (e: Self)
        ensures
            e@ == (ErrorObjectView { param: Some(param@), ..self@ }),
    {
        ErrorObject { param: Some(String::from_str(param)), ..self }
    }

    /// The same error with the candidates it matched.
    pub fn with_matches(self, matches: Vec<String>) -> (e: Self)
        ensures
            e@ == (ErrorObjectView { matches: Some(views(matches@)), ..self@ }),
    {
        ErrorObject { matches: Some(matches), ..self }
    }
}

/// What a reply carries.
#[derive(Debug, Clone, PartialEq, Eq)]
pub enum ReplyBody {
    /// Plain UTF-8 text.
    Text(String),
    /// A JSON error body, `{"error": ...}`.
    Error(ErrorObject),
    /// A JSON model list, one model object per id, in this order.
    Models(Vec<String>),
}

pub enum ReplyBodyView {
    Text(Seq<char>),
    Error(ErrorObjectView),
    Models(Seq<Seq<char>>),
}

impl View for ReplyBody {
    type V = ReplyBodyView;

    open spec fn view(&self) -> ReplyBodyView {
        match self {
            ReplyBody::Text(t) => ReplyBodyView::Text(t@),
            ReplyBody::Error(e) => ReplyBodyView::Error(e@),
            ReplyBody::Models(ids) => ReplyBodyView::Models(views(ids@)),
        }
    }
}

/// Whether a number is an HTTP status code (three digits), as `StatusCode`
/// values always are.
pub open spec fn valid_status(status: u16) -> bool {
    100 <= status <= 999
}

/// A reply the proxy gives without consulting an upstream server.
#[derive(Debug, PartialEq, Eq)]
pub struct Reply {
    status: u16,
    body: ReplyBody,
    www_authenticate: Option<String>,
}

pub struct ReplyView {
    pub status: u16,
    pub body: ReplyBodyView,
    pub www_authenticate: Option<Seq<char>>,
}

impl View for Reply {
    type V = ReplyView;

    closed spec fn view(&self) -> ReplyView {
        ReplyView {
            status: self.status,
            body: self.body@,
            www_authenticate: opt_view(self.www_authenticate),
        }
    }
}

impl Reply {
    #[verifier::type_invariant]
    spec fn well_formed(self) -> bool {
        valid_status(self.status)
    }

    /// The HTTP status code.
    pub fn status(&self) -> (s: u16)
        ensures
            s == self@.status,
            valid_status(s),
    {
        proof {
            use_type_invariant(self);
        }
        self.status
    }

    /// What the reply carries.
    pub fn body(&self) -> (b: &ReplyBody)
        ensures
            b@ == self@.body,
    {
        &self.body
    }

    /// The `WWW-Authenticate` challenge, where the reply carries one.
    pub fn www_authenticate(&self) -> (c: Option<&str>)
        ensures
            match c {
                Some(t) => self@.www_authenticate == Some(t@),
                None => self@.www_authenticate is None,
            },
    {
        match &self.www_authenticate {
            Some(t) => Some(t.as_str()),
            None => None,
        }
    }

    /// The status, body and challenge of the reply.
    pub fn into_parts(self) -> (parts: (u16, ReplyBody, Option<String>))
        ensures
            valid_status(parts.0),
            (ReplyView {
                status: parts.0,
                body: parts.1@,
                www_authenticate: opt_view(parts.2),
            }) == self@,
    {
        proof {
            use_type_invariant(&self);
        }
        (self.status, self.body, self.www_authenticate)
    }
}

/// The `Content-Type` of a reply with this body.
pub open spec fn content_type_of(body: ReplyBodyView) -> Seq<char> {
    match body {
        ReplyBodyView::Text(_) => "text/plain; charset=utf-8"@,
        _ => "application/json"@,
    }
}

impl Reply {
    /// The `Content-Type` header the reply is sent with.
    pub fn content_type(&self) -> (ct: &'static str)
        ensures
            ct@ == content_type_of(self@.body),
    {
        match &self.body {
            ReplyBody::Text(_) => "text/plain; charset=utf-8",
            _ => "application/json",
        }
    }
}

/// A reply holding an error object.
pub open spec fn error_reply(status: u16, error: ErrorObjectView) -> ReplyView {
    ReplyView { status, body: ReplyBodyView::Error(error), www_authenticate: None }
}

/// A plain-text reply.
pub fn text_response(status: u16, body: &str) -> (r: Reply)
    requires
        valid_status(status),
    ensures
        r@ == (ReplyView { status, body: ReplyBodyView::Text(body@), www_authenticate: None }),
{
    Reply { status, body: ReplyBody::Text(String::from_str(body)), www_authenticate: None }
}

/// The reply to `GET /` and `HEAD /`.
pub open spec fn root_identity_reply() -> ReplyView {
    ReplyView {
        status: STATUS_OK,
        body: ReplyBodyView::Text("LlamaStash is running\n"@),
        www_authenticate: None,
    }
}

/// The reply to `GET /` and `HEAD /`: the proxy says it runs.
pub fn root_identity() -> (r: Reply)
    ensures
        r@ == root_identity_reply(),
{
    text_response(STATUS_OK, "LlamaStash is running\n")
}

/// A JSON error reply with a type and a message.
pub fn error_response(status: u16, error_type: &str, message: &str) -> (r: Reply)
    requires
        valid_status(status),
    ensures
        r@ == error_reply(status, plain_error(error_type@, message@)),
{
    Reply {
        status,
        body: ReplyBody::Error(ErrorObject::new(error_type, message)),
        www_authenticate: None,
    }
}

/// A JSON error reply with a type, a message, a code and, where given, the
/// parameter at fault.
pub fn error_with_code(
    status: u16,
    error_type: &str,
    message: &str,
    code: &str,
    param: Option<&str>,
) -> (r: Reply)
    requires
        valid_status(status),
    ensures
        r@ == error_reply(
            status,
            ErrorObjectView {
                code: Some(code@),
                param: match param {
                    Some(p) => Some(p@),
                    None => None,
                },
                ..plain_error(error_type@, message@)
            },
        ),
{
    let mut error = ErrorObject::new(error_type, message).with_code(code);
    if let Some(p) = param {
        error = error.with_param(p);
    }
    Reply { status, body: ReplyBody::Error(error), www_authenticate: None }
}

/// A JSON error reply with a type, a message and the candidates that a
/// model reference matched.
pub fn error_with_matches(status: u16, error_type: &str, message: &str, matches: Vec<String>) -> (r: Reply)
    requires
        valid_status(status),
    ensures
        r@ == error_reply(
            status,
            ErrorObjectView { matches: Some(views(matches@)), ..plain_error(error_type@, message@) },
        ),
{
    let error = ErrorObject::new(error_type, message).with_matches(matches);
    Reply { status, body: ReplyBody::Error(error), www_authenticate: None }
}

/// The reply listing models, one per id, in the order given.
pub fn model_list_response(ids: Vec<String>) -> (r: Reply)
    ensures
        r@ == (ReplyView {
            status: STATUS_OK,
            body: ReplyBodyView::Models(views(ids@)),
            www_authenticate: None,
        }),
{
    Reply { status: STATUS_OK, body: ReplyBody::Models(ids), www_authenticate: None }
}

/// The reply to a request for a route the proxy does not serve.
pub open spec fn not_found_reply() -> ReplyView {
    error_reply(STATUS_NOT_FOUND, plain_error("not_found"@, "no such route"@))
}

/// The reply to a request for a route the proxy does not serve.
pub fn not_found() -> (r: Reply)
    ensures
        r@ == not_found_reply(),
{
    error_response(STATUS_NOT_FOUND, "not_found", "no such route")
}

/// The error object of a refused request.
pub open spec fn unauthorized_error() -> ErrorObjectView {
    ErrorObjectView {
        code: Some("invalid_api_key"@),
        ..plain_error("invalid_request_error"@, "missing or invalid API key"@)
    }
}

/// The error object of a refused request.
pub fn unauthorized_body() -> (e: ErrorObject)
    ensures
        e@ == unauthorized_error(),
{
    ErrorObject::new("invalid_request_error", "missing or invalid API key").with_code(
        "invalid_api_key",
    )
}

/// The reply to a request without a valid API key: `401`, a bearer
/// challenge and an error object.
pub open spec fn unauthorized_reply() -> ReplyView {
    ReplyView {
        status: STATUS_UNAUTHORIZED,
        body: ReplyBodyView::Error(unauthorized_error()),
        www_authenticate: Some("Bearer"@),
    }
}

/// The reply to a request without a valid API key.
pub fn unauthorized() -> (r: Reply)
    ensures
        r@ == unauthorized_reply(),
{
    Reply {
        status: STATUS_UNAUTHORIZED,
        body: ReplyBody::Error(unauthorized_body()),
        www_authenticate: Some(String::from_str("Bearer")),
    }
}

/// The replies the proxy gives itself, field by field: an error reply is a
/// JSON error object with no challenge; only the refusal carries a bearer
/// challenge (`401`, "invalid_request_error", "missing or invalid API
/// key", code "invalid_api_key"); an unserved route is `404` "not_found"
/// "no such route"; the identity is `200` text "LlamaStash is running\n";
/// and only text replies are sent as text.
pub proof fn lemma_reply_shapes(
    status: u16,
    error_type: Seq<char>,
    message: Seq<char>,
    error: ErrorObjectView,
    ids: Seq<Seq<char>>,
)
    ensures
        plain_error(error_type, message) == (ErrorObjectView {
            error_type,
            message,
            code: None,
            param: None,
            matches: None,
        }),
        error_reply(status, error) == (ReplyView {
            status,
            body: ReplyBodyView::Error(error),
            www_authenticate: None,
        }),
        root_identity_reply() == (ReplyView {
            status: 200,
            body: ReplyBodyView::Text("LlamaStash is running\n"@),
            www_authenticate: None,
        }),
        not_found_reply() == (ReplyView {
            status: 404,
            body: ReplyBodyView::Error(
                ErrorObjectView {
                    error_type: "not_found"@,
                    message: "no such route"@,
                    code: None,
                    param: None,
                    matches: None,
                },
            ),
            www_authenticate: None,
        }),
        unauthorized_reply() == (ReplyView {
            status: 401,
            body: ReplyBodyView::Error(
                ErrorObjectView {
                    error_type: "invalid_request_error"@,
                    message: "missing or invalid API key"@,
                    code: Some("invalid_api_key"@),
                    param: None,
                    matches: None,
                },
            ),
            www_authenticate: Some("Bearer"@),
        }),
        content_type_of(ReplyBodyView::Text(message)) == "text/plain; charset=utf-8"@,
        content_type_of(ReplyBodyView::Error(error)) == "application/json"@,
        content_type_of(ReplyBodyView::Models(ids)) == "application/json"@,
{
}

/// The status codes the proxy answers with.
pub proof fn lemma_status_codes()
    ensures
        STATUS_OK == 200,
        STATUS_BAD_REQUEST == 400,
        STATUS_UNAUTHORIZED == 401,
        STATUS_NOT_FOUND == 404,
        STATUS_SERVICE_UNAVAILABLE == 503,
{
}

} // verus!
