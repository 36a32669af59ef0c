//! Per-request dispatch: which routes the proxy answers, which requests it
//! refuses, and what it answers when a model reference cannot be served.

use vstd::prelude::*;
use vstd::string::*;
use crate::catalog::{DiscoveredModel, is_listing_of, sorted_model_ids};
use crate::reply::{
    error_reply, error_response, error_with_code, error_with_matches, not_found,
    not_found_reply, plain_error, root_identity, root_identity_reply, unauthorized,
    unauthorized_reply, model_list_response, ErrorObjectView, Reply, ReplyBodyView, ReplyView,
    STATUS_BAD_REQUEST, STATUS_NOT_FOUND, STATUS_OK, STATUS_SERVICE_UNAVAILABLE,
};
use crate::text::{decimal, decimal_string, str_eq, views};

verus! {

/// The request methods the routes tell apart.
#[derive(Debug, Clone, Copy, PartialEq, Eq, Structural)]
pub enum Method {
    Get,
    Head,
    Post,
    /// Any other method.
    Other,
}

/// What the proxy does with a request.
#[derive(Debug, PartialEq, Eq)]
pub enum RouteAction {
    /// Answer at once with this reply.
    Respond(Reply),
    /// Answer with the model catalog.
    ListModels,
    /// Forward the request to the backend serving the model it names.
    Forward,
}

pub enum RouteActionView {
    Respond(ReplyView),
    ListModels,
    Forward,
}

impl View for RouteAction {
    type V = RouteActionView;

    open spec fn view(&self) -> RouteActionView {
        match self {
            RouteAction::Respond(r) => RouteActionView::Respond(r@),
            RouteAction::ListModels => RouteActionView::ListModels,
            RouteAction::Forward => RouteActionView::Forward,
        }
    }
}

/// Requests answered without an API key: `GET /` and `HEAD /`.
pub open spec fn auth_exempt(method: Method, path: Seq<char>) -> bool {
    (method == Method::Get || method == Method::Head) && path == "/"@
}

/// The OpenAI-compatible endpoints whose requests go to a model backend.
pub open spec fn is_forwarded_path(path: Seq<char>) -> bool {
    ||| path == "/v1/chat/completions"@
    ||| path == "/v1/completions"@
    ||| path == "/v1/embeddings"@
    ||| path == "/v1/rerank"@
}

/// What the proxy does with a request of `method` for `path`, where an API
/// key is `auth_enforced` and the request's credentials pass the check
/// (`auth_ok`) or not.
pub open spec fn route_spec(method: Method, path: Seq<char>, auth_enforced: bool, auth_ok: bool) -> RouteActionView {
    if !auth_exempt(method, path) && auth_enforced && !auth_ok {
        RouteActionView::Respond(unauthorized_reply())
    } else if auth_exempt(method, path) {
        RouteActionView::Respond(root_identity_reply())
    } else if method == Method::Get && path == "/v1/models"@ {
        RouteActionView::ListModels
    } else if method == Method::Post && is_forwarded_path(path) {
        RouteActionView::Forward
    } else {
        RouteActionView::Respond(not_found_reply())
    }
}

/// Whether the request's credentials must be checked: a key is required and
/// the request is not one answered without it.
pub fn needs_auth_check(method: Method, path: &str, auth_enforced: bool) -> (r: bool)
    ensures
        r == (!auth_exempt(method, path@) && auth_enforced),
{
    let exempt = (method == Method::Get || method == Method::Head) && str_eq(path, "/");
    !exempt && auth_enforced
}

/// Decides what to do with a request of `method` for `path`.
/// `auth_enforced` says whether the proxy requires an API key, `auth_ok`
/// whether the request's credentials pass the check.
pub fn route(method: Method, path: &str, auth_enforced: bool, auth_ok: bool) -> (a: RouteAction)
    ensures
        a@ == route_spec(method, path@, auth_enforced, auth_ok),
{
    let is_root = str_eq(path, "/");
    let exempt = (method == Method::Get || method == Method::Head) && is_root;
    if !exempt && auth_enforced && !auth_ok {
        return RouteAction::Respond(unauthorized());
    }
    if exempt {
        RouteAction::Respond(root_identity())
    } else if method == Method::Get && str_eq(path, "/v1/models") {
        RouteAction::ListModels
    } else if method == Method::Post && (str_eq(path, "/v1/chat/completions") || str_eq(
        path,
        "/v1/completions",
    ) || str_eq(path, "/v1/embeddings") || str_eq(path, "/v1/rerank")) {
        RouteAction::Forward
    } else {
        RouteAction::Respond(not_found())
    }
}

/// The reply listing the catalog: `200` and the ids of its models in
/// ascending order.
pub fn list_models(catalog: &Vec<DiscoveredModel>) -> (r: Reply)
    ensures
        r@.status == STATUS_OK,
        r@.www_authenticate is None,
        r@.body matches ReplyBodyView::Models(ids) && is_listing_of(catalog@, ids),
{
    let ids = sorted_model_ids(catalog);
    model_list_response(ids)
}

/// Requests answered without an API key are never refused, and every other
/// request is refused exactly when a key is required and its credentials
/// fail the check; a refused request is answered `401` with a bearer
/// challenge.
pub proof fn lemma_refusal(method: Method, path: Seq<char>, auth_enforced: bool, auth_ok: bool)
    ensures
        auth_exempt(method, path) ==> route_spec(method, path, auth_enforced, auth_ok)
            == RouteActionView::Respond(root_identity_reply()),
        (route_spec(method, path, auth_enforced, auth_ok) == RouteActionView::Respond(
            unauthorized_reply(),
        )) <==> (!auth_exempt(method, path) && auth_enforced && !auth_ok),
{
}

/// Exactly `GET /` and `HEAD /` are answered without a key, with the
/// identity reply; any other request is refused exactly when a key is
/// required and its credentials fail the check.
pub proof fn lemma_refusal_rule(method: Method, path: Seq<char>, auth_enforced: bool, auth_ok: bool)
    ensures
        auth_exempt(method, path) == ((method == Method::Get || method == Method::Head) && path
            == "/"@),
        (method == Method::Get || method == Method::Head) && path == "/"@ ==> (route_spec(
            method,
            path,
            auth_enforced,
            auth_ok,
        ) == RouteActionView::Respond(root_identity_reply())),
        (route_spec(method, path, auth_enforced, auth_ok) == RouteActionView::Respond(
            unauthorized_reply(),
        )) == (!((method == Method::Get || method == Method::Head) && path == "/"@)
            && auth_enforced && !auth_ok),
{
    lemma_refusal(method, path, auth_enforced, auth_ok);
}

/// A model that is known but not served yet ends the exchange by asking
/// for its backend to be started, with the decision's model, row and
/// architecture unchanged.
pub proof fn lemma_not_running_starts_backend(
    requested_model: String,
    resolved_row: DiscoveredModel,
    arch: String,
    next: ForwardPhase,
    action: ForwardAction,
)
    requires
        forward_next_spec(
            ForwardPhase::Resolving,
            ForwardEvent::Decided(RouteDecision::NotRunning { requested_model, resolved_row, arch }),
            next,
            action,
        ),
    ensures
        next == ForwardPhase::Finished,
        action matches ForwardAction::StartBackend { requested_model: m, resolved_row: r, arch: a }
            && m == requested_model && r == resolved_row && a == arch,
{
}

/// Authentication only filters: a request whose credentials pass (or that
/// needs none) is routed as it would be with no key required.
pub proof fn lemma_auth_transparent(method: Method, path: Seq<char>, auth_enforced: bool, auth_ok: bool)
    requires
        auth_ok || !auth_enforced,
    ensures
        route_spec(method, path, auth_enforced, auth_ok) == route_spec(method, path, false, false),
{
}

/// The route table, for a request whose credentials pass (or that needs
/// none): the catalog is listed for `GET /v1/models` and for no other
/// request, a request is forwarded exactly when it is a `POST` to one of the
/// four OpenAI endpoints, and every `GET` other than `/` and `/v1/models` is
/// answered `404` "no such route".
pub proof fn lemma_route_table(method: Method, path: Seq<char>, auth_enforced: bool, auth_ok: bool)
    ensures
        (route_spec(method, path, auth_enforced, auth_ok) == RouteActionView::ListModels) ==> (
        method == Method::Get && path == "/v1/models"@),
        (route_spec(method, path, auth_enforced, auth_ok) == RouteActionView::Forward) ==> (method
            == Method::Post && (path == "/v1/chat/completions"@ || path == "/v1/completions"@
            || path == "/v1/embeddings"@ || path == "/v1/rerank"@)),
        (auth_ok || !auth_enforced) && method == Method::Get && path == "/v1/models"@ ==> (
        route_spec(method, path, auth_enforced, auth_ok) == RouteActionView::ListModels),
        (auth_ok || !auth_enforced) && method == Method::Post && (path == "/v1/chat/completions"@
            || path == "/v1/completions"@ || path == "/v1/embeddings"@ || path == "/v1/rerank"@)
            ==> (route_spec(method, path, auth_enforced, auth_ok) == RouteActionView::Forward),
        (auth_ok || !auth_enforced) && method == Method::Get && path != "/"@ && path
            != "/v1/models"@ ==> (route_spec(method, path, auth_enforced, auth_ok)
            == RouteActionView::Respond(
            ReplyView {
                status: 404,
                body: ReplyBodyView::Error(
                    ErrorObjectView {
                        error_type: "not_found"@,
                        message: "no such route"@,
                        code: None,
                        param: None,
                        matches: None,
                    },
                ),
                www_authenticate: None,
            },
        )),
        (auth_ok || !auth_enforced) && !((method == Method::Get || method == Method::Head) && path
            == "/"@) && !(method == Method::Get && path == "/v1/models"@) && !(method
            == Method::Post && (path == "/v1/chat/completions"@ || path == "/v1/completions"@
            || path == "/v1/embeddings"@ || path == "/v1/rerank"@)) ==> (route_spec(
            method,
            path,
            auth_enforced,
            auth_ok,
        ) == RouteActionView::Respond(not_found_reply())),
{
    assert("/v1/models"@.len() != "/"@.len()) by {
        reveal_strlit("/");
        reveal_strlit("/v1/models");
    }
    assert("/v1/chat/completions"@.len() != "/"@.len()) by {
        reveal_strlit("/");
        reveal_strlit("/v1/chat/completions");
    }
    assert("/v1/completions"@.len() != "/"@.len()) by {
        reveal_strlit("/");
        reveal_strlit("/v1/completions");
    }
    assert("/v1/embeddings"@.len() != "/"@.len()) by {
        reveal_strlit("/");
        reveal_strlit("/v1/embeddings");
    }
    assert("/v1/rerank"@.len() != "/"@.len()) by {
        reveal_strlit("/");
        reveal_strlit("/v1/rerank");
    }
}

/// What the model resolver decided about the model a request names.
#[derive(Debug, Clone, PartialEq, Eq)]
pub enum RouteDecision {
    /// A backend serving the model listens on `port`.
    ReadyAt {
        port: u16,
        served_model_id: String,
        served_model_key: String,
        upstream_path_prefix: Option<String>,
        fallback: bool,
        fallback_reason: Option<String>,
    },
    /// The model is known but no backend serves it yet.
    NotRunning { requested_model: String, resolved_row: DiscoveredModel, arch: String },
    /// No model matches the reference.
    NotFound { requested_model: String },
    /// Several models match the reference.
    Ambiguous { requested_model: String, candidates: Vec<String> },
    /// The request names no model.
    ModelRequired,
    /// The backend the model needs is not running.
    BackendUnavailable,
}

/// The backend a request is forwarded to, and how.
#[derive(Debug, Clone, PartialEq, Eq)]
pub struct Target {
    pub port: u16,
    pub served_model_id: String,
    pub served_model_key: String,
    pub upstream_path_prefix: Option<String>,
    pub fallback: bool,
    pub fallback_reason: Option<String>,
}

/// What comes of a request to forward, once its model is resolved.
#[derive(Debug, PartialEq, Eq)]
pub enum ForwardStep {
    /// Send the request to this backend.
    Upstream(Target),
    /// Have a backend started for the model, then serve the request.
    StartBackend { requested_model: String, resolved_row: DiscoveredModel, arch: String },
    /// Answer at once with this reply.
    Respond(Reply),
}

/// `{requested} not found`
pub open spec fn model_not_found_message(requested: Seq<char>) -> Seq<char> {
    requested + " not found"@
}

/// `` `{requested}` matched {n} models; refine the reference (full path or unique substring)``
pub open spec fn ambiguous_message(requested: Seq<char>, n: nat) -> Seq<char> {
    "`"@ + requested + "` matched "@ + decimal(n)
        + " models; refine the reference (full path or unique substring)"@
}

/// The message for a model reference that matches nothing.
pub fn model_not_found_message_string(requested: &str) -> (m: String)
    ensures
        m@ == model_not_found_message(requested@),
{
    let mut m = String::from_str(requested);
    m.append(" not found");
    m
}

/// The message for a model reference that matches `n` models.
pub fn ambiguous_message_string(requested: &str, n: usize) -> (m: String)
    ensures
        m@ == ambiguous_message(requested@, n as nat),
{
    let mut m = String::from_str("`");
    m.append(requested);
    m.append("` matched ");
    let count = decimal_string(n);
    m.append(count.as_str());
    m.append(" models; refine the reference (full path or unique substring)");
    m
}

/// The reply to a reference that matches no model.
pub open spec fn model_not_found_reply(requested: Seq<char>) -> ReplyView {
    error_reply(
        STATUS_NOT_FOUND,
        ErrorObjectView {
            matches: Some(Seq::empty()),
            ..plain_error("model_not_found"@, model_not_found_message(requested))
        },
    )
}

/// The reply to a reference that matches several models.
pub open spec fn ambiguous_reply(requested: Seq<char>, candidates: Seq<Seq<char>>) -> ReplyView {
    error_reply(
        STATUS_BAD_REQUEST,
        ErrorObjectView {
            matches: Some(candidates),
            ..plain_error("ambiguous_model"@, ambiguous_message(requested, candidates.len()))
        },
    )
}

/// The reply to a request that names no model.
pub open spec fn model_required_reply() -> ReplyView {
    error_reply(
        STATUS_BAD_REQUEST,
        ErrorObjectView {
            code: Some("model_required"@),
            param: Some("model"@),
            ..plain_error("invalid_request"@, "the `model` field is required"@)
        },
    )
}

/// The reply when the backend a model needs is not running.
pub open spec fn backend_unavailable_reply() -> ReplyView {
    error_reply(
        STATUS_SERVICE_UNAVAILABLE,
        plain_error(
            "backend_unavailable"@,
            "the requested backend is not running; start it first"@,
        ),
    )
}

/// Turns the resolver's decision into the next step: forwarding, starting a
/// backend, or an error reply.
pub fn forward_request(decision: RouteDecision) -> (step: ForwardStep)
    ensures
        match decision {
            RouteDecision::ReadyAt {
                port,
                served_model_id,
                served_model_key,
                upstream_path_prefix,
                fallback,
                fallback_reason,
            } => step == ForwardStep::Upstream(
                Target {
                    port,
                    served_model_id,
                    served_model_key,
                    upstream_path_prefix,
                    fallback,
                    fallback_reason,
                },
            ),
            RouteDecision::NotRunning { requested_model, resolved_row, arch } => step
                == ForwardStep::StartBackend { requested_model, resolved_row, arch },
            RouteDecision::NotFound { requested_model } => step matches ForwardStep::Respond(r)
                && r@ == model_not_found_reply(requested_model@),
            RouteDecision::Ambiguous { requested_model, candidates } => step matches ForwardStep::Respond(r)
                && r@ == ambiguous_reply(requested_model@, views(candidates@)),
            RouteDecision::ModelRequired => step matches ForwardStep::Respond(r) && r@
                == model_required_reply(),
            RouteDecision::BackendUnavailable => step matches ForwardStep::Respond(r) && r@
                == backend_unavailable_reply(),
        },
{
    match decision {
        RouteDecision::ReadyAt {
            port,
            served_model_id,
            served_model_key,
            upstream_path_prefix,
            fallback,
            fallback_reason,
        } => ForwardStep::Upstream(
            Target {
                port,
                served_model_id,
                served_model_key,
                upstream_path_prefix,
                fallback,
                fallback_reason,
            },
        ),
        RouteDecision::NotRunning { requested_model, resolved_row, arch } => {
            ForwardStep::StartBackend { requested_model, resolved_row, arch }
        },
        RouteDecision::NotFound { requested_model } => {
            let message = model_not_found_message_string(requested_model.as_str());
            let none: Vec<String> = Vec::new();
            proof {
                assert(views(none@) =~= Seq::empty());
            }
            ForwardStep::Respond(
                error_with_matches(STATUS_NOT_FOUND, "model_not_found", message.as_str(), none),
            )
        },
        RouteDecision::Ambiguous { requested_model, candidates } => {
            let message = ambiguous_message_string(requested_model.as_str(), candidates.len());
            ForwardStep::Respond(
                error_with_matches(
                    STATUS_BAD_REQUEST,
                    "ambiguous_model",
                    message.as_str(),
                    candidates,
                ),
            )
        },
        RouteDecision::ModelRequired => ForwardStep::Respond(
            error_with_code(
                STATUS_BAD_REQUEST,
                "invalid_request",
                "the `model` field is required",
                "model_required",
                Some("model"),
            ),
        ),
        RouteDecision::BackendUnavailable => ForwardStep::Respond(
            error_response(
                STATUS_SERVICE_UNAVAILABLE,
                "backend_unavailable",
                "the requested backend is not running; start it first",
            ),
        ),
    }
}

/// Where the exchange for a forwarded request stands.
#[derive(Debug, PartialEq, Eq)]
pub enum ForwardPhase {
    /// Waiting for the request body to be read.
    ReadingBody,
    /// Waiting for the resolver's decision on the model the body names.
    Resolving,
    /// Waiting for the served model to be marked most recently used, before
    /// forwarding to this target.
    Touching(Target),
    /// The exchange has given its last action.
    Finished,
}

/// What the surrounding code reports back to the exchange.
pub enum ForwardEvent {
    /// The body was read; it names `model`, if any.
    BodyRead { model: Option<String> },
    /// The body could not be read.
    BodyUnreadable,
    /// The resolver decided.
    Decided(RouteDecision),
    /// The served model was marked most recently used.
    Touched,
}

/// What the exchange asks the surrounding code to do next.
#[derive(Debug, PartialEq, Eq)]
pub enum ForwardAction {
    /// Read the request body and the model it names.
    ReadBody,
    /// Ask the resolver about `model`.
    Resolve { model: Option<String> },
    /// Mark the model served under this key as most recently used.
    Touch { served_model_key: String },
    /// Send the request to this backend and answer with its response.
    Upstream(Target),
    /// Have a backend started for the model, then serve the request.
    StartBackend { requested_model: String, resolved_row: DiscoveredModel, arch: String },
    /// Answer with this reply.
    Respond(Reply),
    /// Answer with the response for a body that cannot be read.
    RespondBodyError,
    /// The event does not belong to the phase: nothing to do.
    Unexpected,
}

/// The reply the proxy gives itself for a decision, where it gives one.
pub open spec fn decision_reply(d: RouteDecision) -> Option<ReplyView> {
    match d {
        RouteDecision::NotFound { requested_model } => Some(model_not_found_reply(requested_model@)),
        RouteDecision::Ambiguous { requested_model, candidates } => Some(
            ambiguous_reply(requested_model@, views(candidates@)),
        ),
        RouteDecision::ModelRequired => Some(model_required_reply()),
        RouteDecision::BackendUnavailable => Some(backend_unavailable_reply()),
        _ => None,
    }
}

/// One step of the exchange: in `phase`, on `event`, it moves to `next` and
/// asks for `action`.
pub open spec fn forward_next_spec(
    phase: ForwardPhase,
    event: ForwardEvent,
    next: ForwardPhase,
    action: ForwardAction,
) -> bool {
    match phase {
        ForwardPhase::ReadingBody => match event {
            ForwardEvent::BodyRead { model } => next == ForwardPhase::Resolving && action
                == ForwardAction::Resolve { model },
            ForwardEvent::BodyUnreadable => next == ForwardPhase::Finished && action
                == ForwardAction::RespondBodyError,
            _ => next == phase && action == ForwardAction::Unexpected,
        },
        ForwardPhase::Resolving => match event {
            ForwardEvent::Decided(d) => match d {
                RouteDecision::ReadyAt {
                    port,
                    served_model_id,
                    served_model_key,
                    upstream_path_prefix,
                    fallback,
                    fallback_reason,
                } => next == ForwardPhase::Touching(
                    Target {
                        port,
                        served_model_id,
                        served_model_key,
                        upstream_path_prefix,
                        fallback,
                        fallback_reason,
                    },
                ) && action == ForwardAction::Touch { served_model_key },
                RouteDecision::NotRunning { requested_model, resolved_row, arch } => next
                    == ForwardPhase::Finished && action == ForwardAction::StartBackend {
                    requested_model,
                    resolved_row,
                    arch,
                },
                _ => next == ForwardPhase::Finished && (action matches ForwardAction::Respond(r)
                    && decision_reply(d) == Some(r@)),
            },
            _ => next == phase && action == ForwardAction::Unexpected,
        },
        ForwardPhase::Touching(target) => match event {
            ForwardEvent::Touched => next == ForwardPhase::Finished && action
                == ForwardAction::Upstream(target),
            _ => next == phase && action == ForwardAction::Unexpected,
        },
        ForwardPhase::Finished => next == phase && action == ForwardAction::Unexpected,
    }
}

/// The start of the exchange for a request to forward: read its body.
pub fn forward_begin() -> (r: (ForwardPhase, ForwardAction))
    ensures
        r == (ForwardPhase::ReadingBody, ForwardAction::ReadBody),
{
    (ForwardPhase::ReadingBody, ForwardAction::ReadBody)
}

/// One step of the exchange for a request to forward.
pub fn forward_next(phase: ForwardPhase, event: ForwardEvent) -> (r: (ForwardPhase, ForwardAction))
    ensures
        forward_next_spec(phase, event, r.0, r.1),
{
    match phase {
        ForwardPhase::ReadingBody => match event {
            ForwardEvent::BodyRead { model } => (
                ForwardPhase::Resolving,
                ForwardAction::Resolve { model },
            ),
            ForwardEvent::BodyUnreadable => (ForwardPhase::Finished, ForwardAction::RespondBodyError),
            _ => (ForwardPhase::ReadingBody, ForwardAction::Unexpected),
        },
        ForwardPhase::Resolving => match event {
            ForwardEvent::Decided(d) => match forward_request(d) {
                ForwardStep::Upstream(target) => {
                    let key = target.served_model_key.clone();
                    (ForwardPhase::Touching(target), ForwardAction::Touch { served_model_key: key })
                },
                ForwardStep::StartBackend { requested_model, resolved_row, arch } => (
                    ForwardPhase::Finished,
                    ForwardAction::StartBackend { requested_model, resolved_row, arch },
                ),
                ForwardStep::Respond(reply) => (ForwardPhase::Finished, ForwardAction::Respond(reply)),
            },
            _ => (ForwardPhase::Resolving, ForwardAction::Unexpected),
        },
        ForwardPhase::Touching(target) => match event {
            ForwardEvent::Touched => (ForwardPhase::Finished, ForwardAction::Upstream(target)),
            _ => (ForwardPhase::Touching(target), ForwardAction::Unexpected),
        },
        ForwardPhase::Finished => (ForwardPhase::Finished, ForwardAction::Unexpected),
    }
}

/// A request is forwarded only after the model serving it has been marked
/// most recently used: the only step that forwards is `Touched` in a
/// `Touching` phase, and that phase is only entered by asking to touch the
/// target's key.
pub proof fn lemma_touch_before_forward(
    phase: ForwardPhase,
    event: ForwardEvent,
    next: ForwardPhase,
    action: ForwardAction,
    target: Target,
)
    requires
        forward_next_spec(phase, event, next, action),
    ensures
        (action == ForwardAction::Upstream(target) ==> phase == ForwardPhase::Touching(target)
            && event is Touched),
        (next == ForwardPhase::Touching(target) && phase != next ==> action == (ForwardAction::Touch {
            served_model_key: target.served_model_key,
        })),
{
}

/// The resolver is asked only once the body has been read, about the model
/// the body names; an unreadable body is answered at once and ends the
/// exchange, after which nothing more is asked.
pub proof fn lemma_resolve_after_body(
    phase: ForwardPhase,
    event: ForwardEvent,
    next: ForwardPhase,
    action: ForwardAction,
)
    requires
        forward_next_spec(phase, event, next, action),
    ensures
        (action matches ForwardAction::Resolve { model } ==> phase == ForwardPhase::ReadingBody
            && event == (ForwardEvent::BodyRead { model })),
        (phase == ForwardPhase::ReadingBody && event is BodyUnreadable ==> next
            == ForwardPhase::Finished && action == ForwardAction::RespondBodyError),
        (phase == ForwardPhase::Finished ==> next == ForwardPhase::Finished && action
            == ForwardAction::Unexpected),
{
}

/// A ready decision is carried out exactly as the resolver made it: the
/// exchange first marks the decided served key, then forwards to a target
/// holding every field of the decision unchanged, and is then done.
pub proof fn lemma_ready_forwards_as_decided(
    port: u16,
    served_model_id: String,
    served_model_key: String,
    upstream_path_prefix: Option<String>,
    fallback: bool,
    fallback_reason: Option<String>,
    touching: ForwardPhase,
    touch: ForwardAction,
    finished: ForwardPhase,
    upstream: ForwardAction,
)
    requires
        forward_next_spec(
            ForwardPhase::Resolving,
            ForwardEvent::Decided(
                RouteDecision::ReadyAt {
                    port,
                    served_model_id,
                    served_model_key,
                    upstream_path_prefix,
                    fallback,
                    fallback_reason,
                },
            ),
            touching,
            touch,
        ),
        forward_next_spec(touching, ForwardEvent::Touched, finished, upstream),
    ensures
        touch == (ForwardAction::Touch { served_model_key }),
        upstream matches ForwardAction::Upstream(t) && t.port == port && t.served_model_id
            == served_model_id && t.served_model_key == served_model_key
            && t.upstream_path_prefix == upstream_path_prefix && t.fallback == fallback
            && t.fallback_reason == fallback_reason,
        finished == ForwardPhase::Finished,
{
}

/// A decision the proxy answers itself ends the exchange with this reply:
/// an unknown model gets `404` "model_not_found" with no candidates, an
/// ambiguous one `400` "ambiguous_model" naming how many models matched and
/// listing exactly those candidates, a missing `model` field `400`
/// "invalid_request" pointing at `model`, and an unavailable backend `503`.
pub proof fn lemma_error_decisions_answered(d: RouteDecision, next: ForwardPhase, action: ForwardAction)
    requires
        forward_next_spec(ForwardPhase::Resolving, ForwardEvent::Decided(d), next, action),
    ensures
        (d matches RouteDecision::NotFound { requested_model } ==> next == ForwardPhase::Finished
            && (action matches ForwardAction::Respond(r) && r@ == (ReplyView {
            status: 404,
            body: ReplyBodyView::Error(
                ErrorObjectView {
                    error_type: "model_not_found"@,
                    message: requested_model@ + " not found"@,
                    code: None,
                    param: None,
                    matches: Some(Seq::empty()),
                },
            ),
            www_authenticate: None,
        }))),
        (d matches RouteDecision::Ambiguous { requested_model, candidates } ==> next
            == ForwardPhase::Finished && (action matches ForwardAction::Respond(r) && r@ == (
        ReplyView {
            status: 400,
            body: ReplyBodyView::Error(
                ErrorObjectView {
                    error_type: "ambiguous_model"@,
                    message: "`"@ + requested_model@ + "` matched "@ + decimal(candidates@.len())
                        + " models; refine the reference (full path or unique substring)"@,
                    code: None,
                    param: None,
                    matches: Some(candidates@.map_values(|c: String| c@)),
                },
            ),
            www_authenticate: None,
        }))),
        (d is ModelRequired ==> next == ForwardPhase::Finished && (action matches ForwardAction::Respond(r)
            && r@ == (ReplyView {
            status: 400,
            body: ReplyBodyView::Error(
                ErrorObjectView {
                    error_type: "invalid_request"@,
                    message: "the `model` field is required"@,
                    code: Some("model_required"@),
                    param: Some("model"@),
                    matches: None,
                },
            ),
            www_authenticate: None,
        }))),
        (d is BackendUnavailable ==> next == ForwardPhase::Finished && (action matches ForwardAction::Respond(r)
            && r@ == (ReplyView {
            status: 503,
            body: ReplyBodyView::Error(
                ErrorObjectView {
                    error_type: "backend_unavailable"@,
                    message: "the requested backend is not running; start it first"@,
                    code: None,
                    param: None,
                    matches: None,
                },
            ),
            www_authenticate: None,
        }))),
{
}

/// `forward_request` answers the decisions the proxy answers itself with
/// the same replies: unknown `404` without candidates, ambiguous `400`
/// listing exactly its candidates, missing model `400`, unavailable backend
/// `503`.
pub proof fn lemma_decision_replies(requested: Seq<char>, candidates: Seq<Seq<char>>)
    ensures
        model_not_found_reply(requested).status == 404,
        model_not_found_reply(requested).body == ReplyBodyView::Error(
            ErrorObjectView {
                error_type: "model_not_found"@,
                message: requested + " not found"@,
                code: None,
                param: None,
                matches: Some(Seq::empty()),
            },
        ),
        ambiguous_reply(requested, candidates).status == 400,
        ambiguous_reply(requested, candidates).body == ReplyBodyView::Error(
            ErrorObjectView {
                error_type: "ambiguous_model"@,
                message: "`"@ + requested + "` matched "@ + decimal(candidates.len())
                    + " models; refine the reference (full path or unique substring)"@,
                code: None,
                param: None,
                matches: Some(candidates),
            },
        ),
        model_required_reply().status == 400,
        model_required_reply().body == ReplyBodyView::Error(
            ErrorObjectView {
                error_type: "invalid_request"@,
                message: "the `model` field is required"@,
                code: Some("model_required"@),
                param: Some("model"@),
                matches: None,
            },
        ),
        backend_unavailable_reply().status == 503,
        backend_unavailable_reply().body == ReplyBodyView::Error(
            ErrorObjectView {
                error_type: "backend_unavailable"@,
                message: "the requested backend is not running; start it first"@,
                code: None,
                param: None,
                matches: None,
            },
        ),
        model_not_found_reply(requested).www_authenticate is None,
        ambiguous_reply(requested, candidates).www_authenticate is None,
        model_required_reply().www_authenticate is None,
        backend_unavailable_reply().www_authenticate is None,
{
}

} // verus!
