use allm::catalog::{model_id_for, path_file_stem, sorted_model_ids, DiscoveredModel};
use allm::reply::{
    error_response, error_with_code, error_with_matches, not_found, root_identity,
    text_response, unauthorized, unauthorized_body, ErrorObject, Reply, ReplyBody,
    STATUS_BAD_REQUEST, STATUS_NOT_FOUND, STATUS_OK, STATUS_SERVICE_UNAVAILABLE,
    STATUS_UNAUTHORIZED,
};
use allm::router::{
    ambiguous_message_string, forward_request, list_models, model_not_found_message_string,
    forward_begin, forward_next, needs_auth_check, route, ForwardAction, ForwardEvent, ForwardPhase,
    ForwardStep, Method, RouteAction, RouteDecision, Target,
};
use allm::text::{decimal_string, str_eq, str_le_exec};

fn model(path: &str, label: Option<&str>) -> DiscoveredModel {
    DiscoveredModel { path: path.to_string(), display_label: label.map(|l| l.to_string()) }
}

fn error_of(reply: &Reply) -> &ErrorObject {
    match reply.body() {
        ReplyBody::Error(e) => e,
        other => panic!("not an error body: {other:?}"),
    }
}

#[test]
fn root_is_served_without_credentials() {
    for m in [Method::Get, Method::Head] {
        match route(m, "/", true, false) {
            RouteAction::Respond(r) => {
                assert_eq!(r.status(), STATUS_OK);
                assert_eq!(*r.body(), ReplyBody::Text("LlamaStash is running\n".to_string()));
                assert_eq!(r.www_authenticate(), None);
                assert_eq!(r.content_type(), "text/plain; charset=utf-8");
            }
            other => panic!("unexpected {other:?}"),
        }
    }
}

#[test]
fn post_to_root_is_not_exempt() {
    match route(Method::Post, "/", true, false) {
        RouteAction::Respond(r) => assert_eq!(r.status(), STATUS_UNAUTHORIZED),
        other => panic!("unexpected {other:?}"),
    }
    assert_eq!(route(Method::Post, "/", false, false), RouteAction::Respond(not_found()));
}

#[test]
fn refused_request_gets_bearer_challenge() {
    let r = match route(Method::Get, "/v1/models", true, false) {
        RouteAction::Respond(r) => r,
        other => panic!("unexpected {other:?}"),
    };
    assert_eq!(r.status(), 401);
    assert_eq!(r.www_authenticate(), Some("Bearer"));
    assert_eq!(r.content_type(), "application/json");
    let e = error_of(&r);
    assert_eq!(e.error_type, "invalid_request_error");
    assert_eq!(e.message, "missing or invalid API key");
    assert_eq!(e.code.as_deref(), Some("invalid_api_key"));
    assert_eq!(e.param, None);
    assert_eq!(e.matches, None);
    assert_eq!(r, unauthorized());
    assert_eq!(*e, unauthorized_body());
}

#[test]
fn unknown_route_with_bad_key_is_refused_before_lookup() {
    assert_eq!(route(Method::Get, "/nope", true, false), RouteAction::Respond(unauthorized()));
}

#[test]
fn passing_credentials_route_like_no_auth() {
    let paths = ["/", "/v1/models", "/v1/chat/completions", "/v1/completions", "/v1/embeddings",
        "/v1/rerank", "/v1/other", "", "/v1/models/"];
    for m in [Method::Get, Method::Head, Method::Post, Method::Other] {
        for p in paths {
            assert_eq!(route(m, p, true, true), route(m, p, false, false));
            assert_eq!(route(m, p, false, true), route(m, p, false, false));
        }
    }
}

#[test]
fn models_route() {
    assert_eq!(route(Method::Get, "/v1/models", true, true), RouteAction::ListModels);
    assert_eq!(route(Method::Post, "/v1/models", false, false), RouteAction::Respond(not_found()));
    assert_eq!(route(Method::Head, "/v1/models", false, false), RouteAction::Respond(not_found()));
}

#[test]
fn forwarded_routes() {
    for p in ["/v1/chat/completions", "/v1/completions", "/v1/embeddings", "/v1/rerank"] {
        assert_eq!(route(Method::Post, p, false, false), RouteAction::Forward);
        assert_eq!(route(Method::Get, p, false, false), RouteAction::Respond(not_found()));
        assert_eq!(route(Method::Other, p, false, false), RouteAction::Respond(not_found()));
    }
    assert_eq!(route(Method::Post, "/v1/chat/completions/", false, false), RouteAction::Respond(not_found()));
}

#[test]
fn not_found_reply_shape() {
    let r = not_found();
    assert_eq!(r.status(), STATUS_NOT_FOUND);
    let e = error_of(&r);
    assert_eq!(e.error_type, "not_found");
    assert_eq!(e.message, "no such route");
    assert_eq!(e.code, None);
    assert_eq!(r.content_type(), "application/json");
}

#[test]
fn error_builders() {
    let r = error_response(503, "t", "m");
    assert_eq!(r.status(), 503);
    assert_eq!(*error_of(&r), ErrorObject::new("t", "m"));
    let r = error_with_code(400, "t", "m", "c", Some("p"));
    let e = error_of(&r);
    assert_eq!(e.code.as_deref(), Some("c"));
    assert_eq!(e.param.as_deref(), Some("p"));
    let r = error_with_code(400, "t", "m", "c", None);
    assert_eq!(error_of(&r).param, None);
    let r = error_with_matches(404, "t", "m", vec!["a".to_string(), "b".to_string()]);
    assert_eq!(error_of(&r).matches, Some(vec!["a".to_string(), "b".to_string()]));
    let t = text_response(200, "hi");
    assert_eq!(*t.body(), ReplyBody::Text("hi".to_string()));
    assert_eq!(root_identity(), text_response(200, "LlamaStash is running\n"));
}

#[test]
fn file_stems() {
    let cases: [(&str, Option<&str>); 18] = [
        ("/models/llama-3.Q4_K_M.gguf", Some("llama-3.Q4_K_M")),
        ("model.gguf", Some("model")),
        ("/a/b/", Some("b")),
        ("/a/b/.", Some("b")),
        ("/a//b.gguf//", Some("b")),
        (".hidden", Some(".hidden")),
        ("/x/.hidden.gguf", Some(".hidden")),
        ("noext", Some("noext")),
        ("a.", Some("a")),
        ("a..", Some("a.")),
        ("/", None),
        ("", None),
        (".", None),
        ("..", None),
        ("a/..", None),
        ("./", None),
        ("./m.gguf", Some("m")),
        ("/ü/ñame.gguf", Some("ñame")),
    ];
    for (p, want) in cases {
        assert_eq!(path_file_stem(p).as_deref(), want, "path {p:?}");
        let std_stem = std::path::Path::new(p).file_stem().map(|s| s.to_str().unwrap().to_string());
        assert_eq!(path_file_stem(p), std_stem, "std disagrees on {p:?}");
    }
}

#[test]
fn model_id_prefers_label() {
    assert_eq!(model_id_for(&model("/m/qwen.gguf", Some("Qwen 7B"))), "Qwen 7B");
    assert_eq!(model_id_for(&model("/m/qwen.gguf", None)), "qwen");
    assert_eq!(model_id_for(&model("/", None)), "/");
    assert_eq!(model_id_for(&model("/m/x.gguf", Some(""))), "");
}

#[test]
fn listing_is_sorted_bytewise() {
    let catalog = vec![
        model("/m/zeta.gguf", None),
        model("/m/alpha.gguf", None),
        model("/m/Beta.gguf", None),
        model("/m/x.gguf", Some("alpha")),
        model("/m/é.gguf", None),
        model("/m/b.gguf", None),
    ];
    let r = list_models(&catalog);
    assert_eq!(r.status(), 200);
    assert_eq!(r.www_authenticate(), None);
    assert_eq!(r.content_type(), "application/json");
    let want: Vec<String> = ["Beta", "alpha", "alpha", "b", "zeta", "é"].iter().map(|s| s.to_string()).collect();
    assert_eq!(*r.body(), ReplyBody::Models(want.clone()));
    let mut ids: Vec<String> = catalog.iter().map(model_id_for).collect();
    ids.sort();
    assert_eq!(ids, want);
}

#[test]
fn listing_ignores_catalog_order() {
    let a = vec![model("/m/c.gguf", None), model("/m/a.gguf", None), model("/m/b.gguf", None)];
    let b = vec![model("/m/b.gguf", None), model("/m/c.gguf", None), model("/m/a.gguf", None)];
    assert_eq!(sorted_model_ids(&a), sorted_model_ids(&b));
    assert_eq!(sorted_model_ids(&Vec::new()), Vec::<String>::new());
}

#[test]
fn string_helpers() {
    assert!(str_eq("abc", "abc"));
    assert!(!str_eq("abc", "abd"));
    assert!(!str_eq("abc", "ab"));
    assert!(str_le_exec("ab", "abc"));
    assert!(!str_le_exec("abc", "ab"));
    assert!(str_le_exec("Z", "a"));
    assert!(str_le_exec("a", "a"));
    assert!(str_le_exec("z", "é"));
    assert_eq!(decimal_string(0), "0");
    assert_eq!(decimal_string(7), "7");
    assert_eq!(decimal_string(10), "10");
    assert_eq!(decimal_string(1234567890), "1234567890");
    assert_eq!(decimal_string(usize::MAX), usize::MAX.to_string());
}

#[test]
fn messages() {
    assert_eq!(model_not_found_message_string("llama"), "llama not found");
    assert_eq!(
        ambiguous_message_string("qwen", 3),
        "`qwen` matched 3 models; refine the reference (full path or unique substring)"
    );
}

#[test]
fn ready_decision_forwards_unchanged() {
    let d = RouteDecision::ReadyAt {
        port: 8081,
        served_model_id: "m".to_string(),
        served_model_key: "k".to_string(),
        upstream_path_prefix: Some("/p".to_string()),
        fallback: true,
        fallback_reason: Some("why".to_string()),
    };
    assert_eq!(
        forward_request(d),
        ForwardStep::Upstream(Target {
            port: 8081,
            served_model_id: "m".to_string(),
            served_model_key: "k".to_string(),
            upstream_path_prefix: Some("/p".to_string()),
            fallback: true,
            fallback_reason: Some("why".to_string()),
        })
    );
}

#[test]
fn not_running_decision_starts_backend() {
    let row = model("/m/a.gguf", None);
    let d = RouteDecision::NotRunning { requested_model: "a".to_string(), resolved_row: row.clone(), arch: "llama".to_string() };
    assert_eq!(
        forward_request(d),
        ForwardStep::StartBackend { requested_model: "a".to_string(), resolved_row: row, arch: "llama".to_string() }
    );
}

fn respond(step: ForwardStep) -> Reply {
    match step {
        ForwardStep::Respond(r) => r,
        other => panic!("unexpected {other:?}"),
    }
}

#[test]
fn unknown_model_is_404_with_empty_matches() {
    let r = respond(forward_request(RouteDecision::NotFound { requested_model: "ghost".to_string() }));
    assert_eq!(r.status(), STATUS_NOT_FOUND);
    let e = error_of(&r);
    assert_eq!(e.error_type, "model_not_found");
    assert_eq!(e.message, "ghost not found");
    assert_eq!(e.matches, Some(Vec::new()));
    assert_eq!(e.code, None);
}

#[test]
fn ambiguous_model_lists_candidates() {
    let candidates = vec!["/m/qwen-7b.gguf".to_string(), "/m/qwen-14b.gguf".to_string()];
    let r = respond(forward_request(RouteDecision::Ambiguous {
        requested_model: "qwen".to_string(),
        candidates: candidates.clone(),
    }));
    assert_eq!(r.status(), STATUS_BAD_REQUEST);
    let e = error_of(&r);
    assert_eq!(e.error_type, "ambiguous_model");
    assert_eq!(e.message, "`qwen` matched 2 models; refine the reference (full path or unique substring)");
    assert_eq!(e.matches, Some(candidates));
}

#[test]
fn missing_model_field() {
    let r = respond(forward_request(RouteDecision::ModelRequired));
    assert_eq!(r.status(), STATUS_BAD_REQUEST);
    let e = error_of(&r);
    assert_eq!(e.error_type, "invalid_request");
    assert_eq!(e.message, "the `model` field is required");
    assert_eq!(e.code.as_deref(), Some("model_required"));
    assert_eq!(e.param.as_deref(), Some("model"));
    assert_eq!(e.matches, None);
}

#[test]
fn backend_unavailable() {
    let r = respond(forward_request(RouteDecision::BackendUnavailable));
    assert_eq!(r.status(), STATUS_SERVICE_UNAVAILABLE);
    let e = error_of(&r);
    assert_eq!(e.error_type, "backend_unavailable");
    assert_eq!(e.message, "the requested backend is not running; start it first");
    assert_eq!(e.code, None);
    assert_eq!(e.param, None);
}

#[test]
fn auth_check_needed_only_off_root_when_enforced() {
    assert!(!needs_auth_check(Method::Get, "/", true));
    assert!(!needs_auth_check(Method::Head, "/", true));
    assert!(needs_auth_check(Method::Post, "/", true));
    assert!(needs_auth_check(Method::Get, "/v1/models", true));
    assert!(!needs_auth_check(Method::Get, "/v1/models", false));
}

fn ready(key: &str) -> RouteDecision {
    RouteDecision::ReadyAt {
        port: 9000,
        served_model_id: "id".to_string(),
        served_model_key: key.to_string(),
        upstream_path_prefix: None,
        fallback: false,
        fallback_reason: None,
    }
}

#[test]
fn exchange_touches_then_forwards() {
    let (phase, action) = forward_begin();
    assert_eq!(phase, ForwardPhase::ReadingBody);
    assert_eq!(action, ForwardAction::ReadBody);
    let (phase, action) = forward_next(phase, ForwardEvent::BodyRead { model: Some("m".to_string()) });
    assert_eq!(phase, ForwardPhase::Resolving);
    assert_eq!(action, ForwardAction::Resolve { model: Some("m".to_string()) });
    let (phase, action) = forward_next(phase, ForwardEvent::Decided(ready("key-1")));
    assert_eq!(action, ForwardAction::Touch { served_model_key: "key-1".to_string() });
    let (phase, action) = forward_next(phase, ForwardEvent::Touched);
    assert_eq!(phase, ForwardPhase::Finished);
    match action {
        ForwardAction::Upstream(t) => {
            assert_eq!(t.port, 9000);
            assert_eq!(t.served_model_key, "key-1");
        }
        other => panic!("unexpected {other:?}"),
    }
}

#[test]
fn unreadable_body_is_answered_without_resolving() {
    let (phase, _) = forward_begin();
    let (phase, action) = forward_next(phase, ForwardEvent::BodyUnreadable);
    assert_eq!(phase, ForwardPhase::Finished);
    assert_eq!(action, ForwardAction::RespondBodyError);
    let (phase, action) = forward_next(phase, ForwardEvent::Decided(ready("k")));
    assert_eq!(phase, ForwardPhase::Finished);
    assert_eq!(action, ForwardAction::Unexpected);
}

#[test]
fn exchange_answers_errors_and_ignores_stray_events() {
    let (phase, action) = forward_next(ForwardPhase::Resolving, ForwardEvent::Decided(RouteDecision::ModelRequired));
    assert_eq!(phase, ForwardPhase::Finished);
    match action {
        ForwardAction::Respond(r) => assert_eq!(r.status(), 400),
        other => panic!("unexpected {other:?}"),
    }
    let (phase, action) = forward_next(ForwardPhase::ReadingBody, ForwardEvent::Touched);
    assert_eq!(phase, ForwardPhase::ReadingBody);
    assert_eq!(action, ForwardAction::Unexpected);
    let row = model("/m/a.gguf", None);
    let (_, action) = forward_next(
        ForwardPhase::Resolving,
        ForwardEvent::Decided(RouteDecision::NotRunning { requested_model: "a".to_string(), resolved_row: row.clone(), arch: "x".to_string() }),
    );
    assert_eq!(action, ForwardAction::StartBackend { requested_model: "a".to_string(), resolved_row: row, arch: "x".to_string() });
}

#[test]
fn reply_parts_round_trip() {
    let (status, body, challenge) = unauthorized().into_parts();
    assert_eq!(status, 401);
    assert_eq!(challenge.as_deref(), Some("Bearer"));
    assert_eq!(body, ReplyBody::Error(unauthorized_body()));
}
