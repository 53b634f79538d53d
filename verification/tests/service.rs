//! Requests answered from beginning to end.
use std::sync::{Arc, Mutex};
use std::time::Duration;

use base64::engine::general_purpose::URL_SAFE_NO_PAD;
use base64::Engine;
use hmac::Mac;
use serde_json::Value;
use twow_gm_tool::error::Reply;
use twow_gm_tool::jws::{JwsAudience, JwsClaims, JwsHeader};
use twow_gm_tool::service::{
    failure_response, queued_response, readyz, route_request, Action, Endpoint, Event, Exchange,
    Payload, RawCommandRequest, Request, ReviveRequest, TeleportRequest,
};
use twow_gm_tool::state::epoch_seconds;
use twow_gm_tool::{
    handle_request, AppError, AppState, Clock, CommandSink, QueueCommand, QueueReceipt, SystemClock,
};

const DEFAULT_REALM_ID: u32 = 1;
const TEST_SECRET: &str = "secret";
const TEST_ISSUER: &str = "twow-control-plane";
const TEST_AUDIENCE: &str = "twow-gm-tool";

struct FixedClock(u64);

impl Clock for FixedClock {
    fn now_epoch_seconds(&self) -> u64 {
        self.0
    }
}

struct RecordingSink {
    queued: Mutex<Vec<QueueCommand>>,
    ready: bool,
}

impl RecordingSink {
    fn with_ready(ready: bool) -> Self {
        Self { queued: Mutex::new(Vec::new()), ready }
    }
}

impl CommandSink for RecordingSink {
    fn healthcheck(&self) -> Result<(), AppError> {
        if self.ready {
            Ok(())
        } else {
            Err(AppError::Upstream("db not ready".to_string()))
        }
    }

    fn enqueue(&self, request: QueueCommand) -> Result<QueueReceipt, AppError> {
        self.queued.lock().expect("queued lock").push(request.clone());
        Ok(QueueReceipt {
            id: 42,
            realm_id: request.realm_id,
            command: request.command,
            run_at_unix: request.run_at_unix,
        })
    }
}

fn state_with(sink: Arc<RecordingSink>, allowlist: Vec<String>, now: u64) -> AppState {
    AppState::new(
        TEST_SECRET.to_string(),
        TEST_ISSUER.to_string(),
        TEST_AUDIENCE.to_string(),
        DEFAULT_REALM_ID,
        allowlist,
        sink,
        Arc::new(FixedClock(now)),
    )
}

fn build_state() -> AppState {
    state_with(Arc::new(RecordingSink::with_ready(true)), Vec::new(), 1_717_171_717)
}

fn sign(secret: &str, header: &str, claims: &str) -> String {
    let header = URL_SAFE_NO_PAD.encode(header.as_bytes());
    let payload = URL_SAFE_NO_PAD.encode(claims.as_bytes());
    let signing_input = format!("{header}.{payload}");
    let mut mac =
        hmac::Hmac::<sha2::Sha256>::new_from_slice(secret.as_bytes()).expect("test secret");
    mac.update(signing_input.as_bytes());
    let signature = URL_SAFE_NO_PAD.encode(mac.finalize().into_bytes());
    format!("{signing_input}.{signature}")
}

fn sign_test_jws(secret: &str, claims: &str) -> String {
    sign(secret, "{\"alg\":\"HS256\",\"typ\":\"JWT\"}", claims)
}

fn claims(exp: u64) -> String {
    format!("{{\"sub\":\"test\",\"iss\":\"{TEST_ISSUER}\",\"aud\":\"{TEST_AUDIENCE}\",\"exp\":{exp}}}")
}

fn read_header(bytes: &[u8]) -> Option<JwsHeader> {
    let value: Value = serde_json::from_slice(bytes).ok()?;
    Some(JwsHeader { alg: value.get("alg")?.as_str()?.to_string() })
}

fn read_claims(bytes: &[u8]) -> Option<JwsClaims> {
    let value: Value = serde_json::from_slice(bytes).ok()?;
    let aud = match value.get("aud")? {
        Value::String(one) => JwsAudience::One(one.clone()),
        Value::Array(many) => JwsAudience::Many(
            many.iter().map(|one| one.as_str().map(String::from)).collect::<Option<Vec<_>>>()?,
        ),
        _ => return None,
    };
    Some(JwsClaims {
        iss: value.get("iss")?.as_str()?.to_string(),
        aud,
        exp: value.get("exp")?.as_u64()?,
        nbf: value.get("nbf").and_then(Value::as_u64),
    })
}

fn text_of(value: &Value, key: &str) -> Result<String, String> {
    match value.get(key).and_then(Value::as_str) {
        Some(text) => Ok(text.to_string()),
        None => Err(format!("missing field `{key}`")),
    }
}

fn read_payload(endpoint: Endpoint, bytes: &[u8]) -> Result<Payload, String> {
    let value: Value = serde_json::from_slice(bytes).map_err(|error| error.to_string())?;
    let realm_id = value.get("realm_id").and_then(Value::as_u64).map(|id| id as u32);
    let run_after_seconds = value.get("run_after_seconds").and_then(Value::as_u64);
    Ok(match endpoint {
        Endpoint::Commands => Payload::Raw(RawCommandRequest {
            command: text_of(&value, "command")?,
            realm_id,
            run_after_seconds,
        }),
        Endpoint::Revive => Payload::Revive(ReviveRequest {
            character: text_of(&value, "character")?,
            realm_id,
            run_after_seconds,
        }),
        Endpoint::Teleport => Payload::Teleport(TeleportRequest {
            character: text_of(&value, "character")?,
            teleport: text_of(&value, "teleport")?,
            realm_id,
            run_after_seconds,
        }),
    })
}

fn perform(state: &AppState, action: Action) -> Result<Event, Reply> {
    Ok(match action {
        Action::Reply(reply) => return Err(reply),
        Action::CheckHealth => Event::Health(Ok(state.sink().healthcheck())),
        Action::ReadClock => Event::Now(state.clock().now_epoch_seconds()),
        Action::ReadToken { header, claims } => {
            Event::Token { header: read_header(&header), claims: read_claims(&claims) }
        }
        Action::ReadPayload { endpoint, body } => Event::Payload(read_payload(endpoint, &body)),
        Action::Enqueue(command) => Event::Enqueued(Ok(state.sink().enqueue(command))),
    })
}

fn serve(state: &AppState, request: Request) -> Reply {
    let (mut exchange, mut action) = handle_request(request);
    loop {
        let event = match perform(state, action) {
            Ok(event) => event,
            Err(reply) => {
                assert!(!exchange.accepts(&Event::Now(0)));
                assert!(!exchange.accepts(&Event::Health(Ok(Ok(())))));
                return reply;
            }
        };
        assert!(exchange.accepts(&event));
        (exchange, action) = exchange.advance(state, event);
    }
}

/// The exchange for an accepted request after its first `steps` pieces of work.
fn after_steps(state: &AppState, path: &str, body: &str, steps: usize) -> (Exchange, Action) {
    let token = sign_test_jws(TEST_SECRET, &claims(u64::MAX));
    let (mut exchange, mut action) = handle_request(Request {
        method: "POST".to_string(),
        path: path.to_string(),
        authorization: Some(format!("Bearer {token}").into_bytes()),
        body: Ok(body.as_bytes().to_vec()),
    });
    for _ in 0..steps {
        let event = perform(state, action).expect("work to do");
        assert!(exchange.accepts(&event));
        (exchange, action) = exchange.advance(state, event);
    }
    (exchange, action)
}

fn call(state: &AppState, method: &str, path: &str, body: &str, token: Option<&str>) -> Reply {
    serve(
        state,
        Request {
            method: method.to_string(),
            path: path.to_string(),
            authorization: token.map(|value| format!("Bearer {value}").into_bytes()),
            body: Ok(body.as_bytes().to_vec()),
        },
    )
}

#[test]
fn revive_endpoint_queues_expected_command() {
    let sink = Arc::new(RecordingSink::with_ready(true));
    let state = state_with(sink.clone(), Vec::new(), 100);
    let token = sign_test_jws(TEST_SECRET, &claims(101));

    let response = call(
        &state,
        "POST",
        "/api/v1/gm/revive",
        "{\"character\":\"Qianfuren\",\"realm_id\":7}",
        Some(&token),
    );

    assert_eq!(response.status, 201);
    let queued = sink.queued.lock().expect("queued lock");
    assert_eq!(
        queued.as_slice(),
        &[QueueCommand {
            realm_id: 7,
            command: "revive Qianfuren".to_string(),
            run_at_unix: 100,
        }]
    );
    assert_eq!(response.content_type, "application/json");
    assert_eq!(
        response.body,
        "{\"ok\":true,\"queued\":{\"command\":\"revive Qianfuren\",\"id\":42,\"realm_id\":7,\"run_at_unix\":100}}"
    );
}

#[test]
fn teleport_endpoint_rejects_whitespace_aliases() {
    let response = call(
        &build_state(),
        "POST",
        "/api/v1/gm/teleport",
        "{\"character\":\"Qianfuren\",\"teleport\":\"gm island\"}",
        Some(&sign_test_jws(TEST_SECRET, &claims(1_717_171_718))),
    );

    assert_eq!(response.status, 400);
    assert_eq!(response.body, "{\"error\":\"teleport must be a single token\",\"ok\":false}");
}

#[test]
fn raw_endpoint_strips_leading_dot() {
    let sink = Arc::new(RecordingSink::with_ready(true));
    let state = state_with(sink.clone(), vec!["broadcast".to_string()], 200);
    let token = sign_test_jws(TEST_SECRET, &claims(205));

    let response = call(
        &state,
        "POST",
        "/api/v1/gm/commands",
        "{\"command\":\".broadcast hello\",\"run_after_seconds\":5}",
        Some(&token),
    );

    assert_eq!(response.status, 201);
    let queued = sink.queued.lock().expect("queued lock");
    assert_eq!(queued[0].command, "broadcast hello");
    assert_eq!(queued[0].run_at_unix, 205);
}

#[test]
fn raw_endpoint_rejects_non_allowlisted_commands() {
    let sink = Arc::new(RecordingSink::with_ready(true));
    let state = state_with(sink.clone(), vec!["broadcast".to_string()], 200);
    let token = sign_test_jws(TEST_SECRET, &claims(205));

    let response =
        call(&state, "POST", "/api/v1/gm/commands", "{\"command\":\"saveall\"}", Some(&token));

    assert_eq!(response.status, 403);
    assert!(sink.queued.lock().expect("queued lock").is_empty());
    assert_eq!(
        response.body,
        "{\"error\":\"raw gm command is not allowlisted: saveall\",\"ok\":false}"
    );
}

#[test]
fn raw_endpoint_allows_prefix_matches() {
    let sink = Arc::new(RecordingSink::with_ready(true));
    let state = state_with(sink.clone(), vec!["tele name".to_string()], 250);
    let token = sign_test_jws(TEST_SECRET, &claims(255));

    let response = call(
        &state,
        "POST",
        "/api/v1/gm/commands",
        "{\"command\":\"tele name Qianfuren Goldshire\"}",
        Some(&token),
    );

    assert_eq!(response.status, 201);
    let queued = sink.queued.lock().expect("queued lock");
    assert_eq!(queued[0].command, "tele name Qianfuren Goldshire");
}

#[test]
fn write_endpoints_require_valid_jws() {
    let response = call(
        &build_state(),
        "POST",
        "/api/v1/gm/revive",
        "{\"character\":\"Qianfuren\"}",
        None,
    );

    assert_eq!(response.status, 401);
    assert_eq!(response.body, "{\"error\":\"unauthorized\",\"ok\":false}");
}

#[test]
fn expired_jws_is_rejected() {
    let response = call(
        &build_state(),
        "POST",
        "/api/v1/gm/revive",
        "{\"character\":\"Qianfuren\"}",
        Some(&sign_test_jws(TEST_SECRET, &claims(1_717_171_716))),
    );

    assert_eq!(response.status, 401);
}

#[test]
fn invalid_jws_signature_is_rejected() {
    let response = call(
        &build_state(),
        "POST",
        "/api/v1/gm/revive",
        "{\"character\":\"Qianfuren\"}",
        Some(&sign_test_jws("wrong-secret", &claims(1_717_171_718))),
    );

    assert_eq!(response.status, 401);
}

#[test]
fn readyz_reflects_sink_health() {
    let state = state_with(Arc::new(RecordingSink::with_ready(false)), Vec::new(), 0);

    let (exchange, action) =
        route_request("GET", "/readyz", None, Vec::new()).expect("readiness has a route");
    assert!(exchange.accepts(&Event::Health(Ok(Ok(())))));
    assert!(matches!(action, Action::CheckHealth));
    let response = readyz(Ok(state.sink().healthcheck())).unwrap_err().response();
    assert_eq!(response.status, 502);

    let response = call(&state, "GET", "/readyz", "", None);
    assert_eq!(response.status, 502);
    assert_eq!(response.body, "{\"error\":\"db not ready\",\"ok\":false}");
}

#[test]
fn wrong_issuer_is_rejected() {
    let response = call(
        &build_state(),
        "POST",
        "/api/v1/gm/revive",
        "{\"character\":\"Qianfuren\"}",
        Some(&sign_test_jws(
            TEST_SECRET,
            &format!("{{\"sub\":\"test\",\"iss\":\"wrong-issuer\",\"aud\":\"{TEST_AUDIENCE}\",\"exp\":1717171718}}"),
        )),
    );

    assert_eq!(response.status, 401);
}

#[test]
fn wrong_audience_is_rejected() {
    let response = call(
        &build_state(),
        "POST",
        "/api/v1/gm/revive",
        "{\"character\":\"Qianfuren\"}",
        Some(&sign_test_jws(
            TEST_SECRET,
            &format!("{{\"sub\":\"test\",\"iss\":\"{TEST_ISSUER}\",\"aud\":\"wrong-audience\",\"exp\":1717171718}}"),
        )),
    );

    assert_eq!(response.status, 401);
}

#[test]
fn audience_array_is_supported() {
    let sink = Arc::new(RecordingSink::with_ready(true));
    let state = state_with(sink.clone(), Vec::new(), 300);
    let token = sign_test_jws(
        TEST_SECRET,
        &format!("{{\"sub\":\"test\",\"iss\":\"{TEST_ISSUER}\",\"aud\":[\"other\",\"{TEST_AUDIENCE}\"],\"exp\":301}}"),
    );

    let response = call(
        &state,
        "POST",
        "/api/v1/gm/revive",
        "{\"character\":\"Qianfuren\"}",
        Some(&token),
    );

    assert_eq!(response.status, 201);
}

#[test]
fn teleport_endpoint_queues_for_the_default_realm() {
    let sink = Arc::new(RecordingSink::with_ready(true));
    let state = state_with(sink.clone(), Vec::new(), 100);
    let token = sign_test_jws(TEST_SECRET, &claims(101));

    let response = call(
        &state,
        "POST",
        "/api/v1/gm/teleport",
        "{\"character\":\" Qianfuren\",\"teleport\":\"stormwind\",\"run_after_seconds\":60}",
        Some(&token),
    );

    assert_eq!(response.status, 201);
    assert_eq!(
        sink.queued.lock().expect("queued lock").as_slice(),
        &[QueueCommand {
            realm_id: DEFAULT_REALM_ID,
            command: "tele name Qianfuren stormwind".to_string(),
            run_at_unix: 160,
        }]
    );
}

#[test]
fn liveness_needs_no_token() {
    let response = call(&build_state(), "GET", "/healthz", "not json", None);
    assert_eq!(response.status, 200);
    assert_eq!(response.content_type, "application/json");
    assert_eq!(response.body, "{\"status\":\"ok\"}");
}

#[test]
fn readiness_of_a_healthy_sink() {
    let response = call(&build_state(), "GET", "/readyz", "", None);
    assert_eq!(response.status, 200);
    assert_eq!(response.body, "{\"status\":\"ready\"}");
}

#[test]
fn failed_health_worker_is_an_internal_error() {
    let error = readyz(Err("task 1 panicked".to_string())).unwrap_err();
    assert!(matches!(&error, AppError::Internal(m) if m == "health worker failed: task 1 panicked"));
    assert_eq!(error.response().status, 500);
}

#[test]
fn failed_queue_worker_is_an_internal_error() {
    let error = queued_response(Err("task 2 panicked".to_string())).unwrap_err();
    assert!(matches!(&error, AppError::Internal(m) if m == "queue worker failed: task 2 panicked"));
}

#[test]
fn sink_failure_is_answered_with_its_status() {
    let error = queued_response(Ok(Err(AppError::Dependency("no database".to_string()))))
        .unwrap_err();
    let reply = failure_response(&error);
    assert_eq!(reply.status, 502);
    assert_eq!(reply.body, "{\"error\":\"no database\",\"ok\":false}");
}

#[test]
fn unknown_routes_are_not_found() {
    for (method, path) in [
        ("GET", "/nowhere"),
        ("POST", "/healthz"),
        ("POST", "/readyz"),
        ("GET", "/api/v1/gm/revive"),
        ("PUT", "/api/v1/gm/commands"),
        ("POST", "/api/v1/gm/revive/"),
    ] {
        let response = call(&build_state(), method, path, "{}", None);
        assert_eq!(response.status, 404);
        assert_eq!(
            response.body,
            format!("{{\"error\":\"unsupported route: {path}\",\"ok\":false}}")
        );
    }
}

#[test]
fn unsupported_route_is_a_bad_request_before_it_is_answered() {
    let error = route_request("GET", "/x", None, Vec::new()).unwrap_err();
    assert!(matches!(&error, AppError::BadRequest(m) if m == "unsupported route: /x"));
    assert_eq!(error.response().status, 400);
    assert_eq!(failure_response(&error).status, 404);
}

#[test]
fn unreadable_body_is_a_bad_request() {
    let response = serve(
        &build_state(),
        Request {
            method: "GET".to_string(),
            path: "/healthz".to_string(),
            authorization: None,
            body: Err("connection closed".to_string()),
        },
    );
    assert_eq!(response.status, 400);
    assert_eq!(
        response.body,
        "{\"error\":\"failed to read request body: connection closed\",\"ok\":false}"
    );
}

#[test]
fn invalid_json_is_a_bad_request_after_the_token() {
    let state = build_state();
    let token = sign_test_jws(TEST_SECRET, &claims(1_717_171_718));
    let response = call(&state, "POST", "/api/v1/gm/revive", "{}", Some(&token));
    assert_eq!(response.status, 400);
    assert_eq!(
        response.body,
        "{\"error\":\"invalid json: missing field `character`\",\"ok\":false}"
    );
    assert_eq!(call(&state, "POST", "/api/v1/gm/revive", "{}", None).status, 401);
}

#[test]
fn empty_allowlist_disables_raw_commands() {
    let token = sign_test_jws(TEST_SECRET, &claims(1_717_171_718));
    let response = call(
        &build_state(),
        "POST",
        "/api/v1/gm/commands",
        "{\"command\":\"broadcast hello\"}",
        Some(&token),
    );
    assert_eq!(response.status, 403);
    assert_eq!(
        response.body,
        "{\"error\":\"raw gm commands are disabled because GM_TOOL_COMMAND_ALLOWLIST is empty\",\"ok\":false}"
    );
}

#[test]
fn allowlist_does_not_touch_structured_commands() {
    let token = sign_test_jws(TEST_SECRET, &claims(101));
    for allowlist in [Vec::new(), vec!["broadcast".to_string()]] {
        let state = state_with(Arc::new(RecordingSink::with_ready(true)), allowlist, 100);
        let body = "{\"character\":\"Qianfuren\"}";
        assert_eq!(call(&state, "POST", "/api/v1/gm/revive", body, Some(&token)).status, 201);
    }
}

#[test]
fn token_is_held_to_its_algorithm() {
    let state = build_state();
    let token = sign(TEST_SECRET, "{\"alg\":\"none\"}", &claims(1_717_171_718));
    let body = "{\"character\":\"Qianfuren\"}";
    assert_eq!(call(&state, "POST", "/api/v1/gm/revive", body, Some(&token)).status, 401);
    let token = sign(TEST_SECRET, "{\"typ\":\"JWT\"}", &claims(1_717_171_718));
    assert_eq!(call(&state, "POST", "/api/v1/gm/revive", body, Some(&token)).status, 401);
}

#[test]
fn token_is_held_to_its_time() {
    let claims = format!(
        "{{\"iss\":\"{TEST_ISSUER}\",\"aud\":\"{TEST_AUDIENCE}\",\"exp\":200,\"nbf\":100}}"
    );
    let token = sign_test_jws(TEST_SECRET, &claims);
    for (now, status) in [(99, 401), (100, 201), (150, 201), (199, 201), (200, 401), (201, 401)] {
        let state = state_with(Arc::new(RecordingSink::with_ready(true)), Vec::new(), now);
        let response = call(
            &state,
            "POST",
            "/api/v1/gm/revive",
            "{\"character\":\"Qianfuren\"}",
            Some(&token),
        );
        assert_eq!(response.status, status);
    }
}

#[test]
fn reply_escapes_what_a_command_holds() {
    let sink = Arc::new(RecordingSink::with_ready(true));
    let state = state_with(sink, vec!["broadcast".to_string()], 1);
    let token = sign_test_jws(TEST_SECRET, &claims(2));
    let response = call(
        &state,
        "POST",
        "/api/v1/gm/commands",
        "{\"command\":\"broadcast \\\"it's\\\" \\\\\"}",
        Some(&token),
    );
    assert_eq!(response.status, 201);
    let body: Value = serde_json::from_str(&response.body).expect("reply is JSON");
    assert_eq!(body["ok"], Value::from(true));
    assert_eq!(body["queued"]["id"], Value::from(42));
    assert_eq!(body["queued"]["command"], Value::from("broadcast \"it's\" \\"));
    assert_eq!(body["queued"]["run_at_unix"], Value::from(1));
}

#[test]
fn exchanges_refuse_other_events() {
    let (exchange, action) = handle_request(Request {
        method: "POST".to_string(),
        path: "/api/v1/gm/commands".to_string(),
        authorization: None,
        body: Ok(Vec::new()),
    });
    assert!(matches!(action, Action::ReadClock));
    assert!(exchange.accepts(&Event::Now(1)));
    assert!(!exchange.accepts(&Event::Health(Ok(Ok(())))));
    assert!(!exchange.accepts(&Event::Enqueued(Err("gone".to_string()))));

    let body = "{\"character\":\"Qianfuren\"}";
    let (waiting, action) = after_steps(&build_state(), "/api/v1/gm/revive", body, 2);
    assert!(matches!(action, Action::ReadPayload { endpoint: Endpoint::Revive, .. }));
    let raw = RawCommandRequest {
        command: "saveall".to_string(),
        realm_id: None,
        run_after_seconds: None,
    };
    assert!(!waiting.accepts(&Event::Payload(Ok(Payload::Raw(raw)))));
    assert!(waiting.accepts(&Event::Payload(Err("eof".to_string()))));
    let (done, action) = after_steps(&build_state(), "/api/v1/gm/revive", body, 5);
    assert!(matches!(action, Action::Reply(reply) if reply.status == 201));
    assert!(!done.accepts(&Event::Now(1)));
}

#[test]
fn times_out_of_range_are_not_taken() {
    let body = format!("{{\"character\":\"Q\",\"run_after_seconds\":{}}}", u64::MAX - 5);
    let (waiting, action) = after_steps(&build_state(), "/api/v1/gm/revive", &body, 3);
    assert!(matches!(action, Action::ReadClock));
    assert!(waiting.accepts(&Event::Now(5)));
    assert!(!waiting.accepts(&Event::Now(6)));
    let (exchange, action) = waiting.advance(&build_state(), Event::Now(5));
    assert!(exchange.accepts(&Event::Enqueued(Err("gone".to_string()))));
    assert!(matches!(action, Action::Enqueue(command) if command.run_at_unix == u64::MAX));
}

#[test]
fn every_character_is_written_as_json() {
    for code in (0..0x3000).chain(0x1f600..0x1f610) {
        let Some(c) = char::from_u32(code) else { continue };
        let written = match c {
            '"' => "\\\"".to_string(),
            '\\' => "\\\\".to_string(),
            '\u{8}' => "\\b".to_string(),
            '\t' => "\\t".to_string(),
            '\n' => "\\n".to_string(),
            '\u{c}' => "\\f".to_string(),
            '\r' => "\\r".to_string(),
            '\0'..='\u{1f}' => format!("\\u{code:04x}"),
            _ => c.to_string(),
        };
        let reply = AppError::Internal(format!("<{c}>")).response();
        assert_eq!(reply.body, format!("{{\"error\":\"<{written}>\",\"ok\":false}}"));
        let read: Value = serde_json::from_str(&reply.body).expect("reply is JSON");
        assert_eq!(read["error"], Value::from(format!("<{c}>")));
    }
}

#[test]
fn statuses_of_failures() {
    let text = "why".to_string();
    for (error, status) in [
        (AppError::Unauthorized, 401),
        (AppError::Forbidden(text.clone()), 403),
        (AppError::BadRequest(text.clone()), 400),
        (AppError::Upstream(text.clone()), 502),
        (AppError::Dependency(text.clone()), 502),
        (AppError::Internal(text.clone()), 500),
    ] {
        assert_eq!(error.status_code(), status);
        let reply = error.response();
        assert_eq!(reply.status, status);
        assert_eq!(reply.body, format!("{{\"error\":\"{}\",\"ok\":false}}", error.message()));
    }
}

#[test]
fn system_clock_is_past_its_epoch() {
    assert!(SystemClock.now_epoch_seconds() > 1_600_000_000);
}

#[test]
fn clock_readings_count_whole_seconds() {
    assert_eq!(epoch_seconds(None), 0);
    assert_eq!(epoch_seconds(Some(Duration::new(0, 999_999_999))), 0);
    assert_eq!(epoch_seconds(Some(Duration::new(100, 1))), 100);
    assert_eq!(epoch_seconds(Some(Duration::MAX)), u64::MAX);
}

#[test]
fn cloned_state_shares_its_sink() {
    let sink = Arc::new(RecordingSink::with_ready(true));
    let state = state_with(sink.clone(), Vec::new(), 100);
    let token = sign_test_jws(TEST_SECRET, &claims(101));
    let body = "{\"character\":\"Qianfuren\"}";
    assert_eq!(call(&state.clone(), "POST", "/api/v1/gm/revive", body, Some(&token)).status, 201);
    assert_eq!(sink.queued.lock().expect("queued lock").len(), 1);
}
