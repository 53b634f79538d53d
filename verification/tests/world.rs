//! The sink that talks to the world server.
use twow_gm_tool::world::{world_sink, TransportError, TransportStage, Url};
use twow_gm_tool::{AppError, Config, DirectWorldHttpSink, QueueCommand, SinkMode};

fn config(url: Option<&str>, key: Option<&str>, timeout: u64) -> Config<&'static str> {
    Config {
        bind_addr: "127.0.0.1:8080",
        sink_mode: SinkMode::DirectWorldHttp,
        command_allowlist: vec!["broadcast".to_string()],
        jws_secret: "secret".to_string(),
        jws_issuer: "twow-control-plane".to_string(),
        jws_audience: "twow-gm-tool".to_string(),
        db_host: "ignored".to_string(),
        db_port: 3306,
        db_user: "ignored".to_string(),
        db_password: "ignored".to_string(),
        logon_db: "ignored".to_string(),
        default_realm_id: 1,
        world_base_url: url.map(String::from),
        world_api_key: key.map(String::from),
        world_timeout_seconds: timeout,
    }
}

fn sink(url: &str) -> DirectWorldHttpSink {
    DirectWorldHttpSink::from_config(&config(Some(url), Some("Gheor"), 5)).expect("direct sink")
}

fn command() -> QueueCommand {
    QueueCommand { realm_id: 1, command: "broadcast hello".to_string(), run_at_unix: 123 }
}

fn dependency<T>(r: Result<T, AppError>) -> String {
    match r {
        Err(AppError::Dependency(message)) => message,
        _ => panic!("not a dependency failure"),
    }
}

fn upstream<T>(r: Result<T, AppError>) -> String {
    match r {
        Err(AppError::Upstream(message)) => message,
        _ => panic!("not an upstream failure"),
    }
}

#[test]
fn direct_world_http_sink_posts_to_world_api() {
    let sink = sink("http://127.0.0.1:34567");
    assert_eq!(sink.host(), "127.0.0.1");
    assert_eq!(sink.port(), 34567);

    let request = sink.enqueue_request(&command());
    let response = "HTTP/1.1 202 Accepted\r\nContent-Type: application/json\r\nContent-Length: 11\r\nConnection: close\r\n\r\n{\"ok\":true}";
    let receipt = sink.enqueue(command(), &Ok(response.to_string())).expect("enqueue");

    assert_eq!(receipt.id, 0);
    assert!(request.contains("POST /admin/gm/commands HTTP/1.1"));
    assert!(request.contains("X-API-Key: Gheor"));
    assert!(request.contains("{\"command\":\"broadcast hello\"}"));

    assert_eq!(
        request,
        "POST /admin/gm/commands HTTP/1.1\r\nHost: 127.0.0.1\r\nX-API-Key: Gheor\r\nContent-Type: application/json\r\nContent-Length: 29\r\nConnection: close\r\n\r\n{\"command\":\"broadcast hello\"}"
    );
    assert_eq!(receipt.realm_id, 1);
    assert_eq!(receipt.command, "broadcast hello");
    assert_eq!(receipt.run_at_unix, 123);
}

#[test]
fn direct_world_http_sink_healthcheck_uses_healthz() {
    let sink = sink("http://127.0.0.1:34567");

    let request = sink.healthcheck_request();
    let response = "HTTP/1.1 200 OK\r\nContent-Length: 3\r\nConnection: close\r\n\r\nok\n";
    sink.healthcheck(&Ok(response.to_string())).expect("healthcheck");

    assert!(request.contains("GET /healthz HTTP/1.1"));
    assert_eq!(
        request,
        "GET /healthz HTTP/1.1\r\nHost: 127.0.0.1\r\nX-API-Key: Gheor\r\nConnection: close\r\n\r\n"
    );
}

#[test]
fn port_and_path_have_defaults() {
    let sink = sink("http://world.local");
    assert_eq!(sink.host(), "world.local");
    assert_eq!(sink.port(), 80);
    assert_eq!(sink.endpoint_path("/healthz"), "/healthz");
}

#[test]
fn paths_join_at_one_slash() {
    assert_eq!(sink("http://w/").endpoint_path("/healthz"), "/healthz");
    assert_eq!(sink("http://w/api").endpoint_path("/healthz"), "/api/healthz");
    assert_eq!(sink("http://w/api/v2///").endpoint_path("/healthz"), "/api/v2/healthz");
    assert_eq!(sink("http://w//").endpoint_path("/healthz"), "/healthz");
    assert_eq!(sink("http://w/a?b=c").endpoint_path("/healthz"), "/a/healthz");
}

#[test]
fn timeout_is_a_second_at_least() {
    for (given, kept) in [(0, 1), (1, 1), (5, 5), (u64::MAX, u64::MAX)] {
        let sink = DirectWorldHttpSink::from_config(&config(Some("http://w"), Some("k"), given));
        assert_eq!(sink.expect("direct sink").timeout_seconds(), kept);
    }
}

#[test]
fn configuration_must_name_the_world_server() {
    assert_eq!(
        dependency(DirectWorldHttpSink::from_config(&config(None, None, 5))),
        "GM_TOOL_WORLD_BASE_URL is required in direct_world_http mode"
    );
    assert_eq!(
        dependency(DirectWorldHttpSink::from_config(&config(Some("http://w"), None, 5))),
        "GM_TOOL_WORLD_API_KEY is required in direct_world_http mode"
    );
}

#[test]
fn url_must_be_plain_http_with_a_host() {
    let of = |url: &str| DirectWorldHttpSink::from_config(&config(Some(url), Some("k"), 5));
    assert_eq!(dependency(of("https://w")), "GM_TOOL_WORLD_BASE_URL must use http scheme");
    assert_eq!(dependency(of("/admin")), "GM_TOOL_WORLD_BASE_URL must use http scheme");
    assert_eq!(dependency(of("w:80")), "GM_TOOL_WORLD_BASE_URL must use http scheme");
    for url in ["", "http://", "http://a b"] {
        let error = url.parse::<http::Uri>().expect_err("invalid");
        assert_eq!(dependency(of(url)), format!("invalid GM_TOOL_WORLD_BASE_URL: {error}"));
    }
}

#[test]
fn url_without_a_host_is_refused() {
    let url = Url {
        scheme: Some("http".to_string()),
        host: None,
        port: None,
        path: String::new(),
    };
    assert_eq!(
        dependency(world_sink(Ok(url), "http:".to_string(), "k".to_string(), 5)),
        "GM_TOOL_WORLD_BASE_URL must include a host"
    );
}

#[test]
fn url_without_a_path_means_the_root() {
    let url = Url {
        scheme: Some("http".to_string()),
        host: Some("w".to_string()),
        port: Some(8000),
        path: String::new(),
    };
    let sink = world_sink(Ok(url), "http://w:8000".to_string(), "k".to_string(), 5)
        .expect("direct sink");
    assert_eq!(sink.endpoint_path("/healthz"), "/healthz");
    assert_eq!(sink.port(), 8000);
}

#[test]
fn unhealthy_world_server_is_reported() {
    let sink = sink("http://w");
    let answer = Ok("HTTP/1.1 503 Unavailable\r\n\r\n down \n".to_string());
    assert_eq!(upstream(sink.healthcheck(&answer)), "world API healthcheck returned 503: down");
    let answer = Ok("HTTP/1.1 201 Created\r\n\r\n".to_string());
    assert_eq!(upstream(sink.healthcheck(&answer)), "world API healthcheck returned 201: ");
}

#[test]
fn refused_command_is_reported() {
    let sink = sink("http://w");
    for status in ["200", "201", "202"] {
        let answer = Ok(format!("HTTP/1.1 {status} Fine\r\n\r\n"));
        assert!(sink.enqueue(command(), &answer).is_ok());
    }
    let answer = Ok("HTTP/1.1 403 Forbidden\r\n\r\n{\"error\":\"no\"}\n".to_string());
    assert_eq!(
        upstream(sink.enqueue(command(), &answer)),
        "world API command call returned 403: {\"error\":\"no\"}"
    );
}

#[test]
fn answers_are_read_in_parts() {
    let sink = sink("http://w");
    let parts = |answer: &str| sink.perform_request(&Ok(answer.to_string())).expect("a status");
    assert_eq!(parts("HTTP/1.1 200 OK\r\nA: b\r\n\r\nx\r\n\r\ny"), (200, "x\r\n\r\ny".to_string()));
    assert_eq!(parts("HTTP/1.1 204"), (204, String::new()));
    assert_eq!(parts("HTTP/1.1 204\r\n"), (204, String::new()));
    assert_eq!(parts("HTTP/1.1\t 404 \nmore"), (404, String::new()));
    assert_eq!(parts("  HTTP/1.1 65535 x\r\n\r\nbody"), (65535, "body".to_string()));
}

#[test]
fn answers_without_a_status_are_reported() {
    let sink = sink("http://w");
    for (answer, line) in [
        ("", ""),
        ("hello", "hello"),
        ("HTTP/1.1 abc\r\n\r\nbody", "HTTP/1.1 abc"),
        ("HTTP/1.1 65536 x\nsecond", "HTTP/1.1 65536 x"),
        ("HTTP/1.1\r\n200 OK", "HTTP/1.1"),
        ("\r\n\r\nHTTP/1.1 200 OK", ""),
    ] {
        assert_eq!(
            upstream(sink.perform_request(&Ok(answer.to_string()))),
            format!("unexpected world API status line: {line}")
        );
    }
}

#[test]
fn failed_connections_are_reported_by_stage() {
    let sink = sink("http://w:81/x");
    let fail = |stage| {
        sink.perform_request(&Err(TransportError { stage, error: "timed out".to_string() }))
    };
    assert_eq!(
        dependency(fail(TransportStage::Connect)),
        "failed to connect to http://w:81/x: timed out"
    );
    assert_eq!(
        dependency(fail(TransportStage::SetReadTimeout)),
        "failed to set read timeout: timed out"
    );
    assert_eq!(
        dependency(fail(TransportStage::SetWriteTimeout)),
        "failed to set write timeout: timed out"
    );
    assert_eq!(
        upstream(fail(TransportStage::Write)),
        "failed to write world API request: timed out"
    );
    assert_eq!(
        upstream(fail(TransportStage::Flush)),
        "failed to flush world API request: timed out"
    );
    assert_eq!(
        upstream(fail(TransportStage::Read)),
        "failed to read world API response: timed out"
    );
}

#[test]
fn body_length_counts_bytes() {
    let sink = sink("http://w");
    assert_eq!(
        sink.request_text("PUT", "/x", Some("\u{e9}\u{20ac}")),
        "PUT /x HTTP/1.1\r\nHost: w\r\nX-API-Key: Gheor\r\nContent-Type: application/json\r\nContent-Length: 5\r\nConnection: close\r\n\r\n\u{e9}\u{20ac}"
    );
    assert_eq!(sink.request_text("GET", "/x", Some("")), sink.request_text("GET", "/x", None));
}

#[test]
fn command_text_is_escaped_in_json() {
    let quoted = QueueCommand {
        realm_id: 1,
        command: "say \"hi\" \\ \u{1}".to_string(),
        run_at_unix: 0,
    };
    let request = sink("http://w").enqueue_request(&quoted);
    assert!(request.ends_with("\r\n\r\n{\"command\":\"say \\\"hi\\\" \\\\ \\u0001\"}"));
}
