//! The sink that writes into the database's queue.
use twow_gm_tool::mariadb::{receipt_from_output, statement_output, ProcessOutput};
use twow_gm_tool::{AppError, Config, MariadbCliSink, QueueCommand, SinkMode};

fn sink() -> MariadbCliSink {
    MariadbCliSink::from_config(&Config {
        bind_addr: (),
        sink_mode: SinkMode::PendingCommands,
        command_allowlist: Vec::new(),
        jws_secret: String::new(),
        jws_issuer: String::new(),
        jws_audience: String::new(),
        db_host: "db.local".to_string(),
        db_port: 3307,
        db_user: "gm".to_string(),
        db_password: "hunter2".to_string(),
        logon_db: "tw_logon".to_string(),
        default_realm_id: 1,
        world_base_url: None,
        world_api_key: None,
        world_timeout_seconds: 5,
    })
}

fn command(text: &str) -> QueueCommand {
    QueueCommand { realm_id: 7, command: text.to_string(), run_at_unix: 123 }
}

fn printed(stdout: &[u8]) -> Result<ProcessOutput, String> {
    Ok(ProcessOutput {
        success: true,
        status: "exit status: 0".to_string(),
        stdout: stdout.to_vec(),
        stderr: b"Warning: ignored".to_vec(),
    })
}

fn failed(stderr: &[u8]) -> Result<ProcessOutput, String> {
    Ok(ProcessOutput {
        success: false,
        status: "exit status: 1".to_string(),
        stdout: b"42".to_vec(),
        stderr: stderr.to_vec(),
    })
}

fn upstream<T>(r: Result<T, AppError>) -> String {
    match r {
        Err(AppError::Upstream(message)) => message,
        _ => panic!("not an upstream failure"),
    }
}

#[test]
fn health_is_asked_with_a_statement() {
    let call = sink().healthcheck_call();
    assert_eq!(call.program, "mariadb");
    assert_eq!(
        call.arguments,
        [
            "--host",
            "db.local",
            "--port",
            "3307",
            "--user",
            "gm",
            "--database",
            "tw_logon",
            "--batch",
            "--raw",
            "--skip-column-names",
            "--execute",
            "SELECT 1;",
        ]
    );
    assert_eq!(call.variables, [("MYSQL_PWD".to_string(), "hunter2".to_string())]);
}

#[test]
fn command_is_inserted_with_its_quotes_doubled() {
    let call = sink().enqueue_call(&command("broadcast it's '")).expect("no NUL");
    assert_eq!(
        call.arguments.last().expect("statement"),
        "INSERT INTO pending_commands (realm_id, run_at_time, command) VALUES (7, 123, 'broadcast it''s '''); SELECT LAST_INSERT_ID();"
    );
}

#[test]
fn command_with_nul_is_not_inserted() {
    let error = sink().enqueue_call(&command("a\0b")).expect_err("NUL");
    assert!(matches!(error, AppError::BadRequest(m) if m == "command must not contain NUL bytes"));
}

#[test]
fn receipt_carries_the_number_and_the_command() {
    let receipt = sink().enqueue(command("saveall"), &printed(b"42\n")).expect("number");
    assert_eq!(receipt.id, 42);
    assert_eq!(receipt.realm_id, 7);
    assert_eq!(receipt.command, "saveall");
    assert_eq!(receipt.run_at_unix, 123);
}

#[test]
fn last_line_gives_the_number() {
    let receipt = sink().enqueue(command("saveall"), &printed(b"1\r\nnote\r\n  17 \r\n\n"));
    assert_eq!(receipt.expect("number").id, 17);
    let receipt = sink().enqueue(command("saveall"), &printed(b"note\n18446744073709551615"));
    assert_eq!(receipt.expect("number").id, u64::MAX);
}

#[test]
fn unexpected_output_is_reported_whole() {
    for (output, text) in
        [("", ""), ("ok", "ok"), (" 1\n2x \n", "1\n2x"), ("1\n-2", "1\n-2"), ("1 2", "1 2")]
    {
        assert_eq!(
            upstream(sink().enqueue(command("saveall"), &printed(output.as_bytes()))),
            format!("unexpected LAST_INSERT_ID output: {text}")
        );
    }
}

#[test]
fn failed_client_complains() {
    assert_eq!(
        upstream(sink().healthcheck(&failed(b"  ERROR 1045: denied\n"))),
        "ERROR 1045: denied"
    );
    assert_eq!(upstream(sink().healthcheck(&failed(b" \n"))), "mariadb exited with exit status: 1");
    assert_eq!(
        upstream(sink().enqueue(command("saveall"), &failed(b""))),
        "mariadb exited with exit status: 1"
    );
}

#[test]
fn invalid_bytes_are_replaced() {
    assert_eq!(upstream(sink().healthcheck(&failed(b"no\xff\xc3\xa9"))), "no\u{fffd}\u{e9}");
    assert_eq!(
        sink().run_sql(&printed(b"\xe2\x82 caf\xc3\xa9 ")).expect("output"),
        "\u{fffd} caf\u{e9}"
    );
}

#[test]
fn missing_client_is_a_dependency_failure() {
    let error = sink().healthcheck(&Err("No such file".to_string())).expect_err("not started");
    assert!(
        matches!(error, AppError::Dependency(m) if m == "failed to spawn mariadb: No such file")
    );
}

#[test]
fn answering_database_is_healthy() {
    assert!(sink().healthcheck(&printed(b"1\n")).is_ok());
    assert!(sink().clone().healthcheck(&printed(b"")).is_ok());
}

#[test]
fn texts_of_the_client_are_trimmed() {
    assert_eq!(statement_output(true, "s", " out\n", "err").expect("success"), "out");
    assert_eq!(upstream(statement_output(false, "s", "out", "\terr ")), "err");
    assert_eq!(upstream(statement_output(false, "s", "out", " ")), "mariadb exited with s");
}

#[test]
fn numbers_read_back_from_the_last_line() {
    for id in [0, 9, 10, u64::MAX] {
        for before in ["", "\n", "7\n", "x y\r\n"] {
            let receipt = receipt_from_output(command("saveall"), &format!("{before}{id}"));
            assert_eq!(receipt.expect("number").id, id);
        }
    }
}
