//! The configuration, from environment variables.
use twow_gm_tool::config::{
    bind_addr_text, env_or_default, parse_command_allowlist_env, parse_env_u16, parse_env_u32,
    parse_env_u64, parse_sink_mode, required_env, Environment,
};
use twow_gm_tool::{Config, ConfigError, DirectWorldHttpSink, SinkMode};

fn environment(entries: &[(&str, &str)]) -> Environment {
    Environment {
        entries: entries.iter().map(|(key, value)| (key.to_string(), value.to_string())).collect(),
    }
}

const REQUIRED: [(&str, &str); 7] = [
    ("GM_TOOL_JWS_SECRET", "secret"),
    ("GM_TOOL_JWS_ISSUER", "issuer"),
    ("GM_TOOL_JWS_AUDIENCE", "audience"),
    ("TWOW_DB_HOST", "db"),
    ("TWOW_DB_USER", "user"),
    ("TWOW_DB_PASSWORD", "password"),
    ("TWOW_LOGON_DB", "tw_logon"),
];

fn with(more: &[(&str, &str)]) -> Environment {
    let mut entries = REQUIRED.to_vec();
    entries.extend_from_slice(more);
    environment(&entries)
}

fn read(env: &Environment) -> Result<Config<u8>, ConfigError> {
    Config::from_env(env, Some(7))
}

fn fault(env: &Environment) -> String {
    read(env).expect_err("faulty").message()
}

#[test]
fn defaults_are_filled_in() {
    let config = read(&with(&[])).expect("complete");
    assert_eq!(config.bind_addr, 7);
    assert_eq!(config.sink_mode, SinkMode::PendingCommands);
    assert!(config.command_allowlist.is_empty());
    assert_eq!(config.jws_secret, "secret");
    assert_eq!(config.jws_issuer, "issuer");
    assert_eq!(config.jws_audience, "audience");
    assert_eq!(config.db_host, "db");
    assert_eq!(config.db_port, 3306);
    assert_eq!(config.db_user, "user");
    assert_eq!(config.db_password, "password");
    assert_eq!(config.logon_db, "tw_logon");
    assert_eq!(config.default_realm_id, 1);
    assert_eq!(config.world_base_url, None);
    assert_eq!(config.world_api_key, None);
    assert_eq!(config.world_timeout_seconds, 5);
    assert_eq!(bind_addr_text(&with(&[])), "0.0.0.0:8080");
}

#[test]
fn variables_override_defaults() {
    let env = with(&[
        ("GM_TOOL_BIND_ADDR", "127.0.0.1:9"),
        ("GM_TOOL_SINK_MODE", "direct_world_http"),
        ("GM_TOOL_COMMAND_ALLOWLIST", "broadcast"),
        ("TWOW_DB_PORT", "3307"),
        ("GM_TOOL_DEFAULT_REALM_ID", "+4294967295"),
        ("GM_TOOL_WORLD_TIMEOUT_SECONDS", "18446744073709551615"),
        ("GM_TOOL_WORLD_BASE_URL", "http://world"),
        ("GM_TOOL_WORLD_API_KEY", "key"),
    ]);
    let config = read(&env).expect("complete");
    assert_eq!(config.sink_mode, SinkMode::DirectWorldHttp);
    assert_eq!(config.command_allowlist, ["broadcast"]);
    assert_eq!(config.db_port, 3307);
    assert_eq!(config.default_realm_id, u32::MAX);
    assert_eq!(config.world_timeout_seconds, u64::MAX);
    assert_eq!(config.world_base_url, Some("http://world".to_string()));
    assert_eq!(config.world_api_key, Some("key".to_string()));
    assert_eq!(bind_addr_text(&env), "127.0.0.1:9");
}

#[test]
fn each_required_variable_is_missed() {
    for missing in 0..REQUIRED.len() {
        let mut entries = REQUIRED.to_vec();
        let (key, _) = entries.remove(missing);
        assert_eq!(
            fault(&environment(&entries)),
            format!("missing required environment variable: {key}")
        );
    }
}

#[test]
fn direct_mode_requires_the_world_server() {
    let mode = ("GM_TOOL_SINK_MODE", "direct_world_http");
    assert_eq!(
        fault(&with(&[mode, ("GM_TOOL_WORLD_API_KEY", "key")])),
        "missing required environment variable: GM_TOOL_WORLD_BASE_URL"
    );
    assert_eq!(
        fault(&with(&[mode, ("GM_TOOL_WORLD_BASE_URL", "http://world")])),
        "missing required environment variable: GM_TOOL_WORLD_API_KEY"
    );
}

#[test]
fn bad_bind_address_is_reported_first() {
    let env = environment(&[("GM_TOOL_BIND_ADDR", "nowhere"), ("GM_TOOL_SINK_MODE", "other")]);
    let error = Config::<u8>::from_env(&env, None).expect_err("no address");
    assert!(matches!(&error, ConfigError::InvalidBindAddr(value) if value == "nowhere"));
    assert_eq!(error.message(), "invalid socket address in GM_TOOL_BIND_ADDR: nowhere");
}

#[test]
fn bad_sink_mode_is_reported() {
    let env = environment(&[("GM_TOOL_SINK_MODE", "Pending_Commands")]);
    assert_eq!(fault(&env), "invalid GM_TOOL_SINK_MODE: Pending_Commands");
    assert!(parse_sink_mode(&env, "GM_TOOL_SINK_MODE", "pending_commands").is_err());
}

#[test]
fn bad_integers_are_reported() {
    for value in ["", "+", "-1", " 1", "1 ", "0x1", "65536", "1e3", "99999999999999999999"] {
        let error = read(&with(&[("TWOW_DB_PORT", value)])).expect_err("no port");
        assert!(matches!(
            &error,
            ConfigError::InvalidInteger { key: "TWOW_DB_PORT", value: v } if v == value
        ));
        assert_eq!(error.message(), format!("invalid integer in TWOW_DB_PORT: {value}"));
    }
    assert_eq!(
        fault(&with(&[("GM_TOOL_DEFAULT_REALM_ID", "4294967296")])),
        "invalid integer in GM_TOOL_DEFAULT_REALM_ID: 4294967296"
    );
    assert_eq!(
        fault(&with(&[("GM_TOOL_WORLD_TIMEOUT_SECONDS", "18446744073709551616")])),
        "invalid integer in GM_TOOL_WORLD_TIMEOUT_SECONDS: 18446744073709551616"
    );
}

#[test]
fn integers_read_like_std() {
    for value in ["0", "7", "+7", "007", "65535", "65536", "4294967295", "4294967296", "+", "", "a"] {
        let env = environment(&[("N", value)]);
        assert_eq!(parse_env_u16(&env, "N", "1").ok(), value.parse::<u16>().ok());
        assert_eq!(parse_env_u32(&env, "N", "1").ok(), value.parse::<u32>().ok());
        assert_eq!(parse_env_u64(&env, "N", "1").ok(), value.parse::<u64>().ok());
    }
}

#[test]
fn allowlist_is_a_list_with_commas() {
    let env = environment(&[("LIST", " .broadcast , ,tele name,..,server info ")]);
    assert_eq!(
        parse_command_allowlist_env(&env, "LIST").expect("valid"),
        ["broadcast", "tele name", "server info"]
    );
    assert!(parse_command_allowlist_env(&env, "OTHER").expect("valid").is_empty());
    assert!(parse_command_allowlist_env(&environment(&[("LIST", "")]), "LIST")
        .expect("valid")
        .is_empty());
}

#[test]
fn bad_allowlist_entry_is_reported() {
    let long = "a".repeat(513);
    let value = format!("ok,b\rad,{long}");
    assert_eq!(
        fault(&with(&[("GM_TOOL_COMMAND_ALLOWLIST", &value)])),
        "invalid GM_TOOL_SINK_MODE: GM_TOOL_COMMAND_ALLOWLIST: command must be a single line without NUL bytes"
    );
    assert_eq!(
        fault(&with(&[("GM_TOOL_COMMAND_ALLOWLIST", &long)])),
        "invalid GM_TOOL_SINK_MODE: GM_TOOL_COMMAND_ALLOWLIST: command exceeds max length 512"
    );
}

#[test]
fn first_of_two_values_counts() {
    let env = environment(&[("A", "1"), ("B", ""), ("A", "2")]);
    assert_eq!(env.var("A"), Some("1".to_string()));
    assert_eq!(env.var("B"), Some(String::new()));
    assert_eq!(env.var("C"), None);
    assert_eq!(required_env(&env, "A").expect("set"), "1");
    assert_eq!(env_or_default(&env, "C", "x"), "x");
    assert!(matches!(required_env(&env, "C"), Err(ConfigError::MissingEnv("C"))));
}

#[test]
fn direct_mode_makes_a_sink() {
    let config = read(&with(&[
        ("GM_TOOL_SINK_MODE", "direct_world_http"),
        ("GM_TOOL_WORLD_BASE_URL", "http://world:90/api/"),
        ("GM_TOOL_WORLD_API_KEY", "key"),
    ]))
    .expect("complete");
    let sink = DirectWorldHttpSink::from_config(&config).expect("direct sink");
    assert_eq!(sink.host(), "world");
    assert_eq!(sink.port(), 90);
    assert_eq!(sink.timeout_seconds(), 5);
    assert_eq!(sink.endpoint_path("/healthz"), "/api/healthz");
}
