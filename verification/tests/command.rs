//! Commands: their shape, and which may be queued.
use twow_gm_tool::command::{
    authorize_raw_command, build_revive_command, build_teleport_command,
    command_matches_allowlist_entry, escape_sql_literal, normalize_allowlist_entry,
    normalize_raw_command, validate_command, validate_single_token,
};
use twow_gm_tool::AppError;

fn bad_request<T>(r: Result<T, AppError>) -> String {
    match r {
        Err(AppError::BadRequest(message)) => message,
        _ => panic!("not a bad request"),
    }
}

fn forbidden<T>(r: Result<T, AppError>) -> String {
    match r {
        Err(AppError::Forbidden(message)) => message,
        _ => panic!("not forbidden"),
    }
}

#[test]
fn raw_command_loses_dots_and_white_space() {
    assert_eq!(normalize_raw_command("  ..server info \u{3000}").expect("valid"), "server info");
    assert_eq!(normalize_raw_command(". saveall").expect("valid"), "saveall");
    assert_eq!(normalize_raw_command("a.b").expect("valid"), "a.b");
    assert_eq!(normalize_raw_command(". .a").expect("valid"), ".a");
}

#[test]
fn normalized_command_stays_as_it_is() {
    let once = normalize_raw_command(" ..broadcast hi ").expect("valid");
    assert_eq!(normalize_raw_command(&once).expect("valid"), once);
    assert_eq!(normalize_allowlist_entry(&once), once);
}

#[test]
fn command_must_not_be_empty() {
    assert_eq!(bad_request(normalize_raw_command(" ... ")), "command must not be empty");
    assert_eq!(bad_request(validate_command("")), "command must not be empty");
}

#[test]
fn command_length_counts_bytes() {
    assert!(validate_command(&"a".repeat(512)).is_ok());
    assert_eq!(
        bad_request(validate_command(&"a".repeat(513))),
        "command exceeds max length 512"
    );
    assert!(validate_command(&"\u{e9}".repeat(256)).is_ok());
    assert_eq!(
        bad_request(validate_command(&"\u{e9}".repeat(257))),
        "command exceeds max length 512"
    );
}

#[test]
fn command_must_be_one_line() {
    for command in ["a\0b", "a\nb", "a\rb"] {
        assert_eq!(
            bad_request(validate_command(command)),
            "command must be a single line without NUL bytes"
        );
    }
    assert!(validate_command("a\tb").is_ok());
}

#[test]
fn first_fault_of_a_command_is_reported() {
    let long = format!("{}\n", "a".repeat(512));
    assert_eq!(bad_request(validate_command(&long)), "command exceeds max length 512");
}

#[test]
fn structured_commands() {
    assert_eq!(build_revive_command(" Qianfuren\n").expect("valid"), "revive Qianfuren");
    assert_eq!(
        build_teleport_command("Qianfuren", "stormwind ").expect("valid"),
        "tele name Qianfuren stormwind"
    );
}

#[test]
fn tokens_are_single_words_without_quotes() {
    assert_eq!(bad_request(build_revive_command(" \t")), "character must not be empty");
    assert_eq!(bad_request(build_revive_command("a b")), "character must be a single token");
    assert_eq!(
        bad_request(build_revive_command("a\u{a0}b")),
        "character must be a single token"
    );
    assert_eq!(
        bad_request(build_revive_command("O'Neil")),
        "character contains unsupported characters"
    );
    assert_eq!(
        bad_request(build_teleport_command("a", "\"b\"")),
        "teleport contains unsupported characters"
    );
    assert_eq!(bad_request(build_teleport_command("", "")), "character must not be empty");
    assert_eq!(bad_request(build_teleport_command("a", "")), "teleport must not be empty");
    assert_eq!(bad_request(validate_single_token("field", "a\nb")), "field must be a single token");
    assert_eq!(validate_single_token("field", " \u{e9} ").expect("valid"), "\u{e9}");
}

#[test]
fn entries_cover_whole_words() {
    assert!(command_matches_allowlist_entry("tele name", "tele name"));
    assert!(command_matches_allowlist_entry("tele name Qianfuren", "tele name"));
    assert!(command_matches_allowlist_entry("tele\u{2003}name", "tele"));
    assert!(!command_matches_allowlist_entry("telephone", "tele"));
    assert!(!command_matches_allowlist_entry("tel", "tele"));
    assert!(!command_matches_allowlist_entry("Tele name", "tele"));
    assert!(command_matches_allowlist_entry(" x", ""));
    assert!(!command_matches_allowlist_entry("x", ""));
}

#[test]
fn allowlist_grants_raw_commands() {
    let allowlist = vec!["broadcast".to_string(), "server info".to_string()];
    assert!(authorize_raw_command(&allowlist, "server info").is_ok());
    assert!(authorize_raw_command(&allowlist, "broadcast hello").is_ok());
    assert_eq!(
        forbidden(authorize_raw_command(&allowlist, "server")),
        "raw gm command is not allowlisted: server"
    );
    let mut more = allowlist.clone();
    more.push("server".to_string());
    assert!(authorize_raw_command(&more, "server info").is_ok());
    assert!(authorize_raw_command(&more, "server").is_ok());
}

#[test]
fn empty_allowlist_grants_nothing() {
    assert_eq!(
        forbidden(authorize_raw_command(&[], "broadcast hello")),
        "raw gm commands are disabled because GM_TOOL_COMMAND_ALLOWLIST is empty"
    );
}

#[test]
fn sql_literals_double_quotes() {
    assert_eq!(escape_sql_literal("it's ''fine''").expect("valid"), "it''s ''''fine''''");
    assert_eq!(escape_sql_literal("").expect("valid"), "");
    assert_eq!(escape_sql_literal("a\\b").expect("valid"), "a\\b");
    assert_eq!(bad_request(escape_sql_literal("a\0")), "command must not contain NUL bytes");
}
