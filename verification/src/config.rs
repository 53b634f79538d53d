//! The configuration, read from environment variables.
use vstd::prelude::*;

use crate::command;
use crate::error::Failure;
use crate::text;

verus! {

pub const DEFAULT_BIND_ADDR: &'static str = "0.0.0.0:8080";

pub const DEFAULT_REALM_ID_STR: &'static str = "1";

pub const DEFAULT_SINK_MODE: &'static str = "pending_commands";

pub const DEFAULT_WORLD_TIMEOUT_SECONDS_STR: &'static str = "5";

/// Environment variables, by name and value. Where a name occurs twice, the first
/// counts.
#[derive(Debug)]
pub struct Environment {
    pub entries: Vec<(String, String)>,
}

/// The model of an [`Environment`].
pub type Variables = Seq<(Seq<char>, Seq<char>)>;

impl View for Environment {
    type V = Variables;

    open spec fn view(&self) -> Variables {
        self.entries.deep_view()
    }
}

/// The value of the variable `key`, if it is set.
pub open spec fn value_of(variables: Variables, key: Seq<char>) -> Option<Seq<char>>
    decreases variables.len(),
{
    if variables.len() == 0 {
        None
    } else if variables[0].0 == key {
        Some(variables[0].1)
    } else {
        value_of(variables.drop_first(), key)
    }
}

/// Where commands are sent.
#[derive(Debug, Clone, Copy, PartialEq, Eq, Structural)]
pub enum SinkMode {
    PendingCommands,
    DirectWorldHttp,
}

/// What is wrong with the configuration.
#[derive(Debug)]
pub enum ConfigError {
    MissingEnv(&'static str),
    InvalidBindAddr(String),
    InvalidSinkMode(String),
    InvalidInteger { key: &'static str, value: String },
}

/// The model of a [`ConfigError`].
pub enum ConfigFault {
    MissingEnv(Seq<char>),
    InvalidBindAddr(Seq<char>),
    InvalidSinkMode(Seq<char>),
    InvalidInteger { key: Seq<char>, value: Seq<char> },
}

impl View for ConfigError {
    type V = ConfigFault;

    open spec fn view(&self) -> ConfigFault {
        match self {
            ConfigError::MissingEnv(key) => ConfigFault::MissingEnv(key@),
            ConfigError::InvalidBindAddr(value) => ConfigFault::InvalidBindAddr(value@),
            ConfigError::InvalidSinkMode(value) => ConfigFault::InvalidSinkMode(value@),
            ConfigError::InvalidInteger { key, value } => ConfigFault::InvalidInteger {
                key: key@,
                value: value@,
            },
        }
    }
}

impl ConfigFault {
    /// The text that describes the fault.
    pub open spec fn message(self) -> Seq<char> {
        match self {
            ConfigFault::MissingEnv(key) => "missing required environment variable: "@ + key,
            ConfigFault::InvalidBindAddr(value) => {
                "invalid socket address in GM_TOOL_BIND_ADDR: "@ + value
            },
            ConfigFault::InvalidSinkMode(value) => "invalid GM_TOOL_SINK_MODE: "@ + value,
            ConfigFault::InvalidInteger { key, value } => {
                "invalid integer in "@ + key + ": "@ + value
            },
        }
    }
}

impl ConfigError {
    /// The text that describes the fault.
    pub fn message(&self) -> (r: String)
        ensures
            r@ == self@.message(),
    {
        match self {
            ConfigError::MissingEnv(key) => {
                let mut message = "missing required environment variable: ".to_owned();
                message.append(key);
                message
            },
            ConfigError::InvalidBindAddr(value) => {
                let mut message = "invalid socket address in GM_TOOL_BIND_ADDR: ".to_owned();
                message.append(value.as_str());
                message
            },
            ConfigError::InvalidSinkMode(value) => {
                let mut message = "invalid GM_TOOL_SINK_MODE: ".to_owned();
                message.append(value.as_str());
                message
            },
            ConfigError::InvalidInteger { key, value } => {
                let mut message = "invalid integer in ".to_owned();
                message.append(key);
                message.append(": ");
                message.append(value.as_str());
                message
            },
        }
    }
}

/// A result, with its value and its error taken by their models.
pub open spec fn outcome<T: DeepView>(r: Result<T, ConfigError>) -> Result<T::V, ConfigFault> {
    match r {
        Ok(value) => Ok(value.deep_view()),
        Err(error) => Err(error@),
    }
}

/// The value of a variable that must be set.
pub open spec fn required(variables: Variables, key: Seq<char>) -> Result<Seq<char>, ConfigFault> {
    match value_of(variables, key) {
        Some(value) => Ok(value),
        None => Err(ConfigFault::MissingEnv(key)),
    }
}

/// The value of a variable, or `default` where it is not set.
pub open spec fn value_or(variables: Variables, key: Seq<char>, default: Seq<char>) -> Seq<char> {
    match value_of(variables, key) {
        Some(value) => value,
        None => default,
    }
}

/// The number of at most `max` that a variable holds.
pub open spec fn integer(
    variables: Variables,
    key: Seq<char>,
    default: Seq<char>,
    max: nat,
) -> Result<nat, ConfigFault> {
    let value = value_or(variables, key, default);
    match text::unsigned(value, max) {
        Some(n) => Ok(n),
        None => Err(ConfigFault::InvalidInteger { key, value }),
    }
}

/// The sink mode that a variable names.
pub open spec fn sink_mode(variables: Variables, key: Seq<char>, default: Seq<char>) -> Result<
    SinkMode,
    ConfigFault,
> {
    let value = value_or(variables, key, default);
    if value == "pending_commands"@ {
        Ok(SinkMode::PendingCommands)
    } else if value == "direct_world_http"@ {
        Ok(SinkMode::DirectWorldHttp)
    } else {
        Err(ConfigFault::InvalidSinkMode(value))
    }
}

/// The allowlist entries among the pieces of a list: the pieces that normalize to
/// something, which must all be valid commands. The failure is that of the first
/// that is not.
pub open spec fn entries(pieces: Seq<Seq<char>>) -> Result<Seq<Seq<char>>, Failure>
    decreases pieces.len(),
{
    if pieces.len() == 0 {
        Ok(Seq::empty())
    } else {
        let entry = command::normalized(pieces.last());
        match entries(pieces.drop_last()) {
            Err(failure) => Err(failure),
            Ok(before) => {
                if entry.len() == 0 {
                    Ok(before)
                } else {
                    match command::command_fault(entry) {
                        Some(failure) => Err(failure),
                        None => Ok(before.push(entry)),
                    }
                }
            },
        }
    }
}

/// The allowlist that a variable holds: a list with commas between the entries,
/// empty where the variable is not set.
pub open spec fn allowlist(variables: Variables, key: Seq<char>) -> Result<
    Seq<Seq<char>>,
    ConfigFault,
> {
    match value_of(variables, key) {
        None => Ok(Seq::empty()),
        Some(value) => match entries(text::pieces(value, ',')) {
            Ok(entries) => Ok(entries),
            Err(failure) => Err(
                ConfigFault::InvalidSinkMode(key + ": "@ + failure.message()),
            ),
        },
    }
}

/// What the world server's variables hold: they may be missing unless commands are
/// sent to it.
pub open spec fn world_value(variables: Variables, key: Seq<char>, mode: SinkMode) -> Result<
    Option<Seq<char>>,
    ConfigFault,
> {
    match mode {
        SinkMode::PendingCommands => Ok(value_of(variables, key)),
        SinkMode::DirectWorldHttp => match required(variables, key) {
            Ok(value) => Ok(Some(value)),
            Err(fault) => Err(fault),
        },
    }
}

/// What is wrong with a value, if anything is.
pub open spec fn fault<T>(r: Result<T, ConfigFault>) -> Option<ConfigFault> {
    match r {
        Ok(_) => None,
        Err(fault) => Some(fault),
    }
}

/// The configuration of the service. The address to listen on is held as the caller
/// reads it.
#[derive(Debug, Clone)]
pub struct Config<A> {
    pub bind_addr: A,
    pub sink_mode: SinkMode,
    pub command_allowlist: Vec<String>,
    pub jws_secret: String,
    pub jws_issuer: String,
    pub jws_audience: String,
    pub db_host: String,
    pub db_port: u16,
    pub db_user: String,
    pub db_password: String,
    pub logon_db: String,
    pub default_realm_id: u32,
    pub world_base_url: Option<String>,
    pub world_api_key: Option<String>,
    pub world_timeout_seconds: u64,
}

/// What can be wrong with the variables, in the order in which it is reported.
/// `bind_addr` tells whether the address to listen on can be read.
pub open spec fn config_faults(variables: Variables, bind_addr: bool) -> Seq<Option<ConfigFault>> {
    let mode = sink_mode(variables, "GM_TOOL_SINK_MODE"@, DEFAULT_SINK_MODE@);
    seq![
        if bind_addr {
            None
        } else {
            Some(
                ConfigFault::InvalidBindAddr(
                    value_or(variables, "GM_TOOL_BIND_ADDR"@, DEFAULT_BIND_ADDR@),
                ),
            )
        },
        fault(mode),
        fault(allowlist(variables, "GM_TOOL_COMMAND_ALLOWLIST"@)),
        fault(required(variables, "GM_TOOL_JWS_SECRET"@)),
        fault(required(variables, "GM_TOOL_JWS_ISSUER"@)),
        fault(required(variables, "GM_TOOL_JWS_AUDIENCE"@)),
        fault(required(variables, "TWOW_DB_HOST"@)),
        fault(integer(variables, "TWOW_DB_PORT"@, "3306"@, u16::MAX as nat)),
        fault(required(variables, "TWOW_DB_USER"@)),
        fault(required(variables, "TWOW_DB_PASSWORD"@)),
        fault(required(variables, "TWOW_LOGON_DB"@)),
        fault(
            integer(
                variables,
                "GM_TOOL_DEFAULT_REALM_ID"@,
                DEFAULT_REALM_ID_STR@,
                u32::MAX as nat,
            ),
        ),
        fault(
            integer(
                variables,
                "GM_TOOL_WORLD_TIMEOUT_SECONDS"@,
                DEFAULT_WORLD_TIMEOUT_SECONDS_STR@,
                u64::MAX as nat,
            ),
        ),
        fault(world_value(variables, "GM_TOOL_WORLD_BASE_URL"@, mode->Ok_0)),
        fault(world_value(variables, "GM_TOOL_WORLD_API_KEY"@, mode->Ok_0)),
    ]
}

/// Whether `found` is the first fault among `faults`.
pub open spec fn is_first_fault(faults: Seq<Option<ConfigFault>>, found: ConfigFault) -> bool {
    exists|i: int|
        0 <= i < faults.len() && #[trigger] faults[i] == Some(found) && forall|j: int|
            0 <= j < i ==> (#[trigger] faults[j]) is None
}

/// Whether `config` holds what the variables say.
pub open spec fn describes<A>(config: Config<A>, variables: Variables) -> bool {
    &&& sink_mode(variables, "GM_TOOL_SINK_MODE"@, DEFAULT_SINK_MODE@) == Ok::<_, ConfigFault>(
        config.sink_mode,
    )
    &&& allowlist(variables, "GM_TOOL_COMMAND_ALLOWLIST"@) == Ok::<_, ConfigFault>(
        config.command_allowlist.deep_view(),
    )
    &&& value_of(variables, "GM_TOOL_JWS_SECRET"@) == Some(config.jws_secret@)
    &&& value_of(variables, "GM_TOOL_JWS_ISSUER"@) == Some(config.jws_issuer@)
    &&& value_of(variables, "GM_TOOL_JWS_AUDIENCE"@) == Some(config.jws_audience@)
    &&& value_of(variables, "TWOW_DB_HOST"@) == Some(config.db_host@)
    &&& integer(variables, "TWOW_DB_PORT"@, "3306"@, u16::MAX as nat) == Ok::<_, ConfigFault>(
        config.db_port as nat,
    )
    &&& value_of(variables, "TWOW_DB_USER"@) == Some(config.db_user@)
    &&& value_of(variables, "TWOW_DB_PASSWORD"@) == Some(config.db_password@)
    &&& value_of(variables, "TWOW_LOGON_DB"@) == Some(config.logon_db@)
    &&& integer(
        variables,
        "GM_TOOL_DEFAULT_REALM_ID"@,
        DEFAULT_REALM_ID_STR@,
        u32::MAX as nat,
    ) == Ok::<_, ConfigFault>(config.default_realm_id as nat)
    &&& integer(
        variables,
        "GM_TOOL_WORLD_TIMEOUT_SECONDS"@,
        DEFAULT_WORLD_TIMEOUT_SECONDS_STR@,
        u64::MAX as nat,
    ) == Ok::<_, ConfigFault>(config.world_timeout_seconds as nat)
    &&& world_value(variables, "GM_TOOL_WORLD_BASE_URL"@, config.sink_mode) == Ok::<_, ConfigFault>(
        config.world_base_url.deep_view(),
    )
    &&& world_value(variables, "GM_TOOL_WORLD_API_KEY"@, config.sink_mode) == Ok::<_, ConfigFault>(
        config.world_api_key.deep_view(),
    )
}

impl Environment {
    /// The value of the variable `key`, if it is set.
    pub fn var(&self, key: &str) -> (r: Option<String>)
        ensures
            r.deep_view() == value_of(self@, key@),
    {
        let ghost all = self@;
        let mut i: usize = 0;
        assert(all.skip(0) == all);
        while i < self.entries.len()
            invariant
                all == self.entries.deep_view(),
                i <= self.entries.len(),
                value_of(all, key@) == value_of(all.skip(i as int), key@),
            decreases self.entries.len() - i,
        {
            assert(all[i as int] == self.entries[i as int].deep_view());
            assert(all.skip(i as int).drop_first() == all.skip(i + 1));
            if text::same(self.entries[i].0.as_str(), key) {
                return Some(self.entries[i].1.clone());
            }
            i = i + 1;
        }
        None
    }
}

/// The value of a variable that must be set.
pub fn required_env(env: &Environment, key: &'static str) -> (r: Result<String, ConfigError>)
    ensures
        outcome(r) == required(env@, key@),
{
    match env.var(key) {
        Some(value) => Ok(value),
        None => Err(ConfigError::MissingEnv(key)),
    }
}

/// The value of a variable, or `default` where it is not set.
pub fn env_or_default(env: &Environment, key: &'static str, default: &'static str) -> (r: String)
    ensures
        r@ == value_or(env@, key@, default@),
{
    match env.var(key) {
        Some(value) => value,
        None => default.to_owned(),
    }
}

/// The number of at most `max` that a variable holds.
fn parse_env_unsigned(
    env: &Environment,
    key: &'static str,
    default: &'static str,
    max: u64,
) -> (r: Result<u64, ConfigError>)
    ensures
        match r {
            Ok(n) => integer(env@, key@, default@, max as nat) == Ok::<_, ConfigFault>(n as nat),
            Err(e) => integer(env@, key@, default@, max as nat) == Err::<nat, _>(e@),
        },
        r matches Ok(n) ==> n <= max,
{
    let value = env_or_default(env, key, default);
    match text::parse_unsigned(value.as_str(), max) {
        Some(n) => Ok(n),
        None => Err(ConfigError::InvalidInteger { key, value }),
    }
}

/// The 16-bit number that a variable holds.
pub fn parse_env_u16(env: &Environment, key: &'static str, default: &'static str) -> (r: Result<
    u16,
    ConfigError,
>)
    ensures
        match r {
            Ok(n) => integer(env@, key@, default@, u16::MAX as nat) == Ok::<_, ConfigFault>(
                n as nat,
            ),
            Err(e) => integer(env@, key@, default@, u16::MAX as nat) == Err::<nat, _>(e@),
        },
{
    match parse_env_unsigned(env, key, default, u16::MAX as u64) {
        Ok(n) => Ok(n as u16),
        Err(error) => Err(error),
    }
}

/// The 32-bit number that a variable holds.
pub fn parse_env_u32(env: &Environment, key: &'static str, default: &'static str) -> (r: Result<
    u32,
    ConfigError,
>)
    ensures
        match r {
            Ok(n) => integer(env@, key@, default@, u32::MAX as nat) == Ok::<_, ConfigFault>(
                n as nat,
            ),
            Err(e) => integer(env@, key@, default@, u32::MAX as nat) == Err::<nat, _>(e@),
        },
{
    match parse_env_unsigned(env, key, default, u32::MAX as u64) {
        Ok(n) => Ok(n as u32),
        Err(error) => Err(error),
    }
}

/// The 64-bit number that a variable holds.
pub fn parse_env_u64(env: &Environment, key: &'static str, default: &'static str) -> (r: Result<
    u64,
    ConfigError,
>)
    ensures
        match r {
            Ok(n) => integer(env@, key@, default@, u64::MAX as nat) == Ok::<_, ConfigFault>(
                n as nat,
            ),
            Err(e) => integer(env@, key@, default@, u64::MAX as nat) == Err::<nat, _>(e@),
        },
{
    parse_env_unsigned(env, key, default, u64::MAX)
}

/// The sink mode that a variable names.
pub fn parse_sink_mode(env: &Environment, key: &'static str, default: &'static str) -> (r: Result<
    SinkMode,
    ConfigError,
>)
    ensures
        match r {
            Ok(mode) => sink_mode(env@, key@, default@) == Ok::<_, ConfigFault>(mode),
            Err(e) => sink_mode(env@, key@, default@) == Err::<SinkMode, _>(e@),
        },
{
    let value = env_or_default(env, key, default);
    if text::same(value.as_str(), "pending_commands") {
        Ok(SinkMode::PendingCommands)
    } else if text::same(value.as_str(), "direct_world_http") {
        Ok(SinkMode::DirectWorldHttp)
    } else {
        Err(ConfigError::InvalidSinkMode(value))
    }
}

/// The allowlist that a variable holds.
pub fn parse_command_allowlist_env(env: &Environment, key: &'static str) -> (r: Result<
    Vec<String>,
    ConfigError,
>)
    ensures
        outcome(r) == allowlist(env@, key@),
{
    let raw_value = match env.var(key) {
        None => {
            let none: Vec<String> = Vec::new();
            assert(none.deep_view() == Seq::<Seq<char>>::empty());
            return Ok(none);
        },
        Some(raw_value) => raw_value,
    };
    let parts = text::split(raw_value.as_str(), ',');
    let ghost pieces = text::pieces(raw_value@, ',');
    let mut list: Vec<String> = Vec::new();
    let mut i: usize = 0;
    assert(list.deep_view() == Seq::<Seq<char>>::empty());
    while i < parts.len()
        invariant
            value_of(env@, key@) == Some(raw_value@),
            pieces == text::pieces(raw_value@, ','),
            pieces == parts.deep_view(),
            i <= parts.len(),
            entries(pieces.take(i as int)) == Ok::<_, Failure>(list.deep_view()),
        decreases parts.len() - i,
    {
        assert(pieces[i as int] == parts[i as int]@);
        assert(pieces.take(i + 1).drop_last() == pieces.take(i as int));
        let entry = command::normalize_allowlist_entry(parts[i].as_str());
        if !entry.as_str().is_empty() {
            match command::validate_command(entry.as_str()) {
                Ok(()) => {
                    let ghost before = list.deep_view();
                    let ghost added = entry@;
                    list.push(entry);
                    assert(list.deep_view() == before.push(added));
                },
                Err(error) => {
                    proof {
                        lemma_entries_stop(pieces, i + 1);
                    }
                    let mut message = key.to_owned();
                    message.append(": ");
                    message.append(error.message().as_str());
                    return Err(ConfigError::InvalidSinkMode(message));
                },
            }
        }
        i = i + 1;
    }
    assert(pieces.take(pieces.len() as int) == pieces);
    Ok(list)
}

/// A bad piece decides for the whole list.
proof fn lemma_entries_stop(pieces: Seq<Seq<char>>, n: int)
    requires
        0 <= n <= pieces.len(),
        entries(pieces.take(n)) is Err,
    ensures
        entries(pieces) == entries(pieces.take(n)),
    decreases pieces.len(),
{
    if n == pieces.len() {
        assert(pieces.take(n) == pieces);
    } else {
        assert(pieces.drop_last().take(n) == pieces.take(n));
        lemma_entries_stop(pieces.drop_last(), n);
    }
}

/// What a variable of the world server holds.
fn world_env(env: &Environment, key: &'static str, mode: SinkMode) -> (r: Result<
    Option<String>,
    ConfigError,
>)
    ensures
        outcome(r) == world_value(env@, key@, mode),
{
    match mode {
        SinkMode::PendingCommands => Ok(env.var(key)),
        SinkMode::DirectWorldHttp => match required_env(env, key) {
            Ok(value) => Ok(Some(value)),
            Err(error) => Err(error),
        },
    }
}

/// The text of the address to listen on.
pub fn bind_addr_text(env: &Environment) -> (r: String)
    ensures
        r@ == value_or(env@, "GM_TOOL_BIND_ADDR"@, DEFAULT_BIND_ADDR@),
{
    env_or_default(env, "GM_TOOL_BIND_ADDR", DEFAULT_BIND_ADDR)
}

impl<A> Config<A> {
    /// The configuration that the variables describe, or the first fault in them.
    /// `bind_addr` is what [`bind_addr_text`] reads as, `None` where it is no socket
    /// address.
    pub fn from_env(env: &Environment, bind_addr: Option<A>) -> (r: Result<Self, ConfigError>)
        ensures
            r is Ok <==> (forall|i: int|
                0 <= i < 15 ==> (#[trigger] config_faults(env@, bind_addr is Some)[i]) is None),
            r matches Ok(config) ==> bind_addr == Some(config.bind_addr) && describes(config, env@),
            r matches Err(e) ==> is_first_fault(config_faults(env@, bind_addr is Some), e@),
    {
        let ghost faults = config_faults(env@, bind_addr is Some);
        assert(faults.len() == 15);
        let bind_addr = match bind_addr {
            Some(bind_addr) => bind_addr,
            None => {
                assert(faults[0] is Some);
                return Err(ConfigError::InvalidBindAddr(bind_addr_text(env)));
            },
        };
        let sink_mode = parse_sink_mode(env, "GM_TOOL_SINK_MODE", DEFAULT_SINK_MODE)?;
        let command_allowlist = parse_command_allowlist_env(env, "GM_TOOL_COMMAND_ALLOWLIST")?;
        let jws_secret = required_env(env, "GM_TOOL_JWS_SECRET")?;
        let jws_issuer = required_env(env, "GM_TOOL_JWS_ISSUER")?;
        let jws_audience = required_env(env, "GM_TOOL_JWS_AUDIENCE")?;
        let db_host = required_env(env, "TWOW_DB_HOST")?;
        let db_port: u16 = parse_env_u16(env, "TWOW_DB_PORT", "3306")?;
        let db_user = required_env(env, "TWOW_DB_USER")?;
        let db_password = required_env(env, "TWOW_DB_PASSWORD")?;
        let logon_db = required_env(env, "TWOW_LOGON_DB")?;
        let default_realm_id: u32 = parse_env_u32(env, "GM_TOOL_DEFAULT_REALM_ID", DEFAULT_REALM_ID_STR)?;
        let world_timeout_seconds: u64 = parse_env_u64(
            env,
            "GM_TOOL_WORLD_TIMEOUT_SECONDS",
            DEFAULT_WORLD_TIMEOUT_SECONDS_STR,
        )?;
        let world_base_url = world_env(env, "GM_TOOL_WORLD_BASE_URL", sink_mode)?;
        let world_api_key = world_env(env, "GM_TOOL_WORLD_API_KEY", sink_mode)?;
        Ok(
            Config {
                bind_addr,
                sink_mode,
                command_allowlist,
                jws_secret,
                jws_issuer,
                jws_audience,
                db_host,
                db_port,
                db_user,
                db_password,
                logon_db,
                default_realm_id,
                world_base_url,
                world_api_key,
                world_timeout_seconds,
            },
        )
    }
}

} // verus!
