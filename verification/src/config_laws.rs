//! What the configuration holds, told by the environment variables, and which
//! environments are taken.
use vstd::prelude::*;

use crate::command;
use crate::command_laws;
use crate::config;
use crate::config::ConfigFault;
use crate::config::SinkMode;
use crate::config::Variables;
use crate::error::Failure;
use crate::laws;
use crate::text;
use crate::text_laws;

verus! {

/// A variable has the value of its first entry, and none without an entry.
pub proof fn law_first_entries_count(
    before: Variables,
    key: Seq<char>,
    value: Seq<char>,
    after: Variables,
)
    requires
        forall|i: int| 0 <= i < before.len() ==> (#[trigger] before[i]).0 != key,
    ensures
        config::value_of(before + seq![(key, value)] + after, key) == Some(value),
        config::value_of(before, key) is None,
    decreases before.len(),
{
    let all = before + seq![(key, value)] + after;
    if before.len() == 0 {
        assert(all[0] == (key, value));
    } else {
        let rest = before.drop_first();
        assert forall|i: int| 0 <= i < rest.len() implies (#[trigger] rest[i]).0 != key by {
            assert(rest[i] == before[i + 1]);
        }
        assert(all[0] == before[0]);
        assert(all.drop_first() == rest + seq![(key, value)] + after);
        law_first_entries_count(rest, key, value, after);
    }
}

/// A required variable has its value, and is missed where it is not set; another has
/// its value, or the default.
pub proof fn law_values_and_defaults(variables: Variables, key: Seq<char>, default: Seq<char>)
    ensures
        match config::value_of(variables, key) {
            Some(value) => {
                &&& config::required(variables, key) == Ok::<_, ConfigFault>(value)
                &&& config::value_or(variables, key, default) == value
            },
            None => {
                &&& config::required(variables, key) == Err::<Seq<char>, _>(
                    ConfigFault::MissingEnv(key),
                )
                &&& config::value_or(variables, key, default) == default
            },
        },
{
}

/// A number is read from the value of its variable, or from the default: every numeral
/// in range is taken, and anything else is reported with the variable and the value.
pub proof fn law_numbers_are_read(
    variables: Variables,
    key: Seq<char>,
    default: Seq<char>,
    max: nat,
    plus: bool,
    zeros: nat,
    n: nat,
)
    ensures
        ({
            let value = match config::value_of(variables, key) {
                Some(value) => value,
                None => default,
            };
            let r = config::integer(variables, key, default, max);
            &&& value == text_laws::numeral(plus, zeros, n) && n <= max ==> r == Ok::<
                _,
                ConfigFault,
            >(n)
            &&& value == text_laws::numeral(plus, zeros, n) && n > max ==> r is Err
            &&& r is Ok <==> text::unsigned(value, max) is Some
            &&& r is Err ==> r == Err::<nat, _>(ConfigFault::InvalidInteger { key, value })
        }),
{
    text_laws::law_numerals_read_as_numbers(plus, zeros, n, max);
}

/// The sink mode is one of two by name, and nothing else is one.
pub proof fn law_sink_modes(variables: Variables, key: Seq<char>, default: Seq<char>)
    ensures
        ({
            let value = match config::value_of(variables, key) {
                Some(value) => value,
                None => default,
            };
            let r = config::sink_mode(variables, key, default);
            &&& r == Ok::<_, ConfigFault>(SinkMode::PendingCommands) <==> value
                == "pending_commands"@
            &&& r == Ok::<_, ConfigFault>(SinkMode::DirectWorldHttp) <==> value
                == "direct_world_http"@
            &&& r is Err ==> r == Err::<SinkMode, _>(ConfigFault::InvalidSinkMode(value))
        }),
{
    reveal_strlit("pending_commands");
    reveal_strlit("direct_world_http");
    assert("pending_commands"@.len() != "direct_world_http"@.len());
}

/// The entries of two lists together are those of the first, then those of the second;
/// a fault in the first list is the fault of both.
pub proof fn law_entries_follow_the_list(first: Seq<Seq<char>>, second: Seq<Seq<char>>)
    ensures
        config::entries(first + second) == match (config::entries(first), config::entries(second)) {
            (Err(failure), _) => Err(failure),
            (Ok(_), Err(failure)) => Err(failure),
            (Ok(a), Ok(b)) => Ok::<_, Failure>(a + b),
        },
    decreases second.len(),
{
    let all = first + second;
    if second.len() == 0 {
        assert(all == first);
        if config::entries(first) is Ok {
            assert(config::entries(first)->Ok_0 + Seq::<Seq<char>>::empty() == config::entries(
                first,
            )->Ok_0);
        }
    } else {
        let shorter = second.drop_last();
        law_entries_follow_the_list(first, shorter);
        assert(all.drop_last() == first + shorter);
        assert(all.last() == second.last());
        if config::entries(first) is Ok && config::entries(second) is Ok {
            let a = config::entries(first)->Ok_0;
            let b = config::entries(shorter)->Ok_0;
            let entry = command::normalized(second.last());
            assert((a + b).push(entry) == a + b.push(entry));
        }
    }
}

/// One piece of an allowlist gives the command that is left of it, where that can be
/// queued; nothing, where nothing is left; and otherwise a fault.
pub proof fn law_pieces_give_entries(
    before: Seq<char>,
    dots: nat,
    between: Seq<char>,
    command: Seq<char>,
    after: Seq<char>,
)
    requires
        command_laws::is_dress(before, dots, between, command, after),
    ensures
        ({
            let piece = command_laws::dressed(before, dots, between, command, after);
            let r = config::entries(seq![piece]);
            &&& command.len() == 0 ==> r == Ok::<_, Failure>(Seq::<Seq<char>>::empty())
            &&& command_laws::is_queueable(command) ==> r == Ok::<_, Failure>(seq![command])
            &&& command.len() > 0 && !command_laws::is_queueable(command) ==> r is Err && Some(
                r->Err_0,
            ) == command::command_fault(command)
        }),
{
    let piece = command_laws::dressed(before, dots, between, command, after);
    let none = Seq::<Seq<char>>::empty();
    command_laws::law_normalizing_undresses(before, dots, between, command, after);
    command_laws::law_faults_are_what_keeps_a_command_back(command);
    assert(seq![piece].drop_last() == none);
    assert(seq![piece].last() == piece);
    reveal_with_fuel(config::entries, 2);
    assert(none.push(command) == seq![command]);
}

/// An allowlist is the entries of the parts between the commas of its variable, and
/// empty where that is not set; a fault is reported with the variable.
pub proof fn law_allowlists_are_lists_with_commas(
    variables: Variables,
    key: Seq<char>,
    parts: Seq<Seq<char>>,
)
    requires
        parts.len() > 0,
        forall|i: int| 0 <= i < parts.len() ==> !(#[trigger] parts[i]).contains(','),
    ensures
        config::value_of(variables, key) is None ==> config::allowlist(variables, key) == Ok::<
            _,
            ConfigFault,
        >(Seq::<Seq<char>>::empty()),
        config::value_of(variables, key) == Some(laws::joined(parts, ',')) ==> config::allowlist(
            variables,
            key,
        ) == match config::entries(parts) {
            Ok(entries) => Ok(entries),
            Err(failure) => Err(
                ConfigFault::InvalidSinkMode(key + ": "@ + failure.message()),
            ),
        },
{
    text_laws::law_joined_parts_are_the_pieces(parts, ',');
}

/// Whether an environment has all that a configuration needs, where `bind_addr` tells
/// whether the address to listen on can be read.
pub open spec fn is_complete(variables: Variables, bind_addr: bool) -> bool {
    let mode = config::sink_mode(variables, "GM_TOOL_SINK_MODE"@, "pending_commands"@);
    &&& bind_addr
    &&& mode is Ok
    &&& config::allowlist(variables, "GM_TOOL_COMMAND_ALLOWLIST"@) is Ok
    &&& config::value_of(variables, "GM_TOOL_JWS_SECRET"@) is Some
    &&& config::value_of(variables, "GM_TOOL_JWS_ISSUER"@) is Some
    &&& config::value_of(variables, "GM_TOOL_JWS_AUDIENCE"@) is Some
    &&& config::value_of(variables, "TWOW_DB_HOST"@) is Some
    &&& config::value_of(variables, "TWOW_DB_USER"@) is Some
    &&& config::value_of(variables, "TWOW_DB_PASSWORD"@) is Some
    &&& config::value_of(variables, "TWOW_LOGON_DB"@) is Some
    &&& config::integer(variables, "TWOW_DB_PORT"@, "3306"@, 65535) is Ok
    &&& config::integer(variables, "GM_TOOL_DEFAULT_REALM_ID"@, "1"@, 0xffff_ffff) is Ok
    &&& config::integer(
        variables,
        "GM_TOOL_WORLD_TIMEOUT_SECONDS"@,
        "5"@,
        0xffff_ffff_ffff_ffff,
    ) is Ok
    &&& mode == Ok::<_, ConfigFault>(SinkMode::DirectWorldHttp) ==> {
        &&& config::value_of(variables, "GM_TOOL_WORLD_BASE_URL"@) is Some
        &&& config::value_of(variables, "GM_TOOL_WORLD_API_KEY"@) is Some
    }
}

/// Every complete environment is taken, and no other.
pub proof fn law_complete_environments_are_taken(variables: Variables, bind_addr: bool)
    ensures
        (forall|i: int|
            0 <= i < 15 ==> (#[trigger] config::config_faults(variables, bind_addr)[i]) is None)
            <==> is_complete(variables, bind_addr),
{
    let faults = config::config_faults(variables, bind_addr);
    assert(faults.len() == 15);
    if forall|i: int| 0 <= i < 15 ==> (#[trigger] faults[i]) is None {
        assert(faults[0] is None && faults[1] is None && faults[2] is None && faults[3] is None);
        assert(faults[4] is None && faults[5] is None && faults[6] is None && faults[7] is None);
        assert(faults[8] is None && faults[9] is None && faults[10] is None && faults[11] is None);
        assert(faults[12] is None && faults[13] is None && faults[14] is None);
    }
    if is_complete(variables, bind_addr) {
        assert forall|i: int| 0 <= i < 15 implies (#[trigger] faults[i]) is None by {
            assert(i == 0 || i == 1 || i == 2 || i == 3 || i == 4 || i == 5 || i == 6 || i == 7
                || i == 8 || i == 9 || i == 10 || i == 11 || i == 12 || i == 13 || i == 14);
        }
    }
}

/// Whether `value` is what a variable holds.
pub open spec fn holds(variables: Variables, key: Seq<char>, value: Seq<char>) -> bool {
    config::value_of(variables, key) == Some(value)
}

/// Whether `n` is the number in a variable, or `default` where it is not set.
pub open spec fn holds_number(variables: Variables, key: Seq<char>, default: nat, n: nat) -> bool {
    match config::value_of(variables, key) {
        Some(value) => text::unsigned(value, n) == Some(n),
        None => n == default,
    }
}

/// A configuration that was read holds each variable's value where it belongs: texts as
/// they are, numbers as they read, and defaults for what is not set.
pub proof fn law_configurations_hold_the_variables<A>(
    config: config::Config<A>,
    variables: Variables,
)
    requires
        config::describes(config, variables),
    ensures
        holds(variables, "GM_TOOL_JWS_SECRET"@, config.jws_secret@),
        holds(variables, "GM_TOOL_JWS_ISSUER"@, config.jws_issuer@),
        holds(variables, "GM_TOOL_JWS_AUDIENCE"@, config.jws_audience@),
        holds(variables, "TWOW_DB_HOST"@, config.db_host@),
        holds(variables, "TWOW_DB_USER"@, config.db_user@),
        holds(variables, "TWOW_DB_PASSWORD"@, config.db_password@),
        holds(variables, "TWOW_LOGON_DB"@, config.logon_db@),
        holds_number(variables, "TWOW_DB_PORT"@, 3306, config.db_port as nat),
        holds_number(variables, "GM_TOOL_DEFAULT_REALM_ID"@, 1, config.default_realm_id as nat),
        holds_number(
            variables,
            "GM_TOOL_WORLD_TIMEOUT_SECONDS"@,
            5,
            config.world_timeout_seconds as nat,
        ),
        config.world_base_url.deep_view() == config::value_of(
            variables,
            "GM_TOOL_WORLD_BASE_URL"@,
        ),
        config.world_api_key.deep_view() == config::value_of(variables, "GM_TOOL_WORLD_API_KEY"@),
        config.sink_mode == SinkMode::DirectWorldHttp <==> holds(
            variables,
            "GM_TOOL_SINK_MODE"@,
            "direct_world_http"@,
        ),
        config::allowlist(variables, "GM_TOOL_COMMAND_ALLOWLIST"@) == Ok::<_, ConfigFault>(
            config.command_allowlist.deep_view(),
        ),
{
    laws::law_defaults(config, variables);
    law_sink_modes(variables, "GM_TOOL_SINK_MODE"@, "pending_commands"@);
    reveal_strlit("pending_commands");
    reveal_strlit("direct_world_http");
    assert("pending_commands"@.len() != "direct_world_http"@.len());
}

/// Faults are reported in this order: the address, the sink mode, the allowlist, the
/// secret, the issuer, the audience, then the database, the realm, the timeout, and the
/// world server. Each is reported where everything before it is in order.
pub proof fn law_faults_come_in_order(variables: Variables, bind_addr: bool, found: ConfigFault)
    requires
        config::is_first_fault(config::config_faults(variables, bind_addr), found),
    ensures
        !bind_addr <==> found is InvalidBindAddr,
        !bind_addr ==> found == ConfigFault::InvalidBindAddr(
            config::value_or(variables, "GM_TOOL_BIND_ADDR"@, "0.0.0.0:8080"@),
        ),
        ({
            let mode = config::sink_mode(variables, "GM_TOOL_SINK_MODE"@, "pending_commands"@);
            let list = config::allowlist(variables, "GM_TOOL_COMMAND_ALLOWLIST"@);
            let port = config::integer(variables, "TWOW_DB_PORT"@, "3306"@, 65535);
            let realm = config::integer(
                variables,
                "GM_TOOL_DEFAULT_REALM_ID"@,
                "1"@,
                0xffff_ffff,
            );
            let timeout = config::integer(
                variables,
                "GM_TOOL_WORLD_TIMEOUT_SECONDS"@,
                "5"@,
                0xffff_ffff_ffff_ffff,
            );
            bind_addr ==> if mode is Err {
                found == mode->Err_0
            } else if list is Err {
                found == list->Err_0
            } else if config::value_of(variables, "GM_TOOL_JWS_SECRET"@) is None {
                found == ConfigFault::MissingEnv("GM_TOOL_JWS_SECRET"@)
            } else if config::value_of(variables, "GM_TOOL_JWS_ISSUER"@) is None {
                found == ConfigFault::MissingEnv("GM_TOOL_JWS_ISSUER"@)
            } else if config::value_of(variables, "GM_TOOL_JWS_AUDIENCE"@) is None {
                found == ConfigFault::MissingEnv("GM_TOOL_JWS_AUDIENCE"@)
            } else if config::value_of(variables, "TWOW_DB_HOST"@) is None {
                found == ConfigFault::MissingEnv("TWOW_DB_HOST"@)
            } else if port is Err {
                found == port->Err_0
            } else if config::value_of(variables, "TWOW_DB_USER"@) is None {
                found == ConfigFault::MissingEnv("TWOW_DB_USER"@)
            } else if config::value_of(variables, "TWOW_DB_PASSWORD"@) is None {
                found == ConfigFault::MissingEnv("TWOW_DB_PASSWORD"@)
            } else if config::value_of(variables, "TWOW_LOGON_DB"@) is None {
                found == ConfigFault::MissingEnv("TWOW_LOGON_DB"@)
            } else if realm is Err {
                found == realm->Err_0
            } else if timeout is Err {
                found == timeout->Err_0
            } else if config::value_of(variables, "GM_TOOL_WORLD_BASE_URL"@) is None {
                found == ConfigFault::MissingEnv("GM_TOOL_WORLD_BASE_URL"@)
            } else {
                found == ConfigFault::MissingEnv("GM_TOOL_WORLD_API_KEY"@)
            }
        }),
{
    let faults = config::config_faults(variables, bind_addr);
    let at = choose|i: int|
        0 <= i < faults.len() && #[trigger] faults[i] == Some(found) && forall|j: int|
            0 <= j < i ==> (#[trigger] faults[j]) is None;
    assert(faults.len() == 15);
    assert(at == 0 || at == 1 || at == 2 || at == 3 || at == 4 || at == 5 || at == 6 || at == 7
        || at == 8 || at == 9 || at == 10 || at == 11 || at == 12 || at == 13 || at == 14);
    assert(0 < at ==> faults[0] is None);
    assert(1 < at ==> faults[1] is None);
    assert(2 < at ==> faults[2] is None);
    assert(3 < at ==> faults[3] is None);
    assert(4 < at ==> faults[4] is None);
    assert(5 < at ==> faults[5] is None);
    assert(6 < at ==> faults[6] is None);
    assert(7 < at ==> faults[7] is None);
    assert(8 < at ==> faults[8] is None);
    assert(9 < at ==> faults[9] is None);
    assert(10 < at ==> faults[10] is None);
    assert(11 < at ==> faults[11] is None);
    assert(12 < at ==> faults[12] is None);
    assert(13 < at ==> faults[13] is None);
}

/// What is said of a fault names the variable, and the value where there is one.
pub proof fn law_faults_are_described(key: Seq<char>, value: Seq<char>)
    ensures
        ConfigFault::MissingEnv(key).message() == "missing required environment variable: "@ + key,
        ConfigFault::InvalidBindAddr(value).message()
            == "invalid socket address in GM_TOOL_BIND_ADDR: "@ + value,
        ConfigFault::InvalidSinkMode(value).message() == "invalid GM_TOOL_SINK_MODE: "@ + value,
        (ConfigFault::InvalidInteger { key, value }).message() == "invalid integer in "@ + key
            + ": "@ + value,
{
}

} // verus!
