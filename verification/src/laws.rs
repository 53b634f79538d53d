//! What holds of texts, commands, tokens, the configuration and the sinks, over the
//! models that the functions' contracts are stated in.
use vstd::prelude::*;

use crate::command;
use crate::config;
use crate::error::Failure;
use crate::jws;
use crate::mariadb;
use crate::service;
use crate::state::QueueCommandView;
use crate::state::Settings;
use crate::text;
use crate::world;

verus! {

/// Parts with a separator between each two.
pub open spec fn joined(parts: Seq<Seq<char>>, separator: char) -> Seq<char>
    decreases parts.len(),
{
    if parts.len() == 0 {
        Seq::empty()
    } else if parts.len() == 1 {
        parts[0]
    } else {
        joined(parts.drop_last(), separator).push(separator) + parts.last()
    }
}

/// Splitting a text loses nothing: joined again, the pieces are the text. None of
/// them holds the separator.
pub proof fn law_pieces_make_up_the_text(s: Seq<char>, separator: char)
    ensures
        text::pieces(s, separator).len() >= 1,
        joined(text::pieces(s, separator), separator) == s,
        forall|i: int|
            0 <= i < text::pieces(s, separator).len() ==> !(#[trigger] text::pieces(
                s,
                separator,
            )[i]).contains(separator),
    decreases s.len(),
{
    let all = text::pieces(s, separator);
    if s.len() == 0 {
        assert(!s.contains(separator));
    } else {
        let before = text::pieces(s.drop_last(), separator);
        law_pieces_make_up_the_text(s.drop_last(), separator);
        assert(s == s.drop_last().push(s.last()));
        if s.last() == separator {
            assert(all.drop_last() == before);
            assert(joined(all, separator) == s);
            assert(!Seq::<char>::empty().contains(separator));
        } else {
            let grown = before.last().push(s.last());
            assert(all == before.drop_last().push(grown));
            assert(all.drop_last() == before.drop_last());
            assert(joined(all, separator) == s);
            assert(!before[before.len() - 1].contains(separator));
            assert(!grown.contains(separator)) by {
                if grown.contains(separator) {
                    let k = choose|k: int| 0 <= k < grown.len() && grown[k] == separator;
                    assert(before.last()[k] == separator);
                }
            }
            assert forall|i: int| 0 <= i < all.len() implies !(#[trigger] all[i]).contains(
                separator,
            ) by {
                if i < all.len() - 1 {
                    assert(all[i] == before[i]);
                }
            }
        }
    }
}

/// A number written in decimal reads back as itself, where it is in range.
pub proof fn law_decimal_reads_back(n: nat, max: nat)
    requires
        n <= max,
    ensures
        text::unsigned(text::decimal(n), max) == Some(n),
{
    lemma_decimal(n);
}

/// The digits of a number.
pub(crate) proof fn lemma_decimal(n: nat)
    ensures
        text::is_digits(text::decimal(n)),
        text::digits_value(text::decimal(n)) == n,
    decreases n,
{
    let s = text::decimal(n);
    if n < 10 {
        assert(s.drop_last() == Seq::<char>::empty());
        reveal_with_fuel(text::digits_value, 2);
    } else {
        lemma_decimal(n / 10);
        assert(s.drop_last() == text::decimal(n / 10));
    }
}

/// A text that neither starts nor ends with white space.
pub open spec fn is_trim(s: Seq<char>) -> bool {
    s.len() == 0 || (!text::is_white_space(s[0]) && !text::is_white_space(s.last()))
}

/// Trimming leaves a text that neither starts nor ends with white space, and leaves
/// such a text alone.
pub proof fn law_trimming_is_final(s: Seq<char>)
    ensures
        is_trim(text::trimmed(s)),
        text::trimmed(text::trimmed(s)) == text::trimmed(s),
        is_trim(s) ==> text::trimmed(s) == s,
{
    lemma_trim_start(s);
    lemma_trim_end(text::trim_start(s));
}

proof fn lemma_trim_start(s: Seq<char>)
    ensures
        text::trim_start(s).len() > 0 ==> !text::is_white_space(text::trim_start(s)[0]),
    decreases s.len(),
{
    if s.len() > 0 && text::is_white_space(s[0]) {
        lemma_trim_start(s.drop_first());
    }
}

proof fn lemma_trim_end(s: Seq<char>)
    ensures
        text::trim_end(s).len() <= s.len(),
        text::trim_end(s) == s.take(text::trim_end(s).len() as int),
        text::trim_end(s).len() > 0 ==> !text::is_white_space(text::trim_end(s).last())
            && text::trim_end(s)[0] == s[0],
    decreases s.len(),
{
    if s.len() > 0 && text::is_white_space(s.last()) {
        lemma_trim_end(s.drop_last());
        let end = text::trim_end(s).len() as int;
        assert(s.drop_last().take(end) == s.take(end));
    } else {
        assert(s.take(s.len() as int) == s);
    }
}

/// A run of `n` dots.
pub open spec fn dots(n: nat) -> Seq<char> {
    Seq::new(n, |i: int| '.')
}

/// The dots that lead a command are dropped, with the white space around it.
pub proof fn law_leading_dots_are_dropped(command: Seq<char>, n: nat, rest: Seq<char>)
    requires
        text::trimmed(command) == dots(n) + rest,
        is_trim(rest),
        rest.len() > 0 ==> rest[0] != '.',
    ensures
        command::normalized(command) == rest,
{
    lemma_without_dots(n, rest);
    law_trimming_is_final(rest);
}

pub(crate) proof fn lemma_without_dots(n: nat, rest: Seq<char>)
    requires
        rest.len() > 0 ==> rest[0] != '.',
    ensures
        text::without_leading(dots(n) + rest, '.') == rest,
    decreases n,
{
    let s = dots(n) + rest;
    if n == 0 {
        assert(s == rest);
    } else {
        assert(s.drop_first() == dots((n - 1) as nat) + rest);
        lemma_without_dots((n - 1) as nat, rest);
    }
}

/// Normalizing a command once more changes nothing, unless the first time left a dot
/// at its start.
pub proof fn law_normalizing_is_final(command: Seq<char>)
    requires
        command::normalized(command).len() > 0 ==> command::normalized(command)[0] != '.',
    ensures
        command::normalized(command::normalized(command)) == command::normalized(command),
{
    let once = command::normalized(command);
    law_trimming_is_final(text::without_leading(text::trimmed(command), '.'));
    assert(once == dots(0) + once);
    law_leading_dots_are_dropped(once, 0, once);
}

/// A raw command that passes is not empty, not too long, one line without NUL, and
/// without white space around it.
pub proof fn law_raw_commands_are_clean(command: Seq<char>)
    requires
        command::raw_command(command) is Ok,
    ensures
        ({
            let clean = command::raw_command(command)->Ok_0;
            &&& clean.len() > 0
            &&& vstd::utf8::encode_utf8(clean).len() <= command::MAX_COMMAND_LEN
            &&& !clean.contains('\0')
            &&& !clean.contains('\n')
            &&& !clean.contains('\r')
            &&& is_trim(clean)
        }),
{
    law_trimming_is_final(text::without_leading(text::trimmed(command), '.'));
}

/// What neither of two texts holds, both together do not hold.
pub(crate) proof fn lemma_absent_from_both(a: Seq<char>, b: Seq<char>, c: char)
    requires
        !a.contains(c),
        !b.contains(c),
    ensures
        !(a + b).contains(c),
{
    if (a + b).contains(c) {
        let i = choose|i: int| 0 <= i < (a + b).len() && (a + b)[i] == c;
        if i < a.len() {
            assert(a[i] == c);
        } else {
            assert(b[i - a.len()] == c);
        }
    }
}

/// Whether `s` has none of the characters that end a line or a quoted text.
pub open spec fn is_plain(s: Seq<char>) -> bool {
    !s.contains('\n') && !s.contains('\r') && !s.contains('\'') && !s.contains('"')
}

proof fn lemma_plain_both(a: Seq<char>, b: Seq<char>)
    requires
        is_plain(a),
        is_plain(b),
    ensures
        is_plain(a + b),
{
    lemma_absent_from_both(a, b, '\n');
    lemma_absent_from_both(a, b, '\r');
    lemma_absent_from_both(a, b, '\'');
    lemma_absent_from_both(a, b, '"');
}

/// The commands that revive or teleport a character are one line without quotes.
pub proof fn law_structured_commands_are_plain(character: Seq<char>, teleport: Seq<char>)
    ensures
        command::revive_command(character) matches Ok(command) ==> is_plain(command),
        command::teleport_command(character, teleport) matches Ok(command) ==> is_plain(command),
{
    reveal_strlit("revive ");
    reveal_strlit("tele name ");
    reveal_strlit(" ");
    if command::single_token("character"@, character) is Ok {
        let who = command::single_token("character"@, character)->Ok_0;
        lemma_plain_both("revive "@, who);
        lemma_plain_both("tele name "@, who);
        lemma_plain_both("tele name "@ + who, " "@);
        if command::single_token("teleport"@, teleport) is Ok {
            lemma_plain_both(
                "tele name "@ + who + " "@,
                command::single_token("teleport"@, teleport)->Ok_0,
            );
        }
    }
}

/// Whatever a request asks for, the command that may be queued for it is not empty
/// and one line.
pub proof fn law_queued_commands_are_single_lines(order: service::Order, settings: Settings)
    requires
        order.command(settings) is Ok,
    ensures
        order.command(settings)->Ok_0.len() > 0,
        !order.command(settings)->Ok_0.contains('\n'),
        !order.command(settings)->Ok_0.contains('\r'),
{
    reveal_strlit("revive ");
    reveal_strlit("tele name ");
    match order {
        service::Order::Raw { command } => law_raw_commands_are_clean(command),
        service::Order::Revive { character } => law_structured_commands_are_plain(
            character,
            Seq::empty(),
        ),
        service::Order::Teleport { character, teleport } => law_structured_commands_are_plain(
            character,
            teleport,
        ),
    }
}

/// An allowlist entry covers itself, and a command that goes on after it exactly
/// where it goes on with white space.
pub proof fn law_entries_end_at_white_space(entry: Seq<char>, next: char, rest: Seq<char>)
    ensures
        command::entry_covers(entry, entry),
        command::entry_covers(entry, entry.push(next) + rest) <==> text::is_white_space(next),
{
    let command = entry.push(next) + rest;
    assert(entry == command.subrange(0, entry.len() as int));
    assert(command[entry.len() as int] == next);
}

/// What an allowlist lets through, it lets through with more entries too; and
/// without any entry it lets nothing through.
pub proof fn law_allowlists_only_grant(
    allowlist: Seq<Seq<char>>,
    more: Seq<Seq<char>>,
    command: Seq<char>,
)
    ensures
        command::raw_command_refusal(allowlist, command) is None
            ==> command::raw_command_refusal(allowlist + more, command) is None,
        command::raw_command_refusal(allowlist, command) is None
            ==> command::raw_command_refusal(more + allowlist, command) is None,
        command::raw_command_refusal(Seq::empty(), command) is Some,
{
    if command::raw_command_refusal(allowlist, command) is None {
        let i = choose|i: int|
            0 <= i < allowlist.len() && command::entry_covers(#[trigger] allowlist[i], command);
        assert((allowlist + more)[i] == allowlist[i]);
        assert((more + allowlist)[more.len() + i] == allowlist[i]);
    }
}

/// What a backslash and the character `c` stand for in a SQL string, on a server that
/// takes a backslash as an escape.
pub open spec fn sql_escape(c: char) -> Seq<char> {
    if c == '0' {
        seq!['\0']
    } else if c == 'b' {
        seq!['\u{8}']
    } else if c == 'n' {
        seq!['\n']
    } else if c == 'r' {
        seq!['\r']
    } else if c == 't' {
        seq!['\t']
    } else if c == 'Z' {
        seq!['\u{1a}']
    } else if c == '%' || c == '_' {
        seq!['\\', c]
    } else {
        seq![c]
    }
}

/// The value of a SQL string, read from after its opening quote: a quote written
/// twice stands for one, and a single quote ends the string. Where
/// `backslash_escapes`, as in MariaDB unless its mode `NO_BACKSLASH_ESCAPES` is set, a
/// backslash and the character after it are an escape; otherwise a backslash stands
/// for itself. With the value comes what follows the string; `None` where the string
/// does not end.
pub open spec fn sql_string(s: Seq<char>, backslash_escapes: bool) -> Option<
    (Seq<char>, Seq<char>),
>
    decreases s.len(),
{
    if s.len() == 0 {
        None
    } else if s[0] == '\\' && backslash_escapes {
        if s.len() == 1 {
            None
        } else {
            match sql_string(s.skip(2), backslash_escapes) {
                Some((value, rest)) => Some((sql_escape(s[1]) + value, rest)),
                None => None,
            }
        }
    } else if s[0] != '\'' {
        match sql_string(s.skip(1), backslash_escapes) {
            Some((value, rest)) => Some((seq![s[0]] + value, rest)),
            None => None,
        }
    } else if s.len() >= 2 && s[1] == '\'' {
        match sql_string(s.skip(2), backslash_escapes) {
            Some((value, rest)) => Some((seq!['\''] + value, rest)),
            None => None,
        }
    } else {
        Some((Seq::empty(), s.skip(1)))
    }
}

/// A value written as a SQL literal reads back as itself, and the string ends where
/// the literal's closing quote stands. On a server that takes a backslash as an
/// escape, this holds of values without a backslash.
pub proof fn law_sql_literals_read_back(
    value: Seq<char>,
    rest: Seq<char>,
    backslash_escapes: bool,
)
    requires
        command::sql_literal(value) is Ok,
        rest.len() > 0 ==> rest[0] != '\'',
        backslash_escapes ==> !value.contains('\\'),
    ensures
        sql_string(
            command::sql_literal(value)->Ok_0.push('\'') + rest,
            backslash_escapes,
        ) == Some((value, rest)),
{
    lemma_sql_string(value, rest, backslash_escapes);
}

proof fn lemma_doubled_first(s: Seq<char>, c: char)
    requires
        s.len() > 0,
    ensures
        text::doubled(s, c) == (if s[0] == c {
            seq![c, c]
        } else {
            seq![s[0]]
        }) + text::doubled(s.drop_first(), c),
    decreases s.len(),
{
    if s.len() == 1 {
        assert(s.drop_first() == Seq::<char>::empty());
        assert(s.drop_last() == Seq::<char>::empty());
        reveal_with_fuel(text::doubled, 2);
    } else {
        lemma_doubled_first(s.drop_last(), c);
        assert(s.drop_last().drop_first() == s.drop_first().drop_last());
        assert(text::doubled(s, c) == (if s[0] == c {
            seq![c, c]
        } else {
            seq![s[0]]
        }) + text::doubled(s.drop_first(), c));
    }
}

proof fn lemma_sql_string(value: Seq<char>, rest: Seq<char>, backslash_escapes: bool)
    requires
        rest.len() > 0 ==> rest[0] != '\'',
        backslash_escapes ==> !value.contains('\\'),
    ensures
        sql_string(text::doubled(value, '\'').push('\'') + rest, backslash_escapes) == Some(
            (value, rest),
        ),
    decreases value.len(),
{
    let whole = text::doubled(value, '\'').push('\'') + rest;
    if value.len() == 0 {
        assert(whole == seq!['\''] + rest);
        assert(whole.skip(1) == rest);
        assert(value == Seq::<char>::empty());
    } else {
        let tail = value.drop_first();
        let after = text::doubled(tail, '\'').push('\'') + rest;
        lemma_doubled_first(value, '\'');
        if backslash_escapes {
            assert(value[0] != '\\');
            lemma_part(value, 1, value.len() as int, '\\');
            assert(tail == value.subrange(1, value.len() as int));
        }
        lemma_sql_string(tail, rest, backslash_escapes);
        if value[0] == '\'' {
            assert(whole.skip(2) == after);
        } else {
            assert(whole.skip(1) == after);
        }
        assert(seq![value[0]] + tail == value);
    }
}

/// In the statement that queues a command, the SQL string that starts after the
/// numbers is the command, and what follows it closes the statement. On a server that
/// takes a backslash as an escape, this holds of commands without a backslash.
pub proof fn law_statements_carry_the_command(request: QueueCommandView, backslash_escapes: bool)
    requires
        mariadb::insert_statement(request) is Ok,
        backslash_escapes ==> !request.command.contains('\\'),
    ensures
        ({
            let statement = mariadb::insert_statement(request)->Ok_0;
            let start = "INSERT INTO pending_commands (realm_id, run_at_time, command) VALUES ("@
                + text::decimal(request.realm_id as nat) + ", "@ + text::decimal(
                request.run_at_unix as nat,
            ) + ", '"@;
            &&& start.is_prefix_of(statement)
            &&& sql_string(statement.skip(start.len() as int), backslash_escapes) == Some(
                (request.command, "); SELECT LAST_INSERT_ID();"@),
            )
        }),
{
    let statement = mariadb::insert_statement(request)->Ok_0;
    let start = "INSERT INTO pending_commands (realm_id, run_at_time, command) VALUES ("@
        + text::decimal(request.realm_id as nat) + ", "@ + text::decimal(
        request.run_at_unix as nat,
    ) + ", '"@;
    let literal = command::sql_literal(request.command)->Ok_0;
    let rest = "); SELECT LAST_INSERT_ID();"@;
    reveal_strlit("'); SELECT LAST_INSERT_ID();");
    reveal_strlit("); SELECT LAST_INSERT_ID();");
    assert("'); SELECT LAST_INSERT_ID();"@ == seq!['\''] + rest);
    assert(statement == start + literal + "'); SELECT LAST_INSERT_ID();"@);
    assert(statement.subrange(0, start.len() as int) == start);
    assert(statement.skip(start.len() as int) == literal.push('\'') + rest);
    law_sql_literals_read_back(request.command, rest, backslash_escapes);
}

/// A token that can be opened is three segments with dots between them. What it was
/// signed over is the token up to its last dot; its header and claims are decoded
/// from the two segments in there, and its signature from the last.
pub proof fn law_signatures_cover_header_and_claims(token: Seq<char>)
    requires
        jws::opened(token) is Some,
    ensures
        ({
            let segments = text::pieces(token, '.');
            let open = jws::opened(token)->0;
            &&& segments.len() == 3
            &&& token == segments[0] + "."@ + segments[1] + "."@ + segments[2]
            &&& !segments[0].contains('.') && !segments[1].contains('.') && !segments[2].contains(
                '.',
            )
            &&& token == open.signing_input + "."@ + segments[2]
            &&& open.signing_input == segments[0] + "."@ + segments[1]
            &&& jws::base64url_bytes(segments[0]) == Some(open.header)
            &&& jws::base64url_bytes(segments[1]) == Some(open.payload)
            &&& jws::base64url_bytes(segments[2]) == Some(open.signature)
        }),
{
    let segments = text::pieces(token, '.');
    law_pieces_make_up_the_text(token, '.');
    reveal_strlit(".");
    reveal_with_fuel(joined, 3);
    assert("."@ == seq!['.']);
    assert(segments.drop_last().drop_last()[0] == segments[0]);
    assert(joined(segments, '.') == segments[0] + "."@ + segments[1] + "."@ + segments[2]);
}

/// A token of any other number of segments is not opened.
pub proof fn law_tokens_have_three_segments(token: Seq<char>)
    requires
        text::pieces(token, '.').len() != 3,
    ensures
        jws::opened(token) is None,
{
}

/// A token is accepted from when it takes effect until it expires, and at no other
/// time: nothing but the time of two judgements of one token can set them apart.
pub proof fn law_tokens_hold_until_they_expire(
    token: jws::TokenView,
    alg: Option<Seq<char>>,
    claims: jws::ClaimsView,
    policy: jws::TokenPolicy,
    now: u64,
    later: u64,
)
    requires
        jws::accepted(token, alg, Some(claims), policy, now),
    ensures
        now < claims.exp,
        claims.nbf matches Some(nbf) ==> nbf <= now,
        jws::accepted(token, alg, Some(claims), policy, later) <==> later < claims.exp && (
        claims.nbf matches Some(nbf) ==> nbf <= later),
{
}

/// A token is accepted only where it names the algorithm, its signature is the code
/// that the secret gives to what it covers, and its claims name the issuer and the
/// audience.
pub proof fn law_acceptance_needs_the_secret(
    token: jws::TokenView,
    alg: Option<Seq<char>>,
    claims: Option<jws::ClaimsView>,
    policy: jws::TokenPolicy,
    now: u64,
)
    requires
        jws::accepted(token, alg, claims, policy, now),
    ensures
        alg == Some("HS256"@),
        token.signature == jws::hmac_sha256(
            policy.secret,
            vstd::utf8::encode_utf8(token.signing_input),
        ),
        claims is Some,
        claims->0.iss == policy.issuer,
        claims->0.aud.contains(policy.audience),
{
}

/// Every entry of an allowlist that was read is a valid command, without white space
/// around it and without a comma.
pub proof fn law_allowlist_entries_are_commands(variables: config::Variables, key: Seq<char>, i: int)
    requires
        config::allowlist(variables, key) is Ok,
        0 <= i < config::allowlist(variables, key)->Ok_0.len(),
    ensures
        ({
            let entry = config::allowlist(variables, key)->Ok_0[i];
            &&& entry.len() > 0
            &&& command::command_fault(entry) is None
            &&& is_trim(entry)
            &&& !entry.contains(',')
        }),
{
    let value = config::value_of(variables, key)->0;
    law_pieces_make_up_the_text(value, ',');
    lemma_entries(text::pieces(value, ','), i);
}

proof fn lemma_entries(pieces: Seq<Seq<char>>, i: int)
    requires
        config::entries(pieces) is Ok,
        0 <= i < config::entries(pieces)->Ok_0.len(),
        forall|j: int| 0 <= j < pieces.len() ==> !(#[trigger] pieces[j]).contains(','),
    ensures
        ({
            let entry = config::entries(pieces)->Ok_0[i];
            &&& entry.len() > 0
            &&& command::command_fault(entry) is None
            &&& is_trim(entry)
            &&& !entry.contains(',')
        }),
    decreases pieces.len(),
{
    let before = config::entries(pieces.drop_last())->Ok_0;
    if i < before.len() {
        assert forall|j: int| 0 <= j < pieces.drop_last().len() implies !(
        #[trigger] pieces.drop_last()[j]).contains(',') by {
            assert(pieces.drop_last()[j] == pieces[j]);
        }
        lemma_entries(pieces.drop_last(), i);
    } else {
        let piece = pieces[pieces.len() - 1];
        law_trimming_is_final(text::without_leading(text::trimmed(piece), '.'));
        lemma_normalized_is_part(piece, ',');
    }
}

/// Normalizing brings no character in.
proof fn lemma_normalized_is_part(s: Seq<char>, c: char)
    requires
        !s.contains(c),
    ensures
        !command::normalized(s).contains(c),
{
    lemma_trimmed_is_part(s, c);
    lemma_without_leading_is_part(text::trimmed(s), '.', c);
    lemma_trimmed_is_part(text::without_leading(text::trimmed(s), '.'), c);
}

proof fn lemma_trimmed_is_part(s: Seq<char>, c: char)
    requires
        !s.contains(c),
    ensures
        !text::trimmed(s).contains(c),
{
    lemma_trim_start_is_part(s, c);
    lemma_trim_end_is_part(text::trim_start(s), c);
}

proof fn lemma_part(s: Seq<char>, from: int, to: int, c: char)
    requires
        0 <= from <= to <= s.len(),
        !s.contains(c),
    ensures
        !s.subrange(from, to).contains(c),
{
    let part = s.subrange(from, to);
    if part.contains(c) {
        let k = choose|k: int| 0 <= k < part.len() && part[k] == c;
        assert(s[from + k] == c);
    }
}

proof fn lemma_trim_start_is_part(s: Seq<char>, c: char)
    requires
        !s.contains(c),
    ensures
        !text::trim_start(s).contains(c),
    decreases s.len(),
{
    if s.len() > 0 && text::is_white_space(s[0]) {
        lemma_part(s, 1, s.len() as int, c);
        assert(s.drop_first() == s.subrange(1, s.len() as int));
        lemma_trim_start_is_part(s.drop_first(), c);
    }
}

proof fn lemma_trim_end_is_part(s: Seq<char>, c: char)
    requires
        !s.contains(c),
    ensures
        !text::trim_end(s).contains(c),
    decreases s.len(),
{
    if s.len() > 0 && text::is_white_space(s.last()) {
        lemma_part(s, 0, s.len() - 1, c);
        assert(s.drop_last() == s.subrange(0, s.len() - 1));
        lemma_trim_end_is_part(s.drop_last(), c);
    }
}

proof fn lemma_without_leading_is_part(s: Seq<char>, lead: char, c: char)
    requires
        !s.contains(c),
    ensures
        !text::without_leading(s, lead).contains(c),
    decreases s.len(),
{
    if s.len() > 0 && s[0] == lead {
        lemma_part(s, 1, s.len() as int, c);
        assert(s.drop_first() == s.subrange(1, s.len() as int));
        lemma_without_leading_is_part(s.drop_first(), lead, c);
    }
}

/// A configuration that was read holds the database port 3306, the realm 1, a
/// timeout of 5 seconds, the queue in the database and no raw command, each where
/// the variable for it is not set.
pub proof fn law_defaults<A>(config: config::Config<A>, variables: config::Variables)
    requires
        config::describes(config, variables),
    ensures
        config::value_of(variables, "TWOW_DB_PORT"@) is None ==> config.db_port == 3306,
        config::value_of(variables, "GM_TOOL_DEFAULT_REALM_ID"@) is None
            ==> config.default_realm_id == 1,
        config::value_of(variables, "GM_TOOL_WORLD_TIMEOUT_SECONDS"@) is None
            ==> config.world_timeout_seconds == 5,
        config::value_of(variables, "GM_TOOL_SINK_MODE"@) is None ==> config.sink_mode
            == config::SinkMode::PendingCommands,
        config::value_of(variables, "GM_TOOL_COMMAND_ALLOWLIST"@) is None
            ==> config.command_allowlist@.len() == 0,
{
    reveal_strlit("3306");
    reveal_strlit("1");
    reveal_strlit("5");
    reveal_with_fuel(text::decimal, 5);
    assert("3306"@ == text::decimal(3306));
    assert("1"@ == text::decimal(1));
    assert("5"@ == text::decimal(5));
    law_decimal_reads_back(3306, u16::MAX as nat);
    law_decimal_reads_back(1, u32::MAX as nat);
    law_decimal_reads_back(5, u64::MAX as nat);
    assert(config.command_allowlist.deep_view().len() == config.command_allowlist@.len());
}

/// Both sinks confirm the command that they were given, for the realm and the time
/// that they were given.
pub proof fn law_receipts_repeat_the_request(
    request: QueueCommandView,
    output: Seq<char>,
    answer: Result<(u16, Seq<char>), Failure>,
)
    ensures
        mariadb::insert_receipt(request, output) matches Ok(receipt) ==> receipt.realm_id
            == request.realm_id && receipt.command == request.command && receipt.run_at_unix
            == request.run_at_unix,
        world::command_receipt(request, answer) matches Ok(receipt) ==> receipt.realm_id
            == request.realm_id && receipt.command == request.command && receipt.run_at_unix
            == request.run_at_unix,
{
}

/// The number that the database prints for a command, on a line of its own after
/// whatever else it prints, is the number of the receipt.
pub proof fn law_insert_numbers_read_back(request: QueueCommandView, before: Seq<char>, id: u64)
    ensures
        mariadb::insert_receipt(request, text::decimal(id as nat)) == Ok::<_, Failure>(
            request.receipt(id),
        ),
        mariadb::insert_receipt(request, before.push('\n') + text::decimal(id as nat)) == Ok::<
            _,
            Failure,
        >(request.receipt(id)),
{
    let number = text::decimal(id as nat);
    lemma_decimal(id as nat);
    law_decimal_reads_back(id as nat, u64::MAX as nat);
    assert(is_trim(number));
    law_trimming_is_final(number);
    lemma_last_piece(Seq::empty(), number);
    assert(Seq::<char>::empty() + number == number);
    lemma_last_piece(before.push('\n'), number);
    assert(text::last_line(number) == number);
    let whole = before.push('\n') + number;
    assert(whole.last() == number.last());
    assert(text::last_line(whole) == number);
}

/// After a line feed, or at the start, a text without line feeds is the last piece.
proof fn lemma_last_piece(before: Seq<char>, line: Seq<char>)
    requires
        before.len() > 0 ==> before.last() == '\n',
        text::is_digits(line) || line.len() == 0,
    ensures
        text::pieces(before + line, '\n').last() == line,
    decreases line.len(),
{
    let whole = before + line;
    if line.len() == 0 {
        assert(whole == before);
    } else {
        let shorter = line.drop_last();
        lemma_last_piece(before, shorter);
        assert(whole.drop_last() == before + shorter);
        assert(text::is_digit(line[line.len() - 1]));
        assert(shorter.push(line.last()) == line);
    }
}

} // verus!
