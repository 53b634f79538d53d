//! What holds of the world server's sink: of the requests it sends, and of what it
//! makes of the answers.
use vstd::prelude::*;

use crate::config;
use crate::laws;
use crate::text;
use crate::world;
use crate::world::WorldView;

verus! {

/// A configuration that was read for sending commands straight to the world server
/// names the server and the key: a sink is then made of it unless the URL is at
/// fault.
pub proof fn law_direct_mode_names_the_world<A>(
    config: config::Config<A>,
    variables: config::Variables,
)
    requires
        config::describes(config, variables),
        config.sink_mode == config::SinkMode::DirectWorldHttp,
    ensures
        config.world_base_url is Some,
        config.world_api_key is Some,
        world::world_of(
            config.world_base_url.deep_view(),
            config.world_api_key.deep_view(),
            config.world_timeout_seconds,
        ) == world::world_at(
            world::parsed_url(config.world_base_url->0@),
            config.world_base_url->0@,
            config.world_api_key->0@,
            config.world_timeout_seconds,
        ),
{
}

/// A sink waits for a second at least, and for as long as the configuration says
/// where that is more.
pub proof fn law_sinks_wait(
    base_url: Option<Seq<char>>,
    api_key: Option<Seq<char>>,
    timeout_seconds: u64,
)
    requires
        world::world_of(base_url, api_key, timeout_seconds) is Ok,
    ensures
        ({
            let world = world::world_of(base_url, api_key, timeout_seconds)->Ok_0;
            &&& world.timeout_seconds >= 1
            &&& world.timeout_seconds >= timeout_seconds
            &&& timeout_seconds >= 1 ==> world.timeout_seconds == timeout_seconds
        }),
{
}

/// The path of an API is the base path without the slashes at its end, then the
/// suffix: a suffix that starts with a slash brings the only one between them.
pub proof fn law_paths_join_at_one_slash(world: WorldView, suffix: Seq<char>)
    ensures
        ({
            let base = text::without_trailing(world.base_path, '/');
            &&& world.path(suffix) == base + suffix
            &&& base.len() > 0 ==> base.last() != '/'
        }),
{
    let base = text::without_trailing(world.base_path, '/');
    lemma_without_trailing(world.base_path, '/');
    if world.base_path == "/"@ {
        reveal_strlit("/");
        assert(world.base_path.drop_last() == Seq::<char>::empty());
        reveal_with_fuel(text::without_trailing, 2);
        assert(base + suffix == suffix);
    }
}

proof fn lemma_without_trailing(s: Seq<char>, c: char)
    ensures
        text::without_trailing(s, c).len() > 0 ==> text::without_trailing(s, c).last() != c,
    decreases s.len(),
{
    if s.len() > 0 && s.last() == c {
        lemma_without_trailing(s.drop_last(), c);
    }
}

/// Whether `s` can stand in a line: it ends none.
pub open spec fn is_in_line(s: Seq<char>) -> bool {
    !s.contains('\r') && !s.contains('\n')
}

/// Whether `s` is lines with an end of line between each two, and none of them
/// empty.
spec fn is_head(s: Seq<char>) -> bool {
    &&& s.len() > 0
    &&& s.last() != '\r'
    &&& s.last() != '\n'
    &&& forall|i: int|
        0 <= i < s.len() - 2 ==> !(#[trigger] s[i] == '\r' && s[i + 1] == '\n' && s[i + 2] == '\r')
}

proof fn lemma_in_line_both(a: Seq<char>, b: Seq<char>)
    requires
        is_in_line(a),
        is_in_line(b),
    ensures
        is_in_line(a + b),
{
    laws::lemma_absent_from_both(a, b, '\r');
    laws::lemma_absent_from_both(a, b, '\n');
}

proof fn lemma_is_head_line(line: Seq<char>)
    requires
        line.len() > 0,
        is_in_line(line),
    ensures
        is_head(line),
{
    assert(line.contains(line.last()));
    assert forall|i: int| 0 <= i < line.len() - 2 implies !(#[trigger] line[i] == '\r' && line[i
        + 1] == '\n' && line[i + 2] == '\r') by {
        assert(line.contains(line[i]));
    }
}

proof fn lemma_is_head_more(head: Seq<char>, line: Seq<char>)
    requires
        is_head(head),
        line.len() > 0,
        is_in_line(line),
    ensures
        is_head(head + seq!['\r', '\n'] + line),
{
    let more = head + seq!['\r', '\n'] + line;
    assert(more.last() == line.last());
    assert(line.contains(line.last()));
    assert forall|i: int| 0 <= i < more.len() - 2 implies !(#[trigger] more[i] == '\r' && more[i
        + 1] == '\n' && more[i + 2] == '\r') by {
        if i < head.len() - 2 {
            assert(more[i] == head[i]);
        } else if i == head.len() - 2 {
            assert(more[i + 1] == head.last());
        } else if i == head.len() - 1 {
            assert(more[i] == head.last());
        } else if i == head.len() {
            assert(line.contains(line[0]));
        } else if i == head.len() + 1 {
            assert(more[i] == '\n');
        } else {
            assert(line.contains(line[i - head.len() - 2]));
        }
    }
}

/// The blank line after such lines is the first.
proof fn lemma_first_blank_line(head: Seq<char>, body: Seq<char>)
    requires
        is_head(head),
    ensures
        text::position(head + "\r\n\r\n"@ + body, "\r\n\r\n"@) == Some(head.len()),
{
    let blank = "\r\n\r\n"@;
    reveal_strlit("\r\n\r\n");
    let whole = head + blank + body;
    assert forall|i: int| 0 <= i < head.len() implies !text::occurs_at(whole, blank, i) by {
        if text::occurs_at(whole, blank, i) {
            let found = whole.subrange(i, i + blank.len());
            assert(found[0] == whole[i] && found[1] == whole[i + 1] && found[2] == whole[i + 2]);
            assert(whole[i] == head[i]);
            if i < head.len() - 2 {
                assert(whole[i + 1] == head[i + 1] && whole[i + 2] == head[i + 2]);
            }
        }
    }
    assert(whole.subrange(head.len() as int, head.len() as int + 4) == blank);
    lemma_position(whole, blank, head.len(), 0);
}

/// A position before which a text does not occur, and at which it does, is its first.
proof fn lemma_position(s: Seq<char>, needle: Seq<char>, at: nat, from: nat)
    requires
        from <= at,
        text::occurs_at(s, needle, at as int),
        forall|i: int| from <= i < at ==> !text::occurs_at(s, needle, i),
    ensures
        text::position_from(s, needle, from) == Some(at),
    decreases at - from,
{
    if from < at {
        lemma_position(s, needle, at, from + 1);
    }
}

/// The lines that every request starts with.
spec fn first_lines(world: WorldView, method: Seq<char>, path: Seq<char>) -> Seq<char> {
    let end = seq!['\r', '\n'];
    (method + " "@ + path + " HTTP/1.1"@) + end + ("Host: "@ + world.host) + end + ("X-API-Key: "@
        + world.api_key)
}

proof fn lemma_first_lines(world: WorldView, method: Seq<char>, path: Seq<char>)
    requires
        is_in_line(method),
        is_in_line(path),
        is_in_line(world.host),
        is_in_line(world.api_key),
    ensures
        is_head(first_lines(world, method, path)),
        first_lines(world, method, path) == method + " "@ + path + " HTTP/1.1\r\nHost: "@
            + world.host + "\r\nX-API-Key: "@ + world.api_key,
        (method + " "@ + path + " HTTP/1.1"@).is_prefix_of(first_lines(world, method, path)),
{
    reveal_strlit(" ");
    reveal_strlit(" HTTP/1.1");
    reveal_strlit(" HTTP/1.1\r\nHost: ");
    reveal_strlit("\r\nX-API-Key: ");
    reveal_strlit("Host: ");
    reveal_strlit("X-API-Key: ");
    let end = seq!['\r', '\n'];
    let start = method + " "@ + path + " HTTP/1.1"@;
    let host = "Host: "@ + world.host;
    let key = "X-API-Key: "@ + world.api_key;
    let all = first_lines(world, method, path);
    lemma_in_line_both(method, " "@);
    lemma_in_line_both(method + " "@, path);
    lemma_in_line_both(method + " "@ + path, " HTTP/1.1"@);
    lemma_is_head_line(start);
    lemma_in_line_both("Host: "@, world.host);
    lemma_is_head_more(start, host);
    lemma_in_line_both("X-API-Key: "@, world.api_key);
    lemma_is_head_more(start + end + host, key);
    assert(" HTTP/1.1"@ + end + "Host: "@ == " HTTP/1.1\r\nHost: "@);
    assert(end + "X-API-Key: "@ == "\r\nX-API-Key: "@);
    assert(all == (method + " "@ + path) + (" HTTP/1.1"@ + end + "Host: "@) + world.host + (end
        + "X-API-Key: "@) + world.api_key);
    assert(all.subrange(0, start.len() as int) == start);
}

/// A request reads back as what it carries: the first blank line stands right before
/// the body, so long as the method, the path, the host and the key end no line.
pub proof fn law_requests_carry_the_body(
    world: WorldView,
    method: Seq<char>,
    path: Seq<char>,
    body: Seq<char>,
)
    requires
        is_in_line(method),
        is_in_line(path),
        is_in_line(world.host),
        is_in_line(world.api_key),
    ensures
        world::response_body(world.request(method, path, body)) == body,
        (method + " "@ + path + " HTTP/1.1"@).is_prefix_of(
            world::response_head(world.request(method, path, body)),
        ),
{
    let request = world.request(method, path, body);
    let start = method + " "@ + path + " HTTP/1.1"@;
    let common = first_lines(world, method, path);
    lemma_first_lines(world, method, path);
    let last = if body.len() == 0 {
        lemma_without_body(common);
        seq!['\r', '\n'] + "Connection: close"@
    } else {
        lemma_with_body(common, vstd::utf8::encode_utf8(body).len());
        "\r\nContent-Type: application/json\r\nContent-Length: "@ + text::decimal(
            vstd::utf8::encode_utf8(body).len(),
        ) + seq!['\r', '\n'] + "Connection: close"@
    };
    let head = common + last;
    lemma_connection_close();
    assert(request == head + "\r\n\r\n"@ + body);
    lemma_first_blank_line(head, body);
    assert(request.skip((head.len() + "\r\n\r\n"@.len()) as int) == body);
    assert(request.take(head.len() as int) == head);
    assert(head.subrange(0, start.len() as int) == start) by {
        assert(common.subrange(0, start.len() as int) == start);
    }
}

proof fn lemma_connection_close()
    ensures
        "\r\nConnection: close\r\n\r\n"@ == seq!['\r', '\n'] + "Connection: close"@
            + "\r\n\r\n"@,
{
    reveal_strlit("\r\nConnection: close\r\n\r\n");
    reveal_strlit("Connection: close");
    reveal_strlit("\r\n\r\n");
}

proof fn lemma_without_body(common: Seq<char>)
    requires
        is_head(common),
    ensures
        is_head(common + (seq!['\r', '\n'] + "Connection: close"@)),
{
    reveal_strlit("Connection: close");
    lemma_is_head_more(common, "Connection: close"@);
    assert(common + (seq!['\r', '\n'] + "Connection: close"@) == common + seq!['\r', '\n']
        + "Connection: close"@);
}

proof fn lemma_with_body(common: Seq<char>, length: nat)
    requires
        is_head(common),
    ensures
        is_head(
            common + ("\r\nContent-Type: application/json\r\nContent-Length: "@ + text::decimal(
                length,
            ) + seq!['\r', '\n'] + "Connection: close"@),
        ),
{
    reveal_strlit("\r\nContent-Type: application/json\r\nContent-Length: ");
    reveal_strlit("Content-Type: application/json");
    reveal_strlit("Content-Length: ");
    let end = seq!['\r', '\n'];
    let number = text::decimal(length);
    let typed = common + end + "Content-Type: application/json"@;
    let sized = "Content-Length: "@ + number;
    laws::lemma_decimal(length);
    assert(is_in_line(number));
    lemma_in_line_both("Content-Length: "@, number);
    lemma_is_head_more(common, "Content-Type: application/json"@);
    lemma_is_head_more(typed, sized);
    lemma_without_body(typed + end + sized);
    assert(end + "Content-Type: application/json"@ + end + "Content-Length: "@
        == "\r\nContent-Type: application/json\r\nContent-Length: "@);
    assert(typed + end + sized == common + (end + "Content-Type: application/json"@ + end
        + "Content-Length: "@) + number);
    assert(typed + end + sized + (end + "Connection: close"@) == common + (
    "\r\nContent-Type: application/json\r\nContent-Length: "@ + number + end
        + "Connection: close"@));
}

/// Lines, each after an end of line.
pub open spec fn more_lines(lines: Seq<Seq<char>>) -> Seq<char>
    decreases lines.len(),
{
    if lines.len() == 0 {
        Seq::empty()
    } else {
        more_lines(lines.drop_last()) + "\r\n"@ + lines.last()
    }
}

/// An HTTP answer: the protocol, the status and the reason on the first line, then a
/// line for each header, a blank line, and the body.
pub open spec fn answer(
    status: u16,
    reason: Seq<char>,
    headers: Seq<Seq<char>>,
    body: Seq<char>,
) -> Seq<char> {
    "HTTP/1.1 "@ + text::decimal(status as nat) + reason + more_lines(headers) + "\r\n\r\n"@ + body
}

/// An answer reads back as what it carries: the status on its first line, and all that
/// stands after the headers, whatever the body holds.
pub proof fn law_answers_read_back(
    status: u16,
    reason: Seq<char>,
    headers: Seq<Seq<char>>,
    body: Seq<char>,
)
    requires
        is_in_line(reason),
        reason.len() > 0 ==> text::is_white_space(reason[0]),
        forall|i: int|
            0 <= i < headers.len() ==> (#[trigger] headers[i]).len() > 0 && is_in_line(headers[i]),
    ensures
        world::response_parts(answer(status, reason, headers, body)) == Ok::<
            _,
            crate::error::Failure,
        >((status, body)),
{
    reveal_strlit("HTTP/1.1 ");
    reveal_strlit("\r\n");
    let number = text::decimal(status as nat);
    let start = "HTTP/1.1 "@ + number;
    let rest = reason + more_lines(headers);
    let head = start + rest;
    let response = answer(status, reason, headers, body);
    laws::lemma_decimal(status as nat);
    assert(is_in_line(number));
    lemma_in_line_both("HTTP/1.1 "@, number);
    lemma_in_line_both(start, reason);
    lemma_is_head_line(start + reason);
    lemma_is_head_lines(start + reason, headers);
    assert(head == start + reason + more_lines(headers));
    assert(response == head + "\r\n\r\n"@ + body);
    lemma_first_blank_line(head, body);
    assert(response.take(head.len() as int) == head);
    assert(response.skip((head.len() + "\r\n\r\n"@.len()) as int) == body);
    lemma_more_lines_start(headers);
    assert(rest.len() > 0 ==> text::is_white_space(rest[0]));
    lemma_status_line(number, rest);
    laws::law_decimal_reads_back(status as nat, u16::MAX as nat);
}

proof fn lemma_is_head_lines(head: Seq<char>, lines: Seq<Seq<char>>)
    requires
        is_head(head),
        forall|i: int|
            0 <= i < lines.len() ==> (#[trigger] lines[i]).len() > 0 && is_in_line(lines[i]),
    ensures
        is_head(head + more_lines(lines)),
    decreases lines.len(),
{
    reveal_strlit("\r\n");
    if lines.len() == 0 {
        assert(head + more_lines(lines) == head);
    } else {
        let before = lines.drop_last();
        assert forall|i: int| 0 <= i < before.len() implies (#[trigger] before[i]).len() > 0
            && is_in_line(before[i]) by {
            assert(before[i] == lines[i]);
        }
        lemma_is_head_lines(head, before);
        assert(lines.last() == lines[lines.len() - 1]);
        lemma_is_head_more(head + more_lines(before), lines.last());
        assert("\r\n"@ == seq!['\r', '\n']);
        assert(head + more_lines(lines) == head + more_lines(before) + seq!['\r', '\n']
            + lines.last());
    }
}

proof fn lemma_more_lines_start(lines: Seq<Seq<char>>)
    ensures
        more_lines(lines).len() > 0 ==> more_lines(lines)[0] == '\r',
    decreases lines.len(),
{
    reveal_strlit("\r\n");
    if lines.len() > 0 {
        lemma_more_lines_start(lines.drop_last());
    }
}

proof fn lemma_status_line(number: Seq<char>, rest: Seq<char>)
    requires
        text::is_digits(number),
        rest.len() > 0 ==> text::is_white_space(rest[0]),
    ensures
        text::second_word(text::first_line("HTTP/1.1 "@ + number + rest)) == number,
{
    reveal_strlit("HTTP/1.1 ");
    reveal_strlit("HTTP/1.1");
    let start = "HTTP/1.1 "@ + number;
    let head = start + rest;
    let line = text::first_line(head);
    assert(text::is_digit(number[number.len() - 1]));
    assert(start.last() == number[number.len() - 1]);
    assert forall|i: int| 0 <= i < start.len() implies start[i] != '\n' by {
        if i >= 9 {
            assert(text::is_digit(number[i - 9]));
        }
    }
    lemma_first_line(start, rest);
    let after = line.skip(start.len() as int);
    assert(line == head.take(line.len() as int));
    assert(line == start + after);
    assert(after.len() > 0 ==> after[0] == rest[0]) by {
        if after.len() > 0 {
            assert(after[0] == head[start.len() as int]);
        }
    }
    assert(text::is_digit(number[0]));
    assert(line == "HTTP/1.1"@ + (seq![' '] + number + after));
    lemma_leading_word("HTTP/1.1"@, seq![' '] + number + after);
    assert(text::trim_start(line) == line);
    assert(line.skip(8) == seq![' '] + number + after);
    assert(line.skip(8).drop_first() == number + after);
    assert(text::trim_start(number + after) == number + after);
    assert(text::trim_start(line.skip(8)) == number + after);
    assert forall|i: int| 0 <= i < number.len() implies !text::is_white_space(#[trigger] number[i]) by {
        assert(text::is_digit(number[i]));
    }
    lemma_leading_word(number, after);
}

/// The first line holds at least what stands before the first line feed.
proof fn lemma_first_line(start: Seq<char>, rest: Seq<char>)
    requires
        start.len() > 0,
        start.last() != '\r',
        forall|i: int| 0 <= i < start.len() ==> start[i] != '\n',
    ensures
        start.len() <= text::first_line(start + rest).len() <= (start + rest).len(),
        text::first_line(start + rest) == (start + rest).take(
            text::first_line(start + rest).len() as int,
        ),
{
    let s = start + rest;
    lemma_line_feed_from(s, start.len(), 0);
    assert(s.take(s.len() as int) == s);
}

proof fn lemma_line_feed_from(s: Seq<char>, n: nat, from: nat)
    requires
        n <= s.len(),
        forall|i: int| 0 <= i < n ==> s[i] != '\n',
    ensures
        text::position_from(s, seq!['\n'], from) matches Some(at) ==> n <= at < s.len(),
    decreases s.len() - from,
{
    let feed = seq!['\n'];
    if from + 1 <= s.len() {
        if text::occurs_at(s, feed, from as int) {
            assert(s.subrange(from as int, from as int + 1)[0] == s[from as int]);
        } else {
            lemma_line_feed_from(s, n, from + 1);
        }
    }
}

proof fn lemma_leading_word(word: Seq<char>, rest: Seq<char>)
    requires
        forall|i: int| 0 <= i < word.len() ==> !text::is_white_space(#[trigger] word[i]),
        rest.len() > 0 ==> text::is_white_space(rest[0]),
    ensures
        text::leading_word(word + rest) == word,
    decreases word.len(),
{
    let s = word + rest;
    if word.len() == 0 {
        assert(s == rest);
    } else {
        assert(s.drop_first() == word.drop_first() + rest);
        lemma_leading_word(word.drop_first(), rest);
        assert(seq![s[0]] + word.drop_first() == word);
    }
}

} // verus!
