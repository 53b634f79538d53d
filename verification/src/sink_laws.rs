//! What the two sinks send, and what they make of the answers, told by what stands in
//! them.
use vstd::prelude::*;

use crate::error::Failure;
use crate::laws;
use crate::mariadb;
use crate::mariadb::DatabaseView;
use crate::mariadb::ProcessOutputView;
use crate::state::QueueCommandView;
use crate::state::QueueReceiptView;
use crate::text;
use crate::text_laws;
use crate::world;
use crate::world::TransportErrorView;
use crate::world::TransportStage;
use crate::world::UrlView;
use crate::world::WorldView;
use crate::world_laws;

verus! {

/// Whether a receipt is for a command, under the number `id`.
pub open spec fn confirms(receipt: QueueReceiptView, request: QueueCommandView, id: u64) -> bool {
    &&& receipt.id == id
    &&& receipt.realm_id == request.realm_id
    &&& receipt.command == request.command
    &&& receipt.run_at_unix == request.run_at_unix
}

/// The world server has taken a command exactly where it answers with the status 200,
/// 201 or 202; the receipt then confirms the command under the number 0. Any other
/// status is an upstream failure that tells the status and the body.
pub proof fn law_answers_tell_whether_a_command_was_taken(
    request: QueueCommandView,
    base_url: Seq<char>,
    status: u16,
    reason: Seq<char>,
    headers: Seq<Seq<char>>,
    before: Seq<char>,
    body: Seq<char>,
    after: Seq<char>,
)
    requires
        world_laws::is_in_line(reason),
        reason.len() > 0 ==> text::is_white_space(reason[0]),
        forall|i: int|
            0 <= i < headers.len() ==> (#[trigger] headers[i]).len() > 0 && world_laws::is_in_line(
                headers[i],
            ),
        text_laws::is_blank(before),
        laws::is_trim(body),
        text_laws::is_blank(after),
    ensures
        ({
            let answer = world_laws::answer(status, reason, headers, before + body + after);
            let r = world::command_receipt(request, world::performed(Ok(answer), base_url));
            &&& r is Ok <==> status == 200 || status == 201 || status == 202
            &&& r matches Ok(receipt) ==> confirms(receipt, request, 0)
            &&& r matches Err(failure) ==> failure == Failure::Upstream(
                "world API command call returned "@ + text::decimal(status as nat) + ": "@ + body,
            )
        }),
{
    world_laws::law_answers_read_back(status, reason, headers, before + body + after);
    text_laws::law_trimming_keeps_the_middle(before, body, after);
}

/// The world server is healthy exactly where it answers with the status 200. Any other
/// status is an upstream failure that tells the status and the body.
pub proof fn law_answers_tell_whether_the_world_is_healthy(
    base_url: Seq<char>,
    status: u16,
    reason: Seq<char>,
    headers: Seq<Seq<char>>,
    before: Seq<char>,
    body: Seq<char>,
    after: Seq<char>,
)
    requires
        world_laws::is_in_line(reason),
        reason.len() > 0 ==> text::is_white_space(reason[0]),
        forall|i: int|
            0 <= i < headers.len() ==> (#[trigger] headers[i]).len() > 0 && world_laws::is_in_line(
                headers[i],
            ),
        text_laws::is_blank(before),
        laws::is_trim(body),
        text_laws::is_blank(after),
    ensures
        ({
            let answer = world_laws::answer(status, reason, headers, before + body + after);
            let r = world::health(world::performed(Ok(answer), base_url));
            &&& r is Ok <==> status == 200
            &&& r matches Err(failure) ==> failure == Failure::Upstream(
                "world API healthcheck returned "@ + text::decimal(status as nat) + ": "@ + body,
            )
        }),
{
    world_laws::law_answers_read_back(status, reason, headers, before + body + after);
    text_laws::law_trimming_keeps_the_middle(before, body, after);
}

/// What a failed connection means, by what it was used for: what failed before the
/// request was sent is a dependency's failure, what failed later is upstream. The
/// server then does not count as healthy, nor the command as taken.
pub proof fn law_failed_connections(
    request: QueueCommandView,
    base_url: Seq<char>,
    stage: TransportStage,
    error: Seq<char>,
)
    ensures
        ({
            let failed = world::performed(Err(TransportErrorView { stage, error }), base_url);
            let failure = match stage {
                TransportStage::Connect => Failure::Dependency(
                    "failed to connect to "@ + base_url + ": "@ + error,
                ),
                TransportStage::SetReadTimeout => Failure::Dependency(
                    "failed to set read timeout: "@ + error,
                ),
                TransportStage::SetWriteTimeout => Failure::Dependency(
                    "failed to set write timeout: "@ + error,
                ),
                TransportStage::Write => Failure::Upstream(
                    "failed to write world API request: "@ + error,
                ),
                TransportStage::Flush => Failure::Upstream(
                    "failed to flush world API request: "@ + error,
                ),
                TransportStage::Read => Failure::Upstream(
                    "failed to read world API response: "@ + error,
                ),
            };
            &&& failed == Err::<(u16, Seq<char>), _>(failure)
            &&& world::health(failed) == Err::<(), _>(failure)
            &&& world::command_receipt(request, failed) == Err::<QueueReceiptView, _>(failure)
        }),
{
}

/// An answer is split at its first blank line; without one it is all headers.
pub proof fn law_answers_are_split_at_the_first_blank_line(head: Seq<char>, body: Seq<char>)
    ensures
        (forall|i: int|
            0 <= i < head.len() ==> !#[trigger] text_laws::stands_at(
                head + "\r\n\r\n"@ + body,
                "\r\n\r\n"@,
                i,
            )) ==> world::response_head(head + "\r\n\r\n"@ + body) == head && world::response_body(
            head + "\r\n\r\n"@ + body,
        ) == body,
        (forall|i: int| !#[trigger] text_laws::stands_at(head, "\r\n\r\n"@, i))
            ==> world::response_head(head) == head && world::response_body(head) == Seq::<
            char,
        >::empty(),
{
    let blank = "\r\n\r\n"@;
    reveal_strlit("\r\n\r\n");
    let whole = head + blank + body;
    text_laws::law_texts_are_found_where_they_first_stand(whole, blank);
    text_laws::law_texts_are_found_where_they_first_stand(head, blank);
    assert(text_laws::stands_at(whole, blank, head.len() as int)) by {
        assert forall|k: int| 0 <= k < blank.len() implies #[trigger] whole[head.len() + k]
            == blank[k] by {}
    }
    assert(whole.take(head.len() as int) == head);
    assert(whole.skip((head.len() + blank.len()) as int) == body);
}

/// An answer whose first line has no status as its second word is an upstream failure
/// that tells the line.
pub proof fn law_answers_need_a_status(response: Seq<char>, base_url: Seq<char>)
    ensures
        ({
            let line = text::first_line(world::response_head(response));
            let status = text::unsigned(text::second_word(line), 65535);
            let r = world::performed(Ok(response), base_url);
            &&& status is None ==> r == Err::<(u16, Seq<char>), _>(
                Failure::Upstream("unexpected world API status line: "@ + line),
            )
            &&& status is Some ==> r is Ok && r->Ok_0.0 as nat == status->0 && r->Ok_0.1
                == world::response_body(response)
        }),
{
}

/// A request is, line by line: the method, the path and the protocol; the host; the
/// key; for a body that is not empty, that it is JSON and how many bytes it has; and
/// that the connection is to be closed. Then comes a blank line, and the body.
pub proof fn law_requests_line_by_line(
    world: WorldView,
    method: Seq<char>,
    path: Seq<char>,
    body: Seq<char>,
)
    ensures
        ({
            let host = "Host: "@ + world.host;
            let key = "X-API-Key: "@ + world.api_key;
            let close = "Connection: close"@;
            let typed = "Content-Type: application/json"@;
            let sized = "Content-Length: "@ + text::decimal(vstd::utf8::encode_utf8(body).len());
            let headers = if body.len() == 0 {
                seq![host, key, close]
            } else {
                seq![host, key, typed, sized, close]
            };
            world.request(method, path, body) == method + " "@ + path + " HTTP/1.1"@
                + world_laws::more_lines(headers) + "\r\n\r\n"@ + body
        }),
{
    let host = "Host: "@ + world.host;
    let key = "X-API-Key: "@ + world.api_key;
    let close = "Connection: close"@;
    let typed = "Content-Type: application/json"@;
    let number = text::decimal(vstd::utf8::encode_utf8(body).len());
    let sized = "Content-Length: "@ + number;
    let end = "\r\n"@;
    let blank = "\r\n\r\n"@;
    let start = method + " "@ + path;
    let request = world.request(method, path, body);
    lemma_literals();
    let head = start + (" HTTP/1.1"@ + end + "Host: "@) + world.host + (end + "X-API-Key: "@)
        + world.api_key;
    let h1 = seq![host];
    let h2 = seq![host, key];
    reveal_with_fuel(world_laws::more_lines, 2);
    assert(h1.drop_last() == Seq::<Seq<char>>::empty());
    assert(world_laws::more_lines(h1) == end + host);
    assert(h2.drop_last() == h1);
    assert(world_laws::more_lines(h2) == end + host + end + key);
    assert(start + " HTTP/1.1"@ + (end + host + end + key) == head);
    if body.len() == 0 {
        let h3 = seq![host, key, close];
        assert(h3.drop_last() == h2);
        assert(world_laws::more_lines(h3) == end + host + end + key + end + close);
        assert(request == head + (end + close + blank));
        assert(body == Seq::<char>::empty());
        assert(head + (end + close + blank) == start + " HTTP/1.1"@ + (end + host + end + key + end
            + close) + blank + body);
    } else {
        let h3 = seq![host, key, typed];
        let h4 = seq![host, key, typed, sized];
        let h5 = seq![host, key, typed, sized, close];
        assert(h3.drop_last() == h2);
        assert(h4.drop_last() == h3);
        assert(h5.drop_last() == h4);
        assert(world_laws::more_lines(h3) == end + host + end + key + end + typed);
        assert(world_laws::more_lines(h4) == end + host + end + key + end + typed + end + sized);
        let lines = end + host + end + key + end + typed + end + sized + end + close;
        assert(world_laws::more_lines(h5) == lines);
        assert(request == head + (end + typed + end + "Content-Length: "@) + number + (end + close
            + blank) + body);
        assert(start + " HTTP/1.1"@ + lines + blank + body == head + (end + typed + end
            + "Content-Length: "@) + number + (end + close + blank) + body);
    }
}

proof fn lemma_literals()
    ensures
        " HTTP/1.1\r\nHost: "@ == " HTTP/1.1"@ + "\r\n"@ + "Host: "@,
        "\r\nX-API-Key: "@ == "\r\n"@ + "X-API-Key: "@,
        "\r\nConnection: close\r\n\r\n"@ == "\r\n"@ + "Connection: close"@ + "\r\n\r\n"@,
        "\r\nContent-Type: application/json\r\nContent-Length: "@ == "\r\n"@
            + "Content-Type: application/json"@ + "\r\n"@ + "Content-Length: "@,
{
    reveal_strlit("\r\n");
    reveal_strlit("\r\n\r\n");
    reveal_strlit(" HTTP/1.1");
    reveal_strlit("Host: ");
    reveal_strlit(" HTTP/1.1\r\nHost: ");
    reveal_strlit("X-API-Key: ");
    reveal_strlit("\r\nX-API-Key: ");
    reveal_strlit("Connection: close");
    reveal_strlit("\r\nConnection: close\r\n\r\n");
    reveal_strlit("Content-Type: application/json");
    reveal_strlit("Content-Length: ");
    reveal_strlit("\r\nContent-Type: application/json\r\nContent-Length: ");
}

/// The path of an API is its suffix after the base path, of which only the slashes at
/// its end are dropped.
pub proof fn law_paths_keep_the_base(
    world: WorldView,
    base: Seq<char>,
    slashes: nat,
    suffix: Seq<char>,
)
    requires
        world.base_path == base + Seq::new(slashes, |i: int| '/'),
        base.len() > 0 ==> base.last() != '/',
    ensures
        world.path(suffix) == base + suffix,
{
    world_laws::law_paths_join_at_one_slash(world, suffix);
    lemma_slashes(base, slashes);
}

proof fn lemma_slashes(base: Seq<char>, slashes: nat)
    requires
        base.len() > 0 ==> base.last() != '/',
    ensures
        text::without_trailing(base + Seq::new(slashes, |i: int| '/'), '/') == base,
    decreases slashes,
{
    let s = base + Seq::new(slashes, |i: int| '/');
    if slashes == 0 {
        assert(s == base);
    } else {
        let fewer = (slashes - 1) as nat;
        assert(s.drop_last() == base + Seq::new(fewer, |i: int| '/'));
        lemma_slashes(base, fewer);
    }
}

/// A world server is named exactly by a URL that can be read, with the scheme `http`
/// and a host. The port is that of the URL, or 80; the base path is that of the URL, or
/// the root; URL, key and host are kept as they are, and the timeout but for 0.
pub proof fn law_world_servers(
    url: UrlView,
    base_url: Seq<char>,
    api_key: Seq<char>,
    timeout_seconds: u64,
)
    ensures
        ({
            let r = world::world_at(Ok(url), base_url, api_key, timeout_seconds);
            &&& r is Ok <==> url.scheme == Some("http"@) && url.host is Some
            &&& r matches Ok(world) ==> {
                &&& world.base_url == base_url
                &&& world.api_key == api_key
                &&& Some(world.host) == url.host
                &&& url.port is Some ==> Some(world.port) == url.port
                &&& url.port is None ==> world.port == 80
                &&& url.path.len() > 0 ==> world.base_path == url.path
                &&& url.path.len() == 0 ==> world.base_path == "/"@
                &&& timeout_seconds > 0 ==> world.timeout_seconds == timeout_seconds
                &&& timeout_seconds == 0 ==> world.timeout_seconds == 1
            }
            &&& url.scheme != Some("http"@) ==> r == Err::<WorldView, _>(
                Failure::Dependency("GM_TOOL_WORLD_BASE_URL must use http scheme"@),
            )
            &&& url.scheme == Some("http"@) && url.host is None ==> r == Err::<WorldView, _>(
                Failure::Dependency("GM_TOOL_WORLD_BASE_URL must include a host"@),
            )
        }),
{
}

/// A world server is missed where the configuration lacks the URL or the key, and its
/// URL is at fault where it cannot be read; with both, the server is that of the URL.
pub proof fn law_world_servers_need_url_and_key(
    base_url: Seq<char>,
    api_key: Option<Seq<char>>,
    timeout_seconds: u64,
)
    ensures
        world::world_of(None, api_key, timeout_seconds) == Err::<WorldView, _>(
            Failure::Dependency(
                "GM_TOOL_WORLD_BASE_URL is required in direct_world_http mode"@,
            ),
        ),
        world::world_of(Some(base_url), None, timeout_seconds) == Err::<WorldView, _>(
            Failure::Dependency("GM_TOOL_WORLD_API_KEY is required in direct_world_http mode"@),
        ),
        api_key matches Some(key) ==> world::world_of(Some(base_url), api_key, timeout_seconds)
            == world::world_at(world::parsed_url(base_url), base_url, key, timeout_seconds),
        forall|error: Seq<char>, key: Seq<char>|
            #[trigger] world::world_at(Err(error), base_url, key, timeout_seconds) == Err::<
                WorldView,
                _,
            >(Failure::Dependency("invalid GM_TOOL_WORLD_BASE_URL: "@ + error)),
{
}

/// The call that runs a statement: the client, with the host, the port, the user and
/// the database each after its option, plain output, and the statement at the end. The
/// password stands in the environment alone.
pub proof fn law_calls_name_the_database(database: DatabaseView, sql: Seq<char>)
    ensures
        ({
            let call = database.call(sql);
            let arguments = call.arguments;
            &&& call.program == "mariadb"@
            &&& arguments.len() == 13
            &&& arguments[0] == "--host"@ && arguments[1] == database.host
            &&& arguments[2] == "--port"@ && text::unsigned(arguments[3], 65535) == Some(
                database.port as nat,
            )
            &&& arguments[3] == text::decimal(database.port as nat)
            &&& arguments[4] == "--user"@ && arguments[5] == database.user
            &&& arguments[6] == "--database"@ && arguments[7] == database.name
            &&& arguments[8] == "--batch"@ && arguments[9] == "--raw"@ && arguments[10]
                == "--skip-column-names"@
            &&& arguments[11] == "--execute"@ && arguments[12] == sql
            &&& call.variables.len() == 1
            &&& call.variables[0].0 == "MYSQL_PWD"@ && call.variables[0].1 == database.password
        }),
{
    laws::law_decimal_reads_back(database.port as nat, 65535);
}

/// A statement succeeds exactly where the client does, with what the client printed; a
/// failure is upstream and tells what the client complained of, or how it ended. In
/// both, white space around the text is dropped.
pub proof fn law_statements_succeed_with_the_client(
    output: ProcessOutputView,
    before: Seq<char>,
    middle: Seq<char>,
    after: Seq<char>,
)
    requires
        text_laws::is_blank(before),
        laws::is_trim(middle),
        text_laws::is_blank(after),
    ensures
        ({
            let r = mariadb::sql_output(Ok(output));
            let text = before + middle + after;
            &&& r is Ok <==> output.success
            &&& output.success && mariadb::utf8_lossy(output.stdout) == text ==> r == Ok::<
                _,
                Failure,
            >(middle)
            &&& !output.success && mariadb::utf8_lossy(output.stderr) == text ==> r == Err::<
                Seq<char>,
                _,
            >(
                Failure::Upstream(
                    if middle.len() > 0 {
                        middle
                    } else {
                        "mariadb exited with "@ + output.status
                    },
                ),
            )
        }),
{
    text_laws::law_trimming_keeps_the_middle(before, middle, after);
}

/// The same of the texts that the client left behind, and of a client that did not
/// start.
pub proof fn law_statement_results(
    status: Seq<char>,
    other: Seq<char>,
    before: Seq<char>,
    middle: Seq<char>,
    after: Seq<char>,
)
    requires
        text_laws::is_blank(before),
        laws::is_trim(middle),
        text_laws::is_blank(after),
    ensures
        mariadb::statement_result(true, status, before + middle + after, other) == Ok::<_, Failure>(
            middle,
        ),
        mariadb::statement_result(false, status, other, before + middle + after) == Err::<
            Seq<char>,
            _,
        >(
            Failure::Upstream(
                if middle.len() > 0 {
                    middle
                } else {
                    "mariadb exited with "@ + status
                },
            ),
        ),
        mariadb::sql_output(Err(status)) == Err::<Seq<char>, _>(
            Failure::Dependency("failed to spawn mariadb: "@ + status),
        ),
{
    text_laws::law_trimming_keeps_the_middle(before, middle, after);
}

/// A receipt's number is the numeral on the last line, with white space around it at
/// most; where no number that fits stands there, the whole output is reported.
pub proof fn law_receipt_numbers_stand_on_the_last_line(
    request: QueueCommandView,
    earlier: Seq<char>,
    before: Seq<char>,
    middle: Seq<char>,
    after: Seq<char>,
)
    requires
        earlier.len() > 0 ==> earlier.last() == '\n',
        text_laws::is_blank(before),
        laws::is_trim(middle),
        middle.len() > 0,
        text_laws::is_blank(after),
        !(before + middle + after).contains('\n'),
    ensures
        ({
            let output = earlier + (before + middle + after);
            let r = mariadb::insert_receipt(request, output);
            let id = text::unsigned(middle, 0xffff_ffff_ffff_ffff);
            &&& r is Ok <==> id is Some
            &&& r matches Ok(receipt) ==> confirms(receipt, request, id->0 as u64)
            &&& r is Err ==> r->Err_0 == Failure::Upstream(
                "unexpected LAST_INSERT_ID output: "@ + output,
            )
        }),
{
    text_laws::law_last_lines(earlier, before + middle + after);
    text_laws::law_trimming_keeps_the_middle(before, middle, after);
}

/// A command is confirmed where its statement succeeded and printed a number, and is
/// answered with the statement's failure where it failed.
pub proof fn law_failed_statements_queue_nothing(
    request: QueueCommandView,
    output: Seq<char>,
    failure: Failure,
)
    ensures
        mariadb::queued(request, Err(failure)) == Err::<QueueReceiptView, _>(failure),
        mariadb::queued(request, Ok(output)) == mariadb::insert_receipt(request, output),
        mariadb::queued(request, Ok(output)) matches Ok(receipt) ==> confirms(
            receipt,
            request,
            receipt.id,
        ),
{
}

/// Every number that a database gives a command comes back in the receipt.
pub proof fn law_every_number_is_confirmed(request: QueueCommandView, id: u64)
    ensures
        mariadb::insert_receipt(request, text::decimal(id as nat)) matches Ok(receipt) && confirms(
            receipt,
            request,
            id,
        ),
{
    laws::law_insert_numbers_read_back(request, Seq::empty(), id);
}

/// A receipt is given exactly where the last line of the output, without the white space
/// around it, is a number of 64 bits; it confirms the command under that number.
pub proof fn law_receipts_need_a_number(request: QueueCommandView, output: Seq<char>)
    ensures
        ({
            let r = mariadb::insert_receipt(request, output);
            let id = text::unsigned(
                text::trimmed(text::last_line(output)),
                0xffff_ffff_ffff_ffff,
            );
            &&& r is Ok <==> id is Some
            &&& r matches Ok(receipt) ==> confirms(receipt, request, id->0 as u64) && receipt.id
                as nat == id->0
            &&& r is Err ==> r->Err_0 == Failure::Upstream(
                "unexpected LAST_INSERT_ID output: "@ + output,
            )
        }),
        mariadb::insert_receipt(request, Seq::empty()) is Err,
{
    text_laws::law_empty_texts_have_an_empty_line();
    assert(!text::is_digits(text::without_plus(Seq::empty())));
}

} // verus!
