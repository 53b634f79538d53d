//! What holds of JSON texts: they read back, and the texts of the service's own
//! objects.
use vstd::prelude::*;

use crate::error;
use crate::json;
use crate::service;
use crate::state::QueueReceiptView;
use crate::text;
use crate::world;

verus! {

/// The number that a hexadecimal digit stands for.
pub open spec fn hex_value(c: char) -> Option<nat> {
    if '0' <= c <= '9' {
        Some((c as int - '0' as int) as nat)
    } else if 'a' <= c <= 'f' {
        Some((c as int - 'a' as int + 10) as nat)
    } else if 'A' <= c <= 'F' {
        Some((c as int - 'A' as int + 10) as nat)
    } else {
        None
    }
}

/// The character that a backslash and `c` stand for in a JSON string.
pub open spec fn short_escape(c: char) -> Option<char> {
    if c == '"' || c == '\\' || c == '/' {
        Some(c)
    } else if c == 'b' {
        Some('\u{8}')
    } else if c == 't' {
        Some('\u{9}')
    } else if c == 'n' {
        Some('\u{a}')
    } else if c == 'f' {
        Some('\u{c}')
    } else if c == 'r' {
        Some('\u{d}')
    } else {
        None
    }
}

/// The character whose code point four hexadecimal digits at the start of `s` give.
/// Halves of surrogate pairs are no characters.
pub open spec fn code_point(s: Seq<char>) -> Option<char> {
    if s.len() < 4 {
        None
    } else {
        match (hex_value(s[0]), hex_value(s[1]), hex_value(s[2]), hex_value(s[3])) {
            (Some(a), Some(b), Some(c), Some(d)) => {
                let code = ((a * 16 + b) * 16 + c) * 16 + d;
                if 0xd800 <= code < 0xe000 {
                    None
                } else {
                    Some(code as char)
                }
            },
            _ => None,
        }
    }
}

/// The value of a JSON string, read from after its opening quote, and what follows the
/// string; `None` where there is no such string.
pub open spec fn json_text(s: Seq<char>) -> Option<(Seq<char>, Seq<char>)>
    decreases s.len(),
{
    if s.len() == 0 || ' ' > s[0] {
        None
    } else if s[0] == '"' {
        Some((Seq::empty(), s.skip(1)))
    } else {
        let (first, rest) = if s[0] != '\\' {
            (Some(s[0]), s.skip(1))
        } else if s.len() == 1 {
            (None, s.skip(1))
        } else if s[1] == 'u' {
            (
                code_point(s.skip(2)),
                if s.len() < 6 {
                    Seq::empty()
                } else {
                    s.skip(6)
                },
            )
        } else {
            (short_escape(s[1]), s.skip(2))
        };
        match (first, json_text(rest)) {
            (Some(first), Some((value, rest))) => Some((seq![first] + value, rest)),
            _ => None,
        }
    }
}

/// A string written as JSON reads back as itself, and ends where its closing quote
/// stands.
pub proof fn law_json_strings_read_back(value: Seq<char>, rest: Seq<char>)
    ensures
        json::json_string(value)[0] == '"',
        json_text((json::json_string(value) + rest).skip(1)) == Some((value, rest)),
{
    reveal_strlit("\"");
    lemma_json_text(value, rest);
    assert((json::json_string(value) + rest).skip(1) == json::json_escaped(value).push('"')
        + rest);
}

proof fn lemma_json_text(value: Seq<char>, rest: Seq<char>)
    ensures
        json_text(json::json_escaped(value).push('"') + rest) == Some((value, rest)),
    decreases value.len(),
{
    let whole = json::json_escaped(value).push('"') + rest;
    if value.len() == 0 {
        assert(whole.skip(1) == rest);
        assert(value == Seq::<char>::empty());
    } else {
        let tail = value.drop_first();
        let after = json::json_escaped(tail).push('"') + rest;
        lemma_json_text(tail, rest);
        lemma_first_character(value[0], after, tail, rest);
        assert(whole == json::json_escape(value[0]) + after);
        assert(seq![value[0]] + tail == value);
    }
}

/// A character written as JSON reads back as itself.
proof fn lemma_first_character(c: char, after: Seq<char>, value: Seq<char>, rest: Seq<char>)
    requires
        json_text(after) == Some((value, rest)),
    ensures
        json_text(json::json_escape(c) + after) == Some((seq![c] + value, rest)),
{
    let escape = json::json_escape(c);
    let whole = escape + after;
    assert(whole.skip(escape.len() as int) == after);
    assert(whole[0] == escape[0]);
    if escape.len() == 2 {
        assert(whole[1] == escape[1]);
        assert(short_escape(whole[1]) == Some(c));
    } else if escape.len() == 6 {
        let digits = whole.skip(2);
        lemma_escape_of_control(c);
        assert(whole[1] == 'u');
        assert(digits[0] == '0' && digits[1] == '0' && digits[2] == escape[4] && digits[3]
            == escape[5]);
        assert(code_point(digits) == Some(c));
    }
}

proof fn lemma_escape_of_control(c: char)
    requires
        ' ' > c,
    ensures
        hex_value(json::hex_digit(c as int / 16)) == Some((c as int / 16) as nat),
        hex_value(json::hex_digit(c as int % 16)) == Some((c as int % 16) as nat),
        json::hex_digit(c as int / 16) >= ' ',
        json::hex_digit(c as int % 16) >= ' ',
        (((0 * 16 + 0) * 16 + c as int / 16) * 16 + c as int % 16) == c as int,
{
    lemma_hex(c as int / 16);
    lemma_hex(c as int % 16);
}

proof fn lemma_hex(n: int)
    requires
        0 <= n < 16,
    ensures
        hex_value(json::hex_digit(n)) == Some(n as nat),
        json::hex_digit(n) >= ' ',
{
}

/// A string written as JSON holds no control character: it is all on one line.
pub proof fn law_json_strings_are_printable(value: Seq<char>, i: int)
    requires
        0 <= i < json::json_string(value).len(),
    ensures
        json::json_string(value)[i] >= ' ',
{
    reveal_strlit("\"");
    let escaped = json::json_escaped(value);
    if 0 < i < escaped.len() + 1 {
        lemma_printable(value, i - 1);
        assert(json::json_string(value)[i] == escaped[i - 1]);
    }
}

proof fn lemma_printable(value: Seq<char>, i: int)
    requires
        0 <= i < json::json_escaped(value).len(),
    ensures
        json::json_escaped(value)[i] >= ' ',
    decreases value.len(),
{
    let escape = json::json_escape(value[0]);
    if i < escape.len() {
        if ' ' > value[0] {
            lemma_escape_of_control(value[0]);
        }
        assert(json::json_escaped(value)[i] == escape[i]);
    } else {
        lemma_printable(value.drop_first(), i - escape.len());
    }
}

/// The keys of an object have one order: an object is written with any list of its
/// keys that is in order.
pub proof fn law_objects_are_written_in_order(
    keys: Seq<Seq<char>>,
    members: Map<Seq<char>, Seq<char>>,
)
    requires
        json::lists(keys, members),
    ensures
        json::json_object(members) == "{"@ + json::json_members(keys, members) + "}"@,
{
    let chosen = choose|keys: Seq<Seq<char>>| json::lists(keys, members);
    assert(json::lists(chosen, members));
    assert forall|key: Seq<char>| #[trigger] keys.contains(key) <==> chosen.contains(key) by {
        assert(keys.contains(key) <==> members.dom().contains(key));
        assert(chosen.contains(key) <==> members.dom().contains(key));
    }
    lemma_one_order(keys, chosen);
}

proof fn lemma_irreflexive(a: Seq<char>)
    ensures
        !json::stands_before(a, a),
    decreases a.len(),
{
    if a.len() > 0 {
        lemma_irreflexive(a.drop_first());
    }
}

proof fn lemma_transitive(a: Seq<char>, b: Seq<char>, c: Seq<char>)
    requires
        json::stands_before(a, b),
        json::stands_before(b, c),
    ensures
        json::stands_before(a, c),
    decreases a.len(),
{
    if a.len() > 0 && b.len() > 0 && c.len() > 0 && a[0] == b[0] && b[0] == c[0] {
        lemma_transitive(a.drop_first(), b.drop_first(), c.drop_first());
    }
}

proof fn lemma_last_is_last(a: Seq<Seq<char>>, key: Seq<char>)
    requires
        json::in_order(a),
        a.contains(key),
    ensures
        key == a.last() || json::stands_before(key, a.last()),
{
    let i = choose|i: int| 0 <= i < a.len() && a[i] == key;
    if i < a.len() - 1 {
        assert(json::stands_before(a[i], a[a.len() - 1]));
    }
}

proof fn lemma_without_last(a: Seq<Seq<char>>, key: Seq<char>)
    requires
        a.len() > 0,
        json::in_order(a),
    ensures
        a.drop_last().contains(key) <==> a.contains(key) && key != a.last(),
        json::in_order(a.drop_last()),
{
    let before = a.drop_last();
    if before.contains(key) {
        let i = choose|i: int| 0 <= i < before.len() && before[i] == key;
        assert(a[i] == key);
        assert(json::stands_before(a[i], a[a.len() - 1]));
        lemma_irreflexive(key);
    }
    if a.contains(key) && key != a.last() {
        let i = choose|i: int| 0 <= i < a.len() && a[i] == key;
        assert(before[i] == key);
    }
    assert forall|i: int, j: int| 0 <= i < j < before.len() implies json::stands_before(
        #[trigger] before[i],
        #[trigger] before[j],
    ) by {
        assert(json::stands_before(a[i], a[j]));
    }
}

proof fn lemma_one_order(a: Seq<Seq<char>>, b: Seq<Seq<char>>)
    requires
        json::in_order(a),
        json::in_order(b),
        forall|key: Seq<char>| #[trigger] a.contains(key) <==> b.contains(key),
    ensures
        a == b,
    decreases a.len(),
{
    if a.len() == 0 {
        if b.len() > 0 {
            assert(b.contains(b[0]));
            assert(a.contains(b[0]));
        }
    } else {
        assert(a.contains(a.last()));
        assert(b.contains(a.last()));
        assert(b.contains(b.last()));
        assert(a.contains(b.last()));
        lemma_last_is_last(a, b.last());
        lemma_last_is_last(b, a.last());
        if a.last() != b.last() {
            lemma_transitive(a.last(), b.last(), a.last());
            lemma_irreflexive(a.last());
        }
        assert forall|key: Seq<char>| #[trigger] a.drop_last().contains(key)
            <==> b.drop_last().contains(key) by {
            lemma_without_last(a, key);
            lemma_without_last(b, key);
            assert(a.contains(key) <==> b.contains(key));
        }
        lemma_without_last(a, a.last());
        lemma_without_last(b, b.last());
        lemma_one_order(a.drop_last(), b.drop_last());
        assert(a == a.drop_last().push(a.last()));
        assert(b == b.drop_last().push(b.last()));
    }
}

/// An object with one member.
proof fn lemma_object_of_one(key: Seq<char>, value: Seq<char>)
    ensures
        json::json_object(map![key => value]) == "{"@ + json::json_string(key) + ":"@ + value
            + "}"@,
{
    let members = map![key => value];
    let keys = seq![key];
    assert forall|k: Seq<char>| #[trigger] keys.contains(k) <==> members.dom().contains(k) by {
        assert(keys[0] == key);
    }
    law_objects_are_written_in_order(keys, members);
    assert("{"@ + json::json_members(keys, members) + "}"@ == "{"@ + json::json_string(key) + ":"@
        + value + "}"@);
}

/// An object with two members, in the order of their keys.
proof fn lemma_object_of_two(a: Seq<char>, x: Seq<char>, b: Seq<char>, y: Seq<char>)
    requires
        json::stands_before(a, b),
    ensures
        json::json_object(map![a => x, b => y]) == "{"@ + json::json_string(a) + ":"@ + x + ","@
            + json::json_string(b) + ":"@ + y + "}"@,
{
    let members = map![a => x, b => y];
    let keys = seq![a, b];
    lemma_irreflexive(a);
    assert forall|k: Seq<char>| #[trigger] keys.contains(k) <==> members.dom().contains(k) by {
        assert(keys[0] == a && keys[1] == b);
    }
    law_objects_are_written_in_order(keys, members);
    assert(keys.drop_last() == seq![a]);
    reveal_with_fuel(json::json_members, 3);
    assert("{"@ + json::json_members(keys, members) + "}"@ == "{"@ + json::json_string(a) + ":"@
        + x + ","@ + json::json_string(b) + ":"@ + y + "}"@);
}

/// The body of a request to the world server is an object with one member, the
/// command: it starts the same for every command, and the JSON string in it reads back
/// as the command.
pub proof fn law_command_bodies_carry_the_command(command: Seq<char>)
    ensures
        ({
            let body = world::command_body(command);
            let start = "{\"command\":\""@;
            &&& start.is_prefix_of(body)
            &&& json_text(body.skip(start.len() as int)) == Some((command, "}"@))
        }),
{
    let body = world::command_body(command);
    let start = "{\"command\":\""@;
    lemma_object_of_one("command"@, json::json_string(command));
    reveal_strlit("{\"command\":\"");
    reveal_strlit("command");
    reveal_strlit("{");
    reveal_strlit("\"");
    reveal_strlit(":");
    lemma_plain("command"@);
    let text = json::json_string(command) + "}"@;
    assert(body == "{"@ + json::json_string("command"@) + ":"@ + text);
    assert(body.subrange(0, start.len() as int) == start);
    assert(body.skip(start.len() as int) == text.skip(1));
    law_json_strings_read_back(command, "}"@);
}

/// A text without quotes, backslashes and control characters is written as it is.
proof fn lemma_plain(s: Seq<char>)
    requires
        forall|i: int| 0 <= i < s.len() ==> #[trigger] s[i] >= ' ' && s[i] != '"' && s[i] != '\\',
    ensures
        json::json_escaped(s) == s,
    decreases s.len(),
{
    if s.len() > 0 {
        lemma_plain(s.drop_first());
        assert(seq![s[0]] + s.drop_first() == s);
    }
}

/// The body of an answer that tells of a failure, in full.
pub proof fn law_failure_bodies(message: Seq<char>)
    ensures
        json::json_object(error::failure_members(message)) == "{\"error\":"@ + json::json_string(
            message,
        ) + ",\"ok\":false}"@,
{
    reveal_strlit("error");
    reveal_strlit("ok");
    reveal_strlit("false");
    reveal_strlit("{");
    reveal_strlit("}");
    reveal_strlit(":");
    reveal_strlit(",");
    reveal_strlit("\"");
    reveal_strlit("{\"error\":");
    reveal_strlit(",\"ok\":false}");
    let text = json::json_string(message);
    assert("error"@[0] == 'e' && "ok"@[0] == 'o');
    lemma_object_of_two("error"@, text, "ok"@, json::json_flag(false));
    assert(error::failure_members(message) == map!["error"@ => text, "ok"@ => json::json_flag(
        false,
    )]);
    lemma_plain("error"@);
    lemma_plain("ok"@);
    assert("{"@ + json::json_string("error"@) + ":"@ == "{\"error\":"@);
    assert(","@ + json::json_string("ok"@) + ":"@ + json::json_flag(false) + "}"@
        == ",\"ok\":false}"@);
    assert(json::json_object(error::failure_members(message)) == ("{"@ + json::json_string(
        "error"@,
    ) + ":"@) + text + (","@ + json::json_string("ok"@) + ":"@ + json::json_flag(false) + "}"@));
}

/// The body of an answer that tells of a status, in full.
pub proof fn law_status_bodies(status: Seq<char>)
    ensures
        service::status_reply(status).body == "{\"status\":"@ + json::json_string(status) + "}"@,
{
    reveal_strlit("status");
    reveal_strlit("{");
    reveal_strlit(":");
    reveal_strlit("\"");
    reveal_strlit("{\"status\":");
    lemma_object_of_one("status"@, json::json_string(status));
    lemma_plain("status"@);
    assert("{"@ + json::json_string("status"@) + ":"@ == "{\"status\":"@);
}

/// The body of the answer to a command that was taken, in full.
pub proof fn law_receipt_bodies(receipt: QueueReceiptView)
    ensures
        service::queue_reply(Ok(Ok(receipt)))->Ok_0.body
            == "{\"ok\":true,\"queued\":{\"command\":"@ + json::json_string(receipt.command)
            + ",\"id\":"@ + text::decimal(receipt.id as nat) + ",\"realm_id\":"@ + text::decimal(
            receipt.realm_id as nat,
        ) + ",\"run_at_unix\":"@ + text::decimal(receipt.run_at_unix as nat) + "}}"@,
{
    reveal_strlit("ok");
    reveal_strlit("queued");
    reveal_strlit("true");
    reveal_strlit("{");
    reveal_strlit("}");
    reveal_strlit(":");
    reveal_strlit(",");
    reveal_strlit("\"");
    reveal_strlit("}}");
    reveal_strlit("{\"command\":");
    reveal_strlit("{\"ok\":true,\"queued\":{\"command\":");
    let inner = json::json_object(service::receipt_members(receipt));
    let ok = json::json_flag(true);
    assert("ok"@[0] == 'o' && "queued"@[0] == 'q');
    lemma_object_of_two("ok"@, ok, "queued"@, inner);
    lemma_plain("ok"@);
    lemma_plain("queued"@);
    lemma_receipt(receipt);
    let start = "{"@ + json::json_string("ok"@) + ":"@ + ok + ","@ + json::json_string("queued"@)
        + ":"@;
    let rest = json::json_string(receipt.command) + ",\"id\":"@ + text::decimal(receipt.id as nat)
        + ",\"realm_id\":"@ + text::decimal(receipt.realm_id as nat) + ",\"run_at_unix\":"@
        + text::decimal(receipt.run_at_unix as nat);
    assert(start + "{\"command\":"@ == "{\"ok\":true,\"queued\":{\"command\":"@);
    assert("}"@ + "}"@ == "}}"@);
    assert(inner == "{\"command\":"@ + rest + "}"@);
    assert(service::queue_reply(Ok(Ok(receipt)))->Ok_0.body == start + inner + "}"@);
    assert(start + inner + "}"@ == (start + "{\"command\":"@) + rest + ("}"@ + "}"@));
}

proof fn lemma_receipt(receipt: QueueReceiptView)
    ensures
        json::json_object(service::receipt_members(receipt)) == "{\"command\":"@
            + json::json_string(receipt.command) + ",\"id\":"@ + text::decimal(receipt.id as nat)
            + ",\"realm_id\":"@ + text::decimal(receipt.realm_id as nat) + ",\"run_at_unix\":"@
            + text::decimal(receipt.run_at_unix as nat) + "}"@,
{
    reveal_strlit("command");
    reveal_strlit("id");
    reveal_strlit("realm_id");
    reveal_strlit("run_at_unix");
    reveal_strlit("{");
    reveal_strlit(":");
    reveal_strlit(",");
    reveal_strlit("\"");
    reveal_strlit("{\"command\":");
    reveal_strlit(",\"id\":");
    reveal_strlit(",\"realm_id\":");
    reveal_strlit(",\"run_at_unix\":");
    let members = service::receipt_members(receipt);
    let keys = seq!["command"@, "id"@, "realm_id"@, "run_at_unix"@];
    assert("command"@[0] == 'c' && "id"@[0] == 'i' && "realm_id"@[0] == 'r' && "run_at_unix"@[0]
        == 'r');
    assert(json::stands_before("realm_id"@, "run_at_unix"@)) by {
        assert("realm_id"@.drop_first()[0] == 'e' && "run_at_unix"@.drop_first()[0] == 'u');
        reveal_with_fuel(json::stands_before, 2);
    }
    assert(json::in_order(keys));
    assert forall|k: Seq<char>| #[trigger] keys.contains(k) <==> members.dom().contains(k) by {
        assert(keys[0] == "command"@ && keys[1] == "id"@ && keys[2] == "realm_id"@ && keys[3]
            == "run_at_unix"@);
    }
    law_objects_are_written_in_order(keys, members);
    let three = keys.drop_last();
    let two = three.drop_last();
    let one = two.drop_last();
    assert(three.last() == keys[2] && two.last() == keys[1] && one.last() == keys[0]);
    lemma_plain("command"@);
    lemma_plain("id"@);
    lemma_plain("realm_id"@);
    lemma_plain("run_at_unix"@);
    assert("{"@ + json::json_string("command"@) + ":"@ == "{\"command\":"@);
    assert(","@ + json::json_string("id"@) + ":"@ == ",\"id\":"@);
    assert(","@ + json::json_string("realm_id"@) + ":"@ == ",\"realm_id\":"@);
    assert(","@ + json::json_string("run_at_unix"@) + ":"@ == ",\"run_at_unix\":"@);
    let a = json::json_string("command"@) + ":"@ + members["command"@];
    let b = json::json_string("id"@) + ":"@ + members["id"@];
    let c = json::json_string("realm_id"@) + ":"@ + members["realm_id"@];
    let d = json::json_string("run_at_unix"@) + ":"@ + members["run_at_unix"@];
    assert(json::json_members(one, members) == a);
    assert(json::json_members(two, members) == a + ","@ + b);
    assert(json::json_members(three, members) == a + ","@ + b + ","@ + c);
    assert(json::json_members(keys, members) == a + ","@ + b + ","@ + c + ","@ + d);
    assert("{"@ + a == "{\"command\":"@ + members["command"@]);
    assert(","@ + b == ",\"id\":"@ + members["id"@]);
    assert(","@ + c == ",\"realm_id\":"@ + members["realm_id"@]);
    assert(","@ + d == ",\"run_at_unix\":"@ + members["run_at_unix"@]);
    assert(json::json_object(members) == ("{"@ + a) + (","@ + b) + (","@ + c) + (","@ + d)
        + "}"@);
}

} // verus!
