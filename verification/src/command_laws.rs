//! What requests are turned into, told by the words that they hold.
use vstd::prelude::*;

use crate::command;
use crate::error::Failure;
use crate::laws;
use crate::mariadb;
use crate::service::Order;
use crate::state::QueueCommandView;
use crate::state::Settings;
use crate::text;
use crate::text_laws;

verus! {

/// The words of `s`: its longest runs without white space, in order.
pub open spec fn words(s: Seq<char>) -> Seq<Seq<char>>
    decreases s.len(),
{
    if s.len() == 0 {
        Seq::empty()
    } else {
        let before = words(s.drop_last());
        if text::is_white_space(s.last()) {
            before
        } else if s.len() >= 2 && !text::is_white_space(s[s.len() - 2]) {
            before.drop_last().push(before.last().push(s.last()))
        } else {
            before.push(seq![s.last()])
        }
    }
}

proof fn lemma_add_word(start: Seq<char>, word: Seq<char>)
    requires
        start.len() > 0 ==> text::is_white_space(start.last()),
        text_laws::is_word(word),
    ensures
        words(start + word) == words(start).push(word),
    decreases word.len(),
{
    let whole = start + word;
    let shorter = word.drop_last();
    assert(whole.last() == word[word.len() - 1]);
    assert(whole.drop_last() == start + shorter);
    if shorter.len() == 0 {
        assert(whole.drop_last() == start);
        if start.len() > 0 {
            assert(whole[whole.len() - 2] == start.last());
        }
        assert(word == seq![word.last()]);
    } else {
        lemma_add_word(start, shorter);
        assert(whole[whole.len() - 2] == word[word.len() - 2]);
        assert(words(start).push(shorter).drop_last() == words(start));
        assert(shorter.push(word.last()) == word);
    }
}

proof fn lemma_add_space(start: Seq<char>)
    ensures
        words(start + " "@) == words(start),
        (start + " "@).last() == ' ',
{
    reveal_strlit(" ");
    assert((start + " "@).drop_last() == start);
}

/// Whether a command can be queued: not empty, 512 bytes at most, and without NUL and
/// the ends of lines.
pub open spec fn is_queueable(command: Seq<char>) -> bool {
    &&& command.len() > 0
    &&& vstd::utf8::encode_utf8(command).len() <= 512
    &&& forall|i: int|
        0 <= i < command.len() ==> #[trigger] command[i] != '\0' && command[i] != '\n'
            && command[i] != '\r'
}

proof fn lemma_three_absent(s: Seq<char>)
    ensures
        !(s.contains('\0') || s.contains('\n') || s.contains('\r')) <==> forall|i: int|
            0 <= i < s.len() ==> #[trigger] s[i] != '\0' && s[i] != '\n' && s[i] != '\r',
{
    if !(s.contains('\0') || s.contains('\n') || s.contains('\r')) {
        assert forall|i: int| 0 <= i < s.len() implies #[trigger] s[i] != '\0' && s[i] != '\n'
            && s[i] != '\r' by {
            assert(s.contains(s[i]));
        }
    }
}

/// A command has a fault exactly where it cannot be queued, and the fault says why: it
/// is empty, or too long, or not one line without NUL.
pub proof fn law_faults_are_what_keeps_a_command_back(command: Seq<char>)
    ensures
        command::command_fault(command) is None <==> is_queueable(command),
        command.len() == 0 ==> command::command_fault(command) == Some(
            Failure::BadRequest("command must not be empty"@),
        ),
        vstd::utf8::encode_utf8(command).len() > 512 && command.len() > 0
            ==> command::command_fault(command) == Some(
            Failure::BadRequest("command exceeds max length 512"@),
        ),
        vstd::utf8::encode_utf8(command).len() <= 512 && command.len() > 0 && !is_queueable(command)
            ==> command::command_fault(command) == Some(
            Failure::BadRequest("command must be a single line without NUL bytes"@),
        ),
{
    lemma_three_absent(command);
    reveal_strlit("command exceeds max length ");
    reveal_strlit("command exceeds max length 512");
    reveal_with_fuel(text::decimal, 4);
    assert("command exceeds max length "@ + text::decimal(512) == "command exceeds max length 512"@);
}

/// A text with dots in front of a command, and white space before the dots, after them
/// and after the command.
pub open spec fn dressed(
    before: Seq<char>,
    dots: nat,
    between: Seq<char>,
    command: Seq<char>,
    after: Seq<char>,
) -> Seq<char> {
    before + laws::dots(dots) + between + command + after
}

/// Whether the parts of such a text are what they are called.
pub open spec fn is_dress(
    before: Seq<char>,
    dots: nat,
    between: Seq<char>,
    command: Seq<char>,
    after: Seq<char>,
) -> bool {
    &&& text_laws::is_blank(before)
    &&& text_laws::is_blank(between)
    &&& text_laws::is_blank(after)
    &&& laws::is_trim(command)
    &&& dots == 0 ==> between.len() == 0
    &&& between.len() == 0 && command.len() > 0 ==> command[0] != '.'
}

/// Normalizing takes the dots in front of a command away, with the white space around
/// both, and nothing else.
pub proof fn law_normalizing_undresses(
    before: Seq<char>,
    dots: nat,
    between: Seq<char>,
    command: Seq<char>,
    after: Seq<char>,
)
    requires
        is_dress(before, dots, between, command, after),
    ensures
        command::normalized(dressed(before, dots, between, command, after)) == command,
{
    let whole = dressed(before, dots, between, command, after);
    let run = laws::dots(dots);
    let none = Seq::<char>::empty();
    if dots == 0 {
        assert(whole == before + command + after);
        text_laws::law_trimming_keeps_the_middle(before, command, after);
        laws::law_trimming_is_final(command);
    } else if command.len() == 0 {
        assert(whole == before + run + (between + after));
        assert(text_laws::is_blank(between + after));
        text_laws::law_trimming_keeps_the_middle(before, run, between + after);
        laws::lemma_without_dots(dots, none);
        assert(run + none == run);
        assert(command == none);
    } else {
        let middle = run + between + command;
        assert(whole == before + middle + after);
        assert(middle[0] == '.' && middle.last() == command.last());
        text_laws::law_trimming_keeps_the_middle(before, middle, after);
        let rest = between + command;
        assert(middle == run + rest);
        if between.len() > 0 {
            assert(rest[0] == between[0]);
        }
        laws::lemma_without_dots(dots, rest);
        assert(rest == between + command + none);
        text_laws::law_trimming_keeps_the_middle(between, command, none);
    }
}

/// A raw request asks for the command that is left of its text, where that can be
/// queued, and is a bad request where it cannot.
pub proof fn law_raw_requests_ask_for_what_is_left(
    before: Seq<char>,
    dots: nat,
    between: Seq<char>,
    command: Seq<char>,
    after: Seq<char>,
)
    requires
        is_dress(before, dots, between, command, after),
    ensures
        ({
            let asked = command::raw_command(dressed(before, dots, between, command, after));
            &&& is_queueable(command) ==> asked == Ok::<_, Failure>(command)
            &&& !is_queueable(command) ==> asked is Err && asked->Err_0 is BadRequest
        }),
{
    law_normalizing_undresses(before, dots, between, command, after);
    law_faults_are_what_keeps_a_command_back(command);
}

/// Whether a word holds a quote.
pub open spec fn is_quoted(s: Seq<char>) -> bool {
    exists|i: int| 0 <= i < s.len() && (#[trigger] s[i] == '\'' || s[i] == '"')
}

/// A field holds a word exactly where it is one word without quotes, with white space
/// around it at most, and then it is that word that it holds. Otherwise it is refused
/// as empty, as more than a word, or for its quotes.
pub proof fn law_fields_hold_single_words(
    field: Seq<char>,
    before: Seq<char>,
    middle: Seq<char>,
    after: Seq<char>,
)
    requires
        text_laws::is_blank(before),
        text_laws::is_blank(after),
        laws::is_trim(middle),
    ensures
        command::single_token(field, before + middle + after) == if middle.len() == 0 {
            Err(Failure::BadRequest(field + " must not be empty"@))
        } else if !text_laws::is_word(middle) {
            Err(Failure::BadRequest(field + " must be a single token"@))
        } else if is_quoted(middle) {
            Err(Failure::BadRequest(field + " contains unsupported characters"@))
        } else {
            Ok::<_, Failure>(middle)
        },
{
    text_laws::law_trimming_keeps_the_middle(before, middle, after);
    assert(middle.contains('\'') || middle.contains('"') <==> is_quoted(middle)) by {
        if is_quoted(middle) {
            let i = choose|i: int|
                0 <= i < middle.len() && (#[trigger] middle[i] == '\'' || middle[i] == '"');
            assert(middle.contains(middle[i]));
        }
    }
    if text_laws::is_word(middle) {
        assert(!middle.contains('\n') && !middle.contains('\r'));
        assert(!text::has_white_space(middle));
    }
}

/// Whether a word can stand in a command that is built for a character.
pub open spec fn is_name(s: Seq<char>) -> bool {
    text_laws::is_word(s) && !is_quoted(s)
}

/// The command that revives a character is two words, `revive` and the character, with
/// a space between them.
pub proof fn law_revive_commands_name_the_character(
    before: Seq<char>,
    character: Seq<char>,
    after: Seq<char>,
)
    requires
        text_laws::is_blank(before),
        text_laws::is_blank(after),
        is_name(character),
    ensures
        command::revive_command(before + character + after) is Ok,
        words(command::revive_command(before + character + after)->Ok_0) == seq![
            "revive"@,
            character,
        ],
        text::pieces(command::revive_command(before + character + after)->Ok_0, ' ') == seq![
            "revive"@,
            character,
        ],
{
    law_fields_hold_single_words("character"@, before, character, after);
    reveal_strlit("revive ");
    reveal_strlit("revive");
    reveal_strlit(" ");
    let none = Seq::<char>::empty();
    let parts = seq!["revive"@, character];
    assert("revive "@ == "revive"@ + " "@);
    lemma_add_word(none, "revive"@);
    assert(none + "revive"@ == "revive"@);
    lemma_add_space("revive"@);
    lemma_add_word("revive "@, character);
    assert(words(none).push("revive"@).push(character) == parts);
    lemma_words_have_no_space("revive"@);
    lemma_words_have_no_space(character);
    text_laws::law_joined_parts_are_the_pieces(parts, ' ');
    assert(parts.drop_last() == seq!["revive"@]);
    reveal_with_fuel(laws::joined, 2);
    assert(laws::joined(parts, ' ') == "revive "@ + character);
}

proof fn lemma_words_have_no_space(word: Seq<char>)
    requires
        text_laws::is_word(word),
    ensures
        !word.contains(' '),
{
}

/// The command that teleports a character is four words, `tele`, `name`, the character
/// and the place, in that order, with a space between each two.
pub proof fn law_teleport_commands_name_character_and_place(
    before: Seq<char>,
    character: Seq<char>,
    after: Seq<char>,
    ahead: Seq<char>,
    place: Seq<char>,
    behind: Seq<char>,
)
    requires
        text_laws::is_blank(before),
        text_laws::is_blank(after),
        text_laws::is_blank(ahead),
        text_laws::is_blank(behind),
        is_name(character),
        is_name(place),
    ensures
        ({
            let command = command::teleport_command(
                before + character + after,
                ahead + place + behind,
            );
            &&& command is Ok
            &&& words(command->Ok_0) == seq!["tele"@, "name"@, character, place]
            &&& text::pieces(command->Ok_0, ' ') == seq!["tele"@, "name"@, character, place]
        }),
{
    law_fields_hold_single_words("character"@, before, character, after);
    law_fields_hold_single_words("teleport"@, ahead, place, behind);
    reveal_strlit("tele name ");
    reveal_strlit("tele");
    reveal_strlit("name");
    reveal_strlit(" ");
    let none = Seq::<char>::empty();
    let parts = seq!["tele"@, "name"@, character, place];
    let one = "tele"@ + " "@;
    let two = one + "name"@ + " "@;
    let three = two + character + " "@;
    assert(two == "tele name "@);
    lemma_add_word(none, "tele"@);
    assert(none + "tele"@ == "tele"@);
    lemma_add_space("tele"@);
    lemma_add_word(one, "name"@);
    lemma_add_space(one + "name"@);
    lemma_add_word(two, character);
    lemma_add_space(two + character);
    lemma_add_word(three, place);
    assert(words(none).push("tele"@).push("name"@).push(character).push(place) == parts);
    lemma_words_have_no_space("tele"@);
    lemma_words_have_no_space("name"@);
    lemma_words_have_no_space(character);
    lemma_words_have_no_space(place);
    text_laws::law_joined_parts_are_the_pieces(parts, ' ');
    let three_parts = parts.drop_last();
    let two_parts = three_parts.drop_last();
    let one_part = two_parts.drop_last();
    assert(three_parts.last() == character && two_parts.last() == "name"@ && one_part[0]
        == "tele"@);
    assert(laws::joined(one_part, ' ') == "tele"@);
    assert(laws::joined(two_parts, ' ') == "tele"@.push(' ') + "name"@);
    assert(laws::joined(three_parts, ' ') == ("tele"@.push(' ') + "name"@).push(' ') + character);
    assert(laws::joined(parts, ' ') == three + place);
}

/// Whether a command is an entry, or goes on after it with white space.
pub open spec fn goes_on_from(entry: Seq<char>, command: Seq<char>) -> bool {
    &&& entry.len() <= command.len()
    &&& forall|i: int| 0 <= i < entry.len() ==> #[trigger] command[i] == entry[i]
    &&& entry.len() < command.len() ==> text::is_white_space(command[entry.len() as int])
}

/// An entry covers itself and what goes on after it with white space, and nothing else.
pub proof fn law_entries_cover_what_goes_on_from_them(entry: Seq<char>, command: Seq<char>)
    ensures
        command::entry_covers(entry, command) <==> goes_on_from(entry, command),
{
    if command::entry_covers(entry, command) && command != entry {
        assert forall|i: int| 0 <= i < entry.len() implies #[trigger] command[i] == entry[i] by {
            assert(command.subrange(0, entry.len() as int)[i] == command[i]);
        }
    }
    if goes_on_from(entry, command) {
        if entry.len() == command.len() {
            assert(command == entry);
        } else {
            assert(entry == command.subrange(0, entry.len() as int));
        }
    }
}

/// A raw command passes exactly where it goes on from an entry of the allowlist;
/// otherwise it is forbidden, and the answer names it, or says that there is no entry.
pub proof fn law_raw_commands_need_an_entry(allowlist: Seq<Seq<char>>, command: Seq<char>)
    ensures
        command::raw_command_refusal(allowlist, command) is None <==> exists|i: int|
            0 <= i < allowlist.len() && goes_on_from(#[trigger] allowlist[i], command),
        command::raw_command_refusal(allowlist, command) matches Some(refusal) ==> refusal
            == if allowlist.len() == 0 {
            Failure::Forbidden(
                "raw gm commands are disabled because GM_TOOL_COMMAND_ALLOWLIST is empty"@,
            )
        } else {
            Failure::Forbidden("raw gm command is not allowlisted: "@ + command)
        },
{
    assert forall|i: int| 0 <= i < allowlist.len() implies command::entry_covers(
        #[trigger] allowlist[i],
        command,
    ) == goes_on_from(allowlist[i], command) by {
        law_entries_cover_what_goes_on_from_them(allowlist[i], command);
    }
}

/// What a request for a raw command has queued: the command that is left of its text,
/// exactly where that can be queued and goes on from an entry of the allowlist. It is
/// forbidden where only the entry is missing, and a bad request otherwise.
pub proof fn law_raw_orders(
    settings: Settings,
    before: Seq<char>,
    dots: nat,
    between: Seq<char>,
    command: Seq<char>,
    after: Seq<char>,
)
    requires
        is_dress(before, dots, between, command, after),
    ensures
        ({
            let order = Order::Raw { command: dressed(before, dots, between, command, after) };
            let given = order.command(settings);
            let listed = exists|i: int|
                0 <= i < settings.allowlist.len() && goes_on_from(
                    #[trigger] settings.allowlist[i],
                    command,
                );
            &&& given == Ok::<_, Failure>(command) <==> is_queueable(command) && listed
            &&& given is Ok ==> given == Ok::<_, Failure>(command)
            &&& is_queueable(command) && !listed ==> given is Err && given->Err_0 is Forbidden
            &&& !is_queueable(command) ==> given is Err && given->Err_0 is BadRequest
        }),
{
    law_raw_requests_ask_for_what_is_left(before, dots, between, command, after);
    law_raw_commands_need_an_entry(settings.allowlist, command);
}

/// What requests for a character have queued, whatever the settings: `revive` and the
/// character, or `tele name`, the character and the place.
pub proof fn law_structured_orders(
    settings: Settings,
    character: Seq<char>,
    place: Seq<char>,
)
    requires
        is_name(character),
        is_name(place),
    ensures
        ({
            let revive = Order::Revive { character }.command(settings);
            &&& revive is Ok
            &&& text::pieces(revive->Ok_0, ' ') == seq!["revive"@, character]
        }),
        ({
            let teleport = (Order::Teleport { character, teleport: place }).command(settings);
            &&& teleport is Ok
            &&& text::pieces(teleport->Ok_0, ' ') == seq!["tele"@, "name"@, character, place]
        }),
{
    let none = Seq::<char>::empty();
    assert(none + character + none == character);
    assert(none + place + none == place);
    law_revive_commands_name_the_character(none, character, none);
    law_teleport_commands_name_character_and_place(none, character, none, none, place, none);
}

/// A request for a character is refused where the character, or the place, is no single
/// word without quotes; the character is looked at first.
pub proof fn law_structured_orders_need_names(
    settings: Settings,
    character: Seq<char>,
    place: Seq<char>,
)
    requires
        laws::is_trim(character),
        laws::is_trim(place),
    ensures
        ({
            let revive = Order::Revive { character }.command(settings);
            &&& revive is Ok <==> is_name(character)
            &&& revive is Err ==> revive->Err_0 is BadRequest
        }),
        ({
            let teleport = (Order::Teleport { character, teleport: place }).command(settings);
            &&& teleport is Ok <==> is_name(character) && is_name(place)
            &&& teleport is Err ==> teleport->Err_0 is BadRequest
            &&& !is_name(character) ==> Err::<Seq<char>, _>(teleport->Err_0)
                == Order::Revive { character }.command(settings)
        }),
{
    let none = Seq::<char>::empty();
    assert(none + character + none == character);
    assert(none + place + none == place);
    law_fields_hold_single_words("character"@, none, character, none);
    law_fields_hold_single_words("teleport"@, none, place, none);
}

/// Every command without NUL has a literal, and a statement that queues it; one with
/// NUL has neither, and is a bad request.
pub proof fn law_commands_without_nul_have_a_statement(request: QueueCommandView)
    ensures
        ({
            let has_nul = exists|i: int|
                0 <= i < request.command.len() && #[trigger] request.command[i] == '\0';
            let refusal = Failure::BadRequest("command must not contain NUL bytes"@);
            &&& !has_nul ==> command::sql_literal(request.command) is Ok
            &&& !has_nul ==> mariadb::insert_statement(request) is Ok
            &&& has_nul ==> command::sql_literal(request.command) == Err::<Seq<char>, _>(refusal)
            &&& has_nul ==> mariadb::insert_statement(request) == Err::<Seq<char>, _>(refusal)
        }),
{
    if exists|i: int| 0 <= i < request.command.len() && #[trigger] request.command[i] == '\0' {
        let i = choose|i: int|
            0 <= i < request.command.len() && #[trigger] request.command[i] == '\0';
        assert(request.command.contains(request.command[i]));
    }
}

/// Every raw command that passes has a statement, and so has every command for a
/// character and a place whose names hold no NUL.
pub proof fn law_orders_have_a_statement(
    settings: Settings,
    order: Order,
    realm_id: u32,
    run_at_unix: u64,
)
    requires
        order.command(settings) is Ok,
        order matches Order::Revive { character } ==> !character.contains('\0'),
        order matches Order::Teleport { character, teleport } ==> !character.contains('\0')
            && !teleport.contains('\0'),
    ensures
        mariadb::insert_statement(
            QueueCommandView { realm_id, command: order.command(settings)->Ok_0, run_at_unix },
        ) is Ok,
{
    let command = order.command(settings)->Ok_0;
    law_commands_without_nul_have_a_statement(
        QueueCommandView { realm_id, command, run_at_unix },
    );
    reveal_strlit("revive ");
    reveal_strlit("tele name ");
    reveal_strlit(" ");
    match order {
        Order::Raw { command: asked } => {
            laws::law_raw_commands_are_clean(asked);
            if exists|i: int| 0 <= i < command.len() && #[trigger] command[i] == '\0' {
                let i = choose|i: int| 0 <= i < command.len() && #[trigger] command[i] == '\0';
                assert(command.contains(command[i]));
            }
        },
        Order::Revive { character } => {
            lemma_trimmed_has_no(character);
            let who = text::trimmed(character);
            laws::lemma_absent_from_both("revive "@, who, '\0');
            lemma_no_nul(command);
        },
        Order::Teleport { character, teleport } => {
            lemma_trimmed_has_no(character);
            lemma_trimmed_has_no(teleport);
            let who = text::trimmed(character);
            let place = text::trimmed(teleport);
            laws::lemma_absent_from_both("tele name "@, who, '\0');
            laws::lemma_absent_from_both("tele name "@ + who, " "@, '\0');
            laws::lemma_absent_from_both("tele name "@ + who + " "@, place, '\0');
            lemma_no_nul(command);
        },
    }
}

proof fn lemma_no_nul(s: Seq<char>)
    requires
        !s.contains('\0'),
    ensures
        forall|i: int| 0 <= i < s.len() ==> #[trigger] s[i] != '\0',
{
    assert forall|i: int| 0 <= i < s.len() implies #[trigger] s[i] != '\0' by {
        assert(s.contains(s[i]));
    }
}

proof fn lemma_trimmed_has_no(s: Seq<char>)
    requires
        !s.contains('\0'),
    ensures
        !text::trimmed(s).contains('\0'),
{
    let (before, after) = text_laws::law_trimming_drops_white_space_alone(s);
    let middle = text::trimmed(s);
    if middle.contains('\0') {
        let i = choose|i: int| 0 <= i < middle.len() && middle[i] == '\0';
        assert((before + middle + after)[before.len() + i] == middle[i]);
        assert(s.contains(s[before.len() + i]));
    }
}

} // verus!
