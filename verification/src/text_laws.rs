//! What the functions on texts give, told by how the texts are put together.
use vstd::prelude::*;

use crate::laws;
use crate::text;

verus! {

/// Whether `s` is white space all through.
pub open spec fn is_blank(s: Seq<char>) -> bool {
    forall|i: int| 0 <= i < s.len() ==> text::is_white_space(#[trigger] s[i])
}

/// Whether `s` is one word: not empty, and without white space.
pub open spec fn is_word(s: Seq<char>) -> bool {
    s.len() > 0 && forall|i: int| 0 <= i < s.len() ==> !text::is_white_space(#[trigger] s[i])
}

/// Trimming drops white space before and after a text, and nothing of what stands
/// between.
pub proof fn law_trimming_keeps_the_middle(
    before: Seq<char>,
    middle: Seq<char>,
    after: Seq<char>,
)
    requires
        is_blank(before),
        laws::is_trim(middle),
        is_blank(after),
    ensures
        text::trimmed(before + middle + after) == middle,
{
    assert(before + middle + after == before + (middle + after));
    lemma_trim_start_blank(before, middle + after);
    if middle.len() == 0 {
        assert(middle + after == after + Seq::<char>::empty());
        lemma_trim_start_blank(after, Seq::empty());
        assert(middle == Seq::<char>::empty());
    } else {
        assert((middle + after)[0] == middle[0]);
        lemma_trim_end_blank(middle, after);
    }
}

proof fn lemma_trim_start_blank(blank: Seq<char>, rest: Seq<char>)
    requires
        is_blank(blank),
    ensures
        text::trim_start(blank + rest) == text::trim_start(rest),
    decreases blank.len(),
{
    let s = blank + rest;
    if blank.len() == 0 {
        assert(s == rest);
    } else {
        assert(s[0] == blank[0]);
        assert(s.drop_first() == blank.drop_first() + rest);
        lemma_trim_start_blank(blank.drop_first(), rest);
    }
}

proof fn lemma_trim_end_blank(start: Seq<char>, blank: Seq<char>)
    requires
        is_blank(blank),
    ensures
        text::trim_end(start + blank) == text::trim_end(start),
    decreases blank.len(),
{
    let s = start + blank;
    if blank.len() == 0 {
        assert(s == start);
    } else {
        assert(s.last() == blank[blank.len() - 1]);
        assert(s.drop_last() == start + blank.drop_last());
        lemma_trim_end_blank(start, blank.drop_last());
    }
}

/// Every text is white space, what trimming keeps of it, and white space.
pub proof fn law_trimming_drops_white_space_alone(s: Seq<char>) -> (r: (Seq<char>, Seq<char>))
    ensures
        is_blank(r.0),
        is_blank(r.1),
        s == r.0 + text::trimmed(s) + r.1,
        laws::is_trim(text::trimmed(s)),
{
    laws::law_trimming_is_final(s);
    let before = lemma_split_start(s);
    let after = lemma_split_end(text::trim_start(s));
    assert(s == before + (text::trimmed(s) + after));
    (before, after)
}

proof fn lemma_split_start(s: Seq<char>) -> (before: Seq<char>)
    ensures
        is_blank(before),
        s == before + text::trim_start(s),
    decreases s.len(),
{
    if s.len() > 0 && text::is_white_space(s[0]) {
        let rest = lemma_split_start(s.drop_first());
        assert(s == seq![s[0]] + s.drop_first());
        seq![s[0]] + rest
    } else {
        assert(s == Seq::<char>::empty() + s);
        Seq::empty()
    }
}

proof fn lemma_split_end(s: Seq<char>) -> (after: Seq<char>)
    ensures
        is_blank(after),
        s == text::trim_end(s) + after,
    decreases s.len(),
{
    if s.len() > 0 && text::is_white_space(s.last()) {
        let rest = lemma_split_end(s.drop_last());
        assert(s == s.drop_last().push(s.last()));
        rest.push(s.last())
    } else {
        assert(s == s + Seq::<char>::empty());
        Seq::empty()
    }
}

/// Whether `needle` stands in `s` from position `i` on.
pub open spec fn stands_at(s: Seq<char>, needle: Seq<char>, i: int) -> bool {
    &&& 0 <= i
    &&& i + needle.len() <= s.len()
    &&& forall|k: int| 0 <= k < needle.len() ==> #[trigger] s[i + k] == needle[k]
}

/// A text is found where it first stands, and nowhere exactly if it stands nowhere.
pub proof fn law_texts_are_found_where_they_first_stand(s: Seq<char>, needle: Seq<char>)
    ensures
        match text::position(s, needle) {
            Some(at) => stands_at(s, needle, at as int) && forall|i: int|
                0 <= i < at ==> !#[trigger] stands_at(s, needle, i),
            None => forall|i: int| !#[trigger] stands_at(s, needle, i),
        },
{
    lemma_found_from(s, needle, 0);
}

proof fn lemma_found_from(s: Seq<char>, needle: Seq<char>, from: nat)
    ensures
        match text::position_from(s, needle, from) {
            Some(at) => from <= at && stands_at(s, needle, at as int) && forall|i: int|
                from <= i < at ==> !#[trigger] stands_at(s, needle, i),
            None => forall|i: int| from <= i ==> !#[trigger] stands_at(s, needle, i),
        },
    decreases s.len() + 1 - from,
{
    if from + needle.len() <= s.len() {
        let part = s.subrange(from as int, from as int + needle.len());
        assert(stands_at(s, needle, from as int) <==> part == needle) by {
            if part == needle {
                assert forall|k: int| 0 <= k < needle.len() implies #[trigger] s[from + k]
                    == needle[k] by {
                    assert(part[k] == s[from + k]);
                }
            }
            if stands_at(s, needle, from as int) {
                assert forall|k: int| 0 <= k < needle.len() implies part[k] == needle[k] by {
                    assert(part[k] == s[from + k]);
                }
                assert(part =~= needle);
            }
        }
        if part != needle {
            lemma_found_from(s, needle, from + 1);
        }
    }
}

/// Decimal numbers are positional: the digits of the tens, then that of the ones.
pub proof fn law_decimals_are_positional(n: nat)
    ensures
        n < 10 ==> text::decimal(n) == seq!["0123456789"@[n as int]],
        n >= 10 ==> text::decimal(n) == text::decimal(n / 10).push(
            "0123456789"@[(n % 10) as int],
        ),
{
    reveal_strlit("0123456789");
    lemma_digit(n % 10);
}

proof fn lemma_digit(n: nat)
    requires
        n < 10,
    ensures
        text::digit(n) == "0123456789"@[n as int],
{
    reveal_strlit("0123456789");
}

/// A numeral for `n`: an optional plus sign, `zeros` zeros, and the number in decimal.
pub open spec fn numeral(plus: bool, zeros: nat, n: nat) -> Seq<char> {
    (if plus {
        seq!['+']
    } else {
        Seq::empty()
    }) + Seq::new(zeros, |i: int| '0') + text::decimal(n)
}

/// A numeral reads as its number where that is in range, and as nothing where it is not.
pub proof fn law_numerals_read_as_numbers(plus: bool, zeros: nat, n: nat, max: nat)
    ensures
        text::unsigned(numeral(plus, zeros, n), max) == if n <= max {
            Some(n)
        } else {
            None
        },
{
    let s = numeral(plus, zeros, n);
    let digits = Seq::new(zeros, |i: int| '0') + text::decimal(n);
    laws::lemma_decimal(n);
    lemma_leading_zeros(zeros, text::decimal(n));
    assert(text::is_digit(digits[0]));
    if plus {
        assert(s.drop_first() == digits);
    } else {
        assert(s == digits);
    }
    assert(text::without_plus(s) == digits);
}

proof fn lemma_leading_zeros(zeros: nat, digits: Seq<char>)
    requires
        text::is_digits(digits),
    ensures
        text::is_digits(Seq::new(zeros, |i: int| '0') + digits),
        text::digits_value(Seq::new(zeros, |i: int| '0') + digits) == text::digits_value(digits),
{
    let s = Seq::new(zeros, |i: int| '0') + digits;
    assert forall|i: int| 0 <= i < s.len() implies text::is_digit(#[trigger] s[i]) by {
        if i >= zeros {
            assert(text::is_digit(digits[i - zeros]));
        }
    }
    lemma_zeros_value(zeros, digits);
}

proof fn lemma_zeros_value(zeros: nat, digits: Seq<char>)
    ensures
        text::digits_value(Seq::new(zeros, |i: int| '0') + digits) == text::digits_value(digits),
    decreases zeros + digits.len(),
{
    let lead = Seq::new(zeros, |i: int| '0');
    let s = lead + digits;
    if digits.len() > 0 {
        assert(s.drop_last() == lead + digits.drop_last());
        lemma_zeros_value(zeros, digits.drop_last());
    } else if zeros > 0 {
        let fewer = (zeros - 1) as nat;
        assert(s.drop_last() == Seq::new(fewer, |i: int| '0') + digits);
        lemma_zeros_value(fewer, digits);
    } else {
        assert(s == digits);
    }
}

/// Nothing but a numeral reads as a number, and it reads as the number in it.
pub proof fn law_numbers_are_written_as_numerals(s: Seq<char>, max: nat) -> (r: (bool, nat))
    requires
        text::unsigned(s, max) is Some,
    ensures
        text::unsigned(s, max)->0 <= max,
        s == numeral(r.0, r.1, text::unsigned(s, max)->0),
{
    let digits = text::without_plus(s);
    let plus = s[0] == '+';
    let zeros = lemma_digits_are_numeral(digits);
    if plus {
        assert(s == seq!['+'] + digits);
        assert(s == numeral(plus, zeros, text::digits_value(digits)));
    } else {
        assert(s == numeral(plus, zeros, text::digits_value(digits)));
    }
    (plus, zeros)
}

proof fn lemma_digits_are_numeral(digits: Seq<char>) -> (zeros: nat)
    requires
        text::is_digits(digits),
    ensures
        digits == Seq::new(zeros, |i: int| '0') + text::decimal(text::digits_value(digits)),
    decreases digits.len(),
{
    let n = text::digits_value(digits);
    let last = digits[digits.len() - 1];
    assert(text::is_digit(last));
    assert(last == text::digit(text::digit_value(last)));
    let before = digits.drop_last();
    assert(digits == before.push(last));
    if before.len() == 0 {
        assert(text::digits_value(before) == 0);
        assert(digits == Seq::new(0, |i: int| '0') + text::decimal(n));
        0
    } else {
        assert forall|i: int| 0 <= i < before.len() implies text::is_digit(#[trigger] before[i]) by {
            assert(before[i] == digits[i]);
        }
        let zeros = lemma_digits_are_numeral(before);
        let m = text::digits_value(before);
        assert(n == m * 10 + text::digit_value(last));
        if m == 0 {
            assert(text::decimal(0) == seq!['0']);
            assert(before == Seq::new(zeros + 1, |i: int| '0'));
            assert(digits == Seq::new(zeros + 1, |i: int| '0') + text::decimal(n));
            zeros + 1
        } else {
            assert(n / 10 == m && n % 10 == text::digit_value(last));
            assert(digits == Seq::new(zeros, |i: int| '0') + text::decimal(n));
            zeros
        }
    }
}

/// A first line is what stands before the first line feed, or before a carriage return
/// and the first line feed.
pub proof fn law_first_lines(line: Seq<char>, rest: Seq<char>)
    requires
        !line.contains('\n'),
    ensures
        text::first_line(line) == line,
        text::first_line(line + seq!['\r', '\n'] + rest) == line,
        (line.len() > 0 ==> line.last() != '\r') ==> text::first_line(line + seq!['\n'] + rest)
            == line,
{
    lemma_feed(line, Seq::empty(), false);
    lemma_feed(line.push('\r'), rest, true);
    lemma_feed(line, rest, true);
    let long = line + seq!['\r', '\n'] + rest;
    assert(long == line.push('\r') + seq!['\n'] + rest);
    assert(long[line.len() as int] == '\r');
    assert(long.take(line.len() as int) == line);
    let short = line + seq!['\n'] + rest;
    if line.len() > 0 {
        assert(short[line.len() - 1] == line.last());
    }
    assert(short.take(line.len() as int) == line);
}

proof fn lemma_feed(line: Seq<char>, rest: Seq<char>, fed: bool)
    requires
        forall|i: int| 0 <= i < line.len() - 1 ==> line[i] != '\n',
        line.len() > 0 ==> line.last() != '\n',
    ensures
        !fed ==> text::position(line, seq!['\n']) is None,
        fed ==> text::position(line + seq!['\n'] + rest, seq!['\n']) == Some(line.len()),
{
    let feed = seq!['\n'];
    law_texts_are_found_where_they_first_stand(line, feed);
    if text::position(line, feed) is Some {
        let at = text::position(line, feed)->0 as int;
        assert(line[at + 0] == feed[0]);
    }
    let s = line + feed + rest;
    law_texts_are_found_where_they_first_stand(s, feed);
    assert(s[line.len() as int + 0] == '\n');
    assert(stands_at(s, feed, line.len() as int));
    if text::position(s, feed) is Some {
        let at = text::position(s, feed)->0 as int;
        assert(s[at + 0] == feed[0]);
        if at < line.len() {
            assert(line[at] == '\n');
        }
    }
}

/// The last line is what follows the last line feed; the one that ends the text, with
/// a carriage return before it, is not counted.
pub proof fn law_last_lines(before: Seq<char>, line: Seq<char>)
    requires
        before.len() > 0 ==> before.last() == '\n',
        !line.contains('\n'),
    ensures
        line.len() > 0 ==> text::last_line(before + line) == line,
        text::last_line(before + line + seq!['\r', '\n']) == line,
        (line.len() > 0 ==> line.last() != '\r') ==> text::last_line(before + line + seq!['\n'])
            == line,
{
    lemma_last_piece_is(before, line);
    let whole = before + line;
    if line.len() > 0 {
        assert(whole.last() == line[line.len() - 1]);
        assert(line.contains(line[line.len() - 1]));
    }
    let long = whole + seq!['\r', '\n'];
    assert(long.drop_last() == before + line.push('\r'));
    assert(!line.push('\r').contains('\n')) by {
        if line.push('\r').contains('\n') {
            let i = choose|i: int| 0 <= i < line.len() + 1 && line.push('\r')[i] == '\n';
            assert(line[i] == '\n');
        }
    }
    lemma_last_piece_is(before, line.push('\r'));
    assert(line.push('\r').drop_last() == line);
    let short = whole + seq!['\n'];
    assert(short.drop_last() == whole);
}

proof fn lemma_last_piece_is(before: Seq<char>, line: Seq<char>)
    requires
        before.len() > 0 ==> before.last() == '\n',
        !line.contains('\n'),
    ensures
        text::pieces(before + line, '\n').last() == line,
    decreases line.len(),
{
    let whole = before + line;
    if line.len() == 0 {
        assert(whole == before);
        assert(line == Seq::<char>::empty());
    } else {
        let shorter = line.drop_last();
        assert(line.contains(line[line.len() - 1]));
        assert(!shorter.contains('\n')) by {
            if shorter.contains('\n') {
                let i = choose|i: int| 0 <= i < shorter.len() && shorter[i] == '\n';
                assert(line[i] == '\n');
            }
        }
        lemma_last_piece_is(before, shorter);
        assert(whole.drop_last() == before + shorter);
        assert(whole.last() == line[line.len() - 1]);
        assert(shorter.push(line.last()) == line);
    }
}

/// The second word is the one after the first and the white space that follows it;
/// there is none where only one word stands, or nothing.
pub proof fn law_second_words(
    lead: Seq<char>,
    first: Seq<char>,
    gap: Seq<char>,
    second: Seq<char>,
    rest: Seq<char>,
)
    requires
        is_blank(lead),
        is_word(first),
        is_blank(gap),
        gap.len() > 0,
        is_word(second),
        rest.len() > 0 ==> text::is_white_space(rest[0]),
    ensures
        text::second_word(lead + first + gap + second + rest) == second,
        text::second_word(lead + first + gap) == Seq::<char>::empty(),
        text::second_word(lead + first) == Seq::<char>::empty(),
        text::second_word(lead) == Seq::<char>::empty(),
{
    lemma_second_word(lead, first, gap + second + rest);
    assert(lead + first + gap + second + rest == lead + first + (gap + second + rest));
    assert(gap + second + rest == gap + (second + rest));
    lemma_trim_start_blank(gap, second + rest);
    assert((second + rest)[0] == second[0]);
    lemma_word_first(second, rest);
    lemma_second_word(lead, first, gap);
    lemma_trim_start_blank(gap, Seq::empty());
    assert(gap + Seq::<char>::empty() == gap);
    lemma_second_word(lead, first, Seq::empty());
    assert(lead + first + Seq::<char>::empty() == lead + first);
    lemma_trim_start_blank(lead, Seq::empty());
    assert(lead + Seq::<char>::empty() == lead);
    assert(text::trim_start(lead) == Seq::<char>::empty());
    assert(Seq::<char>::empty().skip(0) == Seq::<char>::empty());
}

proof fn lemma_second_word(lead: Seq<char>, first: Seq<char>, rest: Seq<char>)
    requires
        is_blank(lead),
        is_word(first),
        rest.len() > 0 ==> text::is_white_space(rest[0]),
    ensures
        text::second_word(lead + first + rest) == text::leading_word(text::trim_start(rest)),
{
    assert(lead + first + rest == lead + (first + rest));
    lemma_trim_start_blank(lead, first + rest);
    assert((first + rest)[0] == first[0]);
    lemma_word_first(first, rest);
    assert((first + rest).skip(first.len() as int) == rest);
}

proof fn lemma_word_first(word: Seq<char>, rest: Seq<char>)
    requires
        forall|i: int| 0 <= i < word.len() ==> !text::is_white_space(#[trigger] word[i]),
        rest.len() > 0 ==> text::is_white_space(rest[0]),
    ensures
        text::leading_word(word + rest) == word,
    decreases word.len(),
{
    let s = word + rest;
    if word.len() == 0 {
        assert(s == rest);
    } else {
        assert(s.drop_first() == word.drop_first() + rest);
        lemma_word_first(word.drop_first(), rest);
        assert(seq![s[0]] + word.drop_first() == word);
    }
}

/// Parts without the separator, joined by it, are the pieces of the text.
pub proof fn law_joined_parts_are_the_pieces(parts: Seq<Seq<char>>, separator: char)
    requires
        parts.len() > 0,
        forall|i: int| 0 <= i < parts.len() ==> !(#[trigger] parts[i]).contains(separator),
    ensures
        text::pieces(laws::joined(parts, separator), separator) == parts,
    decreases parts.len(),
{
    let last = parts[parts.len() - 1];
    if parts.len() == 1 {
        lemma_add_piece(Seq::empty(), last, separator);
        assert(Seq::<char>::empty() + last == last);
        assert(text::pieces(Seq::<char>::empty(), separator) == seq![Seq::<char>::empty()]);
        assert(parts == seq![last]);
    } else {
        let before = parts.drop_last();
        assert forall|i: int| 0 <= i < before.len() implies !(#[trigger] before[i]).contains(
            separator,
        ) by {
            assert(before[i] == parts[i]);
        }
        law_joined_parts_are_the_pieces(before, separator);
        let start = laws::joined(before, separator).push(separator);
        assert(start.drop_last() == laws::joined(before, separator));
        assert(text::pieces(start, separator) == before.push(Seq::empty()));
        lemma_add_piece(start, last, separator);
        assert(before.push(Seq::<char>::empty()).drop_last() == before);
        assert(parts == before.push(last));
    }
}

/// Text without the separator goes on the last piece, where that is empty.
proof fn lemma_add_piece(start: Seq<char>, part: Seq<char>, separator: char)
    requires
        !part.contains(separator),
        text::pieces(start, separator).len() > 0,
        text::pieces(start, separator).last().len() == 0,
    ensures
        text::pieces(start + part, separator) == text::pieces(start, separator).drop_last().push(
            part,
        ),
    decreases part.len(),
{
    let whole = start + part;
    let first = text::pieces(start, separator);
    if part.len() == 0 {
        assert(whole == start);
        assert(part == first.last());
        assert(first.drop_last().push(part) == first);
    } else {
        let shorter = part.drop_last();
        assert(part.contains(part[part.len() - 1]));
        assert(!shorter.contains(separator)) by {
            if shorter.contains(separator) {
                let i = choose|i: int| 0 <= i < shorter.len() && shorter[i] == separator;
                assert(part[i] == separator);
            }
        }
        lemma_add_piece(start, shorter, separator);
        assert(whole.drop_last() == start + shorter);
        assert(whole.last() == part[part.len() - 1]);
        let before = first.drop_last().push(shorter);
        assert(before.drop_last() == first.drop_last());
        assert(shorter.push(part.last()) == part);
    }
}

/// A run of a character at the start, or at the end, is dropped whole, and nothing else.
pub proof fn law_runs_are_dropped(c: char, n: nat, rest: Seq<char>)
    ensures
        (rest.len() > 0 ==> rest[0] != c) ==> text::without_leading(
            Seq::new(n, |i: int| c) + rest,
            c,
        ) == rest,
        (rest.len() > 0 ==> rest.last() != c) ==> text::without_trailing(
            rest + Seq::new(n, |i: int| c),
            c,
        ) == rest,
    decreases n,
{
    let ahead = Seq::new(n, |i: int| c) + rest;
    let behind = rest + Seq::new(n, |i: int| c);
    if n == 0 {
        assert(ahead == rest);
        assert(behind == rest);
    } else {
        let fewer = (n - 1) as nat;
        assert(ahead.drop_first() == Seq::new(fewer, |i: int| c) + rest);
        assert(behind.drop_last() == rest + Seq::new(fewer, |i: int| c));
        law_runs_are_dropped(c, fewer, rest);
    }
}

/// A text holds white space where some character of it is white space: before, after or
/// between what else it holds.
pub proof fn law_white_space_is_found(before: Seq<char>, c: char, after: Seq<char>)
    ensures
        text::is_white_space(c) ==> text::has_white_space(before.push(c) + after),
        is_word(before) ==> !text::has_white_space(before),
        !text::has_white_space(Seq::empty()),
{
    assert((before.push(c) + after)[before.len() as int] == c);
}

/// Doubling goes character by character: `c` twice, and every other character once.
pub proof fn law_doubling_goes_by_character(before: Seq<char>, after: Seq<char>, c: char, d: char)
    ensures
        text::doubled(before + after, c) == text::doubled(before, c) + text::doubled(after, c),
        text::doubled(seq![c], c) == seq![c, c],
        c != d ==> text::doubled(seq![d], c) == seq![d],
    decreases after.len(),
{
    let none = Seq::<char>::empty();
    assert(seq![c].drop_last() == none);
    assert(seq![d].drop_last() == none);
    reveal_with_fuel(text::doubled, 2);
    assert(none.push(c).push(c) == seq![c, c]);
    assert(none.push(d) == seq![d]);
    if after.len() == 0 {
        assert(before + after == before);
        assert(text::doubled(before, c) + text::doubled(after, c) == text::doubled(before, c));
    } else {
        law_doubling_goes_by_character(before, after.drop_last(), c, d);
        assert((before + after).drop_last() == before + after.drop_last());
        assert((before + after).last() == after.last());
        assert(text::doubled(before + after, c) == text::doubled(before, c) + text::doubled(
            after,
            c,
        ));
    }
}

/// A text without anything has a last line without anything.
pub proof fn law_empty_texts_have_an_empty_line()
    ensures
        text::last_line(Seq::empty()) == Seq::<char>::empty(),
        text::first_line(Seq::empty()) == Seq::<char>::empty(),
{
    let none = Seq::<char>::empty();
    assert(text::pieces(none, '\n') == seq![none]);
    assert(!none.contains('\n'));
    law_first_lines(none, none);
}

} // verus!
