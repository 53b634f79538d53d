//! Plain text: white space, splitting, searching, decimal numbers.
//!
//! A text is modelled by the sequence of its characters. Every function here
//! states its result as a spec function on such sequences.
use vstd::prelude::*;

verus! {

/// Whether `c` has the Unicode property White_Space.
pub open spec fn is_white_space(c: char) -> bool {
    ||| '\u{9}' <= c <= '\u{d}'
    ||| c == ' '
    ||| c == '\u{85}'
    ||| c == '\u{a0}'
    ||| c == '\u{1680}'
    ||| '\u{2000}' <= c <= '\u{200a}'
    ||| c == '\u{2028}'
    ||| c == '\u{2029}'
    ||| c == '\u{202f}'
    ||| c == '\u{205f}'
    ||| c == '\u{3000}'
}

/// `char::is_whitespace` of std, documented as the property White_Space of the
/// Unicode Character Database: the contract lists the code points that have it.
pub assume_specification[ char::is_whitespace ](c: char) -> (r: bool)
    ensures
        r == is_white_space(c),
;

/// `String::push` of std: the character is appended at the end.
pub assume_specification[ String::push ](s: &mut String, c: char)
    ensures
        final(s)@ == old(s)@.push(c),
;

/// `s` without its leading white space.
pub open spec fn trim_start(s: Seq<char>) -> Seq<char>
    decreases s.len(),
{
    if s.len() > 0 && is_white_space(s[0]) {
        trim_start(s.drop_first())
    } else {
        s
    }
}

/// `s` without its trailing white space.
pub open spec fn trim_end(s: Seq<char>) -> Seq<char>
    decreases s.len(),
{
    if s.len() > 0 && is_white_space(s.last()) {
        trim_end(s.drop_last())
    } else {
        s
    }
}

/// `s` without the white space around it.
pub open spec fn trimmed(s: Seq<char>) -> Seq<char> {
    trim_end(trim_start(s))
}

/// `s` without the run of `c` at its start.
pub open spec fn without_leading(s: Seq<char>, c: char) -> Seq<char>
    decreases s.len(),
{
    if s.len() > 0 && s[0] == c {
        without_leading(s.drop_first(), c)
    } else {
        s
    }
}

/// `s` without the run of `c` at its end.
pub open spec fn without_trailing(s: Seq<char>, c: char) -> Seq<char>
    decreases s.len(),
{
    if s.len() > 0 && s.last() == c {
        without_trailing(s.drop_last(), c)
    } else {
        s
    }
}

/// Whether some character of `s` is white space.
pub open spec fn has_white_space(s: Seq<char>) -> bool {
    exists|i: int| 0 <= i < s.len() && is_white_space(#[trigger] s[i])
}

/// The pieces of `s` between the occurrences of `separator`: always one more
/// than there are occurrences.
pub open spec fn pieces(s: Seq<char>, separator: char) -> Seq<Seq<char>>
    decreases s.len(),
{
    if s.len() == 0 {
        seq![s]
    } else {
        let before = pieces(s.drop_last(), separator);
        if s.last() == separator {
            before.push(Seq::empty())
        } else {
            before.drop_last().push(before.last().push(s.last()))
        }
    }
}

/// `s` with every occurrence of `c` written twice.
pub open spec fn doubled(s: Seq<char>, c: char) -> Seq<char>
    decreases s.len(),
{
    if s.len() == 0 {
        s
    } else if s.last() == c {
        doubled(s.drop_last(), c).push(c).push(c)
    } else {
        doubled(s.drop_last(), c).push(s.last())
    }
}

/// Whether `needle` stands in `s` at position `i`.
pub open spec fn occurs_at(s: Seq<char>, needle: Seq<char>, i: int) -> bool {
    &&& 0 <= i
    &&& i + needle.len() <= s.len()
    &&& s.subrange(i, i + needle.len()) == needle
}

/// The first position of `needle` in `s` that is not before `from`.
pub open spec fn position_from(s: Seq<char>, needle: Seq<char>, from: nat) -> Option<nat>
    decreases s.len() + 1 - from,
{
    if from + needle.len() > s.len() {
        None
    } else if occurs_at(s, needle, from as int) {
        Some(from)
    } else {
        position_from(s, needle, from + 1)
    }
}

/// The first position of `needle` in `s`.
pub open spec fn position(s: Seq<char>, needle: Seq<char>) -> Option<nat> {
    position_from(s, needle, 0)
}

/// The longest prefix of `s` without white space.
pub open spec fn leading_word(s: Seq<char>) -> Seq<char>
    decreases s.len(),
{
    if s.len() > 0 && !is_white_space(s[0]) {
        seq![s[0]] + leading_word(s.drop_first())
    } else {
        Seq::empty()
    }
}

/// The second of the words of `s` that white space separates; empty where there
/// are fewer.
pub open spec fn second_word(s: Seq<char>) -> Seq<char> {
    let from_first = trim_start(s);
    let after_first = from_first.skip(leading_word(from_first).len() as int);
    leading_word(trim_start(after_first))
}

/// `s` up to its first line feed, without a carriage return right before that.
pub open spec fn first_line(s: Seq<char>) -> Seq<char> {
    match position(s, seq!['\n']) {
        None => s,
        Some(end) => {
            if end > 0 && s[end - 1] == '\r' {
                s.take(end - 1)
            } else {
                s.take(end as int)
            }
        },
    }
}

/// The last line of `s`: what follows the last line feed, one at the very end of
/// `s` not counted, without the line's own terminator.
pub open spec fn last_line(s: Seq<char>) -> Seq<char> {
    if s.len() > 0 && s.last() == '\n' {
        let line = pieces(s.drop_last(), '\n').last();
        if line.len() > 0 && line.last() == '\r' {
            line.drop_last()
        } else {
            line
        }
    } else {
        pieces(s, '\n').last()
    }
}

pub open spec fn is_digit(c: char) -> bool {
    '0' <= c <= '9'
}

/// The number that a decimal digit stands for.
pub open spec fn digit_value(c: char) -> nat {
    (c as int - '0' as int) as nat
}

/// The number that a run of decimal digits stands for.
pub open spec fn digits_value(s: Seq<char>) -> nat
    decreases s.len(),
{
    if s.len() == 0 {
        0
    } else {
        digits_value(s.drop_last()) * 10 + digit_value(s.last())
    }
}

/// Whether `s` is one decimal digit or more.
pub open spec fn is_digits(s: Seq<char>) -> bool {
    s.len() > 0 && forall|i: int| 0 <= i < s.len() ==> is_digit(#[trigger] s[i])
}

/// `s` without a plus sign at its start.
pub open spec fn without_plus(s: Seq<char>) -> Seq<char> {
    if s.len() > 0 && s[0] == '+' {
        s.drop_first()
    } else {
        s
    }
}

/// The number that `s` writes in decimal, where it is at most `max`: an optional
/// plus sign, then one digit or more and nothing else.
pub open spec fn unsigned(s: Seq<char>, max: nat) -> Option<nat> {
    let digits = without_plus(s);
    if is_digits(digits) && digits_value(digits) <= max {
        Some(digits_value(digits))
    } else {
        None
    }
}

/// The digit for a number below ten.
pub open spec fn digit(n: nat) -> char {
    ('0' as int + n) as char
}

/// `n` in decimal, without leading zeros.
pub open spec fn decimal(n: nat) -> Seq<char>
    decreases n,
{
    if n < 10 {
        seq![digit(n)]
    } else {
        decimal(n / 10).push(digit(n % 10))
    }
}

/// The characters of `s` in order.
pub fn characters(s: &str) -> (r: Vec<char>)
    ensures
        r@ == s@,
{
    let mut r: Vec<char> = Vec::new();
    for c in it: s.chars()
        invariant
            it.seq() == s@,
            r@ == s@.take(it.index() as int),
    {
        proof {
            assert(s@.take(it.index() + 1) == s@.take(it.index() as int).push(c));
        }
        r.push(c);
    }
    assert(s@.take(s@.len() as int) == s@);
    r
}

/// Whether two texts are equal.
pub fn same(a: &str, b: &str) -> (r: bool)
    ensures
        r == (a@ == b@),
{
    a.to_owned() == b.to_owned()
}

/// `s` without the white space around it.
pub fn trim(s: &str) -> (r: &str)
    ensures
        r@ == trimmed(s@),
{
    let chars = characters(s);
    let mut from: usize = 0;
    assert(s@.skip(0) == s@);
    while from < chars.len() && chars[from].is_whitespace()
        invariant
            chars@ == s@,
            from <= chars.len(),
            trim_start(s@) == trim_start(s@.skip(from as int)),
        decreases chars.len() - from,
    {
        assert(s@.skip(from as int).drop_first() == s@.skip(from + 1));
        from = from + 1;
    }
    let mut to: usize = chars.len();
    assert(s@.subrange(from as int, to as int) == s@.skip(from as int));
    while to > from && chars[to - 1].is_whitespace()
        invariant
            chars@ == s@,
            from <= to <= chars.len(),
            trimmed(s@) == trim_end(s@.subrange(from as int, to as int)),
        decreases to,
    {
        assert(s@.subrange(from as int, to as int).drop_last() == s@.subrange(
            from as int,
            to - 1,
        ));
        to = to - 1;
    }
    s.substring_char(from, to)
}

/// `s` without the run of `c` at its start.
pub fn trim_start_matches(s: &str, c: char) -> (r: &str)
    ensures
        r@ == without_leading(s@, c),
{
    let chars = characters(s);
    let mut from: usize = 0;
    assert(s@.skip(0) == s@);
    while from < chars.len() && chars[from] == c
        invariant
            chars@ == s@,
            from <= chars.len(),
            without_leading(s@, c) == without_leading(s@.skip(from as int), c),
        decreases chars.len() - from,
    {
        assert(s@.skip(from as int).drop_first() == s@.skip(from + 1));
        from = from + 1;
    }
    assert(s@.subrange(from as int, s@.len() as int) == s@.skip(from as int));
    s.substring_char(from, chars.len())
}

/// `s` without the run of `c` at its end.
pub fn trim_end_matches(s: &str, c: char) -> (r: &str)
    ensures
        r@ == without_trailing(s@, c),
{
    let chars = characters(s);
    let mut to: usize = chars.len();
    assert(s@.take(s@.len() as int) == s@);
    while to > 0 && chars[to - 1] == c
        invariant
            chars@ == s@,
            to <= chars.len(),
            without_trailing(s@, c) == without_trailing(s@.take(to as int), c),
        decreases to,
    {
        assert(s@.take(to as int).drop_last() == s@.take(to - 1));
        to = to - 1;
    }
    assert(s@.subrange(0, to as int) == s@.take(to as int));
    s.substring_char(0, to)
}

/// Whether `c` occurs in `s`.
pub fn contains(s: &str, c: char) -> (r: bool)
    ensures
        r == s@.contains(c),
{
    let chars = characters(s);
    let mut i: usize = 0;
    while i < chars.len()
        invariant
            chars@ == s@,
            i <= chars.len(),
            forall|j: int| 0 <= j < i ==> s@[j] != c,
        decreases chars.len() - i,
    {
        if chars[i] == c {
            assert(s@[i as int] == c);
            return true;
        }
        i = i + 1;
    }
    false
}

/// Whether some character of `s` is white space.
pub fn contains_white_space(s: &str) -> (r: bool)
    ensures
        r == has_white_space(s@),
{
    let chars = characters(s);
    let mut i: usize = 0;
    while i < chars.len()
        invariant
            chars@ == s@,
            i <= chars.len(),
            forall|j: int| 0 <= j < i ==> !is_white_space(#[trigger] s@[j]),
        decreases chars.len() - i,
    {
        if chars[i].is_whitespace() {
            return true;
        }
        i = i + 1;
    }
    false
}

/// What follows `prefix` at the start of `s`.
pub fn strip_prefix<'a>(s: &'a str, prefix: &str) -> (r: Option<&'a str>)
    ensures
        r is Some <==> prefix@.is_prefix_of(s@),
        r matches Some(rest) ==> rest@ == s@.skip(prefix@.len() as int),
{
    let chars = characters(s);
    let start = characters(prefix);
    if chars.len() < start.len() {
        return None;
    }
    let mut i: usize = 0;
    while i < start.len()
        invariant
            chars@ == s@,
            start@ == prefix@,
            start.len() <= chars.len(),
            i <= start.len(),
            forall|j: int| 0 <= j < i ==> s@[j] == prefix@[j],
        decreases start.len() - i,
    {
        if chars[i] != start[i] {
            assert(!prefix@.is_prefix_of(s@)) by {
                if prefix@.is_prefix_of(s@) {
                    assert(s@.subrange(0, prefix@.len() as int)[i as int] == s@[i as int]);
                }
            }
            return None;
        }
        i = i + 1;
    }
    assert(prefix@ == s@.subrange(0, prefix@.len() as int));
    let rest = s.substring_char(start.len(), chars.len());
    assert(rest@ == s@.skip(prefix@.len() as int));
    Some(rest)
}

/// The pieces of `s` between the occurrences of `separator`.
pub fn split(s: &str, separator: char) -> (r: Vec<String>)
    ensures
        r.deep_view() == pieces(s@, separator),
{
    let chars = characters(s);
    let mut done: Vec<String> = Vec::new();
    let mut current = String::new();
    let mut i: usize = 0;
    assert(s@.take(0) == Seq::<char>::empty());
    assert(done.deep_view().push(current@) == seq![Seq::<char>::empty()]);
    while i < chars.len()
        invariant
            chars@ == s@,
            i <= chars.len(),
            done.deep_view().push(current@) == pieces(s@.take(i as int), separator),
        decreases chars.len() - i,
    {
        let ghost before = done.deep_view().push(current@);
        assert(s@.take(i + 1).drop_last() == s@.take(i as int));
        if chars[i] == separator {
            done.push(current);
            current = String::new();
            assert(done.deep_view() == before);
        } else {
            current.push(chars[i]);
            assert(before.drop_last() == done.deep_view());
        }
        i = i + 1;
    }
    assert(s@.take(s@.len() as int) == s@);
    let ghost all = done.deep_view().push(current@);
    done.push(current);
    assert(done.deep_view() == all);
    done
}

/// `s` with every occurrence of `c` written twice.
pub fn double(s: &str, c: char) -> (r: String)
    ensures
        r@ == doubled(s@, c),
{
    let chars = characters(s);
    let mut r = String::new();
    let mut i: usize = 0;
    assert(s@.take(0) == Seq::<char>::empty());
    while i < chars.len()
        invariant
            chars@ == s@,
            i <= chars.len(),
            r@ == doubled(s@.take(i as int), c),
        decreases chars.len() - i,
    {
        assert(s@.take(i + 1).drop_last() == s@.take(i as int));
        if chars[i] == c {
            r.push(c);
        }
        r.push(chars[i]);
        i = i + 1;
    }
    assert(s@.take(s@.len() as int) == s@);
    r
}

/// The first position, counted in characters, at which `needle` stands in `s`.
pub fn find(s: &str, needle: &str) -> (r: Option<usize>)
    ensures
        r is Some <==> position(s@, needle@) is Some,
        r matches Some(at) ==> position(s@, needle@) == Some(at as nat) && at + needle@.len()
            <= s@.len(),
{
    let chars = characters(s);
    let wanted = characters(needle);
    let mut from: usize = 0;
    while from <= chars.len() && wanted.len() <= chars.len() - from
        invariant
            chars@ == s@,
            wanted@ == needle@,
            from <= chars.len() + 1,
            from <= usize::MAX,
            position(s@, needle@) == position_from(s@, needle@, from as nat),
        decreases chars.len() + 1 - from,
    {
        let mut matched: usize = 0;
        while matched < wanted.len() && chars[from + matched] == wanted[matched]
            invariant
                chars@ == s@,
                wanted@ == needle@,
                matched <= wanted.len(),
                from + wanted.len() <= chars.len(),
                forall|j: int| 0 <= j < matched ==> s@[from + j] == needle@[j],
            decreases wanted.len() - matched,
        {
            matched = matched + 1;
        }
        if matched == wanted.len() {
            assert(s@.subrange(from as int, from + needle@.len()) == needle@);
            return Some(from);
        }
        assert(!occurs_at(s@, needle@, from as int)) by {
            assert(s@.subrange(from as int, from + needle@.len())[matched as int] == s@[from
                + matched]);
        }
        if from == chars.len() {
            return None;
        }
        from = from + 1;
    }
    None
}

/// The second of the words of `s` that white space separates; empty where there
/// are fewer.
pub fn word_after_first(s: &str) -> (r: &str)
    ensures
        r@ == second_word(s@),
{
    let chars = characters(s);
    let first = skip_white_space(&chars, 0);
    let after = skip_word(&chars, first);
    let second = skip_white_space(&chars, after);
    let end = skip_word(&chars, second);
    proof {
        let from_first = trim_start(s@);
        assert(s@.skip(0) == s@);
        assert(from_first == s@.skip(first as int));
        assert(from_first.skip(leading_word(from_first).len() as int) == s@.skip(after as int));
    }
    s.substring_char(second, end)
}

/// The first position from `from` on that holds no white space.
fn skip_white_space(chars: &Vec<char>, from: usize) -> (r: usize)
    requires
        from <= chars@.len(),
    ensures
        from <= r <= chars@.len(),
        trim_start(chars@.skip(from as int)) == chars@.skip(r as int),
{
    let mut r: usize = from;
    while r < chars.len() && chars[r].is_whitespace()
        invariant
            from <= r <= chars@.len(),
            trim_start(chars@.skip(from as int)) == trim_start(chars@.skip(r as int)),
        decreases chars.len() - r,
    {
        assert(chars@.skip(r as int).drop_first() == chars@.skip(r + 1));
        r = r + 1;
    }
    r
}

/// The first position from `from` on that holds white space, or the end.
fn skip_word(chars: &Vec<char>, from: usize) -> (r: usize)
    requires
        from <= chars@.len(),
    ensures
        from <= r <= chars@.len(),
        leading_word(chars@.skip(from as int)) == chars@.subrange(from as int, r as int),
{
    let mut r: usize = from;
    assert(chars@.subrange(from as int, from as int) == Seq::<char>::empty());
    while r < chars.len() && !chars[r].is_whitespace()
        invariant
            from <= r <= chars@.len(),
            leading_word(chars@.skip(from as int)) == chars@.subrange(from as int, r as int)
                + leading_word(chars@.skip(r as int)),
        decreases chars.len() - r,
    {
        let ghost rest = chars@.skip(r as int);
        assert(rest.drop_first() == chars@.skip(r + 1));
        assert(chars@.subrange(from as int, r as int) + (seq![rest[0]] + leading_word(
            rest.drop_first(),
        )) == chars@.subrange(from as int, r + 1) + leading_word(chars@.skip(r + 1)));
        r = r + 1;
    }
    assert(leading_word(chars@.skip(r as int)) == Seq::<char>::empty());
    r
}

/// `s` up to its first line feed, without a carriage return right before that.
pub fn head_line(s: &str) -> (r: &str)
    ensures
        r@ == first_line(s@),
{
    let chars = characters(s);
    proof {
        reveal_strlit("\n");
        assert("\n"@ == seq!['\n']);
        assert(s@.subrange(0, s@.len() as int) == s@);
    }
    match find(s, "\n") {
        None => s,
        Some(end) => {
            if end > 0 && chars[end - 1] == '\r' {
                s.substring_char(0, end - 1)
            } else {
                s.substring_char(0, end)
            }
        },
    }
}

/// The last line of `s`, without its terminator.
pub fn tail_line(s: &str) -> (r: String)
    ensures
        r@ == last_line(s@),
{
    let chars = characters(s);
    let len: usize = chars.len();
    if len > 0 && chars[len - 1] == '\n' {
        let body = s.substring_char(0, len - 1);
        assert(body@ == s@.drop_last());
        let line = last_piece(body, '\n');
        let line_chars = characters(line.as_str());
        if line_chars.len() > 0 && line_chars[line_chars.len() - 1] == '\r' {
            let ghost whole = line@;
            let bare = line.as_str().substring_char(0, line_chars.len() - 1);
            assert(bare@ == whole.drop_last());
            bare.to_owned()
        } else {
            line
        }
    } else {
        last_piece(s, '\n')
    }
}

/// The piece of `s` after the last occurrence of `separator`.
fn last_piece(s: &str, separator: char) -> (r: String)
    ensures
        r@ == pieces(s@, separator).last(),
{
    let parts = split(s, separator);
    proof {
        lemma_pieces_nonempty(s@, separator);
        assert(parts.deep_view().len() == parts@.len());
    }
    parts[parts.len() - 1].clone()
}

/// There is always a piece.
pub proof fn lemma_pieces_nonempty(s: Seq<char>, separator: char)
    ensures
        pieces(s, separator).len() >= 1,
    decreases s.len(),
{
    if s.len() > 0 {
        lemma_pieces_nonempty(s.drop_last(), separator);
    }
}

/// The number that `s` writes in decimal, where it is at most `max`.
pub fn parse_unsigned(s: &str, max: u64) -> (r: Option<u64>)
    ensures
        r is Some <==> unsigned(s@, max as nat) is Some,
        r matches Some(n) ==> unsigned(s@, max as nat) == Some(n as nat),
{
    let chars = characters(s);
    let start: usize = if chars.len() > 0 && chars[0] == '+' {
        1
    } else {
        0
    };
    let ghost digits = without_plus(s@);
    assert(digits == s@.skip(start as int));
    if chars.len() == start {
        return None;
    }
    let mut value: u64 = 0;
    let mut too_large = false;
    let mut i: usize = start;
    assert(digits.take(0) == Seq::<char>::empty());
    while i < chars.len()
        invariant
            chars@ == s@,
            digits == without_plus(s@),
            digits == s@.skip(start as int),
            start <= i <= chars.len(),
            forall|j: int| 0 <= j < i - start ==> is_digit(#[trigger] digits[j]),
            too_large ==> digits_value(digits.take(i - start)) > max,
            !too_large ==> value == digits_value(digits.take(i - start)) && value <= max,
        decreases chars.len() - i,
    {
        let c = chars[i];
        assert(c == digits[i - start]);
        if c < '0' || c > '9' {
            return None;
        }
        assert(digits.take(i + 1 - start).drop_last() == digits.take(i - start));
        let added: u64 = c as u64 - '0' as u64;
        if !too_large {
            if added > max || value > max / 10 || value * 10 > max - added {
                too_large = true;
            } else {
                value = value * 10 + added;
            }
        }
        i = i + 1;
    }
    assert(digits.take(chars.len() - start) == digits);
    if too_large {
        None
    } else {
        Some(value)
    }
}

/// `n` in decimal.
pub fn to_decimal(n: u64) -> (r: String)
    ensures
        r@ == decimal(n as nat),
    decreases n,
{
    let mut r = if n < 10 {
        String::new()
    } else {
        to_decimal(n / 10)
    };
    let last: u8 = 48 + (n % 10) as u8;
    r.push(last as char);
    r
}

} // verus!
