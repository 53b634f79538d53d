//! Texts, held against what std makes of them.
use twow_gm_tool::text::{
    characters, contains, contains_white_space, double, find, head_line, parse_unsigned, same,
    split, strip_prefix, tail_line, to_decimal, trim, trim_end_matches, trim_start_matches,
    word_after_first,
};

const SAMPLES: [&str; 18] = [
    "",
    " ",
    "a",
    " a ",
    "\u{85}\u{a0}x\u{2028}",
    "..a..b..",
    "....",
    "a,b,,c,",
    ",",
    "one two\tthree",
    "  lead",
    "x\r\ny\r\n",
    "x\ny",
    "\n",
    "x\r",
    "a\r\n\r\nb\r\n\r\nc",
    "it's",
    "\u{1F600} \u{e9}\u{200b}",
];

#[test]
fn texts_are_handled_like_std() {
    for s in SAMPLES {
        assert_eq!(trim(s), s.trim());
        assert_eq!(trim_start_matches(s, '.'), s.trim_start_matches('.'));
        assert_eq!(trim_end_matches(s, '.'), s.trim_end_matches('.'));
        assert_eq!(contains(s, 'a'), s.contains('a'));
        assert_eq!(contains_white_space(s), s.contains(char::is_whitespace));
        assert_eq!(split(s, ','), s.split(',').collect::<Vec<_>>());
        assert_eq!(split(s, '.'), s.split('.').collect::<Vec<_>>());
        assert_eq!(double(s, '\''), s.replace('\'', "''"));
        assert_eq!(word_after_first(s), s.split_whitespace().nth(1).unwrap_or_default());
        assert_eq!(head_line(s), s.lines().next().unwrap_or_default());
        assert_eq!(tail_line(s), s.lines().last().unwrap_or_default());
        assert_eq!(characters(s), s.chars().collect::<Vec<_>>());
        assert_eq!(strip_prefix(s, "a"), s.strip_prefix("a"));
        assert_eq!(strip_prefix(s, ""), Some(s));
        assert_eq!(split(s, ',').join(","), s);
        assert_eq!(
            find(s, "\r\n\r\n"),
            s.find("\r\n\r\n").map(|at| s[..at].chars().count())
        );
        for t in SAMPLES {
            assert_eq!(same(s, t), s == t);
        }
    }
}

#[test]
fn trimming_twice_is_trimming_once() {
    for s in SAMPLES {
        assert_eq!(trim(trim(s)), trim(s));
    }
}

#[test]
fn white_space_is_that_of_std() {
    for code in 0..=0x10ffffu32 {
        if let Some(c) = char::from_u32(code) {
            let listed = matches!(
                c,
                '\u{9}'..='\u{d}'
                    | ' '
                    | '\u{85}'
                    | '\u{a0}'
                    | '\u{1680}'
                    | '\u{2000}'..='\u{200a}'
                    | '\u{2028}'
                    | '\u{2029}'
                    | '\u{202f}'
                    | '\u{205f}'
                    | '\u{3000}'
            );
            assert_eq!(c.is_whitespace(), listed);
        }
    }
}

#[test]
fn needles_are_found_where_they_first_stand() {
    assert_eq!(find("aaab", "aab"), Some(1));
    assert_eq!(find("abc", ""), Some(0));
    assert_eq!(find("", ""), Some(0));
    assert_eq!(find("ab", "abc"), None);
    assert_eq!(find("\u{e9}xy", "xy"), Some(1));
}

#[test]
fn numbers_read_back() {
    for n in [0, 7, 10, 99, 100, 65535, 4294967296, u64::MAX] {
        assert_eq!(to_decimal(n), n.to_string());
        assert_eq!(parse_unsigned(&to_decimal(n), u64::MAX), Some(n));
        if n > 0 {
            assert_eq!(parse_unsigned(&to_decimal(n), n - 1), None);
        }
    }
    assert_eq!(parse_unsigned("18446744073709551616", u64::MAX), None);
    assert_eq!(parse_unsigned("00018446744073709551615", u64::MAX), Some(u64::MAX));
    assert_eq!(parse_unsigned("99999999999999999999999x", u64::MAX), None);
    assert_eq!(parse_unsigned("++1", 9), None);
    assert_eq!(parse_unsigned("0", 0), Some(0));
}
