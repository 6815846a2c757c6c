use wikipedia_scraper::text::{
    begins_with, char_is_digit, char_is_whitespace, chars_of, first_line_of, followed_by,
    has_char, has_text, joined, last_position_of, lowercase_of, next_line, next_part,
    parse_bounded, parse_number, position_of, position_of_text, same_text, stands_at, str_has,
    str_is, string_of, strings_of, trimmed, with_replaced, without_leading,
    without_surrounding, without_trailing,
};

fn chars(s: &str) -> Vec<char> {
    s.chars().collect()
}

fn text(v: &[char]) -> String {
    v.iter().collect()
}

const SAMPLES: [&str; 14] = [
    "",
    " ",
    "a",
    "  a b  ",
    "\t\r\n x \u{a0}\u{3000}",
    "\u{2003}é\u{2003}",
    "line one\nline two",
    "crlf\r\nnext\r\n",
    "\n\nstart",
    "end\n",
    "lone\rreturn\r",
    "a,b,,c",
    ",",
    "x\r\r\ny",
];

#[test]
fn conversion_keeps_every_character() {
    for s in SAMPLES {
        assert_eq!(chars_of(s), chars(s));
        assert_eq!(string_of(&chars(s)), s);
    }
    assert_eq!(chars_of("héllo €"), vec!['h', 'é', 'l', 'l', 'o', ' ', '€']);
}

#[test]
fn whitespace_is_that_of_unicode() {
    for code in 0..=0x10FFFFu32 {
        if let Some(c) = char::from_u32(code) {
            assert_eq!(char_is_whitespace(c), c.is_whitespace(), "U+{:04X}", code);
            assert_eq!(char_is_digit(c), c.is_ascii_digit(), "U+{:04X}", code);
        }
    }
}

#[test]
fn trimming_removes_whitespace_at_both_ends() {
    for s in SAMPLES {
        assert_eq!(text(trimmed(&chars(s))), s.trim());
    }
    assert_eq!(text(trimmed(&chars("  a b  "))), "a b");
    assert_eq!(text(trimmed(&chars(" \t\n"))), "");
}

#[test]
fn stripping_removes_one_character_at_the_ends() {
    for s in ["", "/", "///", "a/", "a///", "/a/b//", "\"\"x\"", "x"] {
        assert_eq!(text(without_trailing(&chars(s), '/')), s.trim_end_matches('/'));
        assert_eq!(text(without_leading(&chars(s), '/')), s.trim_start_matches('/'));
        assert_eq!(text(without_surrounding(&chars(s), '"')), s.trim_matches('"'));
    }
    assert_eq!(text(without_trailing(&chars("https://x/wiki/a///"), '/')), "https://x/wiki/a");
}

#[test]
fn searching_finds_the_first_and_the_last() {
    let s = chars("a[b[c]d]");
    assert_eq!(position_of(&s, '['), Some(1));
    assert_eq!(last_position_of(&s, '['), Some(3));
    assert_eq!(position_of(&s, ']'), Some(5));
    assert_eq!(last_position_of(&s, ']'), Some(7));
    assert_eq!(position_of(&s, 'x'), None);
    assert_eq!(last_position_of(&s, 'x'), None);
    assert!(has_char(&s, 'd'));
    assert!(!has_char(&[], 'd'));
}

#[test]
fn searching_for_a_text_agrees_with_the_standard_library() {
    let hay = ["", "a", "abcabc", "aaa", "xx\r\n\r\nyy\n\nzz", "éàé", "ab"];
    let needles = ["", "a", "bc", "abc", "aa", "\r\n\r\n", "\n\n", "é", "abcabcd", "c"];
    for h in hay {
        for n in needles {
            let expected = h.find(n).map(|byte| h[..byte].chars().count());
            assert_eq!(position_of_text(&chars(h), &chars(n)), expected, "{:?} in {:?}", n, h);
            assert_eq!(has_text(&chars(h), &chars(n)), h.contains(n));
            assert_eq!(begins_with(&chars(h), &chars(n)), h.starts_with(n));
            assert_eq!(str_has(h, n), h.contains(n));
            assert_eq!(str_is(h, n), h == n);
            assert_eq!(same_text(&chars(h), &chars(n)), h == n);
        }
    }
    assert!(stands_at(&chars("abc"), &chars("bc"), 1));
    assert!(!stands_at(&chars("abc"), &chars("bc"), 2));
    assert!(!stands_at(&chars("abc"), &chars("bc"), 7));
    assert!(stands_at(&chars("abc"), &chars(""), 3));
}

#[test]
fn lines_agree_with_the_standard_library() {
    for s in SAMPLES {
        let all = chars(s);
        let mut found: Vec<String> = Vec::new();
        let mut pos = 0;
        while pos < all.len() {
            let (line, next) = next_line(&all, pos);
            found.push(text(line));
            assert!(next > pos);
            pos = next;
        }
        let expected: Vec<String> = s.lines().map(|l| l.to_string()).collect();
        assert_eq!(found, expected, "{:?}", s);
        assert_eq!(text(first_line_of(&all)), s.lines().next().unwrap_or(""));
    }
}

#[test]
fn parts_agree_with_the_standard_library() {
    for s in SAMPLES {
        let all = chars(s);
        let mut found: Vec<String> = Vec::new();
        let mut pos = Some(0);
        while let Some(p) = pos {
            let (part, next) = next_part(&all, p, ',');
            found.push(text(part));
            pos = next;
        }
        let expected: Vec<String> = s.split(',').map(|l| l.to_string()).collect();
        assert_eq!(found, expected, "{:?}", s);
    }
}

#[test]
fn numbers_are_read_as_u32_reads_them() {
    let samples = [
        "", "0", "7", "12", "0099", "+12", "+", "-", "-1", "- 1", "++1", "1+", " 1", "1 ", "12px",
        "4294967295", "4294967296", "42949672950", "99999999999999999999999999", "00000000000000000000001",
        "１２", "1e3", "0x10",
    ];
    for s in samples {
        assert_eq!(parse_number(&chars(s)), s.parse::<u32>().ok(), "{:?}", s);
        assert_eq!(parse_bounded(&chars(s), u64::MAX), s.parse::<u64>().ok(), "{:?}", s);
    }
    assert_eq!(parse_number(&chars("100")), Some(100));
    assert_eq!(parse_bounded(&chars("18446744073709551615"), u64::MAX), Some(u64::MAX));
    assert_eq!(parse_bounded(&chars("18446744073709551616"), u64::MAX), None);
    assert_eq!(parse_bounded(&chars("21"), 20), None);
    assert_eq!(parse_bounded(&chars("20"), 20), Some(20));
}

#[test]
fn lower_case_is_that_of_unicode() {
    for s in ["", "abc", "ABC", "Été À Paris", "ΑΒΓ", "İstanbul", "Straße", "K"] {
        assert_eq!(text(&lowercase_of(&chars(s))), s.to_lowercase());
    }
    assert_eq!(text(&lowercase_of(&chars("HTTPS://X/WIKI/FOO"))), "https://x/wiki/foo");
}

#[test]
fn joining_and_replacing() {
    let parts = vec![chars("a"), chars(""), chars("bc")];
    assert_eq!(text(&joined(&parts, &chars("\n\n"))), "a\n\n\n\nbc");
    assert_eq!(text(&joined(&vec![chars("solo")], &chars(", "))), "solo");
    assert_eq!(text(&joined(&Vec::new(), &chars(", "))), "");
    assert_eq!(text(&followed_by(&chars("ab"), &chars("cd"))), "abcd");
    assert_eq!(text(&with_replaced(&chars("a b  c"), ' ', '_')), "a_b__c");
    assert_eq!(strings_of(&parts), vec!["a", "", "bc"]);
}
