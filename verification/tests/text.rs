use poe2openai::decimal::{format_decimal, parse_decimal_exec};
use poe2openai::truncate::truncate_str_by_bytes;
use poe2openai::record::{format_record, parse_record};
use poe2openai::split::{
    is_whitespace, str_is_blank, vec_join, vec_lines, vec_split, vec_trim,
};
use poe2openai::text::{
    chars_of, find_in, str_eq, str_starts_with, string_of,
    vec_ends_with, vec_replace,
};

fn chars(s: &str) -> Vec<char> {
    s.chars().collect()
}

fn text(v: &Vec<char>) -> String {
    v.iter().collect()
}

fn texts(v: &Vec<Vec<char>>) -> Vec<String> {
    v.iter().map(text).collect()
}

#[test]
fn strings_and_characters_convert_both_ways() {
    assert_eq!(chars_of("héllo"), chars("héllo"));
    assert_eq!(string_of(&chars("héllo")), "héllo");
    assert_eq!(poe2openai::text::concat("ab", "cd"), "abcd");
    assert_eq!(poe2openai::text::concat3("a", "b", "c"), "abc");
    assert!(str_eq("x", "x"));
    assert!(!str_eq("x", "y"));
}

#[test]
fn search_finds_the_first_occurrence() {
    assert_eq!(find_in(&chars("abcabc"), &chars("bc"), 0), Some(1));
    assert_eq!(find_in(&chars("abcabc"), &chars("bc"), 2), Some(4));
    assert_eq!(find_in(&chars("abcabc"), &chars("x"), 0), None);
    assert_eq!(find_in(&chars("abc"), &chars(""), 3), Some(3));
    assert_eq!(find_in(&chars("ab"), &chars("abc"), 0), None);
    assert!(str_starts_with("hello", "he"));
    assert!(!str_starts_with("hello", "el"));
    assert!(vec_ends_with(&chars("line\n"), &chars("\n")));
    assert!(!vec_ends_with(&chars("line"), &chars("\n")));
}

#[test]
fn replace_takes_matches_left_to_right() {
    assert_eq!(text(&vec_replace(&chars("aaa"), &chars("aa"), &chars("b"))), "ba");
    assert_eq!(text(&vec_replace(&chars("a[x]b[x]"), &chars("[x]"), &chars("(u)"))), "a(u)b(u)");
    assert_eq!(text(&vec_replace(&chars("abc"), &chars(""), &chars("-"))), "abc");
    assert_eq!(text(&vec_replace(&chars("abc"), &chars("z"), &chars("-"))), "abc");
}

#[test]
fn split_and_join() {
    assert_eq!(texts(&vec_split(&chars("a,b,,c"), &chars(","))), vec!["a", "b", "", "c"]);
    assert_eq!(texts(&vec_split(&chars(""), &chars(","))), vec![""]);
    assert_eq!(texts(&vec_split(&chars("a,"), &chars(","))), vec!["a", ""]);
    assert_eq!(
        texts(&vec_split(&chars("x;base64,y;base64,z"), &chars(";base64,"))),
        vec!["x", "y", "z"]
    );
    let parts = vec![chars("a"), chars(""), chars("b")];
    assert_eq!(text(&vec_join(&parts, &chars(", "))), "a, , b");
    assert_eq!(text(&vec_join(&vec![], &chars(","))), "");
}

#[test]
fn lines_follow_line_feeds() {
    assert_eq!(texts(&vec_lines(&chars("a\nb\r\nc"))), vec!["a", "b", "c"]);
    assert_eq!(texts(&vec_lines(&chars("a\n"))), vec!["a"]);
    assert_eq!(texts(&vec_lines(&chars("\n\nx"))), vec!["", "", "x"]);
    assert_eq!(texts(&vec_lines(&chars("a\r"))), vec!["a\r"]);
    assert!(vec_lines(&chars("")).is_empty());
    for sample in ["a\nb\r\nc", "a\n", "\n\nx", "a\r", "", "\r\n", "x\r\r\ny"] {
        let expected: Vec<String> = sample.lines().map(|l| l.to_string()).collect();
        assert_eq!(texts(&vec_lines(&chars(sample))), expected);
    }
}

#[test]
fn trim_drops_white_space_at_both_ends() {
    assert_eq!(text(&vec_trim(&chars("  a b \t\n"))), "a b");
    assert_eq!(text(&vec_trim(&chars(" \u{a0}\u{3000} "))), "");
    assert!(str_is_blank(" \n\t"));
    assert!(str_is_blank(""));
    assert!(!str_is_blank(" x "));
    for code in 0u32..0x3100 {
        if let Some(c) = char::from_u32(code) {
            assert_eq!(is_whitespace(c), c.is_whitespace());
        }
    }
}

#[test]
fn decimal_notation() {
    assert_eq!(text(&format_decimal(0)), "0");
    assert_eq!(text(&format_decimal(1234567890)), "1234567890");
    assert_eq!(text(&format_decimal(u64::MAX)), "18446744073709551615");
    assert_eq!(parse_decimal_exec(&chars("0"), u64::MAX), Some(0));
    assert_eq!(parse_decimal_exec(&chars("+42"), u64::MAX), Some(42));
    assert_eq!(parse_decimal_exec(&chars("007"), u64::MAX), Some(7));
    assert_eq!(parse_decimal_exec(&chars("18446744073709551615"), u64::MAX), Some(u64::MAX));
    assert_eq!(parse_decimal_exec(&chars("18446744073709551616"), u64::MAX), None);
    assert_eq!(parse_decimal_exec(&chars("256"), 255), None);
    assert_eq!(parse_decimal_exec(&chars("255"), 255), Some(255));
    for bad in ["", "+", "-1", " 1", "1 ", "1a", "++1"] {
        assert_eq!(parse_decimal_exec(&chars(bad), u64::MAX), None);
        assert!(bad.parse::<u64>().is_err());
    }
}

#[test]
fn records_tolerate_colons_in_the_url() {
    let written = format_record(1700000000, &chars("https://cdn.example:8443/a:b"), 2048);
    assert_eq!(text(&written), "1700000000:https://cdn.example:8443/a:b:2048");
    let read = parse_record(&written).expect("record");
    assert_eq!(read.expires, Some(1700000000));
    assert_eq!(text(&read.url), "https://cdn.example:8443/a:b");
    assert_eq!(read.size, Some(2048));
}

#[test]
fn records_need_two_colons() {
    assert!(parse_record(&chars("")).is_none());
    assert!(parse_record(&chars("12:url")).is_none());
    let empty_url = parse_record(&chars("5::7")).expect("record");
    assert_eq!((empty_url.expires, text(&empty_url.url), empty_url.size), (Some(5), String::new(), Some(7)));
    let bad_numbers = parse_record(&chars("x:u:y")).expect("record");
    assert_eq!(bad_numbers.expires, None);
    assert_eq!(bad_numbers.size, None);
    assert_eq!(text(&bad_numbers.url), "u");
}

fn truncate_model(s: &str, max: usize) -> (String, bool) {
    if s.len() <= max {
        return (s.to_string(), false);
    }
    let mut end = max;
    while end > 0 && !s.is_char_boundary(end) {
        end -= 1;
    }
    (format!("{}… [truncated {} bytes]", &s[..end], s.len() - end), true)
}

#[test]
fn truncation_keeps_whole_characters() {
    assert_eq!(truncate_str_by_bytes("hello", 5), ("hello".to_string(), false));
    assert_eq!(truncate_str_by_bytes("hello", 3), ("hel… [truncated 2 bytes]".to_string(), true));
    assert_eq!(truncate_str_by_bytes("héllo", 2), ("h… [truncated 5 bytes]".to_string(), true));
    assert_eq!(truncate_str_by_bytes("日本語", 0), ("… [truncated 9 bytes]".to_string(), true));
    for sample in ["", "a", "héllo wörld", "日本語テキスト", "a\u{1F600}b"] {
        for max in 0..sample.len() + 2 {
            assert_eq!(truncate_str_by_bytes(sample, max), truncate_model(sample, max));
        }
    }
}
