use system_tuner::number::{decimal_chars, parse_bounded, parse_u32, parse_u64};
use system_tuner::pages::status::done_status;
use system_tuner::text::{
    char_is_whitespace, chars_equal, chars_of, concat_chars, occurs_at_index, sub_chars, text_of, texts_of, contains_chars, find, split_chars, split_lines, split_once_chars, split_words,
    starts_with, trim, trim_start_matches, Sep,
};

fn cv(s: &str) -> Vec<char> {
    s.chars().collect()
}

fn sv(v: &[Vec<char>]) -> Vec<String> {
    v.iter().map(|p| p.iter().collect()).collect()
}

#[test]
fn chars_of_keeps_every_character() {
    assert_eq!(chars_of("Ядро ⚙"), cv("Ядро ⚙"));
    assert_eq!(chars_of(""), Vec::<char>::new());
}

#[test]
fn trim_removes_unicode_whitespace_at_both_ends() {
    assert_eq!(trim("  60\n"), "60");
    assert_eq!(trim("\u{a0}\u{3000}x y\t\r\n"), "x y");
    assert_eq!(trim(" \n\t "), "");
    assert_eq!(trim("abc"), "abc");
}

#[test]
fn split_keeps_empty_pieces() {
    assert_eq!(sv(&split_chars(&cv("a::b"), Sep::Char(':'))), vec!["a", "", "b"]);
    assert_eq!(sv(&split_chars(&cv(""), Sep::Char(':'))), vec![""]);
    assert_eq!(sv(&split_chars(&cv("model name\t: Intel"), Sep::Char(':'))), vec!["model name\t", " Intel"]);
}

#[test]
fn split_words_drops_runs_of_whitespace() {
    assert_eq!(sv(&split_words(&cv("  sda   /  ext4\t100G 0 "))), vec!["sda", "/", "ext4", "100G", "0"]);
    assert!(split_words(&cv(" \t\n")).is_empty());
}

#[test]
fn split_lines_like_str_lines() {
    assert_eq!(sv(&split_lines(&cv("a\nb\r\nc"))), vec!["a", "b", "c"]);
    assert_eq!(sv(&split_lines(&cv("a\n\nb\n"))), vec!["a", "", "b"]);
    assert_eq!(sv(&split_lines(&cv("x\r"))), vec!["x\r"]);
    assert!(split_lines(&cv("")).is_empty());
    assert_eq!(sv(&split_lines(&cv("\n"))), vec![""]);
    for text in ["a\nb\r\nc", "a\n\nb\n", "x\r", "\r\n\r\n", "one"] {
        let expected: Vec<String> = text.lines().map(|l| l.to_string()).collect();
        assert_eq!(sv(&split_lines(&cv(text))), expected);
    }
}

#[test]
fn search_primitives() {
    assert!(starts_with(&cv("SwapTotal:  10 kB"), &cv("SwapTotal:")));
    assert!(!starts_with(&cv("Swap"), &cv("SwapTotal:")));
    assert!(contains_chars(&cv("networkmanager"), &cv("work")));
    assert!(contains_chars(&cv("abc"), &cv("")));
    assert!(!contains_chars(&cv("abc"), &cv("abd")));
    assert_eq!(find(&cv("a = b = c"), &cv(" = ")), Some(1));
    assert_eq!(find(&cv("abc"), &cv("z")), None);
}

#[test]
fn split_once_cuts_at_first_occurrence() {
    let (a, b) = split_once_chars(&cv("k = v = w"), &cv(" = ")).unwrap();
    assert_eq!(a.iter().collect::<String>(), "k");
    assert_eq!(b.iter().collect::<String>(), "v = w");
    assert!(split_once_chars(&cv("no separator"), &cv(" = ")).is_none());
}

#[test]
fn trim_start_matches_strips_every_leading_copy() {
    let out: String = trim_start_matches(&cv("/dev//dev/sda"), &cv("/dev/")).iter().collect();
    assert_eq!(out, "sda");
    let out: String = trim_start_matches(&cv("sda"), &cv("")).iter().collect();
    assert_eq!(out, "sda");
}

#[test]
fn parse_like_std() {
    for s in ["0", "42", "+7", "007", "18446744073709551615", "", "+", "-1", "1 ", "18446744073709551616", "1a", "٣"] {
        assert_eq!(parse_u64(&cv(s)), s.parse::<u64>().ok(), "parsing {:?}", s);
        assert_eq!(parse_u32(&cv(s)), s.parse::<u32>().ok(), "parsing {:?}", s);
    }
    assert_eq!(parse_u32(&cv("4294967296")), None);
    assert_eq!(parse_u32(&cv("4294967295")), Some(4294967295));
}

#[test]
fn decimal_like_to_string() {
    for n in [0u64, 9, 10, 1024, 212992, u64::MAX] {
        let s: String = decimal_chars(n).iter().collect();
        assert_eq!(s, n.to_string());
        assert_eq!(parse_u64(&decimal_chars(n)), Some(n));
    }
}

#[test]
fn small_text_helpers() {
    assert!(char_is_whitespace('\u{2028}'));
    assert!(char_is_whitespace('\t'));
    assert!(!char_is_whitespace('x'));
    assert!(!char_is_whitespace('\u{200b}'));
    assert!(Sep::Whitespace.matches('\u{85}'));
    assert!(Sep::Char(':').matches(':'));
    assert!(!Sep::Char(':').matches(';'));
    assert!(chars_equal(&cv("abc"), &cv("abc")));
    assert!(!chars_equal(&cv("abc"), &cv("abd")));
    assert!(!chars_equal(&cv("ab"), &cv("abc")));
    assert_eq!(sub_chars(&cv("swappiness"), 4, 8), cv("pine"));
    assert_eq!(concat_chars(&cv("vm."), &cv("swappiness")), cv("vm.swappiness"));
    assert_eq!(text_of(&cv("Ядро")), "Ядро");
    assert_eq!(texts_of(&vec![cv("a"), cv("бв")]), vec!["a", "бв"]);
    assert!(occurs_at_index(&cv("a = b"), &cv(" = "), 1));
    assert!(!occurs_at_index(&cv("a = b"), &cv(" = "), 3));
    assert!(!occurs_at_index(&cv("a"), &cv("a"), 5));
    assert_eq!(parse_bounded(&cv("200"), 200), Some(200));
    assert_eq!(parse_bounded(&cv("201"), 200), None);
    assert_eq!(done_status(&cv("TRIM включен")), "✓ TRIM включен");
}
