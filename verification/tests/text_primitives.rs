use buildops40::text::{
    chars_of, contains, contains_str, decimal_i64, decimal_usize, ends_with_str,
    insert_sorted_string, is_whitespace, lowercase, mentions_any_of, parse_i32, split_lines,
    starts_with_str, str_eq, string_of, text_less, trim,
};

fn chars(s: &str) -> Vec<char> {
    s.chars().collect()
}

fn text(v: &Vec<char>) -> String {
    v.iter().collect()
}

#[test]
fn whitespace_agrees_with_the_standard_library_on_every_character() {
    for n in 0..=0x10FFFFu32 {
        if let Some(c) = char::from_u32(n) {
            assert_eq!(is_whitespace(c), c.is_whitespace(), "code point {:#x}", n);
        }
    }
}

#[test]
fn chars_and_strings_convert_both_ways() {
    let s = "héllo wörld ✓";
    assert_eq!(chars_of(s), chars(s));
    assert_eq!(string_of(&chars(s)), s);
    assert_eq!(string_of(&Vec::new()), "");
}

#[test]
fn str_eq_compares_texts() {
    assert!(str_eq("abc", "abc"));
    assert!(!str_eq("abc", "abd"));
    assert!(!str_eq("abc", "ab"));
    assert!(str_eq("", ""));
}

#[test]
fn trim_agrees_with_the_standard_library() {
    for s in [
        "",
        " ",
        "a",
        "  a  ",
        "\t\n a b \r\n",
        "\u{a0}x\u{2003}",
        "\u{3000}\u{3000}",
        " inner  space ",
        "\u{85}é\u{1680}",
    ] {
        assert_eq!(text(&trim(&chars(s))), s.trim(), "input {:?}", s);
    }
}

#[test]
fn split_lines_agrees_with_the_standard_library() {
    for s in [
        "",
        "\n",
        "a",
        "a\n",
        "a\nb",
        "a\r\nb\r\n",
        "a\n\nb",
        "a\r",
        "\r\n",
        "one\ntwo\nthree\n\n",
        "x\ry\n",
    ] {
        let got: Vec<String> = split_lines(&chars(s)).iter().map(text).collect();
        let want: Vec<String> = s.lines().map(|l| l.to_string()).collect();
        assert_eq!(got, want, "input {:?}", s);
    }
}

#[test]
fn substring_search_finds_what_is_there() {
    assert!(contains(&chars("hello world"), &chars("lo w")));
    assert!(contains(&chars("hello"), &chars("")));
    assert!(contains(&chars(""), &chars("")));
    assert!(!contains(&chars("hello"), &chars("world")));
    assert!(!contains(&chars("ab"), &chars("abc")));
    assert!(contains_str(&chars("fn main"), "fn "));
    assert!(starts_with_str(&chars("Chapter 1"), "Chapter "));
    assert!(!starts_with_str(&chars("chapter 1"), "Chapter "));
    assert!(ends_with_str(&chars("Overview:"), ":"));
    assert!(!ends_with_str(&chars("Overview"), ":"));
    assert!(ends_with_str(&chars("x"), ""));
}

#[test]
fn mentions_any_of_looks_for_each_keyword() {
    let keywords = vec!["async", "trait"];
    assert!(mentions_any_of(&chars("an async fn"), &keywords));
    assert!(mentions_any_of(&chars("a trait object"), &keywords));
    assert!(!mentions_any_of(&chars("plain text"), &keywords));
    assert!(!mentions_any_of(&chars("async"), &Vec::new()));
}

#[test]
fn decimal_writes_integers_as_the_standard_library_does() {
    for n in [0i64, 7, 10, 45, 180, -1, -15, 1234567890, i64::MAX, i64::MIN] {
        assert_eq!(decimal_i64(n), n.to_string());
    }
    for n in [0usize, 9, 10, 99, 100, 150_000, usize::MAX] {
        assert_eq!(decimal_usize(n), n.to_string());
    }
}

#[test]
fn lowercase_puts_text_in_lower_case() {
    assert_eq!(lowercase("HeLLo World 42!"), "hello world 42!");
    assert_eq!(lowercase("ÀÉÎ Straße"), "àéî straße");
    assert_eq!(lowercase("ΑΣ"), "ας");
    assert_eq!(lowercase(""), "");
}

#[test]
fn lowercase_of_ascii_text_is_letter_by_letter() {
    let all: String = (0u8..128).map(|b| b as char).collect();
    let want: String = (0u8..128).map(|b| (b as char).to_ascii_lowercase()).collect();
    assert_eq!(lowercase(&all), want);
}

#[test]
fn text_less_is_the_order_of_strings() {
    let samples = ["", "a", "ab", "b", "B", "é", "z", "aa", "rust", "python", "\u{10000}"];
    for a in samples {
        for b in samples {
            assert_eq!(text_less(&chars(a), &chars(b)), a < b, "{:?} < {:?}", a, b);
        }
    }
}

#[test]
fn insert_sorted_string_keeps_order_and_skips_repeats() {
    let mut v: Vec<String> = Vec::new();
    for s in ["rust", "css", "python", "rust", "api", "css", "zig"] {
        insert_sorted_string(&mut v, s.to_string());
    }
    assert_eq!(v, vec!["api", "css", "python", "rust", "zig"]);
}

#[test]
fn parse_i32_agrees_with_the_standard_library() {
    for s in [
        "0",
        "50",
        "-7",
        "+12",
        "007",
        "",
        "+",
        "-",
        " 5",
        "5 ",
        "12a",
        "2147483647",
        "2147483648",
        "-2147483648",
        "-2147483649",
        "99999999999999999999999",
        "--1",
        "１２",
    ] {
        assert_eq!(parse_i32(&chars(s)), s.parse::<i32>().ok(), "input {:?}", s);
    }
}
