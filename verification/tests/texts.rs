use smartdns_ui::lines::{split_fields, split_lines};
use smartdns_ui::text;
use smartdns_ui::text::{
    decimal_text, eq_ignore_ascii_case, is_not_after, same_text, signed_decimal_text,
};

#[test]
fn decimals_are_those_of_the_standard_library() {
    for n in [0u64, 1, 9, 10, 99, 100, 1_700_000_000_000, u64::MAX] {
        assert_eq!(decimal_text(n), n.to_string());
    }
    for n in [0i64, 7, -1, -10, i64::MAX, i64::MIN] {
        assert_eq!(signed_decimal_text(n), n.to_string());
    }
}

#[test]
fn case_is_ignored_for_ascii_letters_only() {
    let samples = ["asc", "ASC", "AsC", "asd", "", "é", "É", "prev", "PREV", "[", "{", "@", "`"];
    for a in samples {
        for b in samples {
            assert_eq!(eq_ignore_ascii_case(a, b), a.eq_ignore_ascii_case(b), "{} {}", a, b);
            assert_eq!(same_text(a, b), a == b);
        }
    }
    assert_eq!(text::concat("ab", "cd"), "abcd");
}

#[test]
fn texts_are_ordered_as_by_the_standard_library() {
    let samples = ["", "a", "ab", "abc", "b", "B", "é", "z", "客厅", "\u{ffff}", "\u{10000}", "\u{e000}"];
    for a in samples {
        for b in samples {
            assert_eq!(is_not_after(a, b), a <= b, "{:?} {:?}", a, b);
        }
    }
}

#[test]
fn white_space_is_that_of_the_standard_library() {
    for n in 0..=0x10ffffu32 {
        if let Some(c) = char::from_u32(n) {
            let mut s = String::from("a");
            s.push(c);
            s.push('b');
            let fields = split_fields(&s).len();
            assert_eq!(fields == 2, c.is_whitespace(), "{:x}", n);
        }
    }
}

#[test]
fn fields_are_those_of_the_standard_library() {
    let samples = [
        "",
        "   ",
        "a",
        " a b  c ",
        "\ta\u{3000}b\u{a0}c\r",
        "192.168.2.27 客厅摄像头",
        "a\u{85}b",
        "x\u{200b}y",
    ];
    for s in samples {
        let expected: Vec<String> = s.split_whitespace().map(|f| f.to_string()).collect();
        assert_eq!(split_fields(s), expected, "{:?}", s);
        for f in split_fields(s) {
            assert!(!f.is_empty() && !f.chars().any(|c| c.is_whitespace()));
        }
    }
}

#[test]
fn lines_are_those_of_the_standard_library() {
    let samples = [
        "",
        "\n",
        "a",
        "a\n",
        "a\nb",
        "a\r\nb\r\n",
        "\n\na\n\n",
        "a\rb\n",
        "a\r\r\nb",
        "\r\n",
        "客厅\nb",
    ];
    for s in samples {
        let expected: Vec<String> = s.lines().map(|l| l.to_string()).collect();
        assert_eq!(split_lines(s), expected, "{:?}", s);
    }
}
