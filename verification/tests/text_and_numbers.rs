use toolmind::numbers::{read_signed, read_signed_or, read_unsigned, write_decimal, write_signed};
use toolmind::order::{not_after, sort_texts};
use toolmind::split::{join_texts, slice_text, split_at_char, text_lines};
use toolmind::text;

const SAMPLES: [&str; 14] = [
    "",
    " ",
    "a",
    "  olá mundo \t\n",
    "linha\r\noutra\n\nfim",
    "\n",
    "a\n",
    "\r\n\r",
    "x\ry",
    "ção 😀 ção",
    "\u{a0}nbsp\u{2003}",
    "a,b,,c,",
    ",",
    "{\"tool\": {\"tool\": 1}}",
];

#[test]
fn characters_are_classified_as_in_std() {
    for n in 0..=0x10ffffu32 {
        if let Some(c) = char::from_u32(n) {
            assert_eq!(text::white(c), c.is_whitespace(), "white {n:x}");
            assert_eq!(text::control(c), c.is_control(), "control {n:x}");
            assert_eq!(text::alnum(c), c.is_ascii_alphanumeric(), "alnum {n:x}");
            assert_eq!(text::to_lower(c), c.to_ascii_lowercase(), "lower {n:x}");
        }
    }
}

#[test]
fn texts_are_trimmed_and_cut_as_in_std() {
    for s in SAMPLES {
        assert_eq!(text::trim(s), s.trim());
        assert_eq!(text::trim_start(s), s.trim_start());
        assert_eq!(text::blank(s), s.trim().is_empty());
        assert_eq!(text::bytes_in(s), s.len());
        assert_eq!(text::lower_ascii(s), s.to_ascii_lowercase());
        assert_eq!(text::chars(s), s.chars().collect::<Vec<_>>());
        assert_eq!(text::text_of(&text::chars(s)), s);
        for n in 0..6 {
            assert_eq!(text::take_chars(s, n), s.chars().take(n).collect::<String>());
            assert_eq!(text::pad_right(s, n), format!("{:<n$}", s));
        }
    }
    assert_eq!(text::repeat('═', 3), "═══");
    assert_eq!(text::cat("ab", "cd"), "abcd");
}

#[test]
fn texts_are_searched_as_in_std() {
    for s in SAMPLES {
        for p in ["", "a", "b", "ção", "\n", "{\"tool\"", ",,", "xyz"] {
            assert_eq!(text::contains(s, p), s.contains(p), "{s:?} {p:?}");
            assert_eq!(text::starts_with(s, p), s.starts_with(p));
            assert_eq!(text::ends_with(s, p), s.ends_with(p));
            let cs = text::chars(s);
            let ps = text::chars(p);
            let found = text::find(&cs, &ps, 0).map(|i| cs[..i].iter().collect::<String>().len());
            assert_eq!(found, s.find(p));
            let last = text::find_last(&cs, &ps).map(|i| cs[..i].iter().collect::<String>().len());
            assert_eq!(last, s.rfind(p));
        }
        for t in SAMPLES {
            assert_eq!(text::same(s, t), s == t);
            assert_eq!(text::same_ignoring_case(s, t), s.eq_ignore_ascii_case(t));
        }
    }
}

#[test]
fn texts_are_split_and_joined_as_in_std() {
    for s in SAMPLES {
        assert_eq!(text_lines(s), s.lines().collect::<Vec<_>>(), "{s:?}");
        let parts = split_at_char(s, ',');
        assert_eq!(parts, s.split(',').collect::<Vec<_>>());
        assert_eq!(join_texts(&parts, ","), s);
    }
    assert_eq!(slice_text(&text::chars("abcdef"), 2, 4), "cd");
    assert_eq!(join_texts(&[], "-"), "");
}

#[test]
fn numbers_are_written_and_read_as_in_std() {
    for n in [0u128, 1, 9, 10, 42, 999, 1000, u64::MAX as u128, u128::MAX] {
        assert_eq!(write_decimal(n), n.to_string());
    }
    for n in [0i64, -1, 7, -42, i64::MIN, i64::MAX] {
        assert_eq!(write_signed(n), n.to_string());
    }
    for s in ["", "0", "007", "+5", "-5", "+", "-", "12a", " 1", "4294967296", "2147483647",
        "2147483648", "-2147483648", "-2147483649", "18446744073709551615", "18446744073709551616", "99999999999999999999999999"] {
        assert_eq!(read_unsigned(s, u64::MAX), s.parse::<u64>().ok(), "{s:?}");
        assert_eq!(read_signed(s), s.parse::<i32>().ok(), "{s:?}");
        assert_eq!(read_signed_or(s, 3), s.parse::<i32>().unwrap_or(3));
    }
    assert_eq!(read_unsigned("48", 47), None);
    assert_eq!(read_unsigned("47", 47), Some(47));
}

#[test]
fn a_number_comes_back_from_its_digits() {
    for n in [0u64, 5, 10, 90_071_992_547, u64::MAX] {
        assert_eq!(read_unsigned(&write_decimal(n as u128), u64::MAX), Some(n));
    }
}

#[test]
fn texts_are_sorted_as_in_std() {
    let list: Vec<String> = ["b", "a", "", "Z", "ção", "cao", "a", "ab", "😀", "\u{ffff}", "src", "src2"]
        .iter()
        .map(|s| s.to_string())
        .collect();
    let mut expected = list.clone();
    expected.sort();
    assert_eq!(sort_texts(list.clone()), expected);
    for a in &list {
        for b in &list {
            assert_eq!(not_after(a, b), a <= b, "{a:?} {b:?}");
        }
    }
    assert_eq!(sort_texts(Vec::new()), Vec::<String>::new());
    let many: Vec<String> = (0..2000u32).map(|i| format!("f{}", (i * 7919) % 2003)).collect();
    let mut expected = many.clone();
    expected.sort();
    assert_eq!(sort_texts(many), expected);
}
