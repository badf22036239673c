//! Text primitives, held against the standard library.

use droidlog::text::chars::chars_of;
use droidlog::text::class::{lower_chars, to_ascii_lower, Class};
use droidlog::text::map::TextMap;
use droidlog::text::number::{i32_of, i32_text, real_literal, u64_text, unsigned_of};
use droidlog::text::order::{less, sorted_descending, sorted_numbers};
use droidlog::text::search::{contains_word, ends_with_word, find_in, starts_with_word, trim_of};
use droidlog::text::split::{join_strings, lines_of, split_on, split_once_on, split_once_word, tokens_of};

fn text(cs: &[char]) -> String {
    cs.iter().collect()
}

fn texts(pieces: Vec<&[char]>) -> Vec<String> {
    pieces.into_iter().map(text).collect()
}

const SAMPLES: [&str; 14] = [
    "",
    " ",
    "a",
    "a b",
    "  a\t b  ",
    "a\nb",
    "a\r\nb\r\n",
    "a\r",
    "\n\n",
    "a\n\nb\n",
    "\u{3000}中 文\u{85}x",
    "k=v=w",
    "::a::",
    "x\r\r\ny",
];

#[test]
fn white_space_is_that_of_unicode() {
    for code in 0..=0x10FFFF_u32 {
        if let Some(c) = char::from_u32(code) {
            assert_eq!(Class::Space.holds(c), c.is_whitespace(), "{code:#x}");
        }
    }
}

#[test]
fn ascii_classes_are_those_of_char() {
    for code in 0..0x300_u32 {
        if let Some(c) = char::from_u32(code) {
            assert_eq!(Class::Digit.holds(c), c.is_ascii_digit());
            assert_eq!(Class::HexDigit.holds(c), c.is_ascii_hexdigit());
            assert_eq!(Class::Alnum.holds(c), c.is_ascii_alphanumeric());
        }
    }
}

#[test]
fn cutting_agrees_with_the_standard_library() {
    for sample in SAMPLES {
        let cs = chars_of(sample);
        let lines: Vec<String> = sample.lines().map(str::to_owned).collect();
        assert_eq!(texts(lines_of(&cs)), lines, "{sample:?}");
        let words: Vec<String> = sample.split_whitespace().map(str::to_owned).collect();
        assert_eq!(texts(tokens_of(&cs)), words, "{sample:?}");
        for c in ['=', ':', '\n', 'a'] {
            let pieces: Vec<String> = sample.split(c).map(str::to_owned).collect();
            assert_eq!(texts(split_on(&cs, Class::One(c))), pieces, "{sample:?}");
            let once = split_once_on(&cs, Class::One(c)).map(|(a, b)| (text(a), text(b)));
            let expected = sample.split_once(c).map(|(a, b)| (a.to_owned(), b.to_owned()));
            assert_eq!(once, expected, "{sample:?}");
        }
        let once = split_once_word(&cs, "b\n").map(|(a, b)| (text(a), text(b)));
        assert_eq!(once, sample.split_once("b\n").map(|(a, b)| (a.to_owned(), b.to_owned())));
        assert_eq!(text(trim_of(&cs, Class::Space)), sample.trim());
    }
}

#[test]
fn searching_agrees_with_the_standard_library() {
    for sample in SAMPLES {
        let cs = chars_of(sample);
        for word in ["", "a", "b", "a\n", "k=", "::", "中"] {
            assert_eq!(contains_word(&cs, word), sample.contains(word), "{sample:?} {word:?}");
            assert_eq!(starts_with_word(&cs, word), sample.starts_with(word), "{sample:?} {word:?}");
            assert_eq!(ends_with_word(&cs, word), sample.ends_with(word), "{sample:?} {word:?}");
        }
    }
    assert_eq!(find_in(&chars_of("aabab"), &chars_of("ab")), Some(1));
    assert_eq!(find_in(&chars_of("aab"), &chars_of("ba")), None);
    assert_eq!(find_in(&chars_of("aab"), &chars_of("")), Some(0));
}

#[test]
fn numbers_agree_with_the_standard_library() {
    for sample in [
        "", "+", "-", "0", "-0", "+7", "007", "2147483647", "2147483648", "-2147483648", "-2147483649", "12a", " 1",
        "1_000", "99999999999999999999", "--1", "+-1", "１",
    ] {
        let cs = chars_of(sample);
        assert_eq!(i32_of(&cs), sample.parse::<i32>().ok(), "{sample:?}");
        assert_eq!(unsigned_of(&cs, 255), sample.parse::<u8>().ok().map(u64::from), "{sample:?}");
        assert_eq!(unsigned_of(&cs, u64::MAX), sample.parse::<u64>().ok(), "{sample:?}");
    }
    assert_eq!(unsigned_of(&chars_of("18446744073709551615"), u64::MAX), Some(u64::MAX));
    assert_eq!(unsigned_of(&chars_of("18446744073709551616"), u64::MAX), None);
}

#[test]
fn spelled_numbers_read_back() {
    for n in [0_u64, 7, 10, 99, 100, 1234567890, u64::MAX] {
        assert_eq!(u64_text(n), n.to_string());
        assert_eq!(unsigned_of(&chars_of(&u64_text(n)), u64::MAX), Some(n));
    }
    for n in [i32::MIN, -10, -1, 0, 1, i32::MAX] {
        assert_eq!(i32_text(n), n.to_string());
        assert_eq!(i32_of(&chars_of(&i32_text(n))), Some(n));
    }
}

#[test]
fn real_literals_are_those_of_the_standard_library() {
    for sample in [
        "", ".", "1", "1.", ".5", "1.5", "+1.5", "-1.5", "1e3", "1E-3", "1e+", "e3", "1.5e3.2", "inf", "-Infinity",
        "NaN", "nano", "infinit", "1 ", " 1", "1,5", "0x1", "1..2", "+", "-", "+.5", "-.e1", "1.e1", "12.345678", "１",
    ] {
        assert_eq!(real_literal(&chars_of(sample)), sample.parse::<f64>().is_ok(), "{sample:?}");
    }
}

#[test]
fn case_folding_agrees_with_the_standard_library() {
    for sample in ["ABC xyz", "Ünïcode ÀÉ", "ΑΣ", "İ", "内核 BUG", ""] {
        assert_eq!(text(&lower_chars(sample)), sample.to_lowercase());
        assert_eq!(text(&to_ascii_lower(&chars_of(sample))), sample.to_ascii_lowercase());
    }
}

#[test]
fn order_is_that_of_the_standard_library() {
    let words = ["", "a", "ab", "b", "B", "é", "中", "tombstone_09", "tombstone_10"];
    for a in words {
        for b in words {
            assert_eq!(less(&chars_of(a), &chars_of(b)), a < b, "{a:?} {b:?}");
        }
    }
    let list: Vec<String> = ["b", "a", "c", "b"].iter().map(|s| (*s).to_owned()).collect();
    assert_eq!(sorted_descending(&list), vec!["c", "b", "b", "a"]);
    assert_eq!(sorted_numbers(&vec![3, 1, 2, 3, -1]), vec![-1, 1, 2, 3]);
    assert_eq!(join_strings(&list, ", "), "b, a, c, b");
    assert_eq!(join_strings(&Vec::new(), ", "), "");
}

#[test]
fn text_maps_replace_remove_and_retain() {
    let mut map: TextMap<u8> = TextMap::new();
    map.insert("a".to_owned(), 1);
    map.insert("b".to_owned(), 2);
    map.insert("a".to_owned(), 3);
    assert_eq!(map.get("a"), Some(&3));
    assert_eq!(map.get("b"), Some(&2));
    map.retain(&vec!["a".to_owned(), "z".to_owned()]);
    assert_eq!(map.get("b"), None);
    map.remove("a");
    assert_eq!(map.get("a"), None);
    map.insert("c".to_owned(), 4);
    map.clear();
    assert_eq!(map.get("c"), None);
}
