use gitpic::text::{
    alphanumeric, append_all, chars_of, comes_before, contains, decimal_text, join, last_position,
    lower, name_char, same, same_ignoring_case, signed_decimal_text, trim, white_space, words,
};

const TEXTS: [&str; 12] = [
    "",
    " ",
    "a",
    "  a b\t\n",
    "\u{a0}x\u{3000}",
    "\u{200b}x",
    "ÄÖÜ äöü",
    "ABC xyz 123",
    "one/two/three",
    "🙂🙂",
    "\u{1680}\u{2028}\u{205f}",
    "photo-1.PNG",
];

#[test]
fn character_classes_agree_with_the_standard_library() {
    for code in 0..=0x10ffff_u32 {
        if let Some(c) = char::from_u32(code) {
            assert_eq!(white_space(c), c.is_whitespace(), "{code:x}");
            assert_eq!(alphanumeric(c), c.is_ascii_alphanumeric());
            assert_eq!(
                name_char(c),
                c.is_ascii_alphanumeric() || c == '.' || c == '-' || c == '_'
            );
        }
    }
}

#[test]
fn texts_are_handled_as_by_the_standard_library() {
    for a in TEXTS {
        assert_eq!(trim(a), a.trim());
        assert_eq!(lower(a), a.to_ascii_lowercase());
        assert_eq!(chars_of(a), a.chars().collect::<Vec<char>>());
        for b in TEXTS {
            assert_eq!(same(a, b), a == b);
            assert_eq!(same_ignoring_case(a, b), a.eq_ignore_ascii_case(b));
            assert_eq!(contains(a, b), a.contains(b), "{a:?} {b:?}");
            assert_eq!(comes_before(a, b), a < b, "{a:?} {b:?}");
        }
    }
}

#[test]
fn trimming_twice_is_trimming_once() {
    for a in TEXTS {
        assert_eq!(trim(trim(a)), trim(a));
    }
    assert_eq!(trim(" \t octo cat \u{a0}"), "octo cat");
}

#[test]
fn lists_are_joined_and_extended() {
    assert_eq!(join(&words(&[]), " "), "");
    assert_eq!(join(&words(&["push"]), " "), "push");
    assert_eq!(join(&words(&["a", "", "b"]), ", "), "a, , b");

    let mut list = words(&["add", "--"]);
    append_all(&mut list, &words(&["one.png", "two.jpg"]));
    assert_eq!(list, vec!["add", "--", "one.png", "two.jpg"]);
}

#[test]
fn the_last_position_is_found() {
    assert_eq!(last_position(&chars_of("a/b/c"), '/'), Some(3));
    assert_eq!(last_position(&chars_of("abc"), '/'), None);
    assert_eq!(last_position(&chars_of(""), '/'), None);
}

#[test]
fn numerals_are_decimal() {
    for n in [0, 1, 9, 10, 42, 100, 2_147_483_646, u64::MAX] {
        assert_eq!(decimal_text(n), n.to_string());
    }
    for n in [0, 1, -1, 128, i32::MIN, i32::MAX] {
        assert_eq!(signed_decimal_text(n), n.to_string());
    }
}
