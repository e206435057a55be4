use asdf_installer::text::{blank, characters, scan, string_of, Mark};

#[test]
fn blank_knows_ascii_separators() {
    for c in [' ', '\t', '\n', '\r', '\u{0B}', '\u{0C}'] {
        assert!(blank(c), "{:?}", c);
    }
}

#[test]
fn blank_knows_other_separators() {
    for c in [
        '\u{85}', '\u{A0}', '\u{1680}', '\u{2000}', '\u{2005}', '\u{200A}', '\u{2028}',
        '\u{2029}', '\u{202F}', '\u{205F}', '\u{3000}',
    ] {
        assert!(blank(c), "{:?}", c);
    }
}

#[test]
fn blank_refuses_everything_else() {
    for c in ['a', 'Z', '0', '/', ':', '\u{08}', '\u{0E}', '\u{1F}', '\u{21}', '\u{200B}', '\u{FEFF}'] {
        assert!(!blank(c), "{:?}", c);
    }
}

#[test]
fn blank_agrees_with_char_is_whitespace() {
    let mut n: u32 = 0;
    while n <= 0x10FFFF {
        if let Some(c) = char::from_u32(n) {
            assert_eq!(blank(c), c.is_whitespace(), "U+{:04X}", n);
        }
        n += 1;
    }
}

#[test]
fn mark_tests_each_kind() {
    assert!(Mark::Feed.test('\n'));
    assert!(!Mark::Feed.test('\r'));
    assert!(!Mark::Feed.test(' '));
    assert!(Mark::Blank.test(' '));
    assert!(Mark::Blank.test('\n'));
    assert!(!Mark::Blank.test('x'));
    assert!(Mark::Ink.test('x'));
    assert!(!Mark::Ink.test('\t'));
}

#[test]
fn characters_keeps_every_character_in_order() {
    assert_eq!(characters(""), Vec::<char>::new());
    assert_eq!(characters("a b"), vec!['a', ' ', 'b']);
    assert_eq!(characters("é\u{3000}名"), vec!['é', '\u{3000}', '名']);
}

#[test]
fn string_of_copies_the_range() {
    let chars = characters("nodejs https");
    assert_eq!(string_of(&chars, 0, 6), "nodejs");
    assert_eq!(string_of(&chars, 7, 12), "https");
    assert_eq!(string_of(&chars, 3, 3), "");
    assert_eq!(string_of(&chars, 0, chars.len()), "nodejs https");
}

#[test]
fn string_of_counts_characters_not_bytes() {
    let chars = characters("año 名前");
    assert_eq!(string_of(&chars, 0, 3), "año");
    assert_eq!(string_of(&chars, 4, 6), "名前");
}

#[test]
fn scan_finds_the_first_fitting_character() {
    let chars = characters("ab  cd\nef");
    assert_eq!(scan(&chars, 0, chars.len(), Mark::Blank), 2);
    assert_eq!(scan(&chars, 2, chars.len(), Mark::Ink), 4);
    assert_eq!(scan(&chars, 0, chars.len(), Mark::Feed), 6);
    assert_eq!(scan(&chars, 7, chars.len(), Mark::Feed), 9);
}

#[test]
fn scan_stops_at_its_upper_bound() {
    let chars = characters("abc def");
    assert_eq!(scan(&chars, 0, 3, Mark::Blank), 3);
    assert_eq!(scan(&chars, 0, 2, Mark::Blank), 2);
    assert_eq!(scan(&chars, 5, 5, Mark::Ink), 5);
    assert_eq!(scan(&chars, 3, 7, Mark::Blank), 3);
}
