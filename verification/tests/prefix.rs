use roc_analysis::prefix::{is_symbol_byte, symbol_prefix_at};

#[test]
fn symbol_bytes() {
    for b in 0u8..=255 {
        let c = b as char;
        let expected = matches!(c, 'a'..='z' | 'A'..='Z' | '0'..='9' | '_' | '.');
        assert_eq!(is_symbol_byte(b), expected);
    }
}

#[test]
fn prefix_ends_at_the_offset() {
    let source = "main = foo.bar_1 + x";
    assert_eq!(symbol_prefix_at(source, 16), "foo.bar_1");
    assert_eq!(symbol_prefix_at(source, 11), "foo.");
    assert_eq!(symbol_prefix_at(source, 10), "foo");
    assert_eq!(symbol_prefix_at(source, 7), "");
    assert_eq!(symbol_prefix_at(source, 4), "main");
    assert_eq!(symbol_prefix_at(source, 0), "");
    assert_eq!(symbol_prefix_at(source, 20), "x");
}

#[test]
fn prefix_of_an_empty_source() {
    assert_eq!(symbol_prefix_at("", 0), "");
}

#[test]
fn prefix_stops_at_other_characters() {
    let source = "\u{e9}abc\u{e9}";
    assert_eq!(symbol_prefix_at(source, 5), "abc");
    assert_eq!(symbol_prefix_at(source, 2), "");
}

#[test]
fn prefix_inside_a_character() {
    assert_eq!(symbol_prefix_at("ab\u{e9}", 3), "");
    assert_eq!(symbol_prefix_at("ab\u{e9}", 2), "ab");
}
