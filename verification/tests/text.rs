use authzoo::text::{
    join, join3, is_white_space, same_text, starts_with, text_order, trim_end, trim_end_of,
    trim_start, TextOrder,
};

#[test]
fn white_space_is_that_of_unicode() {
    for n in 0..=0x10ffff {
        if let Some(c) = char::from_u32(n) {
            assert_eq!(is_white_space(c), c.is_whitespace());
        }
    }
}

#[test]
fn trims_as_the_standard_library_does() {
    for text in ["", " ", "a", " a ", "\u{3000}é b\u{85}\n", "\t\u{200b}x"] {
        assert_eq!(trim_start(text), text.trim_start());
        assert_eq!(trim_end(text), text.trim_end());
        assert_eq!(trim_end_of(text, 'x'), text.trim_end_matches('x'));
    }
    assert_eq!(trim_end_of("https://a/b//", '/'), "https://a/b");
    assert_eq!(trim_end_of("//", '/'), "");
}

#[test]
fn orders_texts_as_the_standard_library_does() {
    let texts = ["", "a", "ab", "b", "B", "é", "\u{ffff}", "\u{10000}", "a\u{0}"];
    for a in texts {
        for b in texts {
            assert_eq!(text_order(a, b) == TextOrder::Before, a < b);
            assert_eq!(text_order(a, b) == TextOrder::After, a > b);
            assert_eq!(same_text(a, b), a == b);
            assert_eq!(starts_with(a, b), a.starts_with(b));
            assert_eq!(join(a, b), format!("{a}{b}"));
            assert_eq!(join3(a, b, a), format!("{a}{b}{a}"));
        }
    }
}
