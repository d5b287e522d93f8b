use daily_todo::text::{is_whitespace, trim};

#[test]
fn white_space_is_what_unicode_calls_white_space() {
    for code in 0..=0x10FFFFu32 {
        if let Some(c) = char::from_u32(code) {
            assert_eq!(is_whitespace(c), c.is_whitespace(), "U+{:04X}", code);
        }
    }
}

#[test]
fn trim_drops_the_white_space_around_a_text() {
    assert_eq!(trim("  buy milk  "), "buy milk");
    assert_eq!(trim("buy milk"), "buy milk");
    assert_eq!(trim("\t\r\nx y\u{a0}\u{2009}"), "x y");
    assert_eq!(trim("x"), "x");
    assert_eq!(trim(" x"), "x");
    assert_eq!(trim("x "), "x");
}

#[test]
fn trim_of_blank_text_is_empty() {
    assert_eq!(trim(""), "");
    assert_eq!(trim(" "), "");
    assert_eq!(trim(" \t\n\u{3000}"), "");
}

#[test]
fn trim_keeps_what_is_inside() {
    assert_eq!(trim(" a \t b\u{3000}c "), "a \t b\u{3000}c");
    assert_eq!(trim("\u{200b}x\u{200b}"), "\u{200b}x\u{200b}");
    assert_eq!(trim(" héllo wörld 🔴 "), "héllo wörld 🔴");
}

#[test]
fn trim_agrees_with_the_standard_library() {
    let parts = ["", " ", "a", "\t", "é", "\u{3000}", "🔴", "\u{85}", "_", "\n"];
    for a in parts {
        for b in parts {
            for c in parts {
                for d in parts {
                    let text = format!("{}{}{}{}", a, b, c, d);
                    assert_eq!(trim(&text), text.trim(), "{:?}", text);
                }
            }
        }
    }
}
