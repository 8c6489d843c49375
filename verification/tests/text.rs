use media_tool::text::{
    begins_with, chars_of, decimal_text, has_char, hexadecimal_text, same_lower, same_text,
    signed_decimal_text,
};

#[test]
fn numbers_are_written_as_the_standard_library_writes_them() {
    for n in [0u64, 1, 9, 10, 11, 15, 16, 99, 100, 255, 256, 4096, 48_000, 1_000_000, u64::MAX] {
        assert_eq!(decimal_text(n), n.to_string());
        assert_eq!(hexadecimal_text(n), format!("{:x}", n));
    }
    for n in [0i32, 7, -7, -10, 44_100, i32::MAX, i32::MIN] {
        assert_eq!(signed_decimal_text(n), n.to_string());
    }
}

#[test]
fn different_numbers_have_different_numerals() {
    let texts: Vec<String> = (0..300u64).map(decimal_text).collect();
    for i in 0..texts.len() {
        for j in 0..i {
            assert_ne!(texts[i], texts[j]);
        }
    }
}

#[test]
fn texts_are_compared_character_by_character() {
    assert!(same_text("", ""));
    assert!(same_text("h264", "h264"));
    assert!(!same_text("h264", "h265"));
    assert!(!same_text("h264", "h26"));
    assert!(same_text("\u{6d41}", "\u{6d41}"));
    assert!(begins_with("https://a", "http"));
    assert!(begins_with("http", "http"));
    assert!(!begins_with("htt", "http"));
    assert!(!begins_with("ahttp", "http"));
    assert!(begins_with("x", ""));
    assert!(has_char("a\0b", '\0'));
    assert!(!has_char("ab", '\0'));
    assert_eq!(chars_of("a\u{6d41}b"), vec!['a', '\u{6d41}', 'b']);
}

#[test]
fn lowering_agrees_with_the_full_one() {
    let known = ["ttf", "woff2", "jpg", "jpeg", "png", "gif", "svg", "txt"];
    let given = [
        "TTF", "Ttf", "WOFF2", "JPG", "JpEg", "PNG", "G\u{130}F", "GIF", "SVG\u{212a}", "", "T\u{17f}V",
        "TXT", "\u{ff34}TF",
    ];
    for a in given {
        for b in known {
            assert_eq!(same_lower(a, b), a.to_lowercase() == b, "{:?} and {:?}", a, b);
        }
    }
}
