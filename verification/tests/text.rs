use scadline::text::{
    decimal, ends_with, first_chars, hex16, is_before, padded_decimal, same_text, starts_with,
    to_ascii_lowercase, trim, without_first,
};

#[test]
fn numerals_are_decimal() {
    for n in [0, 9, 10, 1_234, u64::MAX] {
        assert_eq!(decimal(n), format!("{n}"));
    }
    for n in [0_i64, 7, -7, 12_345, -12_345, i64::MAX, i64::MIN] {
        assert_eq!(padded_decimal(n, 4), format!("{n:04}"));
        assert_eq!(padded_decimal(n, 0), format!("{n}"));
    }
}

#[test]
fn keys_have_sixteen_hexadecimal_digits() {
    for n in [0, 0xabc, 0xdead_beef_0000_0001, u64::MAX] {
        assert_eq!(hex16(n), format!("{n:016x}"));
    }
}

#[test]
fn texts_are_compared_by_characters() {
    assert!(same_text("あ", "あ"));
    assert!(!same_text("a", "A"));
    assert!(starts_with("--backend=x", "--backend="));
    assert!(!starts_with("--back", "--backend="));
    assert!(ends_with("origin/HEAD", "/HEAD"));
    assert!(!ends_with("HEAD", "/HEAD"));
    let texts = ["", "A", "a", "ab", "b", "あ", "\u{10000}"];
    for (i, a) in texts.iter().enumerate() {
        for (j, b) in texts.iter().enumerate() {
            assert_eq!(is_before(a, b), i < j);
            assert_eq!(is_before(a, b), a < b);
        }
    }
}

#[test]
fn texts_are_cut_by_characters() {
    assert_eq!(first_chars("あいう", 2), "あい");
    assert_eq!(first_chars("あ", 7), "あ");
    assert_eq!(without_first("あいう", 1), "いう");
    assert_eq!(to_ascii_lowercase("CGAL ÄÖ Ω"), "cgal ÄÖ Ω");
    for text in ["  a b \n", "\u{3000}x\u{2028}", " \t ", "", "\u{200b}x"] {
        assert_eq!(trim(text), text.trim());
    }
}
