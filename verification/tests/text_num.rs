use bm_storage::num::{i64_to_dec, i64_to_dec_padded, parse_i64, u64_hex16};
use bm_storage::text::{
    chars_of, join_chars, lex_less, sort_dedup, split_chars, string_of, to_ascii_lower, trim_str,
    utf8_len_exceeds,
};

fn s(v: &[char]) -> String {
    v.iter().collect()
}

#[test]
fn trim_drops_unicode_whitespace_on_both_sides() {
    assert_eq!(s(&trim_str("  ab c \n\t")), "ab c");
    assert_eq!(s(&trim_str("\u{a0}x\u{3000}")), "x");
    assert_eq!(s(&trim_str("   ")), "");
}

#[test]
fn chars_round_trip_through_string() {
    let v = chars_of("héllo ✓");
    assert_eq!(v.len(), 7);
    assert_eq!(string_of(&v), "héllo ✓");
}

#[test]
fn ascii_lowercase_leaves_other_letters() {
    assert_eq!(s(&to_ascii_lower(&chars_of("AbC-Ä"))), "abc-Ä");
}

#[test]
fn split_keeps_empty_pieces_and_join_undoes_it() {
    let parts = split_chars(&chars_of("a,,b"), ',');
    let texts: Vec<String> = parts.iter().map(|p| s(p)).collect();
    assert_eq!(texts, vec!["a", "", "b"]);
    assert_eq!(s(&join_chars(&parts, &[','])), "a,,b");
}

#[test]
fn lexicographic_order_matches_str_order() {
    let pairs = [("a", "b"), ("ab", "b"), ("a", "ab"), ("", "a"), ("b", "a"), ("a", "a")];
    for (x, y) in pairs {
        assert_eq!(lex_less(&chars_of(x), &chars_of(y)), x < y, "{x} < {y}");
    }
}

#[test]
fn sort_dedup_sorts_and_drops_repeats() {
    let items = vec![chars_of("b"), chars_of("a"), chars_of("b"), chars_of("c")];
    let out: Vec<String> = sort_dedup(items).iter().map(|v| s(v)).collect();
    assert_eq!(out, vec!["a", "b", "c"]);
}

#[test]
fn utf8_length_counts_bytes() {
    assert!(!utf8_len_exceeds(&chars_of("é"), 2));
    assert!(utf8_len_exceeds(&chars_of("é"), 1));
    assert!(utf8_len_exceeds(&chars_of("✓"), 2));
}

#[test]
fn decimal_formatting_matches_display() {
    for x in [0i64, 7, -42, 1234567890, i64::MAX, i64::MIN] {
        assert_eq!(s(&i64_to_dec(x)), x.to_string());
    }
}

#[test]
fn padded_decimal_matches_format_width() {
    for (x, w) in [(7i64, 3usize), (-5, 4), (12345, 2), (0, 16), (-1, 1)] {
        assert_eq!(s(&i64_to_dec_padded(x, w)), format!("{:0w$}", x, w = w));
    }
}

#[test]
fn parse_accepts_what_str_parse_accepts() {
    for t in ["123", "-7", "+8", "0009", "9223372036854775807", "-9223372036854775808"] {
        assert_eq!(parse_i64(&chars_of(t)), t.parse::<i64>().ok(), "{t}");
    }
    for t in ["", "-", "+", "12a", " 1", "9223372036854775808", "1.0"] {
        assert_eq!(parse_i64(&chars_of(t)), None, "{t}");
    }
}

#[test]
fn hex16_matches_format() {
    for h in [0u64, 255, 0xdead_beef, u64::MAX] {
        assert_eq!(s(&u64_hex16(h)), format!("{:016x}", h));
    }
}
