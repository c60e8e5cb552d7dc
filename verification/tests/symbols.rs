use live_feed::symbol::{decode_raw_symbol, instrument_key, is_instrument_key, norm_symbol};
use live_feed::text::{chars_of, split_on, trim};

#[test]
fn norm_symbol_upper_cases() {
    assert_eq!(norm_symbol("aapl"), "AAPL");
    assert_eq!(norm_symbol("AAPL"), "AAPL");
    assert_eq!(norm_symbol("Brk.b"), "BRK.B");
}

#[test]
fn norm_symbol_trims_white_space() {
    assert_eq!(norm_symbol("  msft\t\n"), "MSFT");
    assert_eq!(norm_symbol("\u{a0}\u{2003}spy\u{3000}\u{85}"), "SPY");
    assert_eq!(norm_symbol("   "), "");
    assert_eq!(norm_symbol(""), "");
}

#[test]
fn norm_symbol_keeps_inner_white_space() {
    assert_eq!(norm_symbol(" a b "), "A B");
}

#[test]
fn norm_symbol_agrees_with_std() {
    for text in ["aapl", " x ", "straße", "\u{1680}ǆ\u{2028}", "INST:12", "ﬁ", "\u{200b}a"] {
        assert_eq!(norm_symbol(text), text.trim().to_uppercase());
    }
}

#[test]
fn norm_symbol_is_the_same_for_both_spellings() {
    assert_eq!(norm_symbol("aapl"), norm_symbol(" AAPL "));
}

#[test]
fn trim_agrees_with_std() {
    for text in ["", " ", "a", " a", "a ", "\t a b \r\n", "\u{2000}\u{200a}x\u{205f}\u{202f}"] {
        assert_eq!(trim(text), text.trim());
    }
}

#[test]
fn chars_of_gives_the_characters() {
    assert_eq!(chars_of("aé€"), vec!['a', 'é', '€']);
    assert_eq!(chars_of(""), Vec::<char>::new());
}

#[test]
fn instrument_key_is_prefix_and_decimal() {
    assert_eq!(instrument_key(0), "INST:0");
    assert_eq!(instrument_key(7), "INST:7");
    assert_eq!(instrument_key(10), "INST:10");
    assert_eq!(instrument_key(12345), "INST:12345");
    assert_eq!(instrument_key(u32::MAX), "INST:4294967295");
}

#[test]
fn instrument_key_agrees_with_format() {
    for id in [0u32, 1, 9, 10, 99, 100, 1009, 65535, 1_000_000_000, u32::MAX] {
        assert_eq!(instrument_key(id), format!("INST:{}", id));
    }
}

#[test]
fn is_instrument_key_looks_at_the_prefix() {
    assert!(is_instrument_key("INST:1"));
    assert!(is_instrument_key("INST:"));
    assert!(!is_instrument_key("INST"));
    assert!(!is_instrument_key("inst:1"));
    assert!(!is_instrument_key("AAPL"));
    assert!(!is_instrument_key(""));
    assert!(is_instrument_key(&instrument_key(42)));
}

#[test]
fn decode_raw_symbol_stops_at_the_terminator() {
    let mut field = [0u8; 22];
    field[..4].copy_from_slice(b"AAPL");
    assert_eq!(decode_raw_symbol(&field), Some("AAPL".to_string()));
    assert_eq!(decode_raw_symbol(b"ES\0garbage"), Some("ES".to_string()));
}

#[test]
fn decode_raw_symbol_takes_a_full_field() {
    assert_eq!(decode_raw_symbol(b"ABCDEFGH"), Some("ABCDEFGH".to_string()));
}

#[test]
fn decode_raw_symbol_of_nothing_is_empty() {
    assert_eq!(decode_raw_symbol(b""), Some(String::new()));
    assert_eq!(decode_raw_symbol(&[0u8; 8]), Some(String::new()));
}

#[test]
fn decode_raw_symbol_rejects_what_is_not_utf8() {
    assert_eq!(decode_raw_symbol(&[0x41, 0xff, 0x42, 0]), None);
    assert_eq!(decode_raw_symbol(&[0xc3]), None);
    assert_eq!(decode_raw_symbol(&[0xc3, 0]), None);
}

#[test]
fn decode_raw_symbol_ignores_bytes_after_the_terminator() {
    assert_eq!(decode_raw_symbol(&[0x41, 0, 0xff, 0xfe]), Some("A".to_string()));
}

#[test]
fn decode_raw_symbol_reads_utf8() {
    assert_eq!(decode_raw_symbol("Zürich\0".as_bytes()), Some("Zürich".to_string()));
}

#[test]
fn split_on_cuts_at_every_separator() {
    assert_eq!(split_on("a,b,c", ','), vec!["a", "b", "c"]);
    assert_eq!(split_on("", ','), vec![""]);
    assert_eq!(split_on(",", ','), vec!["", ""]);
    assert_eq!(split_on("a,,b,", ','), vec!["a", "", "b", ""]);
    assert_eq!(split_on("abc", ','), vec!["abc"]);
}

#[test]
fn split_on_agrees_with_std() {
    for text in ["", "x", ",x", "x,", "a,b", ",,,", "é,€,", "a\nb"] {
        let expected: Vec<String> = text.split(',').map(|piece| piece.to_string()).collect();
        assert_eq!(split_on(text, ','), expected);
    }
}
