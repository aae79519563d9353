use speech_pipeline::text::{chars_of, decimal_len, is_space_char, push_decimal, push_zero_padded, trimmed};

#[test]
fn trimmed_agrees_with_std_trim() {
    let samples = [
        "",
        " ",
        "a",
        "  a b  ",
        "\t\n x \r\n",
        "\u{a0}\u{2003}word\u{3000}\u{85}",
        "\u{200b}kept\u{200b}",
        "\u{1680}\u{2028}\u{2029}\u{202f}\u{205f}z",
        "no-space",
        " \u{feff} ",
    ];
    for s in samples {
        assert_eq!(trimmed(s), s.trim());
    }
}

#[test]
fn is_space_char_agrees_with_std_on_every_char() {
    for n in 0u32..=0x10FFFF {
        if let Some(c) = char::from_u32(n) {
            assert_eq!(is_space_char(c), c.is_whitespace());
        }
    }
}

#[test]
fn chars_of_gives_the_characters() {
    assert_eq!(chars_of("héllo"), vec!['h', 'é', 'l', 'l', 'o']);
    assert_eq!(chars_of(""), Vec::<char>::new());
}

#[test]
fn push_decimal_writes_the_numeral() {
    for n in [0u128, 7, 10, 99, 100, 12345, u64::MAX as u128, u128::MAX] {
        let mut out = String::from("n=");
        push_decimal(&mut out, n);
        assert_eq!(out, format!("n={}", n));
        assert_eq!(decimal_len(n), n.to_string().len());
    }
}

#[test]
fn push_zero_padded_fills_up_to_the_width() {
    let mut out = String::new();
    push_zero_padded(&mut out, 7, 3);
    out.push('|');
    push_zero_padded(&mut out, 1234, 3);
    out.push('|');
    push_zero_padded(&mut out, 0, 0);
    out.push('|');
    push_zero_padded(&mut out, 42, 2);
    assert_eq!(out, "007|1234|0|42");
}
