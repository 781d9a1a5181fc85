use blitz_l10n::text::trim_whitespace;

#[test]
fn trim_matches_std_trim() {
    let samples = [
        "", "   ", "abc", "  abc  ", "\t\n abc \r\n", "\u{3000}abc\u{3000}", "\u{85}abc\u{85}",
        "\u{a0}a b\u{a0}", "\u{200b}abc\u{200b}", "\u{feff}abc\u{feff}", "\u{2028}x\u{2029}",
        "\u{1680}\u{2000}\u{200a}y\u{202f}\u{205f}", "\u{b}\u{c}z\u{1c}", "a\u{2003}b",
    ];
    for s in samples {
        assert_eq!(trim_whitespace(s), s.trim(), "input {:?}", s);
    }
}

#[test]
fn trim_keeps_inner_space() {
    assert_eq!(trim_whitespace("  \"abc def\"  "), "\"abc def\"");
}
