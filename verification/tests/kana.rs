use karukan::kana::{
    ascii_to_fullwidth, digits_to_kanji, hiragana_to_halfwidth_katakana, hiragana_to_katakana,
    katakana_to_halfwidth, katakana_to_hiragana, normalize_nfkc,
};

#[test]
fn test_hiragana_to_katakana() {
    assert_eq!(hiragana_to_katakana("あいうえお"), "アイウエオ");
    assert_eq!(hiragana_to_katakana("こんにちは"), "コンニチハ");
    assert_eq!(hiragana_to_katakana("きゃきゅきょ"), "キャキュキョ");
    assert_eq!(hiragana_to_katakana("がぎぐげご"), "ガギグゲゴ");
    assert_eq!(hiragana_to_katakana("ぱぴぷぺぽ"), "パピプペポ");

    // Mixed with non-hiragana should pass through
    assert_eq!(hiragana_to_katakana("abc123"), "abc123");
    assert_eq!(hiragana_to_katakana("あいうabc"), "アイウabc");
}

#[test]
fn test_katakana_to_hiragana() {
    assert_eq!(katakana_to_hiragana("アイウエオ"), "あいうえお");
    assert_eq!(katakana_to_hiragana("コンニチハ"), "こんにちは");
    assert_eq!(katakana_to_hiragana("キャキュキョ"), "きゃきゅきょ");
}

#[test]
fn test_round_trip() {
    let text = "こんにちは";
    let katakana = hiragana_to_katakana(text);
    let back = katakana_to_hiragana(&katakana);
    assert_eq!(text, back);
}

#[test]
fn test_digits_to_kanji() {
    assert_eq!(digits_to_kanji("312"), Some("三一二".to_string()));
    assert_eq!(digits_to_kanji("2"), Some("二".to_string()));
    assert_eq!(digits_to_kanji("0"), Some("〇".to_string()));
    assert_eq!(digits_to_kanji("20世紀"), Some("二〇世紀".to_string()));
    assert_eq!(digits_to_kanji("あいう"), None);
    assert_eq!(digits_to_kanji(""), None);
}

#[test]
fn test_normalize_nfkc() {
    // Full-width ASCII should be converted to half-width
    assert_eq!(normalize_nfkc("（）"), "()");
    assert_eq!(normalize_nfkc("！？"), "!?");
    assert_eq!(normalize_nfkc("Ａｂｃ"), "Abc");
    assert_eq!(normalize_nfkc("０１２３"), "0123");

    // Full-width punctuation
    assert_eq!(normalize_nfkc("、。"), "、。"); // These are NOT full-width ASCII
    assert_eq!(normalize_nfkc("「」"), "「」"); // Japanese brackets preserved

    // Hiragana, Katakana, Kanji should be preserved
    assert_eq!(normalize_nfkc("あいうえお"), "あいうえお");
    assert_eq!(normalize_nfkc("アイウエオ"), "アイウエオ");
    assert_eq!(normalize_nfkc("漢字"), "漢字");

    // Mixed text
    assert_eq!(normalize_nfkc("（カッコ）テスト！"), "(カッコ)テスト!");

    // Special jinen tokens (Private Use Area U+EE00-U+EE02) should be preserved
    assert_eq!(normalize_nfkc("\u{ee00}"), "\u{ee00}");
    assert_eq!(normalize_nfkc("\u{ee01}"), "\u{ee01}");
    assert_eq!(normalize_nfkc("\u{ee02}"), "\u{ee02}");
    assert_eq!(
        normalize_nfkc("\u{ee02}context\u{ee00}input\u{ee01}"),
        "\u{ee02}context\u{ee00}input\u{ee01}"
    );
}

#[test]
fn katakana_to_halfwidth_plain_voiced_and_semivoiced() {
    assert_eq!(katakana_to_halfwidth("アイウエオ"), "\u{FF71}\u{FF72}\u{FF73}\u{FF74}\u{FF75}");
    assert_eq!(katakana_to_halfwidth("ガ"), "\u{FF76}\u{FF9E}");
    assert_eq!(katakana_to_halfwidth("パ"), "\u{FF8A}\u{FF9F}");
    assert_eq!(katakana_to_halfwidth("ヴ"), "\u{FF73}\u{FF9E}");
    assert_eq!(katakana_to_halfwidth("ー。、・"), "\u{FF70}\u{FF61}\u{FF64}\u{FF65}");
    // Characters without a half-width form pass through.
    assert_eq!(katakana_to_halfwidth("漢a"), "漢a");
    assert_eq!(katakana_to_halfwidth(""), "");
}

#[test]
fn hiragana_to_halfwidth_katakana_goes_through_katakana() {
    assert_eq!(hiragana_to_halfwidth_katakana("がっこう"), "\u{FF76}\u{FF9E}\u{FF6F}\u{FF7A}\u{FF73}");
    assert_eq!(
        hiragana_to_halfwidth_katakana("ぱん"),
        katakana_to_halfwidth(&hiragana_to_katakana("ぱん"))
    );
}

#[test]
fn ascii_to_fullwidth_maps_printable_ascii_and_space() {
    assert_eq!(ascii_to_fullwidth("Ab1!"), "Ａｂ１！");
    assert_eq!(ascii_to_fullwidth("a b"), "ａ\u{3000}ｂ");
    assert_eq!(ascii_to_fullwidth("~"), "\u{FF5E}");
    assert_eq!(ascii_to_fullwidth("あ"), "あ");
}

#[test]
fn hiragana_round_trip_through_katakana_and_back() {
    for s in ["ぁゖ", "がっこう", "ゔぃ", "abcあ"] {
        assert_eq!(katakana_to_hiragana(&hiragana_to_katakana(s)), s);
    }
    for s in ["ァヶ", "ガッコウ", "xyzア"] {
        assert_eq!(hiragana_to_katakana(&katakana_to_hiragana(s)), s);
    }
}

#[test]
fn kana_conversion_edges_of_the_blocks() {
    // U+3041 and U+3096 are the ends of the hiragana block.
    assert_eq!(hiragana_to_katakana("\u{3041}\u{3096}"), "\u{30A1}\u{30F6}");
    // U+3097 and U+3040 are outside it.
    assert_eq!(hiragana_to_katakana("\u{3040}\u{3097}"), "\u{3040}\u{3097}");
    assert_eq!(katakana_to_hiragana("\u{30A0}\u{30F7}"), "\u{30A0}\u{30F7}");
}

#[test]
fn digits_to_kanji_all_digits() {
    assert_eq!(digits_to_kanji("0123456789"), Some("〇一二三四五六七八九".to_string()));
    assert_eq!(digits_to_kanji("a1"), Some("a一".to_string()));
}
