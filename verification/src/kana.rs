//! Kana and character-width conversions.
//!
//! Every conversion here works character by character on the `char` view of a
//! string; the contracts state the result as the per-character image of the
//! input (or, for half-width katakana, the concatenation of the images).
use vstd::prelude::*;
use vstd::string::StrSliceExecFns;
use unicode_normalization::UnicodeNormalization;
use crate::text::{char_from_u32, push_char};

verus! {

// ---------------------------------------------------------------------------
// NFKC normalization
// ---------------------------------------------------------------------------

/// The Unicode Normalization Form KC of a character sequence, as computed by
/// the `unicode-normalization` crate.
pub uninterp spec fn nfkc_form(s: Seq<char>) -> Seq<char>;

/// Trusted: collects `UnicodeNormalization::nfkc` (unicode-normalization) over
/// the characters of `text`.  The result is named [`nfkc_form`]; nothing more
/// of the normal form is stated here.
#[verifier::external_body]
fn collect_nfkc(text: &str) -> (r: String)
    ensures
        r@ == nfkc_form(text@),
{
    text.nfkc().collect()
}

/// Apply NFKC normalization to text.
///
/// Full-width ASCII becomes half-width ASCII and compatibility characters
/// become their canonical forms; the result is exactly the NFKC form of the
/// input as the normalization crate computes it.
pub fn normalize_nfkc(text: &str) -> (r: String)
    ensures
        r@ == nfkc_form(text@),
{
    collect_nfkc(text)
}

// ---------------------------------------------------------------------------
// Hiragana <-> katakana
// ---------------------------------------------------------------------------

/// Hiragana block U+3041..=U+3096 (small a .. small ke).
pub open spec fn is_hiragana(c: char) -> bool {
    '\u{3041}' <= c && c <= '\u{3096}'
}

/// Katakana block U+30A1..=U+30F6 (small a .. small ke).
pub open spec fn is_katakana(c: char) -> bool {
    '\u{30A1}' <= c && c <= '\u{30F6}'
}

/// The katakana counterpart of a hiragana character; other characters are kept.
pub open spec fn hira_to_kata_char(c: char) -> char {
    if is_hiragana(c) {
        ((c as u32) + 0x60) as char
    } else {
        c
    }
}

/// The hiragana counterpart of a katakana character; other characters are kept.
pub open spec fn kata_to_hira_char(c: char) -> char {
    if is_katakana(c) {
        ((c as u32) - 0x60) as char
    } else {
        c
    }
}

/// Katakana reading of a character sequence.
pub open spec fn to_katakana(s: Seq<char>) -> Seq<char> {
    s.map_values(|c: char| hira_to_kata_char(c))
}

/// Hiragana reading of a character sequence.
pub open spec fn to_hiragana(s: Seq<char>) -> Seq<char> {
    s.map_values(|c: char| kata_to_hira_char(c))
}

fn hira_to_kata_char_exec(c: char) -> (r: char)
    ensures
        r == hira_to_kata_char(c),
{
    if '\u{3041}' <= c && c <= '\u{3096}' {
        match char_from_u32(c as u32 + 0x60) {
            Some(k) => k,
            None => c,
        }
    } else {
        c
    }
}

fn kata_to_hira_char_exec(c: char) -> (r: char)
    ensures
        r == kata_to_hira_char(c),
{
    if '\u{30A1}' <= c && c <= '\u{30F6}' {
        match char_from_u32(c as u32 - 0x60) {
            Some(h) => h,
            None => c,
        }
    } else {
        c
    }
}

/// Convert hiragana to katakana
pub fn hiragana_to_katakana(text: &str) -> (r: String)
    ensures
        r@ == to_katakana(text@),
{
    let n = text.unicode_len();
    let mut r = String::new();
    let mut i: usize = 0;
    while i < n
        invariant
            n == text@.len(),
            i <= n,
            r@ == to_katakana(text@.subrange(0, i as int)),
        decreases n - i,
    {
        let c = text.get_char(i);
        push_char(&mut r, hira_to_kata_char_exec(c));
        assert(text@.subrange(0, i + 1) =~= text@.subrange(0, i as int).push(c));
        assert(to_katakana(text@.subrange(0, i + 1)) =~= to_katakana(
            text@.subrange(0, i as int),
        ).push(hira_to_kata_char(c)));
        i = i + 1;
    }
    assert(text@.subrange(0, n as int) =~= text@);
    r
}

/// Convert katakana to hiragana
pub fn katakana_to_hiragana(text: &str) -> (r: String)
    ensures
        r@ == to_hiragana(text@),
{
    let n = text.unicode_len();
    let mut r = String::new();
    let mut i: usize = 0;
    while i < n
        invariant
            n == text@.len(),
            i <= n,
            r@ == to_hiragana(text@.subrange(0, i as int)),
        decreases n - i,
    {
        let c = text.get_char(i);
        push_char(&mut r, kata_to_hira_char_exec(c));
        assert(text@.subrange(0, i + 1) =~= text@.subrange(0, i as int).push(c));
        assert(to_hiragana(text@.subrange(0, i + 1)) =~= to_hiragana(
            text@.subrange(0, i as int),
        ).push(kata_to_hira_char(c)));
        i = i + 1;
    }
    assert(text@.subrange(0, n as int) =~= text@);
    r
}

// ---------------------------------------------------------------------------
// Full-width katakana -> half-width katakana
// ---------------------------------------------------------------------------

/// The half-width form of one full-width katakana character: a half-width
/// base character and, for voiced / semi-voiced sounds, a half-width sound
/// mark.  Characters without a half-width form map to themselves.
pub open spec fn halfwidth_pair(c: char) -> (char, Option<char>) {
    match c {
        '\u{30A1}' => ('\u{FF67}', None),  // ァ
        '\u{30A3}' => ('\u{FF68}', None),  // ィ
        '\u{30A5}' => ('\u{FF69}', None),  // ゥ
        '\u{30A7}' => ('\u{FF6A}', None),  // ェ
        '\u{30A9}' => ('\u{FF6B}', None),  // ォ
        '\u{30C3}' => ('\u{FF6F}', None),  // ッ
        '\u{30E3}' => ('\u{FF6C}', None),  // ャ
        '\u{30E5}' => ('\u{FF6D}', None),  // ュ
        '\u{30E7}' => ('\u{FF6E}', None),  // ョ
        '\u{30A2}' => ('\u{FF71}', None),  // ア
        '\u{30A4}' => ('\u{FF72}', None),  // イ
        '\u{30A6}' => ('\u{FF73}', None),  // ウ
        '\u{30A8}' => ('\u{FF74}', None),  // エ
        '\u{30AA}' => ('\u{FF75}', None),  // オ
        '\u{30AB}' => ('\u{FF76}', None),  // カ
        '\u{30AD}' => ('\u{FF77}', None),  // キ
        '\u{30AF}' => ('\u{FF78}', None),  // ク
        '\u{30B1}' => ('\u{FF79}', None),  // ケ
        '\u{30B3}' => ('\u{FF7A}', None),  // コ
        '\u{30B5}' => ('\u{FF7B}', None),  // サ
        '\u{30B7}' => ('\u{FF7C}', None),  // シ
        '\u{30B9}' => ('\u{FF7D}', None),  // ス
        '\u{30BB}' => ('\u{FF7E}', None),  // セ
        '\u{30BD}' => ('\u{FF7F}', None),  // ソ
        '\u{30BF}' => ('\u{FF80}', None),  // タ
        '\u{30C1}' => ('\u{FF81}', None),  // チ
        '\u{30C4}' => ('\u{FF82}', None),  // ツ
        '\u{30C6}' => ('\u{FF83}', None),  // テ
        '\u{30C8}' => ('\u{FF84}', None),  // ト
        '\u{30CA}' => ('\u{FF85}', None),  // ナ
        '\u{30CB}' => ('\u{FF86}', None),  // ニ
        '\u{30CC}' => ('\u{FF87}', None),  // ヌ
        '\u{30CD}' => ('\u{FF88}', None),  // ネ
        '\u{30CE}' => ('\u{FF89}', None),  // ノ
        '\u{30CF}' => ('\u{FF8A}', None),  // ハ
        '\u{30D2}' => ('\u{FF8B}', None),  // ヒ
        '\u{30D5}' => ('\u{FF8C}', None),  // フ
        '\u{30D8}' => ('\u{FF8D}', None),  // ヘ
        '\u{30DB}' => ('\u{FF8E}', None),  // ホ
        '\u{30DE}' => ('\u{FF8F}', None),  // マ
        '\u{30DF}' => ('\u{FF90}', None),  // ミ
        '\u{30E0}' => ('\u{FF91}', None),  // ム
        '\u{30E1}' => ('\u{FF92}', None),  // メ
        '\u{30E2}' => ('\u{FF93}', None),  // モ
        '\u{30E4}' => ('\u{FF94}', None),  // ヤ
        '\u{30E6}' => ('\u{FF95}', None),  // ユ
        '\u{30E8}' => ('\u{FF96}', None),  // ヨ
        '\u{30E9}' => ('\u{FF97}', None),  // ラ
        '\u{30EA}' => ('\u{FF98}', None),  // リ
        '\u{30EB}' => ('\u{FF99}', None),  // ル
        '\u{30EC}' => ('\u{FF9A}', None),  // レ
        '\u{30ED}' => ('\u{FF9B}', None),  // ロ
        '\u{30EF}' => ('\u{FF9C}', None),  // ワ
        '\u{30F2}' => ('\u{FF66}', None),  // ヲ
        '\u{30F3}' => ('\u{FF9D}', None),  // ン
        '\u{30FC}' => ('\u{FF70}', None),  // ー
        '\u{3002}' => ('\u{FF61}', None),  // 。
        '\u{3001}' => ('\u{FF64}', None),  // 、
        '\u{30FB}' => ('\u{FF65}', None),  // ・
        '\u{30AC}' => ('\u{FF76}', Some('\u{FF9E}')),  // ガ
        '\u{30AE}' => ('\u{FF77}', Some('\u{FF9E}')),  // ギ
        '\u{30B0}' => ('\u{FF78}', Some('\u{FF9E}')),  // グ
        '\u{30B2}' => ('\u{FF79}', Some('\u{FF9E}')),  // ゲ
        '\u{30B4}' => ('\u{FF7A}', Some('\u{FF9E}')),  // ゴ
        '\u{30B6}' => ('\u{FF7B}', Some('\u{FF9E}')),  // ザ
        '\u{30B8}' => ('\u{FF7C}', Some('\u{FF9E}')),  // ジ
        '\u{30BA}' => ('\u{FF7D}', Some('\u{FF9E}')),  // ズ
        '\u{30BC}' => ('\u{FF7E}', Some('\u{FF9E}')),  // ゼ
        '\u{30BE}' => ('\u{FF7F}', Some('\u{FF9E}')),  // ゾ
        '\u{30C0}' => ('\u{FF80}', Some('\u{FF9E}')),  // ダ
        '\u{30C2}' => ('\u{FF81}', Some('\u{FF9E}')),  // ヂ
        '\u{30C5}' => ('\u{FF82}', Some('\u{FF9E}')),  // ヅ
        '\u{30C7}' => ('\u{FF83}', Some('\u{FF9E}')),  // デ
        '\u{30C9}' => ('\u{FF84}', Some('\u{FF9E}')),  // ド
        '\u{30D0}' => ('\u{FF8A}', Some('\u{FF9E}')),  // バ
        '\u{30D3}' => ('\u{FF8B}', Some('\u{FF9E}')),  // ビ
        '\u{30D6}' => ('\u{FF8C}', Some('\u{FF9E}')),  // ブ
        '\u{30D9}' => ('\u{FF8D}', Some('\u{FF9E}')),  // ベ
        '\u{30DC}' => ('\u{FF8E}', Some('\u{FF9E}')),  // ボ
        '\u{30F4}' => ('\u{FF73}', Some('\u{FF9E}')),  // ヴ
        '\u{30D1}' => ('\u{FF8A}', Some('\u{FF9F}')),  // パ
        '\u{30D4}' => ('\u{FF8B}', Some('\u{FF9F}')),  // ピ
        '\u{30D7}' => ('\u{FF8C}', Some('\u{FF9F}')),  // プ
        '\u{30DA}' => ('\u{FF8D}', Some('\u{FF9F}')),  // ペ
        '\u{30DD}' => ('\u{FF8E}', Some('\u{FF9F}')),  // ポ
        _ => (c, None),
    }
}

/// `halfwidth_pair` as a character sequence.
pub open spec fn halfwidth_chars(c: char) -> Seq<char> {
    match halfwidth_pair(c).1 {
        Some(m) => seq![halfwidth_pair(c).0, m],
        None => seq![halfwidth_pair(c).0],
    }
}

/// Half-width katakana form of a character sequence: the concatenation of the
/// half-width forms of its characters.
pub open spec fn to_halfwidth(s: Seq<char>) -> Seq<char>
    decreases s.len(),
{
    if s.len() == 0 {
        Seq::empty()
    } else {
        to_halfwidth(s.drop_last()) + halfwidth_chars(s.last())
    }
}

fn halfwidth_pair_exec(c: char) -> (r: (char, Option<char>))
    ensures
        r == halfwidth_pair(c),
{
    match c {
        '\u{30A1}' => ('\u{FF67}', None),  // ァ
        '\u{30A3}' => ('\u{FF68}', None),  // ィ
        '\u{30A5}' => ('\u{FF69}', None),  // ゥ
        '\u{30A7}' => ('\u{FF6A}', None),  // ェ
        '\u{30A9}' => ('\u{FF6B}', None),  // ォ
        '\u{30C3}' => ('\u{FF6F}', None),  // ッ
        '\u{30E3}' => ('\u{FF6C}', None),  // ャ
        '\u{30E5}' => ('\u{FF6D}', None),  // ュ
        '\u{30E7}' => ('\u{FF6E}', None),  // ョ
        '\u{30A2}' => ('\u{FF71}', None),  // ア
        '\u{30A4}' => ('\u{FF72}', None),  // イ
        '\u{30A6}' => ('\u{FF73}', None),  // ウ
        '\u{30A8}' => ('\u{FF74}', None),  // エ
        '\u{30AA}' => ('\u{FF75}', None),  // オ
        '\u{30AB}' => ('\u{FF76}', None),  // カ
        '\u{30AD}' => ('\u{FF77}', None),  // キ
        '\u{30AF}' => ('\u{FF78}', None),  // ク
        '\u{30B1}' => ('\u{FF79}', None),  // ケ
        '\u{30B3}' => ('\u{FF7A}', None),  // コ
        '\u{30B5}' => ('\u{FF7B}', None),  // サ
        '\u{30B7}' => ('\u{FF7C}', None),  // シ
        '\u{30B9}' => ('\u{FF7D}', None),  // ス
        '\u{30BB}' => ('\u{FF7E}', None),  // セ
        '\u{30BD}' => ('\u{FF7F}', None),  // ソ
        '\u{30BF}' => ('\u{FF80}', None),  // タ
        '\u{30C1}' => ('\u{FF81}', None),  // チ
        '\u{30C4}' => ('\u{FF82}', None),  // ツ
        '\u{30C6}' => ('\u{FF83}', None),  // テ
        '\u{30C8}' => ('\u{FF84}', None),  // ト
        '\u{30CA}' => ('\u{FF85}', None),  // ナ
        '\u{30CB}' => ('\u{FF86}', None),  // ニ
        '\u{30CC}' => ('\u{FF87}', None),  // ヌ
        '\u{30CD}' => ('\u{FF88}', None),  // ネ
        '\u{30CE}' => ('\u{FF89}', None),  // ノ
        '\u{30CF}' => ('\u{FF8A}', None),  // ハ
        '\u{30D2}' => ('\u{FF8B}', None),  // ヒ
        '\u{30D5}' => ('\u{FF8C}', None),  // フ
        '\u{30D8}' => ('\u{FF8D}', None),  // ヘ
        '\u{30DB}' => ('\u{FF8E}', None),  // ホ
        '\u{30DE}' => ('\u{FF8F}', None),  // マ
        '\u{30DF}' => ('\u{FF90}', None),  // ミ
        '\u{30E0}' => ('\u{FF91}', None),  // ム
        '\u{30E1}' => ('\u{FF92}', None),  // メ
        '\u{30E2}' => ('\u{FF93}', None),  // モ
        '\u{30E4}' => ('\u{FF94}', None),  // ヤ
        '\u{30E6}' => ('\u{FF95}', None),  // ユ
        '\u{30E8}' => ('\u{FF96}', None),  // ヨ
        '\u{30E9}' => ('\u{FF97}', None),  // ラ
        '\u{30EA}' => ('\u{FF98}', None),  // リ
        '\u{30EB}' => ('\u{FF99}', None),  // ル
        '\u{30EC}' => ('\u{FF9A}', None),  // レ
        '\u{30ED}' => ('\u{FF9B}', None),  // ロ
        '\u{30EF}' => ('\u{FF9C}', None),  // ワ
        '\u{30F2}' => ('\u{FF66}', None),  // ヲ
        '\u{30F3}' => ('\u{FF9D}', None),  // ン
        '\u{30FC}' => ('\u{FF70}', None),  // ー
        '\u{3002}' => ('\u{FF61}', None),  // 。
        '\u{3001}' => ('\u{FF64}', None),  // 、
        '\u{30FB}' => ('\u{FF65}', None),  // ・
        '\u{30AC}' => ('\u{FF76}', Some('\u{FF9E}')),  // ガ
        '\u{30AE}' => ('\u{FF77}', Some('\u{FF9E}')),  // ギ
        '\u{30B0}' => ('\u{FF78}', Some('\u{FF9E}')),  // グ
        '\u{30B2}' => ('\u{FF79}', Some('\u{FF9E}')),  // ゲ
        '\u{30B4}' => ('\u{FF7A}', Some('\u{FF9E}')),  // ゴ
        '\u{30B6}' => ('\u{FF7B}', Some('\u{FF9E}')),  // ザ
        '\u{30B8}' => ('\u{FF7C}', Some('\u{FF9E}')),  // ジ
        '\u{30BA}' => ('\u{FF7D}', Some('\u{FF9E}')),  // ズ
        '\u{30BC}' => ('\u{FF7E}', Some('\u{FF9E}')),  // ゼ
        '\u{30BE}' => ('\u{FF7F}', Some('\u{FF9E}')),  // ゾ
        '\u{30C0}' => ('\u{FF80}', Some('\u{FF9E}')),  // ダ
        '\u{30C2}' => ('\u{FF81}', Some('\u{FF9E}')),  // ヂ
        '\u{30C5}' => ('\u{FF82}', Some('\u{FF9E}')),  // ヅ
        '\u{30C7}' => ('\u{FF83}', Some('\u{FF9E}')),  // デ
        '\u{30C9}' => ('\u{FF84}', Some('\u{FF9E}')),  // ド
        '\u{30D0}' => ('\u{FF8A}', Some('\u{FF9E}')),  // バ
        '\u{30D3}' => ('\u{FF8B}', Some('\u{FF9E}')),  // ビ
        '\u{30D6}' => ('\u{FF8C}', Some('\u{FF9E}')),  // ブ
        '\u{30D9}' => ('\u{FF8D}', Some('\u{FF9E}')),  // ベ
        '\u{30DC}' => ('\u{FF8E}', Some('\u{FF9E}')),  // ボ
        '\u{30F4}' => ('\u{FF73}', Some('\u{FF9E}')),  // ヴ
        '\u{30D1}' => ('\u{FF8A}', Some('\u{FF9F}')),  // パ
        '\u{30D4}' => ('\u{FF8B}', Some('\u{FF9F}')),  // ピ
        '\u{30D7}' => ('\u{FF8C}', Some('\u{FF9F}')),  // プ
        '\u{30DA}' => ('\u{FF8D}', Some('\u{FF9F}')),  // ペ
        '\u{30DD}' => ('\u{FF8E}', Some('\u{FF9F}')),  // ポ
        _ => (c, None),
    }
}

/// Convert full-width katakana to half-width katakana
pub fn katakana_to_halfwidth(text: &str) -> (r: String)
    ensures
        r@ == to_halfwidth(text@),
{
    let n = text.unicode_len();
    let mut r = String::new();
    let mut i: usize = 0;
    while i < n
        invariant
            n == text@.len(),
            i <= n,
            r@ == to_halfwidth(text@.subrange(0, i as int)),
        decreases n - i,
    {
        let c = text.get_char(i);
        let (base, mark) = halfwidth_pair_exec(c);
        push_char(&mut r, base);
        match mark {
            Some(m) => push_char(&mut r, m),
            None => {},
        }
        assert(text@.subrange(0, i + 1).drop_last() =~= text@.subrange(0, i as int));
        assert(r@ =~= to_halfwidth(text@.subrange(0, i + 1)));
        i = i + 1;
    }
    assert(text@.subrange(0, n as int) =~= text@);
    r
}

/// Convert hiragana to half-width katakana
pub fn hiragana_to_halfwidth_katakana(text: &str) -> (r: String)
    ensures
        r@ == to_halfwidth(to_katakana(text@)),
{
    // First convert to full-width katakana, then to half-width
    let katakana = hiragana_to_katakana(text);
    katakana_to_halfwidth(&katakana)
}

// ---------------------------------------------------------------------------
// Half-width ASCII -> full-width ASCII
// ---------------------------------------------------------------------------

/// Printable ASCII `!`..=`~` maps to U+FF01..=U+FF5E, the space to the
/// ideographic space U+3000; everything else is kept.
pub open spec fn fullwidth_char(c: char) -> char {
    if '!' <= c && c <= '~' {
        ((c as u32) - 0x21 + 0xFF01) as char
    } else if c == ' ' {
        '\u{3000}'
    } else {
        c
    }
}

/// Full-width form of a character sequence.
pub open spec fn to_fullwidth(s: Seq<char>) -> Seq<char> {
    s.map_values(|c: char| fullwidth_char(c))
}

fn fullwidth_char_exec(c: char) -> (r: char)
    ensures
        r == fullwidth_char(c),
{
    if '!' <= c && c <= '~' {
        match char_from_u32(c as u32 - 0x21 + 0xFF01) {
            Some(f) => f,
            None => c,
        }
    } else if c == ' ' {
        '\u{3000}'
    } else {
        c
    }
}

/// Convert half-width ASCII to full-width ASCII
pub fn ascii_to_fullwidth(text: &str) -> (r: String)
    ensures
        r@ == to_fullwidth(text@),
{
    let n = text.unicode_len();
    let mut r = String::new();
    let mut i: usize = 0;
    while i < n
        invariant
            n == text@.len(),
            i <= n,
            r@ == to_fullwidth(text@.subrange(0, i as int)),
        decreases n - i,
    {
        let c = text.get_char(i);
        push_char(&mut r, fullwidth_char_exec(c));
        assert(text@.subrange(0, i + 1) =~= text@.subrange(0, i as int).push(c));
        assert(to_fullwidth(text@.subrange(0, i + 1)) =~= to_fullwidth(
            text@.subrange(0, i as int),
        ).push(fullwidth_char(c)));
        i = i + 1;
    }
    assert(text@.subrange(0, n as int) =~= text@);
    r
}

// ---------------------------------------------------------------------------
// ASCII digits -> kanji numerals
// ---------------------------------------------------------------------------

pub open spec fn is_ascii_digit(c: char) -> bool {
    '0' <= c && c <= '9'
}

/// The kanji numeral of an ASCII digit; other characters are kept.
pub open spec fn kanji_digit(c: char) -> char {
    if c == '0' {
        '\u{3007}'
    } else if c == '1' {
        '\u{4E00}'
    } else if c == '2' {
        '\u{4E8C}'
    } else if c == '3' {
        '\u{4E09}'
    } else if c == '4' {
        '\u{56DB}'
    } else if c == '5' {
        '\u{4E94}'
    } else if c == '6' {
        '\u{516D}'
    } else if c == '7' {
        '\u{4E03}'
    } else if c == '8' {
        '\u{516B}'
    } else if c == '9' {
        '\u{4E5D}'
    } else {
        c
    }
}

/// Digit-by-digit kanji form of a character sequence.
pub open spec fn to_kanji_digits(s: Seq<char>) -> Seq<char> {
    s.map_values(|c: char| kanji_digit(c))
}

pub open spec fn has_ascii_digit(s: Seq<char>) -> bool {
    exists|i: int| 0 <= i < s.len() && is_ascii_digit(#[trigger] s[i])
}

fn kanji_digit_exec(c: char) -> (r: char)
    ensures
        r == kanji_digit(c),
{
    match c {
        '0' => '\u{3007}',
        '1' => '\u{4E00}',
        '2' => '\u{4E8C}',
        '3' => '\u{4E09}',
        '4' => '\u{56DB}',
        '5' => '\u{4E94}',
        '6' => '\u{516D}',
        '7' => '\u{4E03}',
        '8' => '\u{516B}',
        '9' => '\u{4E5D}',
        _ => c,
    }
}

/// Convert ASCII digits in text to kanji numerals, one digit at a time.
///
/// Only digits are converted; non-digit characters pass through unchanged.
/// `None` exactly when the text holds no ASCII digit.
pub fn digits_to_kanji(text: &str) -> (r: Option<String>)
    ensures
        r is None <==> !has_ascii_digit(text@),
        r matches Some(s) ==> s@ == to_kanji_digits(text@),
{
    let n = text.unicode_len();
    let mut r = String::new();
    let mut found = false;
    let mut i: usize = 0;
    while i < n
        invariant
            n == text@.len(),
            i <= n,
            r@ == to_kanji_digits(text@.subrange(0, i as int)),
            found == has_ascii_digit(text@.subrange(0, i as int)),
        decreases n - i,
    {
        let c = text.get_char(i);
        let ghost prefix = text@.subrange(0, i as int);
        let ghost next = text@.subrange(0, i + 1);
        assert(next =~= prefix.push(c));
        if '0' <= c && c <= '9' {
            found = true;
            assert(is_ascii_digit(next[i as int]));
        }
        proof {
            if has_ascii_digit(next) && !is_ascii_digit(c) {
                let j = choose|j: int| 0 <= j < next.len() && is_ascii_digit(#[trigger] next[j]);
                assert(is_ascii_digit(prefix[j]));
            }
            if has_ascii_digit(prefix) {
                let j = choose|j: int| 0 <= j < prefix.len() && is_ascii_digit(#[trigger] prefix[j]);
                assert(is_ascii_digit(next[j]));
            }
        }
        push_char(&mut r, kanji_digit_exec(c));
        assert(to_kanji_digits(next) =~= to_kanji_digits(prefix).push(kanji_digit(c)));
        i = i + 1;
    }
    assert(text@.subrange(0, n as int) =~= text@);
    if found {
        Some(r)
    } else {
        None
    }
}

} // verus!
