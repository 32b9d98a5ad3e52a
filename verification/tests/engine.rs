use karukan::candidate::{Candidate, CandidateList};
use karukan::conversion::sort_entries_by_score;
use karukan::dictionary::{DictEntry, Dictionary};
use karukan::engine::{
    ConversionStrategy, EngineAction, EngineResult, InputMethodEngine, InputState, KanjiConverter, ModelOutput,
};
use karukan::keys::{KeyEvent, KeyModifiers, Keysym};
use karukan::learning::LearningCache;
use karukan::preedit::{AttributeType, Preedit};
use karukan::romaji::RomajiConverter;

fn press(ch: char) -> KeyEvent {
    KeyEvent::new(Keysym::from_char(ch), KeyModifiers::new(), true)
}

fn press_key(keysym: Keysym) -> KeyEvent {
    KeyEvent::new(keysym, KeyModifiers::new(), true)
}

fn press_shift_key(keysym: Keysym) -> KeyEvent {
    KeyEvent::new(keysym, KeyModifiers::new().with_shift(true), true)
}

fn press_ctrl(ch: char) -> KeyEvent {
    KeyEvent::new(Keysym::from_char(ch), KeyModifiers::new().with_control(true), true)
}

fn type_str(engine: &mut InputMethodEngine, s: &str) {
    for c in s.chars() {
        engine.process_key(&press(c));
    }
}

fn commits(r: &EngineResult) -> Vec<String> {
    r.actions
        .iter()
        .filter_map(|a| match a {
            EngineAction::Commit(t) => Some(t.clone()),
            _ => None,
        })
        .collect()
}

fn candidate_texts(engine: &InputMethodEngine) -> Vec<String> {
    match engine.state() {
        InputState::Conversion { candidates, .. } => {
            candidates.candidates().iter().map(|c| c.text.clone()).collect()
        }
        _ => Vec::new(),
    }
}

fn preedit_text(engine: &InputMethodEngine) -> String {
    engine.preedit().map(|p| p.text().to_string()).unwrap_or_default()
}

fn strings(v: &[&str]) -> Vec<String> {
    v.iter().map(|s| s.to_string()).collect()
}

/// An engine whose models know the reading カンジ.
fn kanji_engine() -> InputMethodEngine {
    let mut engine = InputMethodEngine::new();
    engine.converters.kanji = Some(KanjiConverter {
        context: String::new(),
        outputs: vec![ModelOutput {
            reading: "カンジ".to_string(),
            context: String::new(),
            num_candidates: 9,
            strategy: ConversionStrategy::ParallelBeam { beam_width: 4 },
            main: strings(&["漢字", "感字"]),
            light: Some(strings(&["感じ", "漢字", "幹事", "かんじかんじ", "完治"])),
        }],
    });
    engine
}

fn model_output(n: usize, strategy: ConversionStrategy, main: &[&str], light: Option<&[&str]>) -> ModelOutput {
    ModelOutput {
        reading: "カ".to_string(),
        context: String::new(),
        num_candidates: n,
        strategy,
        main: strings(main),
        light: light.map(strings),
    }
}

fn entry(reading: &str, surface: &str, score: i64) -> DictEntry {
    DictEntry { reading: reading.to_string(), surface: surface.to_string(), score }
}

// ---------------------------------------------------------------------------
// Typing
// ---------------------------------------------------------------------------

#[test]
fn test_romaji_typing_produces_hiragana() {
    let mut engine = InputMethodEngine::new();
    type_str(&mut engine, "kanji");
    assert_eq!(preedit_text(&engine), "かんじ");
}

#[test]
fn test_romaji_contracted_and_doubled() {
    let mut engine = InputMethodEngine::new();
    type_str(&mut engine, "kyatto");
    assert_eq!(preedit_text(&engine), "きゃっと");
}

#[test]
fn test_return_commits_pending_n() {
    let mut engine = InputMethodEngine::new();
    type_str(&mut engine, "hon");
    assert_eq!(preedit_text(&engine), "ほn");
    let r = engine.process_key(&press_key(Keysym::RETURN));
    assert_eq!(commits(&r), strings(&["ほん"]));
    assert!(matches!(engine.state(), InputState::Empty));
}

#[test]
fn test_escape_discards_composing() {
    let mut engine = InputMethodEngine::new();
    type_str(&mut engine, "aiu");
    let r = engine.process_key(&press_key(Keysym::ESCAPE));
    assert!(r.consumed);
    assert!(commits(&r).is_empty());
    assert!(matches!(engine.state(), InputState::Empty));
}

#[test]
fn test_ctrl_h_u_i_while_composing() {
    let mut engine = InputMethodEngine::new();
    type_str(&mut engine, "aiu");
    engine.process_key(&press_ctrl('h'));
    assert_eq!(preedit_text(&engine), "あい");

    let r = engine.process_key(&press_ctrl('i'));
    assert_eq!(commits(&r), strings(&["アイ"]));
    assert!(matches!(engine.state(), InputState::Empty));

    type_str(&mut engine, "ka");
    let r = engine.process_key(&press_ctrl('u'));
    assert!(commits(&r).is_empty());
    assert!(matches!(engine.state(), InputState::Empty));
}

#[test]
fn test_shift_letter_switches_to_alphabet() {
    let mut engine = InputMethodEngine::new();
    engine.process_key(&KeyEvent::new(Keysym::from_char('A'), KeyModifiers::new().with_shift(true), true));
    engine.process_key(&press('b'));
    assert_eq!(preedit_text(&engine), "Ab");
}

#[test]
fn test_key_release_consumed_only_while_active() {
    let mut engine = InputMethodEngine::new();
    let r = engine.process_key(&KeyEvent::new(Keysym::from_char('a'), KeyModifiers::new(), false));
    assert!(!r.consumed);
    type_str(&mut engine, "a");
    let r = engine.process_key(&KeyEvent::new(Keysym::from_char('a'), KeyModifiers::new(), false));
    assert!(r.consumed);
    assert_eq!(preedit_text(&engine), "あ");
}

#[test]
fn test_caret_moves_and_inserts() {
    let mut engine = InputMethodEngine::new();
    type_str(&mut engine, "aiu");
    engine.process_key(&press_key(Keysym::LEFT));
    engine.process_key(&press_key(Keysym::LEFT));
    type_str(&mut engine, "e");
    assert_eq!(preedit_text(&engine), "あえいう");
    assert_eq!(engine.preedit().unwrap().caret(), 2);
    engine.process_key(&press_key(Keysym::RIGHT));
    engine.process_key(&press_key(Keysym::LEFT));
    assert_eq!(engine.preedit().unwrap().caret(), 2);
}

#[test]
fn test_home_then_delete() {
    let mut engine = InputMethodEngine::new();
    type_str(&mut engine, "aiu");
    engine.process_key(&press_key(Keysym::HOME));
    engine.process_key(&press_key(Keysym::DELETE));
    assert_eq!(preedit_text(&engine), "いう");
    assert_eq!(engine.preedit().unwrap().caret(), 0);
}

#[test]
fn test_direct_conversion_keys_while_composing() {
    let cases: [(Keysym, &str); 5] = [
        (Keysym::F6, "かんじ"),
        (Keysym::F7, "カンジ"),
        (Keysym::F8, "ｶﾝｼﾞ"),
        (Keysym::F9, "ｋａｎｊｉ"),
        (Keysym::F10, "kanji"),
    ];
    for (key, expected) in cases {
        let mut engine = InputMethodEngine::new();
        type_str(&mut engine, "kanji");
        let r = engine.process_key(&press_key(key));
        assert!(r.consumed);
        assert_eq!(commits(&r), strings(&[expected]));
        assert!(matches!(engine.state(), InputState::Empty));
    }
}

// ---------------------------------------------------------------------------
// Conversion
// ---------------------------------------------------------------------------

#[test]
fn test_without_model_conversion_offers_reading() {
    let mut engine = InputMethodEngine::new();
    type_str(&mut engine, "aiu");
    engine.process_key(&press_key(Keysym::SPACE));
    assert_eq!(candidate_texts(&engine), strings(&["あいう"]));
    let r = engine.process_key(&press_key(Keysym::RETURN));
    assert_eq!(commits(&r), strings(&["あいう"]));
}

#[test]
fn test_model_candidates_in_order() {
    let mut engine = kanji_engine();
    type_str(&mut engine, "kanji");
    engine.process_key(&press_key(Keysym::SPACE));
    // Model candidates (the over-long one dropped), then hiragana and katakana.
    assert_eq!(
        candidate_texts(&engine),
        strings(&["漢字", "感じ", "幹事", "かんじ", "カンジ"])
    );
    assert_eq!(preedit_text(&engine), "漢字");
    let r = engine.process_key(&press_key(Keysym::RETURN));
    assert_eq!(commits(&r), strings(&["漢字"]));
    assert!(matches!(engine.state(), InputState::Empty));
}

#[test]
fn test_run_kana_kanji_conversion_limits_and_dedups() {
    let engine = kanji_engine();
    assert_eq!(
        engine.run_kana_kanji_conversion("かんじ", 9),
        strings(&["漢字", "感じ", "幹事", "かんじかんじ"])
    );
    // Nothing was recorded for another reading or another number of candidates.
    assert!(engine.run_kana_kanji_conversion("かんじ", 3).is_empty());
    assert!(engine.run_kana_kanji_conversion("あ", 9).is_empty());
    assert!(InputMethodEngine::new().run_kana_kanji_conversion("かんじ", 9).is_empty());
}

#[test]
fn test_conversion_strategies() {
    let mut engine = InputMethodEngine::new();
    engine.converters.kanji = Some(KanjiConverter {
        context: String::new(),
        outputs: vec![
            model_output(1, ConversionStrategy::MainModelOnly, &["蚊", "可"], None),
            model_output(2, ConversionStrategy::LightModelOnly, &["蚊"], Some(&["化", "課"])),
            model_output(3, ConversionStrategy::MainModelBeam { beam_width: 2 }, &["蚊", "可", "価"], None),
            model_output(4, ConversionStrategy::ParallelBeam { beam_width: 2 }, &["蚊", "可"], Some(&["蚊", "課", "価"])),
            model_output(5, ConversionStrategy::ParallelBeam { beam_width: 3 }, &["蚊"], None),
            model_output(6, ConversionStrategy::LightModelOnly, &["蚊"], None),
        ],
    });
    assert_eq!(engine.run_kana_kanji_conversion("か", 1), strings(&["蚊"]));
    assert_eq!(engine.run_kana_kanji_conversion("か", 2), strings(&["化"]));
    assert_eq!(engine.run_kana_kanji_conversion("か", 3), strings(&["蚊", "可"]));
    assert_eq!(engine.run_kana_kanji_conversion("か", 4), strings(&["蚊", "課"]));
    assert!(engine.run_kana_kanji_conversion("か", 5).is_empty());
    assert!(engine.run_kana_kanji_conversion("か", 6).is_empty());
}

#[test]
fn test_navigation_wraps_and_escape_restores() {
    let mut engine = kanji_engine();
    type_str(&mut engine, "kanji");
    engine.process_key(&press_key(Keysym::SPACE));
    engine.process_key(&press_key(Keysym::UP));
    assert_eq!(preedit_text(&engine), "カンジ");
    engine.process_key(&press_key(Keysym::DOWN));
    assert_eq!(preedit_text(&engine), "漢字");
    let r = engine.process_key(&press_key(Keysym::ESCAPE));
    assert!(commits(&r).is_empty());
    assert!(matches!(engine.state(), InputState::Composing { .. }));
    assert_eq!(preedit_text(&engine), "かんじ");
}

#[test]
fn test_digit_selects_on_page() {
    let mut engine = kanji_engine();
    type_str(&mut engine, "kanji");
    engine.process_key(&press_key(Keysym::SPACE));
    let r = engine.process_key(&press('3'));
    assert_eq!(commits(&r), strings(&["幹事"]));
    assert!(matches!(engine.state(), InputState::Empty));
}

#[test]
fn test_digit_beyond_candidates_is_absorbed() {
    let mut engine = InputMethodEngine::new();
    type_str(&mut engine, "aiu");
    engine.process_key(&press_key(Keysym::SPACE));
    let r = engine.process_key(&press('5'));
    assert!(r.consumed);
    assert!(commits(&r).is_empty());
    assert!(matches!(engine.state(), InputState::Conversion { .. }));
}

#[test]
fn test_selection_conversion_bakes_back() {
    let mut engine = kanji_engine();
    type_str(&mut engine, "akanji");
    assert_eq!(preedit_text(&engine), "あかんじ");
    for _ in 0..3 {
        engine.process_key(&press_shift_key(Keysym::LEFT));
    }
    engine.process_key(&press_key(Keysym::SPACE));
    assert_eq!(candidate_texts(&engine)[0], "漢字");
    let r = engine.process_key(&press_key(Keysym::RETURN));
    assert!(commits(&r).is_empty());
    assert!(matches!(engine.state(), InputState::Composing { .. }));
    assert_eq!(preedit_text(&engine), "あ漢字");
    let r = engine.process_key(&press_key(Keysym::RETURN));
    assert_eq!(commits(&r), strings(&["あ漢字"]));
}

#[test]
fn test_reset_commits_selected_candidate() {
    let mut engine = kanji_engine();
    type_str(&mut engine, "kanji");
    engine.process_key(&press_key(Keysym::SPACE));
    engine.process_key(&press_key(Keysym::SPACE));
    let r = engine.reset();
    assert_eq!(commits(&r), strings(&["感じ"]));
    assert!(matches!(engine.state(), InputState::Empty));
}

#[test]
fn test_learned_choice_comes_first() {
    let mut engine = kanji_engine();
    engine.learning = Some(LearningCache::new());
    type_str(&mut engine, "kanji");
    engine.process_key(&press_key(Keysym::SPACE));
    engine.process_key(&press_key(Keysym::SPACE));
    let r = engine.process_key(&press_key(Keysym::RETURN));
    assert_eq!(commits(&r), strings(&["感じ"]));

    type_str(&mut engine, "kanji");
    engine.process_key(&press_key(Keysym::SPACE));
    assert_eq!(
        candidate_texts(&engine),
        strings(&["感じ", "漢字", "幹事", "かんじ", "カンジ"])
    );
    match engine.state() {
        InputState::Conversion { candidates, .. } => {
            assert_eq!(candidates.candidates()[0].annotation.as_deref(), Some("学習"));
        }
        _ => panic!("expected conversion"),
    }
}

#[test]
fn test_dictionary_candidates_in_priority_order() {
    let mut engine = kanji_engine();
    engine.dicts.system = Some(Dictionary::new(vec![
        entry("かんじ", "幹事", 5),
        entry("かんじ", "監事", 1),
        entry("かんじ", "完治", 3),
        entry("かな", "仮名", 1),
    ]));
    engine.dicts.user = Some(Dictionary::new(vec![entry("かんじ", "感じ", 0), entry("かんじ", "換字", 0)]));
    let found: Vec<String> = engine.search_dictionaries("かんじ", 10).iter().map(|c| c.text.clone()).collect();
    assert_eq!(found, strings(&["感じ", "換字", "監事", "完治", "幹事"]));
    let limited: Vec<String> = engine.search_dictionaries("かんじ", 2).iter().map(|c| c.text.clone()).collect();
    assert_eq!(limited, strings(&["感じ", "換字"]));

    type_str(&mut engine, "kanji");
    engine.process_key(&press_key(Keysym::SPACE));
    // User dictionary, then model, then system dictionary, then the fallbacks.
    assert_eq!(
        candidate_texts(&engine),
        strings(&["感じ", "換字", "漢字", "幹事", "監事", "完治", "かんじ", "カンジ"])
    );
    match engine.state() {
        InputState::Conversion { candidates, .. } => {
            assert_eq!(candidates.candidates()[0].annotation.as_deref(), Some("ユーザー辞書"));
            assert_eq!(candidates.candidates()[2].annotation, None);
            assert_eq!(candidates.candidates()[4].annotation.as_deref(), Some("辞書"));
        }
        _ => panic!("expected conversion"),
    }
}

#[test]
fn test_digits_in_reading_offer_kanji_numerals() {
    let engine = kanji_engine();
    let texts: Vec<String> = engine.build_conversion_candidates("A12", 9).iter().map(|c| c.text.clone()).collect();
    assert_eq!(texts, strings(&["A12", "A一二"]));
}

// ---------------------------------------------------------------------------
// Building blocks
// ---------------------------------------------------------------------------

#[test]
fn test_sort_entries_by_score_is_stable() {
    let sorted = sort_entries_by_score(vec![
        entry("a", "x", 3),
        entry("a", "y", 1),
        entry("a", "z", 3),
        entry("a", "w", -2),
    ]);
    let surfaces: Vec<&str> = sorted.iter().map(|e| e.surface.as_str()).collect();
    assert_eq!(surfaces, vec!["w", "y", "x", "z"]);
}

#[test]
fn test_merge_candidates_dedup() {
    let merged = InputMethodEngine::merge_candidates_dedup(strings(&["a", "b"]), strings(&["b", "c", "d"]), 3);
    assert_eq!(merged, strings(&["a", "b", "c"]));
    let merged = InputMethodEngine::merge_candidates_dedup(strings(&["a", "a"]), strings(&[]), 5);
    assert_eq!(merged, strings(&["a"]));
    assert!(InputMethodEngine::merge_candidates_dedup(strings(&["a"]), strings(&["b"]), 0).is_empty());
}

#[test]
fn test_candidate_list_navigation() {
    let cands: Vec<Candidate> = (0..12).map(|i| Candidate::with_reading(&i.to_string(), "r")).collect();
    let mut list = CandidateList::new(cands);
    assert_eq!(list.selected_index(), 0);
    list.move_prev();
    assert_eq!(list.selected_index(), 11);
    list.move_next();
    assert_eq!(list.selected_index(), 0);
    list.next_page();
    assert_eq!(list.selected_index(), 9);
    assert_eq!(list.select_on_page(3), Some(11));
    assert_eq!(list.select_on_page(4), None);
    assert_eq!(list.selected_index(), 11);
    list.prev_page();
    assert_eq!(list.selected_index(), 0);
    assert_eq!(list.selected_text(), Some("0"));
}

#[test]
fn test_learning_cache_most_recent_first() {
    let mut cache = LearningCache::new();
    cache.record("かんじ", "漢字");
    cache.record("かんじ", "感じ");
    cache.record("かんじょう", "感情");
    assert_eq!(cache.lookup("かんじ"), strings(&["感じ", "漢字"]));
    cache.record("かんじ", "漢字");
    assert_eq!(cache.lookup("かんじ"), strings(&["漢字", "感じ"]));
    let prefixed: Vec<(String, String)> = cache.prefix_lookup("かんじ");
    assert_eq!(
        prefixed,
        vec![
            ("かんじ".to_string(), "漢字".to_string()),
            ("かんじょう".to_string(), "感情".to_string()),
            ("かんじ".to_string(), "感じ".to_string()),
        ]
    );
    assert!(cache.lookup("かな").is_empty());
}

#[test]
fn test_romaji_converter_push_and_flush() {
    let mut r = RomajiConverter::new();
    assert_eq!(r.push('k'), "");
    assert_eq!(r.buffer(), "k");
    assert_eq!(r.push('a'), "か");
    assert_eq!(r.buffer(), "");
    assert_eq!(r.push('n'), "");
    assert_eq!(r.flush(), "ん");
    assert_eq!(r.output(), "かん");
    assert_eq!(r.raw_input(), "kan");
    r.push('s');
    r.backspace();
    assert_eq!(r.buffer(), "");
    assert_eq!(r.raw_input(), "kan");
}

#[test]
fn test_lookup_learning_candidates_exact_then_prefix() {
    let mut engine = InputMethodEngine::new();
    let mut cache = LearningCache::new();
    cache.record("かんじょう", "感情");
    cache.record("かんじ", "漢字");
    engine.learning = Some(cache);
    let found = engine.lookup_learning_candidates("かんじ");
    let texts: Vec<&str> = found.iter().map(|c| c.text.as_str()).collect();
    assert_eq!(texts, vec!["漢字", "感情"]);
    assert_eq!(found[0].reading.as_deref(), Some("かんじ"));
    assert_eq!(found[1].reading.as_deref(), Some("かんじょう"));
    assert_eq!(found[1].annotation.as_deref(), Some("学習"));
    assert_eq!(found[1].index, 1);
    let exact: Vec<String> = engine.lookup_learning_exact("かんじ").iter().map(|c| c.text.clone()).collect();
    assert_eq!(exact, strings(&["漢字"]));
    assert!(InputMethodEngine::new().lookup_learning_candidates("かんじ").is_empty());
}

#[test]
fn test_lookup_dict_candidates_one_page() {
    let mut engine = InputMethodEngine::new();
    engine.dicts.system = Some(Dictionary::new(
        (0..12).map(|i| entry("か", &format!("蚊{}", i), 12 - i)).collect(),
    ));
    engine.dicts.user = Some(Dictionary::new(vec![entry("か", "可", 0)]));
    let found = engine.lookup_dict_candidates("か");
    assert_eq!(found.len(), 9);
    assert_eq!(found[0].text, "可");
    assert_eq!(found[0].annotation.as_deref(), Some("ユーザー辞書"));
    assert_eq!(found[1].text, "蚊11");
    assert_eq!(found[1].annotation.as_deref(), Some("辞書"));
    assert_eq!(found[8].text, "蚊4");
    assert_eq!(found[8].reading.as_deref(), Some("か"));
    assert_eq!(found[8].index, 8);
}

#[test]
fn test_symbols_become_fullwidth_in_hiragana_mode() {
    let mut engine = InputMethodEngine::new();
    type_str(&mut engine, "#(ka)@<>");
    assert_eq!(preedit_text(&engine), "＃（か）＠＜＞");
    let mut engine = InputMethodEngine::new();
    type_str(&mut engine, "n?");
    assert_eq!(preedit_text(&engine), "ん？");
}

#[test]
fn test_trailing_n_becomes_n_kana_on_conversion() {
    let mut engine = InputMethodEngine::new();
    type_str(&mut engine, "hon");
    engine.process_key(&press_key(Keysym::SPACE));
    assert_eq!(candidate_texts(&engine), strings(&["ほん"]));
}

#[test]
fn test_hiragana_mode_returns_after_commit() {
    let mut engine = InputMethodEngine::new();
    engine.process_key(&KeyEvent::new(Keysym::from_char('A'), KeyModifiers::new().with_shift(true), true));
    let r = engine.process_key(&press_key(Keysym::RETURN));
    assert_eq!(commits(&r), strings(&["A"]));
    type_str(&mut engine, "a");
    assert_eq!(preedit_text(&engine), "あ");
}

#[test]
fn test_ctrl_delete_forgets_learned_choice() {
    let mut engine = kanji_engine();
    engine.learning = Some(LearningCache::new());
    type_str(&mut engine, "kanji");
    engine.process_key(&press_key(Keysym::SPACE));
    engine.process_key(&press_key(Keysym::SPACE));
    engine.process_key(&press_key(Keysym::RETURN));

    type_str(&mut engine, "kanji");
    engine.process_key(&press_key(Keysym::SPACE));
    assert_eq!(candidate_texts(&engine)[0], "感じ");
    let r = engine.process_key(&KeyEvent::new(Keysym::DELETE, KeyModifiers::new().with_control(true), true));
    assert!(r.consumed);
    assert!(matches!(engine.state(), InputState::Conversion { .. }));
    assert!(engine.learning.as_ref().unwrap().lookup("かんじ").is_empty());

    engine.process_key(&press_key(Keysym::ESCAPE));
    engine.process_key(&press_key(Keysym::SPACE));
    assert_eq!(
        candidate_texts(&engine),
        strings(&["漢字", "感じ", "幹事", "かんじ", "カンジ"])
    );
}

#[test]
fn test_alt_keys_pass_through() {
    let mut engine = InputMethodEngine::new();
    let r = engine.process_key(&KeyEvent::new(Keysym::from_char('a'), KeyModifiers::new().with_alt(true), true));
    assert!(!r.consumed);
    assert!(matches!(engine.state(), InputState::Empty));
    type_str(&mut engine, "a");
    let r = engine.process_key(&KeyEvent::new(Keysym::from_char('b'), KeyModifiers::new().with_alt(true), true));
    assert!(!r.consumed);
    assert_eq!(preedit_text(&engine), "あ");
}

#[test]
fn test_preedit_constructors() {
    let p = Preedit::with_text_underlined("かな");
    assert_eq!(p.text(), "かな");
    assert_eq!(p.caret(), 2);
    assert_eq!(p.attributes().len(), 1);
    assert_eq!(p.attributes()[0].start, 0);
    assert_eq!(p.attributes()[0].end, 2);
    assert!(matches!(p.attributes()[0].attr_type, AttributeType::Underline));
    let h = Preedit::highlighted("漢字");
    assert!(matches!(h.attributes()[0].attr_type, AttributeType::Highlight));
    assert_eq!(h.caret(), 2);
}

#[test]
fn test_selection_preedit_highlights_range() {
    let mut engine = InputMethodEngine::new();
    type_str(&mut engine, "aiu");
    engine.process_key(&press_shift_key(Keysym::LEFT));
    engine.process_key(&press_shift_key(Keysym::LEFT));
    let p = engine.preedit().unwrap();
    assert_eq!(p.attributes().len(), 2);
    assert_eq!((p.attributes()[1].start, p.attributes()[1].end), (1, 3));
    assert!(matches!(p.attributes()[1].attr_type, AttributeType::Highlight));
    assert_eq!(p.caret(), 1);
}

#[test]
fn test_enter_conversion_with_no_candidate_shows_reading() {
    let mut engine = InputMethodEngine::new();
    let r = engine.enter_conversion_state("かな", CandidateList::new(Vec::new()));
    assert!(r.consumed);
    assert!(matches!(engine.state(), InputState::Conversion { .. }));
    assert_eq!(preedit_text(&engine), "かな");
}

#[test]
fn test_move_caret_after_flush_of_pending_romaji() {
    let mut engine = InputMethodEngine::new();
    type_str(&mut engine, "kan");
    assert_eq!(preedit_text(&engine), "かn");
    // The pending "n" becomes ん first, so position 2 is the end of the text.
    engine.move_caret(2);
    assert_eq!(preedit_text(&engine), "かん");
    assert_eq!(engine.preedit().unwrap().caret(), 2);
}

#[test]
fn test_model_output_depends_on_context() {
    let mut engine = InputMethodEngine::new();
    let mut a = model_output(1, ConversionStrategy::MainModelOnly, &["蚊"], None);
    a.context = "夏の".to_string();
    let mut b = model_output(1, ConversionStrategy::MainModelOnly, &["課"], None);
    b.context = "会社の".to_string();
    engine.converters.kanji = Some(KanjiConverter { context: "会社の".to_string(), outputs: vec![a, b] });
    assert_eq!(engine.run_kana_kanji_conversion("か", 1), strings(&["課"]));
    engine.converters.kanji.as_mut().unwrap().context = "夏の".to_string();
    assert_eq!(engine.run_kana_kanji_conversion("か", 1), strings(&["蚊"]));
    engine.converters.kanji.as_mut().unwrap().context = "冬の".to_string();
    assert!(engine.run_kana_kanji_conversion("か", 1).is_empty());
}

#[test]
fn test_conversion_aux_text_shows_position() {
    let mut engine = kanji_engine();
    engine.config.candidate_window_threshold = 0;
    type_str(&mut engine, "kanji");
    let r = engine.process_key(&press_key(Keysym::SPACE));
    let aux: Vec<String> = r
        .actions
        .iter()
        .filter_map(|a| match a {
            EngineAction::UpdateAuxText(t) => Some(t.clone()),
            _ => None,
        })
        .collect();
    assert_eq!(aux, strings(&["かんじ (1/5)"]));
    let r = engine.process_key(&press_key(Keysym::DOWN));
    let aux: Vec<String> = r
        .actions
        .iter()
        .filter_map(|a| match a {
            EngineAction::UpdateAuxText(t) => Some(t.clone()),
            _ => None,
        })
        .collect();
    assert_eq!(aux, strings(&["かんじ (2/5)"]));
}

#[test]
fn test_fresh_engine_is_clean() {
    let mut engine = InputMethodEngine::new();
    engine.config.auto_suggest = false;
    type_str(&mut engine, "aiueo");
    engine.process_key(&press_key(Keysym::SPACE));
    assert_eq!(candidate_texts(&engine), strings(&["あいうえお"]));
}
