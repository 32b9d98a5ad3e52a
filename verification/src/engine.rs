//! The input method engine: its state, its abstract view, and the shared
//! helpers that move it between the empty, composing and conversion states.
use vstd::prelude::*;
use crate::candidate::{list_wf, str_views, CandidateList, CandidateListView};
use crate::dictionary::{DictEntryView, Dictionaries};
use crate::input_buffer::{insert_at, spec_selection, InputBuffer};
use crate::learning::LearningCache;
use crate::preedit::{
    empty_preedit, AttributeType, Preedit, PreeditAttribute, PreeditView,
};
use crate::romaji::{flushed, RomajiConverter, RomajiView};
use crate::text::{char_count, concat3, decimal, decimal_string, push_char, substring};

verus! {

/// Whether typed letters go through romaji conversion or are taken literally.
#[derive(Clone, Copy, Debug, PartialEq, Eq, Structural)]
pub enum InputMode {
    Hiragana,
    Alphabet,
}

/// The engine's state.
#[derive(Debug)]
pub enum InputState {
    /// Nothing is being composed.
    Empty,
    /// Text is being typed.
    Composing { preedit: Preedit, romaji_buffer: String },
    /// A reading is being converted and a candidate is selected.
    Conversion { preedit: Preedit, candidates: CandidateList },
}

/// What the host has to do after a key.
#[derive(Debug)]
pub enum EngineAction {
    UpdatePreedit(Preedit),
    Commit(String),
    ShowCandidates(CandidateList),
    HideCandidates,
    UpdateAuxText(String),
    HideAuxText,
}

/// Whether the key was consumed, and the actions for the host, in order.
#[derive(Debug)]
pub struct EngineResult {
    pub consumed: bool,
    pub actions: Vec<EngineAction>,
}

/// Settings of the engine.
#[derive(Clone, Copy, Debug)]
pub struct EngineConfig {
    /// Compute a suggestion while typing.
    pub auto_suggest: bool,
    /// Number of model candidates asked for on explicit conversion.
    pub num_candidates: usize,
    /// Number of conversion key presses before the candidate window shows (0 = always).
    pub candidate_window_threshold: usize,
}

/// The suggestion computed while typing.
#[derive(Debug)]
pub struct LiveConversion {
    pub text: String,
}

/// How the models were run for a reading: the main model's best candidate
/// merged with the light model's beam, the light model's best candidate
/// alone, the main model's best candidate alone, or the main model's beam.
#[derive(Clone, Copy, Debug, PartialEq, Eq, Structural)]
pub enum ConversionStrategy {
    ParallelBeam { beam_width: usize },
    LightModelOnly,
    MainModelOnly,
    MainModelBeam { beam_width: usize },
}

/// What the neural kana-kanji models produced for one katakana reading,
/// given the surrounding `context`, when `num_candidates` candidates were
/// asked for: the strategy chosen for that
/// request, the main model's candidates (best first) and the light model's
/// candidates (best first; `None` when no light model is loaded).
#[derive(Debug)]
pub struct ModelOutput {
    pub reading: String,
    pub context: String,
    pub num_candidates: usize,
    pub strategy: ConversionStrategy,
    pub main: Vec<String>,
    pub light: Option<Vec<String>>,
}

/// The kana-kanji converter.  The neural models run outside this library;
/// their outputs are handed in by the host, one per reading, context and
/// number of candidates asked for.
#[derive(Debug)]
pub struct KanjiConverter {
    /// The surrounding text the models are given with a reading, as the host
    /// prepared it for them.
    pub context: String,
    pub outputs: Vec<ModelOutput>,
}

/// The converters the engine works with.
#[derive(Debug)]
pub struct Converters {
    pub romaji: RomajiConverter,
    pub kanji: Option<KanjiConverter>,
}

/// The input method engine.
#[derive(Debug)]
pub struct InputMethodEngine {
    pub state: InputState,
    pub input_buf: InputBuffer,
    pub converters: Converters,
    pub live: LiveConversion,
    /// Text before and after the selection while a selection is converted.
    pub remaining_after_conversion: Option<(String, String)>,
    pub config: EngineConfig,
    /// Conversion key presses since the conversion started.
    pub conversion_space_count: usize,
    pub learning: Option<LearningCache>,
    pub dicts: Dictionaries,
    pub input_mode: InputMode,
}

// ---------------------------------------------------------------------------
// Abstract views
// ---------------------------------------------------------------------------

pub enum StateView {
    Empty,
    Composing { preedit: PreeditView, romaji_buffer: Seq<char> },
    Conversion { preedit: PreeditView, candidates: CandidateListView },
}

impl View for InputState {
    type V = StateView;

    open spec fn view(&self) -> StateView {
        match self {
            InputState::Empty => StateView::Empty,
            InputState::Composing { preedit, romaji_buffer } => StateView::Composing {
                preedit: preedit@,
                romaji_buffer: romaji_buffer@,
            },
            InputState::Conversion { preedit, candidates } => StateView::Conversion {
                preedit: preedit@,
                candidates: candidates@,
            },
        }
    }
}

pub enum ActionView {
    UpdatePreedit(PreeditView),
    Commit(Seq<char>),
    ShowCandidates(CandidateListView),
    HideCandidates,
    UpdateAuxText(Seq<char>),
    HideAuxText,
}

impl View for EngineAction {
    type V = ActionView;

    open spec fn view(&self) -> ActionView {
        match self {
            EngineAction::UpdatePreedit(p) => ActionView::UpdatePreedit(p@),
            EngineAction::Commit(s) => ActionView::Commit(s@),
            EngineAction::ShowCandidates(c) => ActionView::ShowCandidates(c@),
            EngineAction::HideCandidates => ActionView::HideCandidates,
            EngineAction::UpdateAuxText(s) => ActionView::UpdateAuxText(s@),
            EngineAction::HideAuxText => ActionView::HideAuxText,
        }
    }
}

pub struct ResultView {
    pub consumed: bool,
    pub actions: Seq<ActionView>,
}

impl View for EngineResult {
    type V = ResultView;

    open spec fn view(&self) -> ResultView {
        ResultView { consumed: self.consumed, actions: self.actions@.map_values(|a: EngineAction| a@) }
    }
}

pub struct ModelOutputView {
    pub reading: Seq<char>,
    pub context: Seq<char>,
    pub num_candidates: nat,
    pub strategy: ConversionStrategy,
    pub main: Seq<Seq<char>>,
    pub light: Option<Seq<Seq<char>>>,
}

pub open spec fn opt_strs_view(o: Option<Vec<String>>) -> Option<Seq<Seq<char>>> {
    match o {
        Some(v) => Some(str_views(v@)),
        None => None,
    }
}

/// The view of the kana-kanji converter: the current context and the recorded outputs.
pub struct KanjiView {
    pub context: Seq<char>,
    pub outputs: Seq<ModelOutputView>,
}

pub open spec fn model_views(s: Seq<ModelOutput>) -> Seq<ModelOutputView> {
    s.map_values(
        |m: ModelOutput| ModelOutputView {
            reading: m.reading@,
            context: m.context@,
            num_candidates: m.num_candidates as nat,
            strategy: m.strategy,
            main: str_views(m.main@),
            light: opt_strs_view(m.light),
        },
    )
}

pub open spec fn opt_pair_view(o: Option<(String, String)>) -> Option<(Seq<char>, Seq<char>)> {
    match o {
        Some((a, b)) => Some((a@, b@)),
        None => None,
    }
}

/// Everything the engine's behaviour depends on, as mathematical values.
pub struct EngineView {
    pub state: StateView,
    pub text: Seq<char>,
    pub cursor: nat,
    pub anchor: Option<usize>,
    pub romaji: RomajiView,
    pub kanji: Option<KanjiView>,
    pub live: Seq<char>,
    pub remaining: Option<(Seq<char>, Seq<char>)>,
    pub config: EngineConfig,
    pub space_count: nat,
    pub learning: Option<Seq<(Seq<char>, Seq<char>)>>,
    pub user_dict: Option<Seq<DictEntryView>>,
    pub system_dict: Option<Seq<DictEntryView>>,
    pub mode: InputMode,
}

impl View for InputMethodEngine {
    type V = EngineView;

    open spec fn view(&self) -> EngineView {
        EngineView {
            state: self.state@,
            text: self.input_buf.text@,
            cursor: self.input_buf.cursor_pos as nat,
            anchor: self.input_buf.selection_anchor,
            romaji: self.converters.romaji@,
            kanji: match self.converters.kanji {
                Some(k) => Some(KanjiView { context: k.context@, outputs: model_views(k.outputs@) }),
                None => None,
            },
            live: self.live.text@,
            remaining: opt_pair_view(self.remaining_after_conversion),
            config: self.config,
            space_count: self.conversion_space_count as nat,
            learning: match self.learning {
                Some(c) => Some(c@),
                None => None,
            },
            user_dict: match self.dicts.user {
                Some(d) => Some(d@),
                None => None,
            },
            system_dict: match self.dicts.system {
                Some(d) => Some(d@),
                None => None,
            },
            mode: self.input_mode,
        }
    }
}

/// Caret and anchor lie within the composed text.
pub open spec fn caret_wf(e: EngineView) -> bool {
    &&& e.cursor <= e.text.len()
    &&& (e.anchor matches Some(a) ==> a <= e.text.len())
}

/// The engine's invariant: caret and anchor within the text, and a non-empty
/// candidate list with a valid selection while converting.
pub open spec fn engine_wf(e: EngineView) -> bool {
    &&& caret_wf(e)
    &&& (e.state matches StateView::Conversion { candidates, .. } ==> list_wf(candidates)
        && candidates.candidates.len() > 0 && e.anchor is None)
}

/// The text shown while composing: the composed text with the pending romaji at the caret.
pub open spec fn composing_text(e: EngineView) -> Seq<char> {
    insert_at(e.text, e.cursor as int, e.romaji.buffer)
}

/// Preedit while composing: composing text, caret after the pending romaji,
/// underlined, with the selection (if any) highlighted.
pub open spec fn composing_preedit(e: EngineView) -> PreeditView {
    let t = composing_text(e);
    PreeditView {
        text: t,
        caret: e.cursor + e.romaji.buffer.len(),
        attributes: match spec_selection(e.anchor, e.cursor as usize) {
            Some((s, x)) => seq![
                PreeditAttribute { start: 0, end: t.len() as usize, attr_type: AttributeType::Underline },
                PreeditAttribute { start: s, end: x, attr_type: AttributeType::Highlight },
            ],
            None => seq![
                PreeditAttribute { start: 0, end: t.len() as usize, attr_type: AttributeType::Underline },
            ],
        },
    }
}

/// The actions that close the preedit, the candidate window and the aux text.
pub open spec fn clear_actions() -> Seq<ActionView> {
    seq![
        ActionView::UpdatePreedit(empty_preedit()),
        ActionView::HideCandidates,
        ActionView::HideAuxText,
    ]
}

/// Aux text while converting: the reading and, when there are candidates,
/// the selected one's position among them, as in `かんじ (2/5)`.
pub open spec fn conversion_aux(reading: Seq<char>, l: CandidateListView) -> Seq<char> {
    if l.candidates.len() == 0 {
        reading
    } else {
        reading + seq![' ', '('] + decimal(l.selected + 1) + seq!['/'] + decimal(l.candidates.len()) + seq![')']
    }
}

/// The empty engine state, with the setup and learning of `e`.
pub open spec fn emptied(e: EngineView) -> EngineView {
    EngineView {
        state: StateView::Empty,
        text: Seq::empty(),
        cursor: 0,
        anchor: None,
        romaji: RomajiView { buffer: Seq::empty(), output: Seq::empty(), raw: Seq::empty() },
        live: Seq::empty(),
        remaining: None,
        mode: InputMode::Hiragana,
        ..e
    }
}

impl EngineResult {
    pub fn consumed() -> (r: EngineResult)
        ensures
            r@ == (ResultView { consumed: true, actions: Seq::empty() }),
    {
        let r = EngineResult { consumed: true, actions: Vec::new() };
        assert(r@.actions =~= Seq::<ActionView>::empty());
        r
    }

    pub fn not_consumed() -> (r: EngineResult)
        ensures
            r@ == (ResultView { consumed: false, actions: Seq::empty() }),
    {
        let r = EngineResult { consumed: false, actions: Vec::new() };
        assert(r@.actions =~= Seq::<ActionView>::empty());
        r
    }

    pub fn with_action(self, a: EngineAction) -> (r: EngineResult)
        ensures
            r@ == (ResultView { consumed: self@.consumed, actions: self@.actions.push(a@) }),
    {
        let ghost av = a@;
        let mut actions = self.actions;
        actions.push(a);
        let r = EngineResult { consumed: self.consumed, actions };
        assert(r@.actions =~= self@.actions.push(av));
        r
    }

    /// The result of closing everything: empty preedit, hidden candidate window and aux text.
    pub fn cleared() -> (r: EngineResult)
        ensures
            r@ == (ResultView { consumed: true, actions: clear_actions() }),
    {
        let r = EngineResult::consumed()
            .with_action(EngineAction::UpdatePreedit(Preedit::new()))
            .with_action(EngineAction::HideCandidates)
            .with_action(EngineAction::HideAuxText);
        assert(r@.actions =~= clear_actions());
        r
    }
}

impl InputMethodEngine {
    /// A fresh engine: empty, hiragana mode, no model, no learning cache, no dictionaries.
    pub fn new() -> (e: InputMethodEngine)
        ensures
            engine_wf(e@),
            e@.state == StateView::Empty,
            e@.text == Seq::<char>::empty(),
            e@.cursor == 0,
            e@.anchor is None,
            e@.kanji is None,
            e@.learning is None,
            e@.user_dict is None,
            e@.system_dict is None,
            e@.remaining is None,
            e@.mode == InputMode::Hiragana,
            e@.romaji == (RomajiView { buffer: Seq::empty(), output: Seq::empty(), raw: Seq::empty() }),
            e@.live == Seq::<char>::empty(),
            e@.space_count == 0,
            e@.config == (EngineConfig {
                auto_suggest: true,
                num_candidates: 9,
                candidate_window_threshold: 3,
            }),
    {
        InputMethodEngine {
            state: InputState::Empty,
            input_buf: InputBuffer::new(),
            converters: Converters { romaji: RomajiConverter::new(), kanji: None },
            live: LiveConversion { text: String::new() },
            remaining_after_conversion: None,
            config: EngineConfig { auto_suggest: true, num_candidates: 9, candidate_window_threshold: 3 },
            conversion_space_count: 0,
            learning: None,
            dicts: Dictionaries { user: None, system: None },
            input_mode: InputMode::Hiragana,
        }
    }

    pub fn state(&self) -> (s: &InputState)
        ensures
            s@ == self@.state,
    {
        &self.state
    }

    /// The preedit while composing or converting.
    pub fn preedit(&self) -> (p: Option<&Preedit>)
        ensures
            match self@.state {
                StateView::Empty => p is None,
                StateView::Composing { preedit, .. } => p matches Some(q) && q@ == preedit,
                StateView::Conversion { preedit, .. } => p matches Some(q) && q@ == preedit,
            },
    {
        match &self.state {
            InputState::Empty => None,
            InputState::Composing { preedit, .. } => Some(preedit),
            InputState::Conversion { preedit, .. } => Some(preedit),
        }
    }

    /// Return to the empty state: no text, caret, selection, suggestion,
    /// pending romaji or partial-conversion remainder, and hiragana mode.
    pub fn enter_empty_state(&mut self)
        ensures
            final(self)@ == emptied(old(self)@),
    {
        self.state = InputState::Empty;
        self.input_buf.clear();
        self.live.text = String::new();
        self.converters.romaji.reset();
        self.remaining_after_conversion = None;
        self.input_mode = InputMode::Hiragana;
    }

    /// Move pending romaji into the composed text at the caret.
    pub fn flush_romaji_to_composed(&mut self)
        requires
            engine_wf(old(self)@),
        ensures
            engine_wf(final(self)@),
            final(self)@ == (if flushed(old(self)@.romaji.buffer).len() == 0 {
                EngineView {
                    romaji: RomajiView { buffer: Seq::empty(), ..old(self)@.romaji },
                    ..old(self)@
                }
            } else {
                EngineView {
                    text: insert_at(old(self)@.text, old(self)@.cursor as int, flushed(old(self)@.romaji.buffer)),
                    cursor: old(self)@.cursor + flushed(old(self)@.romaji.buffer).len(),
                    anchor: None,
                    romaji: RomajiView {
                        buffer: Seq::empty(),
                        output: old(self)@.romaji.output + flushed(old(self)@.romaji.buffer),
                        ..old(self)@.romaji
                    },
                    ..old(self)@
                }
            }),
    {
        let out = self.converters.romaji.flush();
        if char_count(out.as_str()) > 0 {
            self.input_buf.insert_at_cursor(out.as_str());
        } else {
            assert(out@ =~= Seq::<char>::empty());
            assert(self.converters.romaji@.output =~= old(self).converters.romaji@.output);
        }
    }

    /// The preedit for the composing state.
    pub fn composing_preedit(&self) -> (p: Preedit)
        requires
            caret_wf(self@),
        ensures
            p@ == composing_preedit(self@),
    {
        let n = self.input_buf.char_len();
        let before = substring(self.input_buf.text.as_str(), 0, self.input_buf.cursor_pos);
        let after = substring(self.input_buf.text.as_str(), self.input_buf.cursor_pos, n);
        let text = concat3(before.as_str(), self.converters.romaji.buffer(), after.as_str());
        let total = char_count(text.as_str());
        let caret = char_count(before.as_str()) + char_count(self.converters.romaji.buffer());
        let mut attributes = Vec::new();
        attributes.push(PreeditAttribute::new(0, total, AttributeType::Underline));
        match self.input_buf.selection_range() {
            Some((s, x)) => attributes.push(PreeditAttribute::new(s, x, AttributeType::Highlight)),
            None => {},
        }
        let p = Preedit::from_parts(text, caret, attributes);
        assert(p@.attributes =~= composing_preedit(self@).attributes);
        assert(p@.text =~= composing_preedit(self@).text);
        p
    }

    /// Enter (or refresh) the composing state; returns its preedit.
    pub fn set_composing_state(&mut self) -> (p: Preedit)
        requires
            caret_wf(old(self)@),
        ensures
            engine_wf(final(self)@),
            p@ == composing_preedit(old(self)@),
            final(self)@ == (EngineView {
                state: StateView::Composing {
                    preedit: composing_preedit(old(self)@),
                    romaji_buffer: old(self)@.romaji.buffer,
                },
                ..old(self)@
            }),
    {
        let p = self.composing_preedit();
        let buffer = self.converters.romaji.buffer().to_owned();
        self.state = InputState::Composing { preedit: p.duplicate(), romaji_buffer: buffer };
        p
    }

    /// Aux text while composing: the suggestion computed while typing.
    pub fn format_aux_composing(&self) -> (s: String)
        ensures
            s@ == self@.live,
    {
        self.live.text.clone()
    }

    /// Aux text while converting: the reading, followed by the selected
    /// candidate's position among them when there are candidates.
    pub fn format_aux_conversion_with_page(&self, reading: &str, candidates: Option<&CandidateList>) -> (s: String)
        requires
            candidates matches Some(c) ==> c.wf(),
        ensures
            s@ == (match candidates {
                Some(c) => conversion_aux(reading@, c@),
                None => reading@,
            }),
    {
        match candidates {
            Some(c) => {
                let n = c.len();
                if n == 0 {
                    return reading.to_owned();
                }
                let mut s = reading.to_owned();
                push_char(&mut s, ' ');
                push_char(&mut s, '(');
                let pos = decimal_string(c.selected_index() + 1);
                s.append(pos.as_str());
                push_char(&mut s, '/');
                let total = decimal_string(n);
                s.append(total.as_str());
                push_char(&mut s, ')');
                assert(s@ =~= conversion_aux(reading@, c@));
                s
            },
            None => reading.to_owned(),
        }
    }

    /// Go back to the empty state if neither composed text nor pending romaji is left.
    pub fn try_reset_if_empty(&mut self) -> (r: Option<EngineResult>)
        requires
            engine_wf(old(self)@),
        ensures
            engine_wf(final(self)@),
            (old(self)@.text.len() == 0 && old(self)@.romaji.buffer.len() == 0) ==> {
                &&& final(self)@ == emptied(old(self)@)
                &&& r matches Some(res) && res@ == (ResultView { consumed: true, actions: clear_actions() })
            },
            !(old(self)@.text.len() == 0 && old(self)@.romaji.buffer.len() == 0) ==> {
                &&& final(self)@ == old(self)@
                &&& r is None
            },
    {
        if self.input_buf.char_len() == 0 && char_count(self.converters.romaji.buffer()) == 0 {
            self.enter_empty_state();
            Some(EngineResult::cleared())
        } else {
            None
        }
    }
}

} // verus!
