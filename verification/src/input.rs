//! Typing: characters going into the composed text, the suggestion computed
//! while typing, and committing or abandoning composed text.
use vstd::prelude::*;
use crate::conversion::{
    after_flush, auto_suggestions, cancel_conversion_post, cancel_result, cancelled, composing,
    conversion_key_post, direct_post, direct_reading, forget_post, raw_post, selected_info,
    start_conversion_post,
};
use crate::cursor::{
    backspace_post, caret_moved, delete_post, left_of, moved_result, right_of, selection_moved,
};
use crate::kana::{to_fullwidth, to_halfwidth, to_katakana};
use crate::keys::{KeyEvent, Keysym};
use crate::engine::{
    clear_actions, composing_preedit, emptied, engine_wf, ActionView, EngineAction,
    EngineResult, EngineView, InputMethodEngine, InputMode, InputState, ResultView, StateView,
};
use crate::input_buffer::insert_at;
use crate::romaji::{resolve, RomajiView};
use crate::text::{char_count, push_char};

verus! {

/// The suggestion computed while typing: the first suggestion for the
/// composed text when suggestions are on, a model is available, the mode is
/// hiragana and there is composed text; empty otherwise.
pub open spec fn suggestion(e: EngineView) -> Seq<char> {
    if e.config.auto_suggest && e.kanji is Some && e.mode == InputMode::Hiragana && e.text.len() > 0 {
        auto_suggestions(e.kanji, e.text, e.config.num_candidates as nat)[0]
    } else {
        Seq::empty()
    }
}

/// `e` composing with a fresh suggestion.
pub open spec fn refreshed(e: EngineView) -> EngineView {
    composing(EngineView { live: suggestion(e), ..e })
}

/// The actions after the composed text changed.
pub open spec fn refresh_actions(e: EngineView) -> Seq<ActionView> {
    seq![ActionView::UpdatePreedit(composing_preedit(e)), ActionView::UpdateAuxText(suggestion(e))]
}

/// After an edit: empty if nothing is left, composing otherwise.
pub open spec fn settled(e: EngineView, post: EngineView, r: ResultView) -> bool {
    if e.text.len() == 0 && e.romaji.buffer.len() == 0 {
        post == emptied(e) && r == (ResultView { consumed: true, actions: clear_actions() })
    } else {
        post == refreshed(e) && r == (ResultView { consumed: true, actions: refresh_actions(e) })
    }
}

pub open spec fn is_ascii_letter(c: char) -> bool {
    ('a' <= c && c <= 'z') || ('A' <= c && c <= 'Z')
}

/// The engine after a Shift+letter switched to alphabet mode (pending romaji
/// is flushed first), or unchanged.
pub open spec fn mode_for(e: EngineView, ch: char, shift: bool) -> EngineView {
    if shift && is_ascii_letter(ch) && e.mode == InputMode::Hiragana {
        EngineView { mode: InputMode::Alphabet, ..after_flush(e) }
    } else {
        e
    }
}

/// The engine after `ch` was typed: literally in alphabet mode, through the
/// romaji converter in hiragana mode; the selection is dropped.
pub open spec fn typed(e: EngineView, ch: char, shift: bool) -> EngineView {
    let m = mode_for(e, ch, shift);
    if m.mode == InputMode::Alphabet {
        EngineView {
            text: insert_at(m.text, m.cursor as int, seq![ch]),
            cursor: m.cursor + 1,
            anchor: None,
            ..m
        }
    } else {
        let em = resolve(m.romaji.buffer.push(ch)).0;
        let romaji = RomajiView {
            buffer: resolve(m.romaji.buffer.push(ch)).1,
            output: m.romaji.output + em,
            raw: m.romaji.raw.push(ch),
        };
        EngineView {
            text: insert_at(m.text, m.cursor as int, em),
            cursor: m.cursor + em.len(),
            anchor: None,
            romaji,
            ..m
        }
    }
}

impl InputMethodEngine {
    /// Show the composing state and refresh the suggestion.
    pub fn refresh_input_state(&mut self) -> (r: EngineResult)
        requires
            engine_wf(old(self)@),
        ensures
            engine_wf(final(self)@),
            final(self)@ == refreshed(old(self)@),
            r@ == (ResultView { consumed: true, actions: refresh_actions(old(self)@) }),
    {
        let ghost e = self@;
        let preedit = self.set_composing_state();
        let live = if self.config.auto_suggest && self.converters.kanji.is_some()
            && self.input_mode == InputMode::Hiragana && self.input_buf.char_len() > 0 {
            let suggestions = self.run_auto_suggest(self.input_buf.text.as_str(), self.config.num_candidates);
            suggestions[0].clone()
        } else {
            String::new()
        };
        proof {
            if !(e.config.auto_suggest && e.kanji is Some && e.mode == InputMode::Hiragana && e.text.len() > 0) {
                assert(live@ =~= suggestion(e));
            }
        }
        self.live.text = live;
        let aux = self.format_aux_composing();
        let result = EngineResult::consumed().with_action(EngineAction::UpdatePreedit(preedit)).with_action(
            EngineAction::UpdateAuxText(aux),
        );
        assert(result@.actions =~= refresh_actions(e));
        result
    }

    /// Type a character: Shift+letter switches to alphabet mode; in alphabet
    /// mode the character is inserted as is, in hiragana mode it goes through
    /// romaji conversion.
    pub fn insert_char(&mut self, ch: char, shift: bool) -> (r: EngineResult)
        requires
            engine_wf(old(self)@),
        ensures
            engine_wf(final(self)@),
            final(self)@ == refreshed(typed(old(self)@, ch, shift)),
            r@ == (ResultView { consumed: true, actions: refresh_actions(typed(old(self)@, ch, shift)) }),
    {
        let is_letter = ('a' <= ch && ch <= 'z') || ('A' <= ch && ch <= 'Z');
        if shift && is_letter && self.input_mode == InputMode::Hiragana {
            self.flush_romaji_to_composed();
            self.input_mode = InputMode::Alphabet;
        }
        if self.input_mode == InputMode::Alphabet {
            let mut s = String::new();
            push_char(&mut s, ch);
            self.input_buf.insert_at_cursor(s.as_str());
        } else {
            let emitted = self.converters.romaji.push(ch);
            if char_count(emitted.as_str()) > 0 {
                self.input_buf.insert_at_cursor(emitted.as_str());
            } else {
                self.input_buf.clear_selection();
                assert(insert_at(self@.text, self@.cursor as int, emitted@) =~= self@.text);
            }
        }
        self.refresh_input_state()
    }

    /// Begin new input with a character (from the empty state, or right after a commit).
    pub fn start_input(&mut self, ch: char) -> (r: EngineResult)
        requires
            engine_wf(old(self)@),
        ensures
            engine_wf(final(self)@),
            final(self)@ == refreshed(typed(old(self)@, ch, false)),
            r@ == (ResultView { consumed: true, actions: refresh_actions(typed(old(self)@, ch, false)) }),
    {
        self.insert_char(ch, false)
    }

    /// Commit the composed text (pending romaji flushed) and empty the engine.
    pub fn commit_composing(&mut self) -> (r: EngineResult)
        requires
            engine_wf(old(self)@),
        ensures
            engine_wf(final(self)@),
            final(self)@ == emptied(after_flush(old(self)@)),
            after_flush(old(self)@).text.len() > 0 ==> r@ == (ResultView {
                consumed: true,
                actions: clear_actions().push(ActionView::Commit(after_flush(old(self)@).text)),
            }),
            after_flush(old(self)@).text.len() == 0 ==> r@ == (ResultView {
                consumed: true,
                actions: clear_actions(),
            }),
    {
        self.flush_romaji_to_composed();
        let text = self.input_buf.text.clone();
        self.enter_empty_state();
        if char_count(text.as_str()) > 0 {
            EngineResult::cleared().with_action(EngineAction::Commit(text))
        } else {
            EngineResult::cleared()
        }
    }

    /// Abandon the composed text and empty the engine.
    pub fn cancel_composing(&mut self) -> (r: EngineResult)
        ensures
            final(self)@ == emptied(old(self)@),
            r@ == (ResultView { consumed: true, actions: clear_actions() }),
    {
        self.enter_empty_state();
        EngineResult::cleared()
    }
}


/// The result of committing the composed text.
pub open spec fn commit_composing_result(e: EngineView) -> ResultView {
    if after_flush(e).text.len() > 0 {
        ResultView { consumed: true, actions: clear_actions().push(ActionView::Commit(after_flush(e).text)) }
    } else {
        ResultView { consumed: true, actions: clear_actions() }
    }
}

/// Control (without Alt) held with the character key `c`.
pub open spec fn ctrl_char(key: KeyEvent, c: char) -> bool {
    key.modifiers.control_key && !key.modifiers.alt_key && key.keysym == Keysym::Char(c)
}

/// A caret move (or, with Shift, a selection move) of the composing state.
pub open spec fn arrow_post(e: EngineView, key: KeyEvent, pos: nat, post: EngineView, r: ResultView) -> bool {
    if key.modifiers.shift_key {
        post == composing(selection_moved(e, pos)) && r == moved_result(selection_moved(e, pos))
    } else {
        post == composing(caret_moved(e, pos)) && r == moved_result(caret_moved(e, pos))
    }
}

/// Typing the character `c` while composing or empty.
pub open spec fn typed_post(e: EngineView, c: char, shift: bool, post: EngineView, r: ResultView) -> bool {
    post == refreshed(typed(e, c, shift)) && r == (ResultView {
        consumed: true,
        actions: refresh_actions(typed(e, c, shift)),
    })
}

/// The key was not for the engine.
pub open spec fn ignored(e: EngineView, post: EngineView, r: ResultView) -> bool {
    post == e && r == (ResultView { consumed: false, actions: Seq::empty() })
}

/// The key was taken and changed nothing.
pub open spec fn absorbed(e: EngineView, post: EngineView, r: ResultView) -> bool {
    post == e && r == (ResultView { consumed: true, actions: Seq::empty() })
}

/// What a key press does while composing.
pub open spec fn composing_key_post(e: EngineView, key: KeyEvent, post: EngineView, r: ResultView) -> bool {
    if ctrl_char(key, 'h') {
        backspace_post(e, post, r)
    } else if ctrl_char(key, 'u') {
        post == emptied(e) && r == (ResultView { consumed: true, actions: clear_actions() })
    } else if ctrl_char(key, 'i') {
        direct_post(e, to_katakana(direct_reading(e)), post, r)
    } else if key.modifiers.control_key || key.modifiers.alt_key {
        ignored(e, post, r)
    } else {
        match key.keysym {
            Keysym::RETURN => post == emptied(after_flush(e)) && r == commit_composing_result(e),
            Keysym::ESCAPE => post == emptied(e) && r == (ResultView { consumed: true, actions: clear_actions() }),
            Keysym::BACKSPACE => backspace_post(e, post, r),
            Keysym::DELETE => delete_post(e, post, r),
            Keysym::LEFT => arrow_post(e, key, left_of(e), post, r),
            Keysym::RIGHT => arrow_post(e, key, right_of(e), post, r),
            Keysym::HOME => arrow_post(e, key, 0, post, r),
            Keysym::END => arrow_post(e, key, e.text.len(), post, r),
            Keysym::SPACE => if e.mode == InputMode::Alphabet {
                typed_post(e, ' ', false, post, r)
            } else {
                start_conversion_post(e, post, r)
            },
            Keysym::TAB => start_conversion_post(e, post, r),
            Keysym::DOWN => start_conversion_post(e, post, r),
            Keysym::UP => absorbed(e, post, r),
            Keysym::PAGE_UP => absorbed(e, post, r),
            Keysym::PAGE_DOWN => absorbed(e, post, r),
            Keysym::F6 => direct_post(e, direct_reading(e), post, r),
            Keysym::F7 => direct_post(e, to_katakana(direct_reading(e)), post, r),
            Keysym::F8 => direct_post(e, to_halfwidth(to_katakana(direct_reading(e))), post, r),
            Keysym::F9 => raw_post(e, to_fullwidth(e.romaji.raw), post, r),
            Keysym::F10 => raw_post(e, e.romaji.raw, post, r),
            Keysym::Char(c) => typed_post(e, c, key.modifiers.shift_key, post, r),
        }
    }
}

/// Shift+arrow while converting: cancel the conversion, then start a
/// selection from the end of the text (Left, Home) or from its start (Right, End).
pub open spec fn shift_from_conversion_post(e: EngineView, key: KeyEvent, post: EngineView, r: ResultView) -> bool {
    let c = cancelled(e);
    if c.state is Empty {
        post == c && r == cancel_result(e)
    } else {
        let from_start = key.keysym == Keysym::RIGHT || key.keysym == Keysym::END;
        let c2 = if from_start {
            EngineView { cursor: 0, ..c }
        } else {
            c
        };
        let pos = match key.keysym {
            Keysym::LEFT => left_of(c2),
            Keysym::RIGHT => right_of(c2),
            Keysym::HOME => 0,
            _ => c2.text.len(),
        };
        &&& post == composing(selection_moved(c2, pos))
        &&& r == (ResultView {
            consumed: true,
            actions: cancel_result(e).actions + moved_result(selection_moved(c2, pos)).actions,
        })
    }
}

pub open spec fn is_arrow(k: Keysym) -> bool {
    k == Keysym::LEFT || k == Keysym::RIGHT || k == Keysym::HOME || k == Keysym::END
}

/// What a key event does.
pub open spec fn key_post(e: EngineView, key: KeyEvent, post: EngineView, r: ResultView) -> bool {
    if !key.is_press {
        post == e && r == (ResultView { consumed: !(e.state is Empty), actions: Seq::empty() })
    } else {
        match e.state {
            StateView::Empty => if key.modifiers.control_key || key.modifiers.alt_key {
                ignored(e, post, r)
            } else {
                match key.keysym {
                    Keysym::Char(c) => typed_post(e, c, key.modifiers.shift_key, post, r),
                    _ => ignored(e, post, r),
                }
            },
            StateView::Composing { .. } => composing_key_post(e, key, post, r),
            StateView::Conversion { .. } => if key.modifiers.shift_key && !key.modifiers.control_key
                && !key.modifiers.alt_key && is_arrow(key.keysym) {
                shift_from_conversion_post(e, key, post, r)
            } else if ctrl_char(key, 'h') {
                cancel_conversion_post(e, post, r)
            } else if ctrl_char(key, 'u') {
                post == emptied(e) && r == (ResultView { consumed: true, actions: clear_actions() })
            } else if ctrl_char(key, 'i') {
                direct_post(e, to_katakana(direct_reading(e)), post, r)
            } else if key.modifiers.control_key && !key.modifiers.alt_key && key.keysym == Keysym::DELETE {
                forget_post(e, post, r)
            } else {
                conversion_key_post(e, key, post, r)
            },
        }
    }
}

impl InputMethodEngine {
    /// Process a key event.
    pub fn process_key(&mut self, key: &KeyEvent) -> (r: EngineResult)
        requires
            engine_wf(old(self)@),
        ensures
            engine_wf(final(self)@),
            key_post(old(self)@, *key, final(self)@, r@),
    {
        if !key.is_press {
            // Releases of keys the engine works with are taken too.
            let consumed = match self.state {
                InputState::Empty => false,
                _ => true,
            };
            let r = EngineResult { consumed, actions: Vec::new() };
            assert(r@.actions =~= Seq::<ActionView>::empty());
            return r;
        }
        match self.state {
            InputState::Empty => self.process_key_empty(key),
            InputState::Composing { .. } => self.process_key_composing(key),
            InputState::Conversion { .. } => {
                let m = key.modifiers;
                let arrow = key.keysym == Keysym::LEFT || key.keysym == Keysym::RIGHT || key.keysym
                    == Keysym::HOME || key.keysym == Keysym::END;
                if m.shift_key && !m.control_key && !m.alt_key && arrow {
                    return self.shift_from_conversion(key);
                }
                if m.control_key && !m.alt_key {
                    if key.keysym == Keysym::Char('h') {
                        return self.backspace_conversion();
                    }
                    if key.keysym == Keysym::Char('u') {
                        return self.cancel_composing();
                    }
                    if key.keysym == Keysym::Char('i') {
                        return self.direct_convert_katakana();
                    }
                    if key.keysym == Keysym::DELETE {
                        return self.forget_selected_candidate();
                    }
                }
                self.process_key_conversion(key)
            },
        }
    }

    fn process_key_empty(&mut self, key: &KeyEvent) -> (r: EngineResult)
        requires
            engine_wf(old(self)@),
            old(self)@.state is Empty,
            key.is_press,
        ensures
            engine_wf(final(self)@),
            key_post(old(self)@, *key, final(self)@, r@),
    {
        if key.modifiers.control_key || key.modifiers.alt_key {
            return EngineResult::not_consumed();
        }
        match key.keysym {
            Keysym::Char(c) => self.insert_char(c, key.modifiers.shift_key),
            _ => EngineResult::not_consumed(),
        }
    }

    fn process_key_composing(&mut self, key: &KeyEvent) -> (r: EngineResult)
        requires
            engine_wf(old(self)@),
            old(self)@.state is Composing,
            key.is_press,
        ensures
            engine_wf(final(self)@),
            key_post(old(self)@, *key, final(self)@, r@),
    {
        let m = key.modifiers;
        if m.control_key && !m.alt_key {
            // Emacs-style: Ctrl+H backspace, Ctrl+U clear, Ctrl+I katakana.
            if key.keysym == Keysym::Char('h') {
                return self.backspace_composing();
            }
            if key.keysym == Keysym::Char('u') {
                return self.cancel_composing();
            }
            if key.keysym == Keysym::Char('i') {
                return self.direct_convert_katakana();
            }
        }
        if m.control_key || m.alt_key {
            return EngineResult::not_consumed();
        }
        match key.keysym {
            Keysym::RETURN => self.commit_composing(),
            Keysym::ESCAPE => self.cancel_composing(),
            Keysym::BACKSPACE => self.backspace_composing(),
            Keysym::DELETE => self.delete_composing(),
            Keysym::LEFT => if m.shift_key {
                self.shift_select_left()
            } else {
                self.move_caret_left()
            },
            Keysym::RIGHT => if m.shift_key {
                self.shift_select_right()
            } else {
                self.move_caret_right()
            },
            Keysym::HOME => if m.shift_key {
                self.shift_select_home()
            } else {
                self.move_caret_home()
            },
            Keysym::END => if m.shift_key {
                self.shift_select_end()
            } else {
                self.move_caret_end()
            },
            Keysym::SPACE => if self.input_mode == InputMode::Alphabet {
                self.insert_char(' ', false)
            } else {
                self.start_conversion()
            },
            Keysym::TAB | Keysym::DOWN => self.start_conversion(),
            Keysym::UP | Keysym::PAGE_UP | Keysym::PAGE_DOWN => EngineResult::consumed(),
            Keysym::F6 => self.direct_convert_hiragana(),
            Keysym::F7 => self.direct_convert_katakana(),
            Keysym::F8 => self.direct_convert_halfwidth_katakana(),
            Keysym::F9 => self.direct_convert_fullwidth_ascii(),
            Keysym::F10 => self.direct_convert_halfwidth_ascii(),
            Keysym::Char(c) => self.insert_char(c, m.shift_key),
        }
    }

    /// Shift+arrow while converting: cancel the conversion and start a selection.
    fn shift_from_conversion(&mut self, key: &KeyEvent) -> (r: EngineResult)
        requires
            engine_wf(old(self)@),
            old(self)@.state is Conversion,
            key.is_press,
            key.modifiers.shift_key && !key.modifiers.control_key && !key.modifiers.alt_key,
            is_arrow(key.keysym),
        ensures
            engine_wf(final(self)@),
            key_post(old(self)@, *key, final(self)@, r@),
    {
        let cancel = self.cancel_conversion();
        match self.state {
            InputState::Empty => {
                return cancel;
            },
            _ => {},
        }
        if key.keysym == Keysym::RIGHT || key.keysym == Keysym::END {
            self.input_buf.cursor_pos = 0;
        }
        let moved = match key.keysym {
            Keysym::LEFT => self.shift_select_left(),
            Keysym::RIGHT => self.shift_select_right(),
            Keysym::HOME => self.shift_select_home(),
            _ => self.shift_select_end(),
        };
        let ghost head = cancel@.actions;
        let ghost tail = moved@.actions;
        let mut actions = cancel.actions;
        let mut rest = moved.actions;
        actions.append(&mut rest);
        let r = EngineResult { consumed: true, actions };
        assert(r@.actions =~= head + tail);
        r
    }

    /// Clear the engine.  While converting, the selected candidate (with the
    /// text around a converted selection) is committed first; composed text
    /// is dropped.
    pub fn reset(&mut self) -> (r: EngineResult)
        requires
            engine_wf(old(self)@),
        ensures
            final(self)@ == emptied(old(self)@),
            r@ == reset_result(old(self)@),
    {
        let info = self.selected_conversion_info();
        let commit = match info {
            Some((text, _)) => {
                if char_count(text.as_str()) > 0 {
                    match &self.remaining_after_conversion {
                        Some((before, after)) => Some(
                            crate::text::concat3(before.as_str(), text.as_str(), after.as_str()),
                        ),
                        None => Some(text),
                    }
                } else {
                    None
                }
            },
            None => None,
        };
        self.enter_empty_state();
        match commit {
            Some(t) => EngineResult::cleared().with_action(EngineAction::Commit(t)),
            None => EngineResult::cleared(),
        }
    }
}

/// What `reset` reports: a cleared display, and, while a non-empty candidate
/// is selected, its commit (with the text around a converted selection).
pub open spec fn reset_result(e: EngineView) -> ResultView {
    match selected_info(e) {
        Some((t, _)) => if t.len() > 0 {
            ResultView {
                consumed: true,
                actions: clear_actions().push(
                    ActionView::Commit(
                        match e.remaining {
                            Some((before, after)) => before + t + after,
                            None => t,
                        },
                    ),
                ),
            }
        } else {
            ResultView { consumed: true, actions: clear_actions() }
        },
        None => ResultView { consumed: true, actions: clear_actions() },
    }
}

} // verus!
