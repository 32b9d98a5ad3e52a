//! Cursor movement, Shift-selection and character deletion while composing.
use vstd::prelude::*;
use crate::conversion::{after_flush, composing, empty_romaji};
use crate::engine::{
    composing_preedit, engine_wf, ActionView, EngineAction, EngineResult, EngineView,
    InputMethodEngine, ResultView, StateView,
};
use crate::input::{settled, refreshed, refresh_actions};
use crate::input_buffer::remove_at;
use crate::romaji::RomajiView;
use crate::text::char_count;

verus! {

/// The engine with pending romaji moved into the composed text and the
/// romaji converter reset, if anything was pending.
pub open spec fn romaji_settled(e: EngineView) -> EngineView {
    if e.romaji.buffer.len() > 0 {
        EngineView { romaji: empty_romaji(), ..after_flush(e) }
    } else {
        e
    }
}

/// What moving the caret to `pos` does: no selection, no suggestion.
pub open spec fn caret_moved(e: EngineView, pos: nat) -> EngineView {
    EngineView { live: Seq::empty(), anchor: None, cursor: pos, ..romaji_settled(e) }
}

/// What extending the selection to `pos` does: the anchor stays where the
/// selection began (the caret, if none had begun).
pub open spec fn selection_moved(e: EngineView, pos: nat) -> EngineView {
    let f = romaji_settled(e);
    EngineView {
        live: Seq::empty(),
        anchor: Some(
            match f.anchor {
                Some(a) => a,
                None => f.cursor as usize,
            },
        ),
        cursor: pos,
        ..f
    }
}

/// The result of a caret or selection move to the engine `g`.
pub open spec fn moved_result(g: EngineView) -> ResultView {
    ResultView {
        consumed: true,
        actions: seq![
            ActionView::UpdatePreedit(composing_preedit(g)),
            ActionView::HideCandidates,
            ActionView::UpdateAuxText(g.live),
        ],
    }
}

pub open spec fn left_of(e: EngineView) -> nat {
    if e.cursor > 0 {
        (e.cursor - 1) as nat
    } else {
        0
    }
}

pub open spec fn right_of(e: EngineView) -> nat {
    if e.cursor + 1 <= e.text.len() {
        e.cursor + 1
    } else {
        e.text.len()
    }
}

/// The engine after Backspace removed a pending romaji letter.
pub open spec fn romaji_backspaced(e: EngineView) -> EngineView {
    EngineView {
        romaji: RomajiView {
            buffer: e.romaji.buffer.drop_last(),
            raw: if e.romaji.raw.len() > 0 {
                e.romaji.raw.drop_last()
            } else {
                e.romaji.raw
            },
            ..e.romaji
        },
        ..e
    }
}

/// What Backspace does while composing: a pending romaji letter goes first,
/// otherwise the character before the caret; the engine empties when
/// nothing is left.
pub open spec fn backspace_post(e: EngineView, post: EngineView, r: ResultView) -> bool {
    if e.romaji.buffer.len() > 0 {
        let e1 = romaji_backspaced(e);
        if e1.text.len() == 0 && e1.romaji.buffer.len() == 0 {
            settled(e1, post, r)
        } else {
            &&& post == composing(e1)
            &&& r == (ResultView {
                consumed: true,
                actions: seq![
                    ActionView::UpdatePreedit(composing_preedit(e1)),
                    ActionView::UpdateAuxText(e1.live),
                ],
            })
        }
    } else if e.cursor > 0 {
        settled(
            EngineView {
                text: remove_at(e.text, e.cursor - 1),
                cursor: (e.cursor - 1) as nat,
                anchor: None,
                ..e
            },
            post,
            r,
        )
    } else {
        post == e && r == (ResultView { consumed: true, actions: Seq::empty() })
    }
}

/// What Delete does while composing: the character at the caret, unless
/// romaji is pending there or the caret is at the end.
pub open spec fn delete_post(e: EngineView, post: EngineView, r: ResultView) -> bool {
    if e.romaji.buffer.len() > 0 || e.cursor == e.text.len() {
        post == e && r == (ResultView { consumed: true, actions: Seq::empty() })
    } else {
        settled(EngineView { text: remove_at(e.text, e.cursor as int), anchor: None, ..e }, post, r)
    }
}

impl InputMethodEngine {
    /// Common helper for cursor movement: flush romaji, clear the suggestion
    /// and the selection, set the new position.
    pub fn move_caret(&mut self, new_pos: usize) -> (r: EngineResult)
        requires
            engine_wf(old(self)@),
            new_pos <= romaji_settled(old(self)@).text.len(),
        ensures
            engine_wf(final(self)@),
            final(self)@ == composing(caret_moved(old(self)@, new_pos as nat)),
            r@ == moved_result(caret_moved(old(self)@, new_pos as nat)),
    {
        if char_count(self.converters.romaji.buffer()) > 0 {
            self.flush_romaji_to_composed();
            self.converters.romaji.reset();
        }
        self.live.text = String::new();
        self.input_buf.clear_selection();
        self.input_buf.cursor_pos = new_pos;
        let preedit = self.set_composing_state();
        let aux = self.format_aux_composing();
        let result = EngineResult::consumed().with_action(EngineAction::UpdatePreedit(preedit)).with_action(
            EngineAction::HideCandidates,
        ).with_action(EngineAction::UpdateAuxText(aux));
        assert(result@.actions =~= moved_result(caret_moved(old(self)@, new_pos as nat)).actions);
        result
    }

    /// Common helper for Shift+Arrow selection: flush romaji, set the anchor
    /// if none is set, move the caret.
    pub fn shift_select(&mut self, new_pos: usize) -> (r: EngineResult)
        requires
            engine_wf(old(self)@),
            new_pos <= romaji_settled(old(self)@).text.len(),
        ensures
            engine_wf(final(self)@),
            final(self)@ == composing(selection_moved(old(self)@, new_pos as nat)),
            r@ == moved_result(selection_moved(old(self)@, new_pos as nat)),
    {
        if char_count(self.converters.romaji.buffer()) > 0 {
            self.flush_romaji_to_composed();
            self.converters.romaji.reset();
        }
        self.live.text = String::new();
        // Set anchor at current position if not already set.
        if self.input_buf.selection_anchor.is_none() {
            self.input_buf.selection_anchor = Some(self.input_buf.cursor_pos);
        }
        self.input_buf.cursor_pos = new_pos;
        let preedit = self.set_composing_state();
        let aux = self.format_aux_composing();
        let result = EngineResult::consumed().with_action(EngineAction::UpdatePreedit(preedit)).with_action(
            EngineAction::HideCandidates,
        ).with_action(EngineAction::UpdateAuxText(aux));
        assert(result@.actions =~= moved_result(selection_moved(old(self)@, new_pos as nat)).actions);
        result
    }

    /// Handle backspace in composing mode: a pending romaji letter goes first,
    /// otherwise the character before the caret.
    pub fn backspace_composing(&mut self) -> (r: EngineResult)
        requires
            engine_wf(old(self)@),
        ensures
            engine_wf(final(self)@),
            backspace_post(old(self)@, final(self)@, r@),
    {
        // A pending romaji letter is removed first.
        if char_count(self.converters.romaji.buffer()) > 0 {
            let output_len_before = char_count(self.converters.romaji.output());
            self.converters.romaji.backspace();
            let output_len_after = char_count(self.converters.romaji.output());

            // If the output shrank, a passed-through character went back into
            // the pending letters: remove it from the composed text too.
            if output_len_after < output_len_before && self.input_buf.cursor_pos > 0 {
                self.input_buf.remove_char_before_cursor();
            }
            match self.try_reset_if_empty() {
                Some(result) => {
                    return result;
                },
                None => {},
            }
            let preedit = self.set_composing_state();
            let aux = self.format_aux_composing();
            let result = EngineResult::consumed().with_action(EngineAction::UpdatePreedit(preedit)).with_action(
                EngineAction::UpdateAuxText(aux),
            );
            proof {
                let ghost e1 = EngineView { state: old(self)@.state, ..self@ };
                assert(result@.actions =~= seq![
                    ActionView::UpdatePreedit(composing_preedit(e1)),
                    ActionView::UpdateAuxText(e1.live),
                ]);
            }
            return result;
        }

        // Remove the character before the caret.
        if self.input_buf.cursor_pos > 0 {
            self.input_buf.remove_char_before_cursor();
        } else {
            // Nothing to delete.
            return EngineResult::consumed();
        }
        match self.try_reset_if_empty() {
            Some(result) => result,
            None => self.refresh_input_state(),
        }
    }

    /// Move caret left within the composed text.
    pub fn move_caret_left(&mut self) -> (r: EngineResult)
        requires
            engine_wf(old(self)@),
        ensures
            engine_wf(final(self)@),
            final(self)@ == composing(caret_moved(old(self)@, left_of(old(self)@))),
            r@ == moved_result(caret_moved(old(self)@, left_of(old(self)@))),
    {
        let new_pos = self.input_buf.cursor_pos.saturating_sub(1);
        self.move_caret(new_pos)
    }

    /// Move caret right within the composed text.
    pub fn move_caret_right(&mut self) -> (r: EngineResult)
        requires
            engine_wf(old(self)@),
        ensures
            engine_wf(final(self)@),
            final(self)@ == composing(caret_moved(old(self)@, right_of(old(self)@))),
            r@ == moved_result(caret_moved(old(self)@, right_of(old(self)@))),
    {
        let total = self.input_buf.char_len();
        let new_pos = if self.input_buf.cursor_pos < total {
            self.input_buf.cursor_pos + 1
        } else {
            total
        };
        self.move_caret(new_pos)
    }

    /// Handle the delete key while composing: the character at the caret.
    pub fn delete_composing(&mut self) -> (r: EngineResult)
        requires
            engine_wf(old(self)@),
        ensures
            engine_wf(final(self)@),
            delete_post(old(self)@, final(self)@, r@),
    {
        // The pending romaji sits at the caret: nothing to delete behind it.
        if char_count(self.converters.romaji.buffer()) > 0 {
            return EngineResult::consumed();
        }
        // Delete the character at the caret.
        if self.input_buf.remove_char_at_cursor().is_none() {
            return EngineResult::consumed();
        }
        match self.try_reset_if_empty() {
            Some(result) => result,
            None => self.refresh_input_state(),
        }
    }

    /// Move caret to start of input.
    pub fn move_caret_home(&mut self) -> (r: EngineResult)
        requires
            engine_wf(old(self)@),
        ensures
            engine_wf(final(self)@),
            final(self)@ == composing(caret_moved(old(self)@, 0)),
            r@ == moved_result(caret_moved(old(self)@, 0)),
    {
        self.move_caret(0)
    }

    /// Move caret to end of input.
    pub fn move_caret_end(&mut self) -> (r: EngineResult)
        requires
            engine_wf(old(self)@),
        ensures
            engine_wf(final(self)@),
            final(self)@ == composing(caret_moved(old(self)@, old(self)@.text.len())),
            r@ == moved_result(caret_moved(old(self)@, old(self)@.text.len())),
    {
        let total = self.input_buf.char_len();
        self.move_caret(total)
    }

    /// Shift+Left: extend or shrink the selection to the left.
    pub fn shift_select_left(&mut self) -> (r: EngineResult)
        requires
            engine_wf(old(self)@),
        ensures
            engine_wf(final(self)@),
            final(self)@ == composing(selection_moved(old(self)@, left_of(old(self)@))),
            r@ == moved_result(selection_moved(old(self)@, left_of(old(self)@))),
    {
        let new_pos = self.input_buf.cursor_pos.saturating_sub(1);
        self.shift_select(new_pos)
    }

    /// Shift+Right: extend or shrink the selection to the right.
    pub fn shift_select_right(&mut self) -> (r: EngineResult)
        requires
            engine_wf(old(self)@),
        ensures
            engine_wf(final(self)@),
            final(self)@ == composing(selection_moved(old(self)@, right_of(old(self)@))),
            r@ == moved_result(selection_moved(old(self)@, right_of(old(self)@))),
    {
        let total = self.input_buf.char_len();
        let new_pos = if self.input_buf.cursor_pos < total {
            self.input_buf.cursor_pos + 1
        } else {
            total
        };
        self.shift_select(new_pos)
    }

    /// Shift+Home: extend the selection to the beginning.
    pub fn shift_select_home(&mut self) -> (r: EngineResult)
        requires
            engine_wf(old(self)@),
        ensures
            engine_wf(final(self)@),
            final(self)@ == composing(selection_moved(old(self)@, 0)),
            r@ == moved_result(selection_moved(old(self)@, 0)),
    {
        self.shift_select(0)
    }

    /// Shift+End: extend the selection to the end.
    pub fn shift_select_end(&mut self) -> (r: EngineResult)
        requires
            engine_wf(old(self)@),
        ensures
            engine_wf(final(self)@),
            final(self)@ == composing(selection_moved(old(self)@, old(self)@.text.len())),
            r@ == moved_result(selection_moved(old(self)@, old(self)@.text.len())),
    {
        let total = self.input_buf.char_len();
        self.shift_select(total)
    }
}

} // verus!
