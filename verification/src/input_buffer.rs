//! The composed text being edited, with its caret and selection.
use vstd::prelude::*;
use vstd::string::StrSliceExecFns;
use crate::text::{char_count, concat, substring};

verus! {

/// Composed (already converted to kana) text, the caret position in
/// characters, and the anchor of a Shift-selection if one is being made.
#[derive(Debug)]
pub struct InputBuffer {
    pub text: String,
    pub cursor_pos: usize,
    pub selection_anchor: Option<usize>,
}

/// The selected range `(start, end)`, `start < end`, between anchor and caret.
pub open spec fn spec_selection(anchor: Option<usize>, cursor: usize) -> Option<(usize, usize)> {
    match anchor {
        Some(a) => if a < cursor {
            Some((a, cursor))
        } else if cursor < a {
            Some((cursor, a))
        } else {
            None
        },
        None => None,
    }
}

/// `s` with the character at index `i` removed.
pub open spec fn remove_at(s: Seq<char>, i: int) -> Seq<char> {
    s.subrange(0, i) + s.subrange(i + 1, s.len() as int)
}

/// `s` with `ins` inserted at index `i`.
pub open spec fn insert_at(s: Seq<char>, i: int, ins: Seq<char>) -> Seq<char> {
    s.subrange(0, i) + ins + s.subrange(i, s.len() as int)
}

impl InputBuffer {
    /// Caret and anchor lie within the text.
    pub open spec fn wf(&self) -> bool {
        &&& self.cursor_pos <= self.text@.len()
        &&& (self.selection_anchor matches Some(a) ==> a <= self.text@.len())
    }

    pub fn new() -> (b: InputBuffer)
        ensures
            b.wf(),
            b.text@ == Seq::<char>::empty(),
            b.cursor_pos == 0,
            b.selection_anchor is None,
    {
        InputBuffer { text: String::new(), cursor_pos: 0, selection_anchor: None }
    }

    /// Empty text, caret at 0, no selection.
    pub fn clear(&mut self)
        ensures
            final(self).wf(),
            final(self).text@ == Seq::<char>::empty(),
            final(self).cursor_pos == 0,
            final(self).selection_anchor is None,
    {
        self.text = String::new();
        self.cursor_pos = 0;
        self.selection_anchor = None;
    }

    /// Number of characters of the text.
    pub fn char_len(&self) -> (n: usize)
        ensures
            n == self.text@.len(),
    {
        char_count(self.text.as_str())
    }

    /// The selected range, if the anchor is set and differs from the caret.
    pub fn selection_range(&self) -> (r: Option<(usize, usize)>)
        ensures
            r == spec_selection(self.selection_anchor, self.cursor_pos),
    {
        match self.selection_anchor {
            Some(a) => {
                if a < self.cursor_pos {
                    Some((a, self.cursor_pos))
                } else if self.cursor_pos < a {
                    Some((self.cursor_pos, a))
                } else {
                    None
                }
            },
            None => None,
        }
    }

    pub fn clear_selection(&mut self)
        ensures
            final(self).text == old(self).text,
            final(self).cursor_pos == old(self).cursor_pos,
            final(self).selection_anchor is None,
    {
        self.selection_anchor = None;
    }

    /// Insert `s` at the caret and move the caret past it; the selection is dropped.
    pub fn insert_at_cursor(&mut self, s: &str)
        requires
            old(self).wf(),
        ensures
            final(self).wf(),
            final(self).text@ == insert_at(old(self).text@, old(self).cursor_pos as int, s@),
            final(self).cursor_pos == old(self).cursor_pos + s@.len(),
            final(self).selection_anchor is None,
    {
        let n = self.char_len();
        let before = substring(self.text.as_str(), 0, self.cursor_pos);
        let after = substring(self.text.as_str(), self.cursor_pos, n);
        let head = concat(before.as_str(), s);
        self.cursor_pos = char_count(head.as_str());
        self.text = concat(head.as_str(), after.as_str());
        self.selection_anchor = None;
    }

    /// Remove the character before the caret, if there is one.
    pub fn remove_char_before_cursor(&mut self) -> (r: Option<char>)
        requires
            old(self).wf(),
        ensures
            final(self).wf(),
            final(self).selection_anchor == (if old(self).cursor_pos > 0 { None } else { old(self).selection_anchor }),
            old(self).cursor_pos == 0 ==> r is None && final(self).text == old(self).text
                && final(self).cursor_pos == 0,
            old(self).cursor_pos > 0 ==> {
                &&& r == Some(old(self).text@[old(self).cursor_pos - 1])
                &&& final(self).text@ == remove_at(old(self).text@, old(self).cursor_pos - 1)
                &&& final(self).cursor_pos == old(self).cursor_pos - 1
            },
    {
        if self.cursor_pos == 0 {
            return None;
        }
        let n = self.char_len();
        let c = self.text.as_str().get_char(self.cursor_pos - 1);
        let before = substring(self.text.as_str(), 0, self.cursor_pos - 1);
        let after = substring(self.text.as_str(), self.cursor_pos, n);
        self.text = concat(before.as_str(), after.as_str());
        self.cursor_pos = self.cursor_pos - 1;
        self.selection_anchor = None;
        Some(c)
    }

    /// Remove the character at the caret, if there is one.
    pub fn remove_char_at_cursor(&mut self) -> (r: Option<char>)
        requires
            old(self).wf(),
        ensures
            final(self).wf(),
            final(self).cursor_pos == old(self).cursor_pos,
            old(self).cursor_pos == old(self).text@.len() ==> r is None && final(self).text
                == old(self).text && final(self).selection_anchor == old(self).selection_anchor,
            old(self).cursor_pos < old(self).text@.len() ==> {
                &&& r == Some(old(self).text@[old(self).cursor_pos as int])
                &&& final(self).text@ == remove_at(old(self).text@, old(self).cursor_pos as int)
                &&& final(self).selection_anchor is None
            },
    {
        let n = self.char_len();
        if self.cursor_pos >= n {
            return None;
        }
        let c = self.text.as_str().get_char(self.cursor_pos);
        let before = substring(self.text.as_str(), 0, self.cursor_pos);
        let after = substring(self.text.as_str(), self.cursor_pos + 1, n);
        self.text = concat(before.as_str(), after.as_str());
        self.selection_anchor = None;
        Some(c)
    }
}

} // verus!
