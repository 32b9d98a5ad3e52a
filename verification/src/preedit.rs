//! The preedit: the not-yet-committed text shown at the caret.
use vstd::prelude::*;
use crate::text::char_count;

verus! {

/// How a range of the preedit is drawn.
#[derive(Clone, Copy, Debug, PartialEq, Eq, Structural)]
pub enum AttributeType {
    Underline,
    Highlight,
}

/// A drawing attribute over the characters `start..end` of the preedit.
#[derive(Clone, Copy, Debug, PartialEq, Eq, Structural)]
pub struct PreeditAttribute {
    pub start: usize,
    pub end: usize,
    pub attr_type: AttributeType,
}

impl PreeditAttribute {
    pub fn new(start: usize, end: usize, attr_type: AttributeType) -> (a: PreeditAttribute)
        ensures
            a == (PreeditAttribute { start, end, attr_type }),
    {
        PreeditAttribute { start, end, attr_type }
    }
}

/// Preedit text, caret position (in characters) and drawing attributes.
#[derive(Debug)]
pub struct Preedit {
    text: String,
    caret: usize,
    attributes: Vec<PreeditAttribute>,
}

/// Abstract preedit.
pub struct PreeditView {
    pub text: Seq<char>,
    pub caret: nat,
    pub attributes: Seq<PreeditAttribute>,
}

impl View for Preedit {
    type V = PreeditView;

    closed spec fn view(&self) -> PreeditView {
        PreeditView { text: self.text@, caret: self.caret as nat, attributes: self.attributes@ }
    }
}

/// The empty preedit.
pub open spec fn empty_preedit() -> PreeditView {
    PreeditView { text: Seq::empty(), caret: 0, attributes: Seq::empty() }
}

/// Text with the caret at its end and the whole text highlighted
/// (the look of the selected conversion candidate).
pub open spec fn highlighted_preedit(text: Seq<char>) -> PreeditView {
    PreeditView {
        text,
        caret: text.len(),
        attributes: seq![
            PreeditAttribute {
                start: 0,
                end: text.len() as usize,
                attr_type: AttributeType::Highlight,
            },
        ],
    }
}

/// Text with the caret at its end and the whole text underlined.
pub open spec fn underlined_preedit(text: Seq<char>) -> PreeditView {
    PreeditView {
        text,
        caret: text.len(),
        attributes: seq![
            PreeditAttribute {
                start: 0,
                end: text.len() as usize,
                attr_type: AttributeType::Underline,
            },
        ],
    }
}

impl Preedit {
    /// The empty preedit.
    pub fn new() -> (p: Preedit)
        ensures
            p@ == empty_preedit(),
    {
        Preedit { text: String::new(), caret: 0, attributes: Vec::new() }
    }

    /// `text` with the caret at its end and no attribute.
    pub fn with_text(text: &str) -> (p: Preedit)
        ensures
            p@ == (PreeditView { text: text@, caret: text@.len(), attributes: Seq::empty() }),
    {
        let n = char_count(text);
        Preedit { text: text.to_owned(), caret: n, attributes: Vec::new() }
    }

    /// `text` with the caret at its end, underlined as a whole.
    pub fn with_text_underlined(text: &str) -> (p: Preedit)
        ensures
            p@ == underlined_preedit(text@),
    {
        let n = char_count(text);
        let mut attributes = Vec::new();
        attributes.push(PreeditAttribute::new(0, n, AttributeType::Underline));
        let p = Preedit { text: text.to_owned(), caret: n, attributes };
        assert(p@.attributes =~= underlined_preedit(text@).attributes);
        p
    }

    /// `text` with the caret at its end, highlighted as a whole.
    pub fn highlighted(text: &str) -> (p: Preedit)
        ensures
            p@ == highlighted_preedit(text@),
    {
        let n = char_count(text);
        let mut attributes = Vec::new();
        attributes.push(PreeditAttribute::new(0, n, AttributeType::Highlight));
        let p = Preedit { text: text.to_owned(), caret: n, attributes };
        assert(p@.attributes =~= highlighted_preedit(text@).attributes);
        p
    }

    /// Text, caret and attributes as given.
    pub fn from_parts(text: String, caret: usize, attributes: Vec<PreeditAttribute>) -> (p: Preedit)
        ensures
            p@ == (PreeditView { text: text@, caret: caret as nat, attributes: attributes@ }),
    {
        Preedit { text, caret, attributes }
    }

    /// Replace the drawing attributes.
    pub fn set_attributes(&mut self, attributes: Vec<PreeditAttribute>)
        ensures
            final(self)@ == (PreeditView { attributes: attributes@, ..old(self)@ }),
    {
        self.attributes = attributes;
    }

    pub fn text(&self) -> (t: &str)
        ensures
            t@ == self@.text,
    {
        self.text.as_str()
    }

    pub fn caret(&self) -> (c: usize)
        ensures
            c == self@.caret,
    {
        self.caret
    }

    pub fn attributes(&self) -> (a: &Vec<PreeditAttribute>)
        ensures
            a@ == self@.attributes,
    {
        &self.attributes
    }

    /// A copy with the same text, caret and attributes.
    pub fn duplicate(&self) -> (p: Preedit)
        ensures
            p@ == self@,
    {
        let mut attributes = Vec::new();
        let mut i: usize = 0;
        while i < self.attributes.len()
            invariant
                i <= self.attributes.len(),
                attributes@ == self.attributes@.subrange(0, i as int),
            decreases self.attributes.len() - i,
        {
            attributes.push(self.attributes[i]);
            i = i + 1;
            assert(attributes@ =~= self.attributes@.subrange(0, i as int));
        }
        assert(attributes@ =~= self.attributes@);
        Preedit { text: self.text.clone(), caret: self.caret, attributes }
    }
}

} // verus!
