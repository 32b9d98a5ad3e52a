//! Conversion candidates: their sources, the candidate list shown to the user,
//! and the deduplicating builder the conversion assembles candidates with.
use vstd::prelude::*;
use crate::text::str_eq;

verus! {

/// Where a conversion candidate came from.
#[derive(Clone, Copy, Debug, PartialEq, Eq, Structural)]
pub enum CandidateSource {
    Learning,
    UserDictionary,
    Model,
    Dictionary,
    Fallback,
}

/// The annotation shown beside a candidate of the given source; `None` where
/// the source is shown without one.
pub open spec fn source_label(s: CandidateSource) -> Option<Seq<char>> {
    match s {
        CandidateSource::Learning => Some("学習"@),
        CandidateSource::UserDictionary => Some("ユーザー辞書"@),
        CandidateSource::Dictionary => Some("辞書"@),
        CandidateSource::Model => None,
        CandidateSource::Fallback => None,
    }
}

impl CandidateSource {
    /// The annotation label of this source, if it has one.
    pub fn label(&self) -> (l: Option<&'static str>)
        ensures
            l matches Some(s) ==> source_label(*self) == Some(s@),
            l is None <==> source_label(*self) is None,
    {
        match self {
            CandidateSource::Learning => Some("学習"),
            CandidateSource::UserDictionary => Some("ユーザー辞書"),
            CandidateSource::Dictionary => Some("辞書"),
            CandidateSource::Model => None,
            CandidateSource::Fallback => None,
        }
    }
}

/// The view of an optional string.
pub open spec fn opt_view(o: Option<String>) -> Option<Seq<char>> {
    match o {
        Some(s) => Some(s@),
        None => None,
    }
}

/// A copy of an optional string.
pub fn clone_opt(o: &Option<String>) -> (r: Option<String>)
    ensures
        r == *o,
{
    match o {
        Some(s) => Some(s.clone()),
        None => None,
    }
}

/// A candidate as shown in the candidate window.
#[derive(Debug)]
pub struct Candidate {
    pub text: String,
    pub reading: Option<String>,
    pub annotation: Option<String>,
    pub index: usize,
}

pub struct CandidateView {
    pub text: Seq<char>,
    pub reading: Option<Seq<char>>,
    pub annotation: Option<Seq<char>>,
    pub index: nat,
}

impl View for Candidate {
    type V = CandidateView;

    open spec fn view(&self) -> CandidateView {
        CandidateView {
            text: self.text@,
            reading: opt_view(self.reading),
            annotation: opt_view(self.annotation),
            index: self.index as nat,
        }
    }
}

impl Candidate {
    /// A candidate with a reading and no annotation.
    pub fn with_reading(text: &str, reading: &str) -> (c: Candidate)
        ensures
            c@ == (CandidateView {
                text: text@,
                reading: Some(reading@),
                annotation: None,
                index: 0,
            }),
    {
        Candidate { text: text.to_owned(), reading: Some(reading.to_owned()), annotation: None, index: 0 }
    }

    /// A copy of this candidate.
    pub fn duplicate(&self) -> (c: Candidate)
        ensures
            c == *self,
    {
        Candidate {
            text: self.text.clone(),
            reading: clone_opt(&self.reading),
            annotation: clone_opt(&self.annotation),
            index: self.index,
        }
    }
}

/// The views of a sequence of candidates.
pub open spec fn cand_views(s: Seq<Candidate>) -> Seq<CandidateView> {
    s.map_values(|c: Candidate| c@)
}

/// Candidates per page of the candidate window (selectable with digits 1..=9).
pub const DEFAULT_PAGE_SIZE: usize = 9;

/// The list of conversion candidates with the selected one.
#[derive(Debug)]
pub struct CandidateList {
    candidates: Vec<Candidate>,
    selected: usize,
}

pub struct CandidateListView {
    pub candidates: Seq<CandidateView>,
    pub selected: nat,
}

impl View for CandidateList {
    type V = CandidateListView;

    closed spec fn view(&self) -> CandidateListView {
        CandidateListView { candidates: cand_views(self.candidates@), selected: self.selected as nat }
    }
}

/// The selection lies on a candidate, or is 0 on an empty list.
pub open spec fn list_wf(l: CandidateListView) -> bool {
    if l.candidates.len() == 0 {
        l.selected == 0
    } else {
        l.selected < l.candidates.len()
    }
}

/// First index of the page the selection is on.
pub open spec fn page_start(selected: nat) -> nat {
    ((selected / DEFAULT_PAGE_SIZE as nat) * DEFAULT_PAGE_SIZE as nat) as nat
}

/// The selected candidate's text, if the list is not empty.
pub open spec fn selected_text_of(l: CandidateListView) -> Option<Seq<char>> {
    if l.candidates.len() == 0 {
        None
    } else {
        Some(l.candidates[l.selected as int].text)
    }
}

/// The selected candidate's reading (none on an empty list).
pub open spec fn selected_reading_of(l: CandidateListView) -> Option<Seq<char>> {
    if l.candidates.len() == 0 {
        None
    } else {
        l.candidates[l.selected as int].reading
    }
}

/// Selection after moving to the next candidate (wrapping to the first).
pub open spec fn next_selected(l: CandidateListView) -> nat {
    if l.candidates.len() == 0 {
        0
    } else {
        ((l.selected + 1) % l.candidates.len()) as nat
    }
}

/// Selection after moving to the previous candidate (wrapping to the last).
pub open spec fn prev_selected(l: CandidateListView) -> nat {
    if l.candidates.len() == 0 {
        0
    } else if l.selected == 0 {
        (l.candidates.len() - 1) as nat
    } else {
        (l.selected - 1) as nat
    }
}

/// Selection after moving to the first candidate of the next page, if any.
pub open spec fn next_page_selected(l: CandidateListView) -> nat {
    let start = page_start(l.selected) + DEFAULT_PAGE_SIZE as nat;
    if start < l.candidates.len() {
        start
    } else {
        l.selected
    }
}

/// Selection after moving to the first candidate of the previous page, if any.
pub open spec fn prev_page_selected(l: CandidateListView) -> nat {
    let start = page_start(l.selected);
    if start >= DEFAULT_PAGE_SIZE as nat {
        (start - DEFAULT_PAGE_SIZE as nat) as nat
    } else {
        l.selected
    }
}

/// The index that digit `d` (1..=9) picks on the current page, if it names a candidate.
pub open spec fn digit_target(l: CandidateListView, d: nat) -> Option<nat> {
    let idx = page_start(l.selected) + d - 1;
    if 1 <= d && d <= DEFAULT_PAGE_SIZE as nat && idx < l.candidates.len() {
        Some(idx as nat)
    } else {
        None
    }
}

impl CandidateList {
    pub open spec fn wf(&self) -> bool {
        list_wf(self@)
    }

    /// A list of the given candidates with the first one selected.
    pub fn new(candidates: Vec<Candidate>) -> (l: CandidateList)
        ensures
            l.wf(),
            l@.candidates == cand_views(candidates@),
            l@.selected == 0,
    {
        CandidateList { candidates, selected: 0 }
    }

    pub fn len(&self) -> (n: usize)
        ensures
            n == self@.candidates.len(),
    {
        self.candidates.len()
    }

    pub fn candidates(&self) -> (c: &Vec<Candidate>)
        ensures
            cand_views(c@) == self@.candidates,
    {
        &self.candidates
    }

    pub fn selected_index(&self) -> (i: usize)
        ensures
            i == self@.selected,
    {
        self.selected
    }

    /// The selected candidate, if the list is not empty.
    pub fn selected(&self) -> (c: Option<&Candidate>)
        requires
            self.wf(),
        ensures
            c is None <==> self@.candidates.len() == 0,
            c matches Some(c) ==> c@ == self@.candidates[self@.selected as int],
    {
        if self.candidates.len() == 0 {
            None
        } else {
            Some(&self.candidates[self.selected])
        }
    }

    /// The selected candidate's text, if the list is not empty.
    pub fn selected_text(&self) -> (t: Option<&str>)
        requires
            self.wf(),
        ensures
            t is None <==> selected_text_of(self@) is None,
            t matches Some(t) ==> selected_text_of(self@) == Some(t@),
    {
        if self.candidates.len() == 0 {
            None
        } else {
            Some(self.candidates[self.selected].text.as_str())
        }
    }

    /// The selected candidate's reading, if any.
    pub fn selected_reading(&self) -> (r: Option<String>)
        requires
            self.wf(),
        ensures
            opt_view(r) == selected_reading_of(self@),
    {
        if self.candidates.len() == 0 {
            None
        } else {
            clone_opt(&self.candidates[self.selected].reading)
        }
    }

    /// Select the next candidate, wrapping around; false on an empty list.
    pub fn move_next(&mut self) -> (moved: bool)
        requires
            old(self).wf(),
        ensures
            final(self).wf(),
            final(self)@.candidates == old(self)@.candidates,
            final(self)@.selected == next_selected(old(self)@),
            moved == (old(self)@.candidates.len() > 0),
    {
        let n = self.candidates.len();
        if n == 0 {
            return false;
        }
        self.selected = (self.selected + 1) % n;
        true
    }

    /// Select the previous candidate, wrapping around; false on an empty list.
    pub fn move_prev(&mut self) -> (moved: bool)
        requires
            old(self).wf(),
        ensures
            final(self).wf(),
            final(self)@.candidates == old(self)@.candidates,
            final(self)@.selected == prev_selected(old(self)@),
            moved == (old(self)@.candidates.len() > 0),
    {
        let n = self.candidates.len();
        if n == 0 {
            return false;
        }
        if self.selected == 0 {
            self.selected = n - 1;
        } else {
            self.selected = self.selected - 1;
        }
        true
    }

    /// Select the first candidate of the next page; false when on the last page.
    pub fn next_page(&mut self) -> (moved: bool)
        requires
            old(self).wf(),
        ensures
            final(self).wf(),
            final(self)@.candidates == old(self)@.candidates,
            final(self)@.selected == next_page_selected(old(self)@),
            moved == (page_start(old(self)@.selected) + DEFAULT_PAGE_SIZE
                < old(self)@.candidates.len()),
    {
        let start = (self.selected / DEFAULT_PAGE_SIZE) * DEFAULT_PAGE_SIZE;
        assert(start <= self.selected) by (nonlinear_arith)
            requires start == (self.selected / 9) * 9;
        if self.candidates.len() > DEFAULT_PAGE_SIZE && start < self.candidates.len()
            - DEFAULT_PAGE_SIZE {
            self.selected = start + DEFAULT_PAGE_SIZE;
            true
        } else {
            false
        }
    }

    /// Select the first candidate of the previous page; false when on the first page.
    pub fn prev_page(&mut self) -> (moved: bool)
        requires
            old(self).wf(),
        ensures
            final(self).wf(),
            final(self)@.candidates == old(self)@.candidates,
            final(self)@.selected == prev_page_selected(old(self)@),
            moved == (page_start(old(self)@.selected) >= DEFAULT_PAGE_SIZE),
    {
        let start = (self.selected / DEFAULT_PAGE_SIZE) * DEFAULT_PAGE_SIZE;
        assert(start <= self.selected) by (nonlinear_arith)
            requires start == (self.selected / 9) * 9;
        if start >= DEFAULT_PAGE_SIZE {
            self.selected = start - DEFAULT_PAGE_SIZE;
            true
        } else {
            false
        }
    }

    /// Select the candidate that digit `digit` (1..=9) names on the current
    /// page; `None`, with the selection unchanged, if it names none.
    pub fn select_on_page(&mut self, digit: usize) -> (r: Option<usize>)
        requires
            old(self).wf(),
        ensures
            final(self).wf(),
            final(self)@.candidates == old(self)@.candidates,
            r == (match digit_target(old(self)@, digit as nat) {
                Some(i) => Some(i as usize),
                None => None::<usize>,
            }),
            final(self)@.selected == (match digit_target(old(self)@, digit as nat) {
                Some(i) => i,
                None => old(self)@.selected,
            }),
    {
        if digit < 1 || digit > DEFAULT_PAGE_SIZE {
            return None;
        }
        let start = (self.selected / DEFAULT_PAGE_SIZE) * DEFAULT_PAGE_SIZE;
        assert(start <= self.selected) by (nonlinear_arith)
            requires start == (self.selected / 9) * 9;
        if start < self.candidates.len() && digit - 1 < self.candidates.len() - start {
            let idx = start + digit - 1;
            self.selected = idx;
            Some(idx)
        } else {
            None
        }
    }

    /// A copy of this list.
    pub fn duplicate(&self) -> (l: CandidateList)
        requires
            self.wf(),
        ensures
            l.wf(),
            l@ == self@,
    {
        let mut cands: Vec<Candidate> = Vec::new();
        let mut i: usize = 0;
        while i < self.candidates.len()
            invariant
                i <= self.candidates.len(),
                cands@ == self.candidates@.subrange(0, i as int),
            decreases self.candidates.len() - i,
        {
            cands.push(self.candidates[i].duplicate());
            i = i + 1;
            assert(cands@ =~= self.candidates@.subrange(0, i as int));
        }
        assert(cands@ =~= self.candidates@);
        CandidateList { candidates: cands, selected: self.selected }
    }
}

// ---------------------------------------------------------------------------
// Annotated candidates and the deduplicating builder
// ---------------------------------------------------------------------------

/// A candidate with its source, before it becomes a `Candidate`.
#[derive(Debug)]
pub struct AnnotatedCandidate {
    pub text: String,
    pub source: CandidateSource,
    pub reading: Option<String>,
}

pub struct AnnotatedView {
    pub text: Seq<char>,
    pub source: CandidateSource,
    pub reading: Option<Seq<char>>,
}

impl View for AnnotatedCandidate {
    type V = AnnotatedView;

    open spec fn view(&self) -> AnnotatedView {
        AnnotatedView { text: self.text@, source: self.source, reading: opt_view(self.reading) }
    }
}

impl AnnotatedCandidate {
    pub fn duplicate(&self) -> (c: AnnotatedCandidate)
        ensures
            c == *self,
    {
        AnnotatedCandidate {
            text: self.text.clone(),
            source: self.source,
            reading: clone_opt(&self.reading),
        }
    }
}

/// The views of a sequence of annotated candidates.
pub open spec fn ann_views(s: Seq<AnnotatedCandidate>) -> Seq<AnnotatedView> {
    s.map_values(|c: AnnotatedCandidate| c@)
}

/// Some candidate of the list has the given text.
pub open spec fn has_text(list: Seq<AnnotatedView>, t: Seq<char>) -> bool {
    exists|i: int| 0 <= i < list.len() && (#[trigger] list[i]).text == t
}

/// The list with `c` appended unless a candidate with the same text is already in it.
pub open spec fn push_new(list: Seq<AnnotatedView>, c: AnnotatedView) -> Seq<AnnotatedView> {
    if has_text(list, c.text) {
        list
    } else {
        list.push(c)
    }
}

/// Every candidate text occurs once.
pub open spec fn distinct_texts(list: Seq<AnnotatedView>) -> bool {
    forall|i: int, j: int|
        0 <= i < list.len() && 0 <= j < list.len() && i != j ==> (#[trigger] list[i]).text
            != (#[trigger] list[j]).text
}

/// `items` appended one by one with `push_new`.
pub open spec fn push_all_new(list: Seq<AnnotatedView>, items: Seq<AnnotatedView>) -> Seq<
    AnnotatedView,
>
    decreases items.len(),
{
    if items.len() == 0 {
        list
    } else {
        push_new(push_all_new(list, items.drop_last()), items.last())
    }
}

pub proof fn lemma_push_new_distinct(list: Seq<AnnotatedView>, c: AnnotatedView)
    requires
        distinct_texts(list),
    ensures
        distinct_texts(push_new(list, c)),
        list.len() <= push_new(list, c).len() <= list.len() + 1,
        has_text(push_new(list, c), c.text),
        forall|t: Seq<char>| has_text(list, t) ==> has_text(push_new(list, c), t),
        forall|t: Seq<char>| #[trigger]
            has_text(push_new(list, c), t) ==> has_text(list, t) || t == c.text,
        push_new(list, c).subrange(0, list.len() as int) == list,
{
    let r = push_new(list, c);
    if !has_text(list, c.text) {
        assert forall|t: Seq<char>| has_text(list, t) implies has_text(r, t) by {
            let i = choose|i: int| 0 <= i < list.len() && (#[trigger] list[i]).text == t;
            assert(r[i] == list[i]);
        }
        assert forall|t: Seq<char>| #[trigger] has_text(r, t) implies has_text(list, t) || t
            == c.text by {
            let i = choose|i: int| 0 <= i < r.len() && (#[trigger] r[i]).text == t;
            if i < list.len() {
                assert(list[i] == r[i]);
            }
        }
        assert(r[list.len() as int] == c);
    }
    assert(r.subrange(0, list.len() as int) =~= list);
}

pub proof fn lemma_push_all_new(list: Seq<AnnotatedView>, items: Seq<AnnotatedView>)
    requires
        distinct_texts(list),
    ensures
        distinct_texts(push_all_new(list, items)),
        list.len() <= push_all_new(list, items).len(),
        push_all_new(list, items).subrange(0, list.len() as int) == list,
        forall|i: int| 0 <= i < items.len() ==> has_text(push_all_new(list, items), #[trigger] items[i].text),
        forall|t: Seq<char>| has_text(list, t) ==> has_text(push_all_new(list, items), t),
    decreases items.len(),
{
    if items.len() > 0 {
        let prev = push_all_new(list, items.drop_last());
        lemma_push_all_new(list, items.drop_last());
        lemma_push_new_distinct(prev, items.last());
        assert forall|i: int| 0 <= i < items.len() implies has_text(
            push_all_new(list, items),
            #[trigger] items[i].text,
        ) by {
            if i < items.len() - 1 {
                assert(items.drop_last()[i] == items[i]);
            }
        }
        let r = push_all_new(list, items);
        assert(r.subrange(0, list.len() as int) =~= prev.subrange(0, list.len() as int));
    }
}

/// Collects candidates in order, keeping only the first candidate of each text.
pub struct CandidateBuilder {
    candidates: Vec<AnnotatedCandidate>,
}

impl View for CandidateBuilder {
    type V = Seq<AnnotatedView>;

    closed spec fn view(&self) -> Seq<AnnotatedView> {
        ann_views(self.candidates@)
    }
}

impl CandidateBuilder {
    pub fn new() -> (b: CandidateBuilder)
        ensures
            b@ == Seq::<AnnotatedView>::empty(),
    {
        let b = CandidateBuilder { candidates: Vec::new() };
        assert(b@ =~= Seq::<AnnotatedView>::empty());
        b
    }

    /// Whether a candidate with this text was already pushed.
    pub fn contains_text(&self, text: &str) -> (r: bool)
        ensures
            r == has_text(self@, text@),
    {
        let mut i: usize = 0;
        while i < self.candidates.len()
            invariant
                i <= self.candidates.len(),
                forall|j: int| 0 <= j < i ==> (#[trigger] self@[j]).text != text@,
            decreases self.candidates.len() - i,
        {
            if str_eq(self.candidates[i].text.as_str(), text) {
                assert(self@[i as int].text == text@);
                return true;
            }
            i = i + 1;
        }
        false
    }

    /// Push a candidate if its text hasn't been seen yet.
    pub fn push_if_new(&mut self, text: String, source: CandidateSource, reading: Option<String>)
        ensures
            final(self)@ == push_new(
                old(self)@,
                AnnotatedView { text: text@, source, reading: opt_view(reading) },
            ),
    {
        if !self.contains_text(text.as_str()) {
            self.candidates.push(AnnotatedCandidate { text, source, reading });
            assert(final(self)@ =~= old(self)@.push(
                AnnotatedView { text: text@, source, reading: opt_view(reading) },
            ));
        }
    }

    /// Push a pre-built `AnnotatedCandidate` if its text hasn't been seen yet.
    pub fn push_annotated_if_new(&mut self, ac: AnnotatedCandidate)
        ensures
            final(self)@ == push_new(old(self)@, ac@),
    {
        if !self.contains_text(ac.text.as_str()) {
            let ghost v = ac@;
            self.candidates.push(ac);
            assert(final(self)@ =~= old(self)@.push(v));
        }
    }

    pub fn len(&self) -> (n: usize)
        ensures
            n == self@.len(),
    {
        self.candidates.len()
    }

    pub fn is_empty(&self) -> (r: bool)
        ensures
            r == (self@.len() == 0),
    {
        self.candidates.len() == 0
    }

    pub fn into_candidates(self) -> (v: Vec<AnnotatedCandidate>)
        ensures
            ann_views(v@) == self@,
    {
        self.candidates
    }
}

// ---------------------------------------------------------------------------
// Merging model outputs
// ---------------------------------------------------------------------------

/// The views of a sequence of strings.
pub open spec fn str_views(s: Seq<String>) -> Seq<Seq<char>> {
    s.map_values(|x: String| x@)
}

/// The sequence with every element after its first occurrence removed.
pub open spec fn dedup(s: Seq<Seq<char>>) -> Seq<Seq<char>>
    decreases s.len(),
{
    if s.len() == 0 {
        s
    } else {
        let d = dedup(s.drop_last());
        if d.contains(s.last()) {
            d
        } else {
            d.push(s.last())
        }
    }
}

/// The first `n` elements (all of them if there are fewer).
pub open spec fn take_at_most<A>(s: Seq<A>, n: nat) -> Seq<A> {
    if s.len() <= n {
        s
    } else {
        s.take(n as int)
    }
}

pub proof fn lemma_dedup_prefix(s: Seq<Seq<char>>, i: int)
    requires
        0 <= i <= s.len(),
    ensures
        dedup(s.take(i)).len() <= dedup(s).len(),
        dedup(s).take(dedup(s.take(i)).len() as int) == dedup(s.take(i)),
    decreases s.len() - i,
{
    if i < s.len() {
        lemma_dedup_prefix(s, i + 1);
        assert(s.take(i + 1).drop_last() =~= s.take(i));
        let a = dedup(s.take(i));
        let b = dedup(s.take(i + 1));
        assert(b.take(a.len() as int) =~= a);
        assert(dedup(s).take(a.len() as int) =~= dedup(s).take(b.len() as int).take(
            a.len() as int,
        ));
    } else {
        assert(s.take(i) =~= s);
        assert(dedup(s).take(dedup(s).len() as int) =~= dedup(s));
    }
}

pub proof fn lemma_dedup_distinct(s: Seq<Seq<char>>)
    ensures
        dedup(s).no_duplicates(),
        forall|x: Seq<char>| dedup(s).contains(x) <==> s.contains(x),
    decreases s.len(),
{
    if s.len() > 0 {
        lemma_dedup_distinct(s.drop_last());
        let d = dedup(s.drop_last());
        assert forall|x: Seq<char>| dedup(s).contains(x) <==> s.contains(x) by {
            if s.contains(x) {
                let k = choose|k: int| 0 <= k < s.len() && s[k] == x;
                if k < s.len() - 1 {
                    assert(s.drop_last()[k] == x);
                    assert(s.drop_last().contains(x));
                    assert(d.contains(x));
                    if !d.contains(s.last()) {
                        let m = choose|m: int| 0 <= m < d.len() && d[m] == x;
                        assert(dedup(s)[m] == x);
                    }
                } else {
                    if !d.contains(s.last()) {
                        assert(dedup(s)[d.len() as int] == x);
                    }
                }
            }
            if dedup(s).contains(x) {
                let m = choose|m: int| 0 <= m < dedup(s).len() && dedup(s)[m] == x;
                if m < d.len() {
                    assert(d[m] == x);
                    assert(d.contains(x));
                    assert(s.drop_last().contains(x));
                    let k = choose|k: int| 0 <= k < s.drop_last().len() && s.drop_last()[k] == x;
                    assert(s[k] == x);
                } else {
                    assert(x == s.last());
                    assert(s[s.len() - 1] == x);
                }
            }
        }
        if !d.contains(s.last()) {
            assert forall|i: int, j: int| 0 <= i < dedup(s).len() && 0 <= j < dedup(s).len() && i != j
                implies dedup(s)[i] != dedup(s)[j] by {
                if i == d.len() {
                    assert(!d.contains(dedup(s)[j]) || j < d.len());
                    if j < d.len() { assert(d[j] == dedup(s)[j]); }
                } else if j == d.len() {
                    assert(d[i] == dedup(s)[i]);
                } else {
                    assert(d[i] == dedup(s)[i]);
                    assert(d[j] == dedup(s)[j]);
                }
            }
        }
    }
}

} // verus!
