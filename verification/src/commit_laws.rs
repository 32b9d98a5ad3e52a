//! What committing by digit or by typing, explicit conversion's model
//! candidates, and Delete do, stated over the engine's inputs and results.
use vstd::prelude::*;
use crate::candidate::{
    digit_target, distinct_texts, has_text, lemma_push_all_new, lemma_push_new_distinct, push_all_new,
    push_new, AnnotatedView, CandidateSource,
};
use crate::conversion::{
    commit_and_continue_post, conversion_candidates, dictionary_candidates, fallback, learning_exact_texts,
    model_annotated, model_candidates, of_source, select_by_digit_post,
};
use crate::cursor::delete_post;
use crate::dictionary::DictEntryView;
use crate::engine::{engine_wf, ActionView, EngineView, KanjiView, ResultView, StateView};
use crate::kana::{has_ascii_digit, to_katakana, to_kanji_digits};

verus! {

/// The actions commit exactly one text, `t`.
pub open spec fn commits_exactly(r: ResultView, t: Seq<char>) -> bool {
    &&& exists|k: int| 0 <= k < r.actions.len() && r.actions[k] == ActionView::Commit(t)
    &&& forall|k: int| 0 <= k < r.actions.len() && (#[trigger] r.actions[k]) is Commit ==> r.actions[k]
        == ActionView::Commit(t)
}

/// Picking a candidate with a digit commits exactly the text before a
/// converted selection followed by the picked candidate's text (just the
/// candidate when the whole text was converted).
pub proof fn law_digit_commits_before_and_candidate(e: EngineView, digit: nat, post: EngineView, r: ResultView)
    requires
        engine_wf(e),
        e.state is Conversion,
        digit_target(e.state->candidates, digit) is Some,
        select_by_digit_post(e, digit, post, r),
    ensures
        ({
            let l = e.state->candidates;
            let picked = l.candidates[digit_target(l, digit)->0 as int].text;
            commits_exactly(
                r,
                match e.remaining {
                    Some((before, _)) => before + picked,
                    None => picked,
                },
            )
        }),
{
    let l = e.state->candidates;
    let picked = l.candidates[digit_target(l, digit)->0 as int].text;
    let t = match e.remaining {
        Some((before, _)) => before + picked,
        None => picked,
    };
    match e.remaining {
        Some((before, after)) => {
            if after.len() == 0 {
                assert(r.actions[3] == ActionView::Commit(t));
            } else {
                assert(r.actions[0] == ActionView::Commit(t));
            }
        },
        None => {
            assert(r.actions[3] == ActionView::Commit(t));
        },
    }
    assert forall|k: int| 0 <= k < r.actions.len() && (#[trigger] r.actions[k]) is Commit implies r.actions[k]
        == ActionView::Commit(t) by {
        assert(0 <= k < 4);
    }
}

/// Typing a character while converting commits exactly the text before a
/// converted selection followed by the selected candidate's text, as the
/// first action, and the character starts new input.
pub proof fn law_typing_commits_before_and_selected(e: EngineView, ch: char, post: EngineView, r: ResultView)
    requires
        engine_wf(e),
        e.state is Conversion,
        commit_and_continue_post(e, ch, post, r),
    ensures
        ({
            let l = e.state->candidates;
            let selected = l.candidates[l.selected as int].text;
            let t = match e.remaining {
                Some((before, _)) => before + selected,
                None => selected,
            };
            &&& r.actions[0] == ActionView::Commit(t)
            &&& commits_exactly(r, t)
            &&& post.state is Composing
        }),
{
    let l = e.state->candidates;
    let selected = l.candidates[l.selected as int].text;
    let t = match e.remaining {
        Some((before, _)) => before + selected,
        None => selected,
    };
    assert(r.actions[0] == ActionView::Commit(t));
    assert forall|k: int| 0 <= k < r.actions.len() && (#[trigger] r.actions[k]) is Commit implies r.actions[k]
        == ActionView::Commit(t) by {
        assert(0 <= k < 4);
    }
}

proof fn lemma_model_annotated_has(m: Seq<Seq<char>>, reading_len: nat, t: Seq<char>)
    requires
        m.contains(t),
        t.len() <= reading_len,
    ensures
        exists|i: int| 0 <= i < model_annotated(m, reading_len).len() && (#[trigger] model_annotated(
            m,
            reading_len,
        )[i]).text == t,
    decreases m.len(),
{
    let a = model_annotated(m, reading_len);
    if m.last() == t {
        assert(a[a.len() - 1].text == t);
    } else {
        let k = choose|k: int| 0 <= k < m.len() && m[k] == t;
        assert(m.drop_last()[k] == t);
        lemma_model_annotated_has(m.drop_last(), reading_len, t);
        let b = model_annotated(m.drop_last(), reading_len);
        let i = choose|i: int| 0 <= i < b.len() && (#[trigger] b[i]).text == t;
        assert(a[i] == b[i]);
    }
}

/// Explicit conversion offers every model candidate that is no longer (in
/// characters) than the reading.
pub proof fn law_model_candidates_admitted(
    kanji: Option<KanjiView>,
    learning: Option<Seq<(Seq<char>, Seq<char>)>>,
    user: Option<Seq<DictEntryView>>,
    system: Option<Seq<DictEntryView>>,
    reading: Seq<char>,
    n: nat,
    t: Seq<char>,
)
    requires
        model_candidates(kanji, reading, n).contains(t),
        t.len() <= reading.len(),
    ensures
        has_text(conversion_candidates(kanji, learning, user, system, reading, n), t),
{
    let model = model_candidates(kanji, reading, n);
    assert(kanji is Some);
    let lt = learning_exact_texts(learning, reading);
    let dict = dictionary_candidates(user, system, reading, usize::MAX as nat);
    let items0 = lt.map_values(
        |x: Seq<char>| AnnotatedView { text: x, source: CandidateSource::Learning, reading: None },
    );
    assert(distinct_texts(Seq::<AnnotatedView>::empty()));
    lemma_push_all_new(Seq::empty(), items0);
    let b0 = push_all_new(Seq::empty(), items0);
    let d2 = of_source(dict, CandidateSource::UserDictionary);
    lemma_push_all_new(b0, d2);
    let b1 = push_all_new(b0, d2);
    let m = model_annotated(model, reading.len());
    lemma_model_annotated_has(model, reading.len(), t);
    let i = choose|i: int| 0 <= i < m.len() && (#[trigger] m[i]).text == t;
    lemma_push_all_new(b1, m);
    let b2 = push_all_new(b1, m);
    assert(has_text(b2, m[i].text));
    let d1 = of_source(dict, CandidateSource::Dictionary);
    lemma_push_all_new(b2, d1);
    let b3 = push_all_new(b2, d1);
    let b35 = push_new(b3, fallback(reading));
    lemma_push_new_distinct(b3, fallback(reading));
    let b4 = push_new(b35, fallback(to_katakana(reading)));
    lemma_push_new_distinct(b35, fallback(to_katakana(reading)));
    if has_ascii_digit(reading) {
        lemma_push_new_distinct(b4, fallback(to_kanji_digits(reading)));
    }
}

/// With no romaji pending and the caret before the end, Delete removes
/// exactly the character at the caret and leaves the caret where it was.
pub proof fn law_delete_removes_char_at_caret(e: EngineView, post: EngineView, r: ResultView)
    requires
        engine_wf(e),
        e.romaji.buffer.len() == 0,
        e.cursor < e.text.len(),
        delete_post(e, post, r),
    ensures
        post.text.len() + 1 == e.text.len(),
        post.cursor == e.cursor,
        forall|j: int| 0 <= j < e.cursor ==> #[trigger] post.text[j] == e.text[j],
        forall|j: int| e.cursor <= j < post.text.len() ==> #[trigger] post.text[j] == e.text[j + 1],
{
}

} // verus!
