//! Properties of candidate gathering, learning, the conversion session and
//! caret movement, proved over the specifications the functions' contracts use.
use vstd::prelude::*;
use vstd::multiset::Multiset;
use crate::candidate::{
    distinct_texts, has_text, lemma_push_all_new, lemma_push_new_distinct, push_all_new, push_new,
    AnnotatedView,
};
use crate::candidate::{dedup, lemma_dedup_prefix, take_at_most, CandidateSource};
use crate::conversion::{
    as_annotated, assemble_candidates, conversion_candidates, dictionary_candidates, fallback,
    insert_pos, learned, learning_exact_texts, model_annotated, model_candidates, of_source,
    push_all_new_limited, sort_by_score, start_candidates, with_previous_suggestion,
};
use crate::cursor::{caret_moved, left_of, right_of, selection_moved};
use crate::dictionary::{entries_for, DictEntryView};
use crate::input_buffer::spec_selection;
use crate::romaji::{is_partial, resolve};
use crate::conversion::{
    after_flush, cancel_result, cancelled, commit_conversion_post, composing, conversion_split,
    start_conversion_post, to_candidate_views,
};
use crate::engine::{
    clear_actions, engine_wf, ActionView, EngineView, InputMode, KanjiView, ResultView, StateView,
};
use crate::input::key_post;
use crate::keys::KeyEvent;
use crate::kana::{has_ascii_digit, to_katakana, to_kanji_digits};
use crate::learning::{surfaces_for, without};

verus! {

// ---------------------------------------------------------------------------
// Dictionary ordering
// ---------------------------------------------------------------------------

/// Scores never decrease along the sequence.
pub open spec fn sorted_by_score(s: Seq<DictEntryView>) -> bool {
    forall|i: int, j: int| 0 <= i < j < s.len() ==> (#[trigger] s[i]).score <= (#[trigger] s[j]).score
}

proof fn lemma_insert_pos(s: Seq<DictEntryView>, x: DictEntryView)
    ensures
        insert_pos(s, x) <= s.len(),
        forall|i: int| 0 <= i < insert_pos(s, x) ==> (#[trigger] s[i]).score <= x.score,
        insert_pos(s, x) < s.len() ==> s[insert_pos(s, x) as int].score > x.score,
    decreases s.len(),
{
    if s.len() > 0 && s[0].score <= x.score {
        lemma_insert_pos(s.drop_first(), x);
        assert forall|i: int| 0 <= i < insert_pos(s, x) implies (#[trigger] s[i]).score <= x.score by {
            if i > 0 {
                assert(s[i] == s.drop_first()[i - 1]);
            }
        }
    }
}

proof fn lemma_sorted_insert(s: Seq<DictEntryView>, x: DictEntryView)
    requires
        sorted_by_score(s),
    ensures
        sorted_by_score(s.insert(insert_pos(s, x) as int, x)),
        s.insert(insert_pos(s, x) as int, x).to_multiset() == s.to_multiset().insert(x),
{
    broadcast use vstd::seq_lib::group_to_multiset_ensures;

    let k = insert_pos(s, x) as int;
    lemma_insert_pos(s, x);
    let t = s.insert(k, x);
    assert forall|i: int, j: int| 0 <= i < j < t.len() implies (#[trigger] t[i]).score <= (#[trigger] t[j]).score by {
        if j < k {
            assert(t[i] == s[i] && t[j] == s[j]);
        } else if j == k {
            assert(t[i] == s[i]);
        } else if i < k {
            assert(t[i] == s[i] && t[j] == s[j - 1]);
            assert(s[k].score > x.score);
        } else if i == k {
            assert(t[j] == s[j - 1]);
            assert(s[k].score > x.score);
            if j - 1 > k {
                assert(s[k].score <= s[j - 1].score);
            }
        } else {
            assert(t[i] == s[i - 1] && t[j] == s[j - 1]);
        }
    }
    assert(t.remove(k) =~= s);
    assert(t[k] == x);
    assert(t.contains(x));
    assert(t.to_multiset() =~= s.to_multiset().insert(x));
}

/// Sorting dictionary entries by score orders them by ascending score and
/// keeps exactly the same entries.
pub proof fn law_sort_by_score(s: Seq<DictEntryView>)
    ensures
        sorted_by_score(sort_by_score(s)),
        sort_by_score(s).to_multiset() == s.to_multiset(),
        sort_by_score(s).len() == s.len(),
    decreases s.len(),
{
    broadcast use vstd::seq_lib::group_to_multiset_ensures;

    if s.len() > 0 {
        let prev = sort_by_score(s.drop_last());
        law_sort_by_score(s.drop_last());
        lemma_sorted_insert(prev, s.last());
        lemma_insert_pos(prev, s.last());
        assert(s.drop_last().push(s.last()) =~= s);
    } else {
        assert(s.to_multiset() =~= Multiset::<DictEntryView>::empty());
    }
}

/// Appending with a limit gives distinct texts and never goes past the limit.
pub proof fn law_push_all_new_limited(list: Seq<AnnotatedView>, items: Seq<AnnotatedView>, limit: nat)
    requires
        distinct_texts(list),
        list.len() <= limit,
    ensures
        distinct_texts(push_all_new_limited(list, items, limit)),
        push_all_new_limited(list, items, limit).len() <= limit,
        list.len() <= push_all_new_limited(list, items, limit).len(),
        push_all_new_limited(list, items, limit).subrange(0, list.len() as int) == list,
    decreases items.len(),
{
    if items.len() > 0 {
        let acc = push_all_new_limited(list, items.drop_last(), limit);
        law_push_all_new_limited(list, items.drop_last(), limit);
        if acc.len() < limit {
            lemma_push_new_distinct(acc, items.last());
            let r = push_new(acc, items.last());
            assert(r.subrange(0, list.len() as int) =~= acc.subrange(0, list.len() as int));
        }
    }
}

/// Dictionary candidates hold each text once and no more than the limit.
pub proof fn law_dictionary_candidates(
    user: Option<Seq<DictEntryView>>,
    system: Option<Seq<DictEntryView>>,
    reading: Seq<char>,
    limit: nat,
)
    ensures
        distinct_texts(dictionary_candidates(user, system, reading, limit)),
        dictionary_candidates(user, system, reading, limit).len() <= limit,
{
    let u = match user {
        Some(d) => as_annotated(entries_for(d, reading), CandidateSource::UserDictionary),
        None => Seq::empty(),
    };
    let s = match system {
        Some(d) => as_annotated(sort_by_score(entries_for(d, reading)), CandidateSource::Dictionary),
        None => Seq::empty(),
    };
    law_push_all_new_limited(Seq::empty(), u + s, limit);
}

// ---------------------------------------------------------------------------
// Conversion candidates
// ---------------------------------------------------------------------------

proof fn lemma_empty_distinct()
    ensures
        distinct_texts(Seq::<AnnotatedView>::empty()),
{
}

/// The first item pushed into an empty list stays first.
proof fn lemma_push_all_new_first(items: Seq<AnnotatedView>)
    requires
        items.len() > 0,
    ensures
        push_all_new(Seq::empty(), items).len() > 0,
        push_all_new(Seq::empty(), items)[0] == items[0],
    decreases items.len(),
{
    if items.len() == 1 {
        assert(push_all_new(Seq::<AnnotatedView>::empty(), items.drop_last()) =~= Seq::<AnnotatedView>::empty());
    } else {
        lemma_push_all_new_first(items.drop_last());
        assert(items.drop_last()[0] == items[0]);
    }
}

/// The candidates that explicit conversion offers, before and after the
/// learned texts, under the engine's setup: each text once, the reading among them.
pub proof fn law_conversion_candidates_distinct(
    kanji: Option<KanjiView>,
    learning: Option<Seq<(Seq<char>, Seq<char>)>>,
    user: Option<Seq<DictEntryView>>,
    system: Option<Seq<DictEntryView>>,
    reading: Seq<char>,
    n: nat,
)
    ensures
        distinct_texts(conversion_candidates(kanji, learning, user, system, reading, n)),
        has_text(conversion_candidates(kanji, learning, user, system, reading, n), reading),
{
    crate::conversion::lemma_conversion_candidates_nonempty(kanji, learning, user, system, reading, n);
    if kanji is Some {
        lemma_assembled_distinct(
            reading,
            learning_exact_texts(learning, reading),
            model_candidates(kanji, reading, n),
            dictionary_candidates(user, system, reading, usize::MAX as nat),
        );
    }
}

proof fn lemma_assembled_distinct(
    reading: Seq<char>,
    learning: Seq<Seq<char>>,
    model: Seq<Seq<char>>,
    dict: Seq<AnnotatedView>,
)
    ensures
        distinct_texts(assemble_candidates(reading, learning, model, dict)),
        learning.len() > 0 ==> assemble_candidates(reading, learning, model, dict)[0].text == learning[0],
{
    let items0 = learning.map_values(
        |t: Seq<char>| AnnotatedView { text: t, source: CandidateSource::Learning, reading: None },
    );
    lemma_empty_distinct();
    let b0 = push_all_new(Seq::empty(), items0);
    lemma_push_all_new(Seq::empty(), items0);
    let b1 = push_all_new(b0, of_source(dict, CandidateSource::UserDictionary));
    lemma_push_all_new(b0, of_source(dict, CandidateSource::UserDictionary));
    let b2 = push_all_new(b1, model_annotated(model, reading.len()));
    lemma_push_all_new(b1, model_annotated(model, reading.len()));
    let b3 = push_all_new(b2, of_source(dict, CandidateSource::Dictionary));
    lemma_push_all_new(b2, of_source(dict, CandidateSource::Dictionary));
    let b35 = push_new(b3, fallback(reading));
    lemma_push_new_distinct(b3, fallback(reading));
    let b4 = push_new(b35, fallback(to_katakana(reading)));
    lemma_push_new_distinct(b35, fallback(to_katakana(reading)));
    if has_ascii_digit(reading) {
        lemma_push_new_distinct(b4, fallback(to_kanji_digits(reading)));
    }
    if learning.len() > 0 {
        lemma_push_all_new_first(items0);
        let r = assemble_candidates(reading, learning, model, dict);
        assert(b0.subrange(0, 1)[0] == b0[0]);
        assert(b1.subrange(0, b0.len() as int)[0] == b0[0]);
        assert(b2.subrange(0, b1.len() as int)[0] == b0[0]);
        assert(b3.subrange(0, b2.len() as int)[0] == b0[0]);
        assert(b35.subrange(0, b3.len() as int)[0] == b0[0]);
        assert(b4.subrange(0, b35.len() as int)[0] == b0[0]);
        if has_ascii_digit(reading) {
            assert(r.subrange(0, b4.len() as int)[0] == b0[0]);
        }
        assert(r[0] == b0[0]);
    }
}

/// The candidates a conversion offers hold each text once and the reading among them.
pub proof fn law_start_candidates_distinct(e: EngineView, reading: Seq<char>)
    ensures
        distinct_texts(start_candidates(e, reading)),
        has_text(start_candidates(e, reading), reading),
        start_candidates(e, reading).len() > 0,
{
    let c = conversion_candidates(e.kanji, e.learning, e.user_dict, e.system_dict, reading, e.config.num_candidates as nat);
    law_conversion_candidates_distinct(e.kanji, e.learning, e.user_dict, e.system_dict, reading, e.config.num_candidates as nat);
    let r = with_previous_suggestion(c, e.live, reading);
    if r != c {
        let x = AnnotatedView { text: e.live, source: CandidateSource::Model, reading: None };
        assert(r == seq![x] + c);
        assert forall|i: int, j: int| 0 <= i < r.len() && 0 <= j < r.len() && i != j implies (#[trigger] r[i]).text
            != (#[trigger] r[j]).text by {
            if i == 0 {
                assert(r[j] == c[j - 1]);
            } else if j == 0 {
                assert(r[i] == c[i - 1]);
            } else {
                assert(r[i] == c[i - 1] && r[j] == c[j - 1]);
            }
        }
        let k = choose|k: int| 0 <= k < c.len() && (#[trigger] c[k]).text == reading;
        assert(r[k + 1] == c[k]);
    }
}

// ---------------------------------------------------------------------------
// Learning
// ---------------------------------------------------------------------------

proof fn lemma_surfaces_for_front(p: (Seq<char>, Seq<char>), l: Seq<(Seq<char>, Seq<char>)>, r: Seq<char>)
    ensures
        surfaces_for(seq![p] + l, r) == (if p.0 == r { seq![p.1] } else { Seq::empty() }) + surfaces_for(l, r),
    decreases l.len(),
{
    if l.len() == 0 {
        let head: Seq<Seq<char>> = if p.0 == r { seq![p.1] } else { Seq::empty() };
        assert(seq![p] + l =~= seq![p]);
        assert(seq![p].drop_last() =~= Seq::<(Seq<char>, Seq<char>)>::empty());
        assert(surfaces_for(Seq::<(Seq<char>, Seq<char>)>::empty(), r) =~= Seq::<Seq<char>>::empty());
        assert(surfaces_for(seq![p], r) =~= head);
        assert(head + surfaces_for(l, r) =~= head);
    } else {
        lemma_surfaces_for_front(p, l.drop_last(), r);
        assert((seq![p] + l).drop_last() =~= seq![p] + l.drop_last());
        assert((seq![p] + l).last() == l.last());
        assert(surfaces_for(seq![p] + l, r) =~= (if p.0 == r { seq![p.1] } else { Seq::empty() }) + surfaces_for(l, r));
    }
}

proof fn lemma_without_front(p: (Seq<char>, Seq<char>), l: Seq<(Seq<char>, Seq<char>)>, r: Seq<char>, s: Seq<char>)
    ensures
        without(seq![p] + l, r, s) == (if p == (r, s) { Seq::empty() } else { seq![p] }) + without(l, r, s),
    decreases l.len(),
{
    if l.len() == 0 {
        let head: Seq<(Seq<char>, Seq<char>)> = if p == (r, s) { Seq::empty() } else { seq![p] };
        assert(seq![p] + l =~= seq![p]);
        assert(seq![p].drop_last() =~= Seq::<(Seq<char>, Seq<char>)>::empty());
        assert(without(Seq::<(Seq<char>, Seq<char>)>::empty(), r, s) =~= Seq::<(Seq<char>, Seq<char>)>::empty());
        assert(without(seq![p], r, s) =~= head);
        assert(head + without(l, r, s) =~= head);
    } else {
        lemma_without_front(p, l.drop_last(), r, s);
        assert((seq![p] + l).drop_last() =~= seq![p] + l.drop_last());
        assert((seq![p] + l).last() == l.last());
        assert(without(seq![p] + l, r, s) =~= (if p == (r, s) { Seq::empty() } else { seq![p] }) + without(l, r, s));
    }
}

proof fn lemma_without_idempotent(l: Seq<(Seq<char>, Seq<char>)>, r: Seq<char>, s: Seq<char>)
    ensures
        without(without(l, r, s), r, s) == without(l, r, s),
    decreases l.len(),
{
    if l.len() > 0 {
        lemma_without_idempotent(l.drop_last(), r, s);
        let w = without(l.drop_last(), r, s);
        if l.last() != (r, s) {
            assert(w.push(l.last()).drop_last() =~= w);
        }
    }
}

/// After a choice is remembered, its surface is the first one remembered
/// for its reading; remembering the same choice again changes nothing.
pub proof fn law_learning_record(l: Seq<(Seq<char>, Seq<char>)>, r: Seq<char>, s: Seq<char>)
    ensures
        surfaces_for(seq![(r, s)] + without(l, r, s), r).len() > 0,
        surfaces_for(seq![(r, s)] + without(l, r, s), r)[0] == s,
        seq![(r, s)] + without(seq![(r, s)] + without(l, r, s), r, s) == seq![(r, s)] + without(l, r, s),
{
    lemma_surfaces_for_front((r, s), without(l, r, s), r);
    lemma_without_front((r, s), without(l, r, s), r, s);
    lemma_without_idempotent(l, r, s);
    assert(Seq::<(Seq<char>, Seq<char>)>::empty() + without(l, r, s) =~= without(l, r, s));
}

proof fn lemma_dedup_first(s: Seq<Seq<char>>)
    requires
        s.len() > 0,
    ensures
        dedup(s).len() > 0,
        dedup(s)[0] == s[0],
{
    lemma_dedup_prefix(s, 1);
    assert(s.take(1) =~= seq![s[0]]);
    assert(s.take(1).drop_last() =~= Seq::<Seq<char>>::empty());
    assert(dedup(Seq::<Seq<char>>::empty()) =~= Seq::<Seq<char>>::empty());
    assert(dedup(s.take(1)) =~= seq![s[0]]);
}

/// With a model available, what was last chosen for a reading is the first
/// candidate the next conversion of that reading gathers.
pub proof fn law_learned_choice_offered_first(
    kanji: Option<KanjiView>,
    l: Seq<(Seq<char>, Seq<char>)>,
    user: Option<Seq<DictEntryView>>,
    system: Option<Seq<DictEntryView>>,
    reading: Seq<char>,
    surface: Seq<char>,
    n: nat,
)
    requires
        kanji is Some,
    ensures
        conversion_candidates(kanji, learned(Some(l), Some(reading), surface), user, system, reading, n)[0].text
            == surface,
{
    let l2 = seq![(reading, surface)] + without(l, reading, surface);
    law_learning_record(l, reading, surface);
    let sf = surfaces_for(l2, reading);
    lemma_dedup_first(sf);
    let texts = learning_exact_texts(Some(l2), reading);
    assert(texts == take_at_most(dedup(sf), crate::conversion::MAX_LEARNING_CANDIDATES as nat));
    assert(texts[0] == surface);
    lemma_assembled_distinct(
        reading,
        texts,
        model_candidates(kanji, reading, n),
        dictionary_candidates(user, system, reading, usize::MAX as nat),
    );
}

// ---------------------------------------------------------------------------
// The conversion session
// ---------------------------------------------------------------------------

/// No action of the result commits text.
pub open spec fn commits_nothing(r: ResultView) -> bool {
    forall|i: int| 0 <= i < r.actions.len() ==> !(#[trigger] r.actions[i] is Commit)
}

proof fn lemma_reading_within(e: EngineView)
    requires
        engine_wf(e),
    ensures
        engine_wf(after_flush(e)),
        conversion_split(after_flush(e)).0.len() <= after_flush(e).text.len(),
        conversion_split(after_flush(e)).1 matches Some((b, a)) ==> after_flush(e).text
            == b + conversion_split(after_flush(e)).0 + a,
{
    let f = after_flush(e);
    match crate::input_buffer::spec_selection(f.anchor, f.cursor as usize) {
        Some((s, x)) => {
            assert(f.text =~= f.text.subrange(0, s as int) + f.text.subrange(s as int, x as int)
                + f.text.subrange(x as int, f.text.len() as int));
        },
        None => {},
    }
}

/// Cancelling a conversion right after starting it gives back the composed
/// text (with pending romaji settled into it), caret at its end, and commits nothing.
pub proof fn law_cancel_after_start_restores_text(e: EngineView, p1: EngineView, r1: ResultView)
    requires
        engine_wf(e),
        start_conversion_post(e, p1, r1),
        conversion_split(after_flush(e)).0.len() > 0,
    ensures
        p1.state is Conversion,
        cancelled(p1).state is Composing,
        cancelled(p1).text == after_flush(e).text,
        cancelled(p1).cursor == after_flush(e).text.len(),
        cancelled(p1).remaining is None,
        commits_nothing(cancel_result(p1)),
{
    lemma_reading_within(e);
    law_start_candidates_distinct(e, conversion_split(after_flush(e)).0);
    let r = cancel_result(p1);
    assert forall|i: int| 0 <= i < r.actions.len() implies !(#[trigger] r.actions[i] is Commit) by {
        assert(0 <= i < 3);
    }
}

/// Committing a conversion of the whole composed text right after starting
/// it commits the first candidate offered and empties the engine.
pub proof fn law_commit_after_start_commits_first(
    e: EngineView,
    p1: EngineView,
    r1: ResultView,
    p2: EngineView,
    r2: ResultView,
)
    requires
        engine_wf(e),
        start_conversion_post(e, p1, r1),
        conversion_split(after_flush(e)).0.len() > 0,
        conversion_split(after_flush(e)).1 is None,
        start_candidates(e, conversion_split(after_flush(e)).0)[0].text.len() > 0,
        commit_conversion_post(p1, p2, r2),
    ensures
        r2.actions == clear_actions().push(
            ActionView::Commit(start_candidates(e, conversion_split(after_flush(e)).0)[0].text),
        ),
        p2.state is Empty,
        p2.text.len() == 0,
{
    let reading = conversion_split(after_flush(e)).0;
    lemma_reading_within(e);
    law_start_candidates_distinct(e, reading);
    let cands = start_candidates(e, reading);
    assert(to_candidate_views(cands, reading)[0].text == cands[0].text);
}

/// Committing a converted selection right after starting puts the first
/// candidate between the text before and after the selection, and composing
/// goes on with the caret at the end; nothing is committed yet.
pub proof fn law_commit_after_start_bakes_selection(
    e: EngineView,
    p1: EngineView,
    r1: ResultView,
    p2: EngineView,
    r2: ResultView,
)
    requires
        engine_wf(e),
        start_conversion_post(e, p1, r1),
        conversion_split(after_flush(e)).0.len() > 0,
        conversion_split(after_flush(e)).1 is Some,
        start_candidates(e, conversion_split(after_flush(e)).0)[0].text.len() > 0,
        commit_conversion_post(p1, p2, r2),
    ensures
        ({
            let (before, after) = conversion_split(after_flush(e)).1->0;
            p2.text == before + start_candidates(e, conversion_split(after_flush(e)).0)[0].text + after
        }),
        p2.state is Composing,
        p2.cursor == p2.text.len(),
        commits_nothing(r2),
{
    let reading = conversion_split(after_flush(e)).0;
    lemma_reading_within(e);
    law_start_candidates_distinct(e, reading);
    let cands = start_candidates(e, reading);
    assert(to_candidate_views(cands, reading)[0].text == cands[0].text);
    assert forall|i: int| 0 <= i < r2.actions.len() implies !(#[trigger] r2.actions[i] is Commit) by {
        assert(0 <= i < 3);
    }
}

/// Without a kana-kanji model and with no suggestion shown, conversion
/// offers the reading alone, so committing it commits the reading.
pub proof fn law_without_model_commits_reading(
    e: EngineView,
    p1: EngineView,
    r1: ResultView,
    p2: EngineView,
    r2: ResultView,
)
    requires
        engine_wf(e),
        e.kanji is None,
        e.live.len() == 0,
        start_conversion_post(e, p1, r1),
        conversion_split(after_flush(e)).0.len() > 0,
        conversion_split(after_flush(e)).1 is None,
        commit_conversion_post(p1, p2, r2),
    ensures
        start_candidates(e, conversion_split(after_flush(e)).0) == seq![fallback(conversion_split(after_flush(e)).0)],
        r2.actions == clear_actions().push(ActionView::Commit(conversion_split(after_flush(e)).0)),
        p2.state is Empty,
{
    let reading = conversion_split(after_flush(e)).0;
    assert(start_candidates(e, reading) == seq![fallback(reading)]);
    law_commit_after_start_commits_first(e, p1, r1, p2, r2);
}

// ---------------------------------------------------------------------------
// Caret and selection
// ---------------------------------------------------------------------------

/// With no romaji pending, moving the caret left and then right (or right
/// and then left) puts it back where it was, over the same text and with no selection.
pub proof fn law_caret_left_right_inverse(e: EngineView)
    requires
        engine_wf(e),
        e.romaji.buffer.len() == 0,
    ensures
        e.cursor > 0 ==> ({
            let e1 = composing(caret_moved(e, left_of(e)));
            let e2 = composing(caret_moved(e1, right_of(e1)));
            e2.cursor == e.cursor && e2.text == e.text && e2.anchor is None
        }),
        e.cursor < e.text.len() ==> ({
            let e1 = composing(caret_moved(e, right_of(e)));
            let e2 = composing(caret_moved(e1, left_of(e1)));
            e2.cursor == e.cursor && e2.text == e.text && e2.anchor is None
        }),
{
}

/// Shift-moving the caret selects the text between where the selection
/// began and the new caret position; a selection already begun keeps its start.
pub proof fn law_shift_selection_range(e: EngineView, pos: nat)
    requires
        engine_wf(e),
        e.romaji.buffer.len() == 0,
        e.text.len() <= usize::MAX,
        pos <= e.text.len(),
    ensures
        ({
            let start = match e.anchor {
                Some(a) => a as nat,
                None => e.cursor,
            };
            let g = selection_moved(e, pos);
            &&& g.text == e.text
            &&& g.anchor == Some(start as usize)
            &&& start < pos ==> spec_selection(g.anchor, g.cursor as usize) == Some((start as usize, pos as usize))
            &&& pos < start ==> spec_selection(g.anchor, g.cursor as usize) == Some((pos as usize, start as usize))
            &&& pos == start ==> spec_selection(g.anchor, g.cursor as usize) is None
        }),
{
}

// ---------------------------------------------------------------------------
// Romaji
// ---------------------------------------------------------------------------

/// Whatever is typed, what stays pending is nothing or the start of a
/// syllable, at most two letters long.
pub proof fn law_romaji_pending_is_partial(s: Seq<char>)
    ensures
        resolve(s).1.len() == 0 || is_partial(resolve(s).1),
        resolve(s).1.len() <= 2,
    decreases s.len(),
{
    if s.len() > 0 && !(crate::romaji::syllable(s) is Some) && !is_partial(s) {
        law_romaji_pending_is_partial(s.drop_first());
    }
}

/// A lone pending `n` becomes `ん` when conversion starts: with the caret at
/// the end of the composed text, the reading converted is that text followed by `ん`.
pub proof fn law_pending_n_becomes_n_kana(e: EngineView)
    requires
        engine_wf(e),
        e.romaji.buffer == seq!['n'],
        e.cursor == e.text.len(),
    ensures
        conversion_split(after_flush(e)).0 == e.text.push('\u{3093}'),
        conversion_split(after_flush(e)).1 is None,
{
    let f = after_flush(e);
    assert(crate::romaji::flushed(e.romaji.buffer) == seq!['\u{3093}']);
    assert(f.text =~= e.text.push('\u{3093}'));
}

// ---------------------------------------------------------------------------
// Input mode
// ---------------------------------------------------------------------------

/// The empty engine types hiragana.
pub open spec fn empty_in_hiragana(e: EngineView) -> bool {
    e.state is Empty ==> e.mode == InputMode::Hiragana
}

/// Every key that leaves the engine empty leaves it in hiragana mode, so
/// alphabet mode started with Shift ends once its text is committed or dropped.
#[verifier::spinoff_prover]
pub proof fn law_empty_engine_types_hiragana(e: EngineView, key: KeyEvent, post: EngineView, r: ResultView)
    requires
        engine_wf(e),
        empty_in_hiragana(e),
        key_post(e, key, post, r),
    ensures
        empty_in_hiragana(post),
{
    if key.is_press {
        match e.state {
            StateView::Empty => {},
            StateView::Composing { .. } => {
                lemma_composing_key_mode(e, key, post, r);
            },
            StateView::Conversion { .. } => {
                if key.modifiers.shift_key && !key.modifiers.control_key && !key.modifiers.alt_key
                    && crate::input::is_arrow(key.keysym) {
                } else if crate::input::ctrl_char(key, 'h') || crate::input::ctrl_char(key, 'u')
                    || crate::input::ctrl_char(key, 'i') || (key.modifiers.control_key && !key.modifiers.alt_key
                    && key.keysym == crate::keys::Keysym::DELETE) {
                } else {
                    lemma_conversion_key_mode(e, key, post, r);
                }
            },
        }
    }
}

#[verifier::spinoff_prover]
proof fn lemma_composing_key_mode(e: EngineView, key: KeyEvent, post: EngineView, r: ResultView)
    requires
        engine_wf(e),
        e.state is Composing,
        crate::input::composing_key_post(e, key, post, r),
    ensures
        empty_in_hiragana(post),
{
    if crate::input::ctrl_char(key, 'h') || crate::input::ctrl_char(key, 'u') || crate::input::ctrl_char(key, 'i')
        || key.modifiers.control_key || key.modifiers.alt_key {
    } else {
        match key.keysym {
            crate::keys::Keysym::SPACE => {},
            crate::keys::Keysym::TAB => {},
            crate::keys::Keysym::DOWN => {},
            _ => {},
        }
    }
}

#[verifier::spinoff_prover]
proof fn lemma_conversion_key_mode(e: EngineView, key: KeyEvent, post: EngineView, r: ResultView)
    requires
        engine_wf(e),
        e.state is Conversion,
        crate::conversion::conversion_key_post(e, key, post, r),
    ensures
        empty_in_hiragana(post),
{
    match key.keysym {
        crate::keys::Keysym::RETURN => {},
        crate::keys::Keysym::ESCAPE => {},
        crate::keys::Keysym::BACKSPACE => {},
        _ => {},
    }
}

// ---------------------------------------------------------------------------
// Forgetting a learned choice
// ---------------------------------------------------------------------------

proof fn lemma_without_surfaces(l: Seq<(Seq<char>, Seq<char>)>, r: Seq<char>, s: Seq<char>)
    ensures
        !surfaces_for(without(l, r, s), r).contains(s),
        forall|t: Seq<char>| t != s ==> (#[trigger] surfaces_for(without(l, r, s), r).contains(t)
            <==> surfaces_for(l, r).contains(t)),
    decreases l.len(),
{
    if l.len() > 0 {
        lemma_without_surfaces(l.drop_last(), r, s);
        let w = without(l.drop_last(), r, s);
        if l.last() != (r, s) {
            assert(w.push(l.last()).drop_last() =~= w);
        }
        let a = surfaces_for(without(l, r, s), r);
        let b = surfaces_for(w, r);
        let c = surfaces_for(l.drop_last(), r);
        let d = surfaces_for(l, r);
        assert forall|t: Seq<char>| t != s implies (#[trigger] a.contains(t) <==> d.contains(t)) by {
            if a.contains(t) {
                let i = choose|i: int| 0 <= i < a.len() && a[i] == t;
                if i < b.len() {
                    assert(b[i] == t);
                    assert(b.contains(t));
                    assert(c.contains(t));
                    let k = choose|k: int| 0 <= k < c.len() && c[k] == t;
                    assert(d[k] == t);
                } else {
                    assert(d[c.len() as int] == t);
                }
            }
            if d.contains(t) {
                let i = choose|i: int| 0 <= i < d.len() && d[i] == t;
                if i < c.len() {
                    assert(c[i] == t);
                    assert(c.contains(t));
                    assert(b.contains(t));
                    let k = choose|k: int| 0 <= k < b.len() && b[k] == t;
                    assert(a[k] == t);
                } else {
                    assert(a[b.len() as int] == t);
                }
            }
        }
        if a.contains(s) {
            let i = choose|i: int| 0 <= i < a.len() && a[i] == s;
            if i < b.len() {
                assert(b[i] == s);
            }
        }
    }
}

/// After a choice is forgotten, its surface is no longer remembered for its
/// reading; the other surfaces remembered for it stay.
pub proof fn law_learning_forget(l: Seq<(Seq<char>, Seq<char>)>, r: Seq<char>, s: Seq<char>)
    ensures
        !surfaces_for(without(l, r, s), r).contains(s),
        forall|t: Seq<char>| t != s ==> (#[trigger] surfaces_for(without(l, r, s), r).contains(t)
            <==> surfaces_for(l, r).contains(t)),
{
    lemma_without_surfaces(l, r, s);
}

// ---------------------------------------------------------------------------
// Which candidates explicit conversion admits
// ---------------------------------------------------------------------------

proof fn lemma_push_all_new_all(list: Seq<AnnotatedView>, items: Seq<AnnotatedView>, p: spec_fn(AnnotatedView) -> bool)
    requires
        forall|i: int| 0 <= i < list.len() ==> p(#[trigger] list[i]),
        forall|i: int| 0 <= i < items.len() ==> p(#[trigger] items[i]),
    ensures
        forall|i: int| 0 <= i < push_all_new(list, items).len() ==> p(#[trigger] push_all_new(list, items)[i]),
    decreases items.len(),
{
    if items.len() > 0 {
        assert forall|i: int| 0 <= i < items.drop_last().len() implies p(#[trigger] items.drop_last()[i]) by {
            assert(items.drop_last()[i] == items[i]);
        }
        lemma_push_all_new_all(list, items.drop_last(), p);
        let prev = push_all_new(list, items.drop_last());
        assert(p(items[items.len() - 1]));
        let r = push_new(prev, items.last());
        assert forall|i: int| 0 <= i < r.len() implies p(#[trigger] r[i]) by {
            if i < prev.len() {
                assert(r[i] == prev[i]);
            }
        }
    }
}

proof fn lemma_model_annotated(m: Seq<Seq<char>>, reading_len: nat)
    ensures
        forall|i: int| 0 <= i < model_annotated(m, reading_len).len() ==> (#[trigger] model_annotated(m, reading_len)[i]).source
            == CandidateSource::Model && model_annotated(m, reading_len)[i].text.len() <= reading_len,
    decreases m.len(),
{
    if m.len() > 0 {
        lemma_model_annotated(m.drop_last(), reading_len);
    }
}

proof fn lemma_of_source(s: Seq<AnnotatedView>, src: CandidateSource)
    ensures
        forall|i: int| 0 <= i < of_source(s, src).len() ==> (#[trigger] of_source(s, src)[i]).source == src,
    decreases s.len(),
{
    if s.len() > 0 {
        lemma_of_source(s.drop_last(), src);
    }
}

/// Whether a candidate is admissible for explicit conversion of `reading`
/// with the learned surfaces `learned_texts`.
pub open spec fn admissible(c: AnnotatedView, reading: Seq<char>, learned_texts: Seq<Seq<char>>) -> bool {
    &&& (c.source == CandidateSource::Model ==> c.text.len() <= reading.len())
    &&& (c.source == CandidateSource::Learning ==> learned_texts.contains(c.text))
}

proof fn lemma_assembled_admissible(
    reading: Seq<char>,
    learning: Seq<Seq<char>>,
    model: Seq<Seq<char>>,
    dict: Seq<AnnotatedView>,
)
    ensures
        forall|i: int| 0 <= i < assemble_candidates(reading, learning, model, dict).len() ==> admissible(
            #[trigger] assemble_candidates(reading, learning, model, dict)[i],
            reading,
            learning,
        ),
{
    let p = |c: AnnotatedView| admissible(c, reading, learning);
    let items0 = learning.map_values(
        |t: Seq<char>| AnnotatedView { text: t, source: CandidateSource::Learning, reading: None },
    );
    assert forall|i: int| 0 <= i < items0.len() implies p(#[trigger] items0[i]) by {
        assert(learning[i] == items0[i].text);
    }
    lemma_push_all_new_all(Seq::empty(), items0, p);
    let b0 = push_all_new(Seq::empty(), items0);
    let fb = fallback(reading);
    assert(p(fb));
    let d2 = of_source(dict, CandidateSource::UserDictionary);
    lemma_of_source(dict, CandidateSource::UserDictionary);
    lemma_push_all_new_all(b0, d2, p);
    let b1 = push_all_new(b0, d2);
    lemma_model_annotated(model, reading.len());
    lemma_push_all_new_all(b1, model_annotated(model, reading.len()), p);
    let b2 = push_all_new(b1, model_annotated(model, reading.len()));
    let d1 = of_source(dict, CandidateSource::Dictionary);
    lemma_of_source(dict, CandidateSource::Dictionary);
    lemma_push_all_new_all(b2, d1, p);
    let b3 = push_all_new(b2, d1);
    let tail = if has_ascii_digit(reading) {
        seq![fb, fallback(to_katakana(reading)), fallback(to_kanji_digits(reading))]
    } else {
        seq![fb, fallback(to_katakana(reading))]
    };
    lemma_push_all_new_all(b3, tail, p);
    assert(tail.drop_last().drop_last().drop_last() =~= Seq::<AnnotatedView>::empty()
        || tail.drop_last().drop_last() =~= Seq::<AnnotatedView>::empty());
    if has_ascii_digit(reading) {
        assert(tail.drop_last() =~= seq![fb, fallback(to_katakana(reading))]);
        assert(tail.drop_last().drop_last() =~= seq![fb]);
        assert(tail.drop_last().drop_last().drop_last() =~= Seq::<AnnotatedView>::empty());
    } else {
        assert(tail.drop_last() =~= seq![fb]);
        assert(tail.drop_last().drop_last() =~= Seq::<AnnotatedView>::empty());
    }
}

/// Explicit conversion never offers a model candidate longer than the
/// reading, and offers as learned only surfaces remembered for exactly the
/// reading (no predictive, longer-reading matches).
pub proof fn law_conversion_candidates_admissible(
    kanji: Option<KanjiView>,
    learning: Option<Seq<(Seq<char>, Seq<char>)>>,
    user: Option<Seq<DictEntryView>>,
    system: Option<Seq<DictEntryView>>,
    reading: Seq<char>,
    n: nat,
)
    ensures
        forall|i: int| 0 <= i < conversion_candidates(kanji, learning, user, system, reading, n).len() ==> {
            let c = #[trigger] conversion_candidates(kanji, learning, user, system, reading, n)[i];
            &&& c.source == CandidateSource::Model ==> c.text.len() <= reading.len()
            &&& c.source == CandidateSource::Learning ==> (learning matches Some(l) && surfaces_for(l, reading).contains(c.text))
        },
{
    if kanji is Some {
        let texts = learning_exact_texts(learning, reading);
        lemma_assembled_admissible(
            reading,
            texts,
            model_candidates(kanji, reading, n),
            dictionary_candidates(user, system, reading, usize::MAX as nat),
        );
        let c = conversion_candidates(kanji, learning, user, system, reading, n);
        assert forall|i: int| 0 <= i < c.len() && (#[trigger] c[i]).source == CandidateSource::Learning implies (
        learning matches Some(l) && surfaces_for(l, reading).contains(c[i].text)) by {
            {
                assert(admissible(c[i], reading, texts));
                assert(texts.contains(c[i].text));
                match learning {
                    Some(l) => {
                        let sf = surfaces_for(l, reading);
                        crate::candidate::lemma_dedup_distinct(sf);
                        let k = choose|k: int| 0 <= k < texts.len() && texts[k] == c[i].text;
                        assert(dedup(sf)[k] == c[i].text);
                        assert(dedup(sf).contains(c[i].text));
                    },
                    None => {},
                }
            }
        }
    } else {
        assert(conversion_candidates(kanji, learning, user, system, reading, n) == seq![fallback(reading)]);
    }
}

// ---------------------------------------------------------------------------
// Candidate priority
// ---------------------------------------------------------------------------

/// Priority of a candidate source in explicit conversion: learning, user
/// dictionary, model, system dictionary, fallback.
pub open spec fn source_rank(s: CandidateSource) -> int {
    match s {
        CandidateSource::Learning => 0,
        CandidateSource::UserDictionary => 1,
        CandidateSource::Model => 2,
        CandidateSource::Dictionary => 3,
        CandidateSource::Fallback => 4,
    }
}

/// Candidates come in non-decreasing source priority.
pub open spec fn ranked(s: Seq<AnnotatedView>) -> bool {
    forall|i: int, j: int| 0 <= i < j < s.len() ==> source_rank((#[trigger] s[i]).source) <= source_rank(
        (#[trigger] s[j]).source,
    )
}

proof fn lemma_push_all_new_ranked(list: Seq<AnnotatedView>, items: Seq<AnnotatedView>, r: int)
    requires
        ranked(list),
        forall|i: int| 0 <= i < list.len() ==> source_rank((#[trigger] list[i]).source) <= r,
        forall|i: int| 0 <= i < items.len() ==> source_rank((#[trigger] items[i]).source) == r,
    ensures
        ranked(push_all_new(list, items)),
        forall|i: int| 0 <= i < push_all_new(list, items).len() ==> source_rank(
            (#[trigger] push_all_new(list, items)[i]).source,
        ) <= r,
    decreases items.len(),
{
    if items.len() > 0 {
        assert forall|i: int| 0 <= i < items.drop_last().len() implies source_rank(
            (#[trigger] items.drop_last()[i]).source,
        ) == r by {
            assert(items.drop_last()[i] == items[i]);
        }
        lemma_push_all_new_ranked(list, items.drop_last(), r);
        let prev = push_all_new(list, items.drop_last());
        let x = items.last();
        assert(source_rank(items[items.len() - 1].source) == r);
        let res = push_new(prev, x);
        assert forall|i: int| 0 <= i < res.len() implies source_rank((#[trigger] res[i]).source) <= r by {
            if i < prev.len() {
                assert(res[i] == prev[i]);
            }
        }
        assert forall|i: int, j: int| 0 <= i < j < res.len() implies source_rank((#[trigger] res[i]).source)
            <= source_rank((#[trigger] res[j]).source) by {
            if j < prev.len() {
                assert(res[i] == prev[i] && res[j] == prev[j]);
            } else {
                assert(res[i] == prev[i]);
            }
        }
    }
}

proof fn lemma_all_rank(s: Seq<AnnotatedView>, r: int)
    requires
        forall|i: int| 0 <= i < s.len() ==> (#[trigger] s[i]).source == CandidateSource::Fallback,
        r == 4,
    ensures
        forall|i: int| 0 <= i < s.len() ==> source_rank((#[trigger] s[i]).source) == r,
{
}

/// With a model available, explicit conversion offers learned candidates
/// first, then user dictionary entries, model candidates, system dictionary
/// entries, and the fallback forms last.
pub proof fn law_conversion_candidates_ordered(
    kanji: Option<KanjiView>,
    learning: Option<Seq<(Seq<char>, Seq<char>)>>,
    user: Option<Seq<DictEntryView>>,
    system: Option<Seq<DictEntryView>>,
    reading: Seq<char>,
    n: nat,
)
    ensures
        ranked(conversion_candidates(kanji, learning, user, system, reading, n)),
{
    if kanji is Some {
        let lt = learning_exact_texts(learning, reading);
        let model = model_candidates(kanji, reading, n);
        let dict = dictionary_candidates(user, system, reading, usize::MAX as nat);
        let items0 = lt.map_values(
            |t: Seq<char>| AnnotatedView { text: t, source: CandidateSource::Learning, reading: None },
        );
        lemma_push_all_new_ranked(Seq::empty(), items0, 0);
        let b0 = push_all_new(Seq::empty(), items0);
        let d2 = of_source(dict, CandidateSource::UserDictionary);
        lemma_of_source(dict, CandidateSource::UserDictionary);
        lemma_push_all_new_ranked(b0, d2, 1);
        let b1 = push_all_new(b0, d2);
        let m = model_annotated(model, reading.len());
        lemma_model_annotated(model, reading.len());
        lemma_push_all_new_ranked(b1, m, 2);
        let b2 = push_all_new(b1, m);
        let d1 = of_source(dict, CandidateSource::Dictionary);
        lemma_of_source(dict, CandidateSource::Dictionary);
        lemma_push_all_new_ranked(b2, d1, 3);
        let b3 = push_all_new(b2, d1);
        let tail = if has_ascii_digit(reading) {
            seq![fallback(reading), fallback(to_katakana(reading)), fallback(to_kanji_digits(reading))]
        } else {
            seq![fallback(reading), fallback(to_katakana(reading))]
        };
        lemma_all_rank(tail, 4);
        lemma_push_all_new_ranked(b3, tail, 4);
        if has_ascii_digit(reading) {
            assert(tail.drop_last() =~= seq![fallback(reading), fallback(to_katakana(reading))]);
            assert(tail.drop_last().drop_last() =~= seq![fallback(reading)]);
            assert(tail.drop_last().drop_last().drop_last() =~= Seq::<AnnotatedView>::empty());
        } else {
            assert(tail.drop_last() =~= seq![fallback(reading)]);
            assert(tail.drop_last().drop_last() =~= Seq::<AnnotatedView>::empty());
        }
    }
}

// ---------------------------------------------------------------------------
// Moving through candidates, then cancelling
// ---------------------------------------------------------------------------

/// A press of a key that moves through the candidates (Space, Down, Tab, Up,
/// Page Down, Page Up), without modifiers.
pub open spec fn is_candidate_move(k: KeyEvent) -> bool {
    &&& k.is_press
    &&& !k.modifiers.shift_key && !k.modifiers.control_key && !k.modifiers.alt_key
    &&& (k.keysym == crate::keys::Keysym::SPACE || k.keysym == crate::keys::Keysym::DOWN || k.keysym
        == crate::keys::Keysym::TAB || k.keysym == crate::keys::Keysym::UP || k.keysym
        == crate::keys::Keysym::PAGE_DOWN || k.keysym == crate::keys::Keysym::PAGE_UP)
}

proof fn lemma_candidate_move(x: EngineView, k: KeyEvent, y: EngineView, r: ResultView)
    requires
        engine_wf(x),
        x.state is Conversion,
        is_candidate_move(k),
        key_post(x, k, y, r),
    ensures
        y.state is Conversion,
        y.text == x.text,
        y.remaining == x.remaining,
        y.live == x.live,
        y.anchor == x.anchor,
        engine_wf(y),
{
    assert(!crate::input::is_arrow(k.keysym));
    assert(crate::conversion::conversion_key_post(x, k, y, r));
    let l = match x.state {
        StateView::Conversion { candidates, .. } => candidates,
        _ => arbitrary(),
    };
    crate::laws::law_navigation_keeps_selection_valid(l);
}

proof fn lemma_moves_keep_conversion(
    p1: EngineView,
    steps: Seq<EngineView>,
    keys: Seq<KeyEvent>,
    rs: Seq<ResultView>,
    k: int,
)
    requires
        engine_wf(p1),
        p1.state is Conversion,
        steps.len() == keys.len() + 1,
        rs.len() == keys.len(),
        steps[0] == p1,
        forall|i: int| 0 <= i < keys.len() ==> is_candidate_move(#[trigger] keys[i]) && key_post(
            steps[i],
            keys[i],
            steps[i + 1],
            rs[i],
        ),
        0 <= k < steps.len(),
    ensures
        steps[k].state is Conversion,
        steps[k].text == p1.text,
        steps[k].remaining == p1.remaining,
        steps[k].live == p1.live,
        engine_wf(steps[k]),
    decreases k,
{
    if k > 0 {
        lemma_moves_keep_conversion(p1, steps, keys, rs, k - 1);
        assert(is_candidate_move(keys[k - 1]));
        lemma_candidate_move(steps[k - 1], keys[k - 1], steps[k], rs[k - 1]);
    }
}

/// However many times the candidates are moved through after a conversion
/// starts, cancelling gives back the composed text (pending romaji settled
/// into it), caret at its end, and commits nothing.
pub proof fn law_cancel_after_moves_restores_text(
    e: EngineView,
    p1: EngineView,
    r1: ResultView,
    steps: Seq<EngineView>,
    keys: Seq<KeyEvent>,
    rs: Seq<ResultView>,
)
    requires
        engine_wf(e),
        start_conversion_post(e, p1, r1),
        conversion_split(after_flush(e)).0.len() > 0,
        steps.len() == keys.len() + 1,
        rs.len() == keys.len(),
        steps[0] == p1,
        forall|i: int| 0 <= i < keys.len() ==> is_candidate_move(#[trigger] keys[i]) && key_post(
            steps[i],
            keys[i],
            steps[i + 1],
            rs[i],
        ),
    ensures
        cancelled(steps.last()).state is Composing,
        cancelled(steps.last()).text == after_flush(e).text,
        cancelled(steps.last()).cursor == after_flush(e).text.len(),
        cancelled(steps.last()).remaining is None,
        commits_nothing(cancel_result(steps.last())),
{
    law_cancel_after_start_restores_text(e, p1, r1);
    lemma_reading_within(e);
    law_start_candidates_distinct(e, conversion_split(after_flush(e)).0);
    assert(engine_wf(p1));
    lemma_moves_keep_conversion(p1, steps, keys, rs, steps.len() - 1);
    let r = cancel_result(steps.last());
    assert forall|i: int| 0 <= i < r.actions.len() implies !(#[trigger] r.actions[i] is Commit) by {
        assert(0 <= i < 3);
    }
}

} // verus!
