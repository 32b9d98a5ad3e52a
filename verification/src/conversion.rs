//! Conversion state handling: gathering candidates, starting a conversion,
//! moving through candidates, committing and cancelling.
use vstd::prelude::*;
use crate::candidate::{
    ann_views, cand_views, has_text, opt_view, lemma_push_all_new, lemma_push_new_distinct,
    lemma_dedup_prefix, push_all_new, push_new, source_label, distinct_texts, str_views,
    take_at_most, dedup, AnnotatedCandidate, AnnotatedView, Candidate, CandidateBuilder,
    CandidateSource, CandidateView,
};
use crate::dictionary::{dict_views, entries_for, DictEntry, DictEntryView};
use crate::engine::{
    opt_pair_view, caret_wf, clear_actions, conversion_aux, composing_preedit, emptied, engine_wf, ActionView, EngineAction, EngineResult,
    EngineView, InputMethodEngine, InputState, ModelOutputView, KanjiView, ResultView, StateView, model_views,
    ConversionStrategy, ModelOutput, opt_strs_view,
};
use crate::candidate::{
    digit_target, list_wf, next_page_selected, next_selected, prev_page_selected, prev_selected,
    selected_reading_of, selected_text_of, CandidateList, CandidateListView,
};
use crate::input_buffer::{insert_at, spec_selection};
use crate::learning::without;
use crate::preedit::{highlighted_preedit, AttributeType, Preedit, PreeditAttribute, PreeditView};
use crate::romaji::{flushed, RomajiView};
use crate::kana::{has_ascii_digit, to_fullwidth, to_halfwidth, to_kanji_digits, to_katakana};
use crate::keys::{keysym_char, keysym_digit, KeyEvent, Keysym};
use crate::learning::{entries_with_prefix, surfaces_for};
use crate::text::{char_count, concat3, str_eq, substring};

verus! {

/// Maximum number of learning candidates to show.
pub const MAX_LEARNING_CANDIDATES: usize = 3;

// ---------------------------------------------------------------------------
// Model candidates
// ---------------------------------------------------------------------------

/// The first model output for the given katakana reading, context and number of candidates.
pub open spec fn first_output(outputs: Seq<ModelOutputView>, kata: Seq<char>, ctx: Seq<char>, n: nat) -> Option<
    ModelOutputView,
>
    decreases outputs.len(),
{
    if outputs.len() == 0 {
        None
    } else if outputs[0].reading == kata && outputs[0].context == ctx && outputs[0].num_candidates == n {
        Some(outputs[0])
    } else {
        first_output(outputs.drop_first(), kata, ctx, n)
    }
}

/// The candidates a model output gives under its strategy: the main model's
/// best candidate merged with the light model's first `beam_width`, without
/// repeats, at most `beam_width`; the light or the main model's best
/// candidate alone; or the main model's first `beam_width`.  A strategy that
/// needs the light model gives nothing without it.
pub open spec fn strategy_candidates(m: ModelOutputView) -> Seq<Seq<char>> {
    match m.strategy {
        ConversionStrategy::ParallelBeam { beam_width } => match m.light {
            Some(l) => take_at_most(
                dedup(take_at_most(m.main, 1) + take_at_most(l, beam_width as nat)),
                beam_width as nat,
            ),
            None => Seq::empty(),
        },
        ConversionStrategy::LightModelOnly => match m.light {
            Some(l) => take_at_most(l, 1),
            None => Seq::empty(),
        },
        ConversionStrategy::MainModelOnly => take_at_most(m.main, 1),
        ConversionStrategy::MainModelBeam { beam_width } => take_at_most(m.main, beam_width as nat),
    }
}

/// Model candidates for a hiragana reading when `n` are asked for: those of
/// the model output recorded for its katakana form, the converter's current
/// context and `n`; none without a model or without such an output.
pub open spec fn model_candidates(kanji: Option<KanjiView>, reading: Seq<char>, n: nat) -> Seq<Seq<char>> {
    match kanji {
        None => Seq::empty(),
        Some(k) => match first_output(k.outputs, to_katakana(reading), k.context, n) {
            None => Seq::empty(),
            Some(m) => strategy_candidates(m),
        },
    }
}

/// What typing-time suggestion yields: the model candidates, or the reading
/// itself when there are none or no model is available.
pub open spec fn auto_suggestions(kanji: Option<KanjiView>, reading: Seq<char>, n: nat) -> Seq<Seq<char>> {
    if kanji is None || model_candidates(kanji, reading, n).len() == 0 {
        seq![reading]
    } else {
        model_candidates(kanji, reading, n)
    }
}

// ---------------------------------------------------------------------------
// Learning candidates
// ---------------------------------------------------------------------------

/// Texts of the exact-match learning candidates: remembered surfaces for the
/// reading, most recent first, without repeats, at most three.
pub open spec fn learning_exact_texts(learning: Option<Seq<(Seq<char>, Seq<char>)>>, reading: Seq<char>) -> Seq<Seq<char>> {
    match learning {
        None => Seq::empty(),
        Some(l) => take_at_most(dedup(surfaces_for(l, reading)), MAX_LEARNING_CANDIDATES as nat),
    }
}

/// The learning candidate shown for surface `t` of reading `r` at position `i`.
pub open spec fn learning_candidate(t: Seq<char>, r: Seq<char>, i: int) -> CandidateView {
    CandidateView {
        text: t,
        reading: Some(r),
        annotation: source_label(CandidateSource::Learning),
        index: i as nat,
    }
}

/// Exact learning matches followed by prefix (predictive) matches with a
/// longer reading, as annotated candidates carrying their reading.
pub open spec fn learning_pool(l: Seq<(Seq<char>, Seq<char>)>, reading: Seq<char>) -> Seq<AnnotatedView> {
    surfaces_for(l, reading).map_values(
        |s: Seq<char>| AnnotatedView { text: s, source: CandidateSource::Learning, reading: Some(reading) },
    ) + longer_prefix_matches(entries_with_prefix(l, reading), reading)
}

/// The prefix matches whose reading is not the reading itself.
pub open spec fn longer_prefix_matches(m: Seq<(Seq<char>, Seq<char>)>, reading: Seq<char>) -> Seq<AnnotatedView>
    decreases m.len(),
{
    if m.len() == 0 {
        Seq::empty()
    } else {
        let rest = longer_prefix_matches(m.drop_last(), reading);
        if m.last().0 == reading {
            rest
        } else {
            rest.push(
                AnnotatedView { text: m.last().1, source: CandidateSource::Learning, reading: Some(m.last().0) },
            )
        }
    }
}

/// Learning candidates for typing-time display: the first three distinct
/// surfaces of the learning pool.
pub open spec fn learning_display(learning: Option<Seq<(Seq<char>, Seq<char>)>>, reading: Seq<char>) -> Seq<AnnotatedView> {
    match learning {
        None => Seq::empty(),
        Some(l) => take_at_most(push_all_new(Seq::empty(), learning_pool(l, reading)), MAX_LEARNING_CANDIDATES as nat),
    }
}

// ---------------------------------------------------------------------------
// Dictionary candidates
// ---------------------------------------------------------------------------

/// Where entry `x` goes in a list sorted by score: after every entry whose
/// score is not greater.
pub open spec fn insert_pos(s: Seq<DictEntryView>, x: DictEntryView) -> nat
    decreases s.len(),
{
    if s.len() == 0 {
        0
    } else if s[0].score > x.score {
        0
    } else {
        1 + insert_pos(s.drop_first(), x)
    }
}

/// Stable sort by ascending score (insertion sort).
pub open spec fn sort_by_score(s: Seq<DictEntryView>) -> Seq<DictEntryView>
    decreases s.len(),
{
    if s.len() == 0 {
        s
    } else {
        let sorted = sort_by_score(s.drop_last());
        sorted.insert(insert_pos(sorted, s.last()) as int, s.last())
    }
}

/// Dictionary entries as annotated candidates of the given source.
pub open spec fn as_annotated(s: Seq<DictEntryView>, src: CandidateSource) -> Seq<AnnotatedView> {
    s.map_values(|e: DictEntryView| AnnotatedView { text: e.surface, source: src, reading: None })
}

/// `items` appended one by one with `push_new` while the list is shorter than `limit`.
pub open spec fn push_all_new_limited(list: Seq<AnnotatedView>, items: Seq<AnnotatedView>, limit: nat) -> Seq<AnnotatedView>
    decreases items.len(),
{
    if items.len() == 0 {
        list
    } else {
        let acc = push_all_new_limited(list, items.drop_last(), limit);
        if acc.len() >= limit {
            acc
        } else {
            push_new(acc, items.last())
        }
    }
}

/// Dictionary candidates for a reading: user dictionary entries in
/// dictionary order, then system dictionary entries by ascending score;
/// each text once, at most `limit`.
pub open spec fn dictionary_candidates(
    user: Option<Seq<DictEntryView>>,
    system: Option<Seq<DictEntryView>>,
    reading: Seq<char>,
    limit: nat,
) -> Seq<AnnotatedView> {
    let u = match user {
        Some(d) => as_annotated(entries_for(d, reading), CandidateSource::UserDictionary),
        None => Seq::empty(),
    };
    let s = match system {
        Some(d) => as_annotated(sort_by_score(entries_for(d, reading)), CandidateSource::Dictionary),
        None => Seq::empty(),
    };
    push_all_new_limited(Seq::empty(), u + s, limit)
}

/// The candidates of the given source, in order.
pub open spec fn of_source(s: Seq<AnnotatedView>, src: CandidateSource) -> Seq<AnnotatedView>
    decreases s.len(),
{
    if s.len() == 0 {
        s
    } else if s.last().source == src {
        of_source(s.drop_last(), src).push(s.last())
    } else {
        of_source(s.drop_last(), src)
    }
}

/// Model candidates no longer (in characters) than the reading, as annotated candidates.
pub open spec fn model_annotated(m: Seq<Seq<char>>, reading_len: nat) -> Seq<AnnotatedView>
    decreases m.len(),
{
    if m.len() == 0 {
        Seq::empty()
    } else if m.last().len() <= reading_len {
        model_annotated(m.drop_last(), reading_len).push(
            AnnotatedView { text: m.last(), source: CandidateSource::Model, reading: None },
        )
    } else {
        model_annotated(m.drop_last(), reading_len)
    }
}

/// A fallback candidate.
pub open spec fn fallback(t: Seq<char>) -> AnnotatedView {
    AnnotatedView { text: t, source: CandidateSource::Fallback, reading: None }
}

/// Candidates for explicit conversion of `reading`, in priority order:
/// learning (exact matches), user dictionary, model (no longer than the
/// reading), system dictionary, then the hiragana, katakana and kanji-numeral
/// forms of the reading; each text once.
pub open spec fn assemble_candidates(
    reading: Seq<char>,
    learning: Seq<Seq<char>>,
    model: Seq<Seq<char>>,
    dict: Seq<AnnotatedView>,
) -> Seq<AnnotatedView> {
    let b0 = push_all_new(
        Seq::empty(),
        learning.map_values(|t: Seq<char>| AnnotatedView { text: t, source: CandidateSource::Learning, reading: None }),
    );
    let b1 = push_all_new(b0, of_source(dict, CandidateSource::UserDictionary));
    let b2 = push_all_new(b1, model_annotated(model, reading.len()));
    let b3 = push_all_new(b2, of_source(dict, CandidateSource::Dictionary));
    let b4 = push_new(push_new(b3, fallback(reading)), fallback(to_katakana(reading)));
    if has_ascii_digit(reading) {
        push_new(b4, fallback(to_kanji_digits(reading)))
    } else {
        b4
    }
}

/// Candidates for explicit conversion of `reading` with the engine's model
/// outputs, learning cache and dictionaries; just the reading when no model
/// is available.
pub open spec fn conversion_candidates(
    kanji: Option<KanjiView>,
    learning: Option<Seq<(Seq<char>, Seq<char>)>>,
    user: Option<Seq<DictEntryView>>,
    system: Option<Seq<DictEntryView>>,
    reading: Seq<char>,
    n: nat,
) -> Seq<AnnotatedView> {
    if kanji is None {
        seq![fallback(reading)]
    } else {
        assemble_candidates(
            reading,
            learning_exact_texts(learning, reading),
            model_candidates(kanji, reading, n),
            dictionary_candidates(user, system, reading, usize::MAX as nat),
        )
    }
}


// ---------------------------------------------------------------------------
// Executable pipeline
// ---------------------------------------------------------------------------

/// Copies of the first `n` strings (all of them if there are fewer).
pub fn first_strings(v: &Vec<String>, n: usize) -> (r: Vec<String>)
    ensures
        str_views(r@) == take_at_most(str_views(v@), n as nat),
{
    let mut r: Vec<String> = Vec::new();
    let mut i: usize = 0;
    while i < v.len() && i < n
        invariant
            i <= v.len(),
            i <= n,
            r@ == v@.take(i as int),
        decreases v.len() - i,
    {
        r.push(v[i].clone());
        i = i + 1;
        assert(r@ =~= v@.take(i as int));
    }
    assert(str_views(r@) =~= take_at_most(str_views(v@), n as nat));
    r
}

/// Stable sort of dictionary entries by ascending score.
pub fn sort_entries_by_score(v: Vec<DictEntry>) -> (r: Vec<DictEntry>)
    ensures
        dict_views(r@) == sort_by_score(dict_views(v@)),
{
    let ghost all = dict_views(v@);
    let mut r: Vec<DictEntry> = Vec::new();
    let mut i: usize = 0;
    while i < v.len()
        invariant
            i <= v.len(),
            all == dict_views(v@),
            dict_views(r@) == sort_by_score(all.take(i as int)),
        decreases v.len() - i,
    {
        let x = v[i].duplicate();
        let ghost sorted = dict_views(r@);
        assert(all.take(i + 1).drop_last() =~= all.take(i as int));
        assert(all.take(i + 1).last() == x@);
        let mut j: usize = 0;
        assert(sorted.skip(0) =~= sorted);
        while j < r.len() && r[j].score <= x.score
            invariant
                j <= r.len(),
                sorted == dict_views(r@),
                insert_pos(sorted, x@) == j + insert_pos(sorted.skip(j as int), x@),
            decreases r.len() - j,
        {
            assert(sorted.skip(j as int).drop_first() =~= sorted.skip(j + 1));
            j = j + 1;
        }
        proof {
            if j < r.len() {
                assert(sorted.skip(j as int)[0] == sorted[j as int]);
            } else {
                assert(sorted.skip(j as int).len() == 0);
            }
        }
        r.insert(j, x);
        assert(dict_views(r@) =~= sorted.insert(j as int, x@));
        i = i + 1;
    }
    assert(all.take(i as int) =~= all);
    r
}

/// Annotated candidates of the given source for dictionary entries.
fn annotate_entries(entries: &Vec<DictEntry>, src: CandidateSource, out: &mut Vec<AnnotatedCandidate>)
    ensures
        ann_views(final(out)@) == ann_views(old(out)@) + as_annotated(dict_views(entries@), src),
{
    let mut i: usize = 0;
    while i < entries.len()
        invariant
            i <= entries.len(),
            ann_views(out@) == ann_views(old(out)@) + as_annotated(dict_views(entries@).take(i as int), src),
        decreases entries.len() - i,
    {
        let ghost prev = ann_views(out@);
        out.push(AnnotatedCandidate { text: entries[i].surface.clone(), source: src, reading: None });
        assert(ann_views(out@) =~= prev.push(AnnotatedView { text: entries@[i as int].surface@, source: src, reading: None }));
        assert(dict_views(entries@).take(i + 1) =~= dict_views(entries@).take(i as int).push(entries@[i as int]@));
        assert(as_annotated(dict_views(entries@).take(i + 1), src) =~= as_annotated(dict_views(entries@).take(i as int), src).push(
            AnnotatedView { text: entries@[i as int].surface@, source: src, reading: None }));
        i = i + 1;
        assert(ann_views(out@) =~= ann_views(old(out)@) + as_annotated(dict_views(entries@).take(i as int), src));
    }
    assert(dict_views(entries@).take(i as int) =~= dict_views(entries@));
}

impl InputMethodEngine {
    /// Merge two candidate lists with deduplication.
    ///
    /// Primary candidates come first, then secondary candidates that aren't
    /// duplicates; at most `max_candidates` are kept.
    pub fn merge_candidates_dedup(primary: Vec<String>, secondary: Vec<String>, max_candidates: usize) -> (r: Vec<String>)
        ensures
            str_views(r@) == take_at_most(
                dedup(str_views(primary@) + str_views(secondary@)),
                max_candidates as nat,
            ),
    {
        let ghost all = str_views(primary@) + str_views(secondary@);
        let mut chained: Vec<String> = primary;
        let mut sec = secondary;
        chained.append(&mut sec);
        assert(str_views(chained@) =~= all);
        let mut r: Vec<String> = Vec::new();
        let mut i: usize = 0;
        while i < chained.len() && r.len() < max_candidates
            invariant
                i <= chained.len(),
                str_views(chained@) == all,
                str_views(r@) == dedup(all.take(i as int)),
                r.len() <= max_candidates,
            decreases chained.len() - i,
        {
            let c = chained[i].clone();
            let mut seen = false;
            let mut j: usize = 0;
            while j < r.len()
                invariant
                    j <= r.len(),
                    !seen ==> forall|k: int| 0 <= k < j ==> (#[trigger] r@[k])@ != c@,
                    seen ==> str_views(r@).contains(c@),
                decreases r.len() - j,
            {
                if !seen && r[j] == c {
                    seen = true;
                    assert(str_views(r@)[j as int] == c@);
                }
                j = j + 1;
            }
            assert(all.take(i + 1).drop_last() =~= all.take(i as int));
            assert(all.take(i + 1).last() == c@);
            if !seen {
                assert(!str_views(r@).contains(c@)) by {
                    if str_views(r@).contains(c@) {
                        let k = choose|k: int| 0 <= k < str_views(r@).len() && str_views(r@)[k] == c@;
                        assert(r@[k]@ == c@);
                    }
                }
                r.push(c);
                assert(str_views(r@) =~= dedup(all.take(i as int)).push(c@));
            }
            i = i + 1;
        }
        proof {
            lemma_dedup_prefix(all, i as int);
            if r.len() < max_candidates {
                assert(i == chained.len());
                assert(all.take(i as int) =~= all);
            } else {
                assert(take_at_most(dedup(all), max_candidates as nat) =~= dedup(all).take(
                    dedup(all.take(i as int)).len() as int,
                ));
            }
        }
        r
    }

    /// Run kana-kanji conversion for a reading: the candidates, under the
    /// strategy recorded with it, of the model output for the reading's
    /// katakana form, the converter's context and `num_candidates`; none
    /// without a model or without such an output.
    pub fn run_kana_kanji_conversion(&self, reading: &str, num_candidates: usize) -> (r: Vec<String>)
        ensures
            str_views(r@) == model_candidates(self@.kanji, reading@, num_candidates as nat),
    {
        match &self.converters.kanji {
            None => {
                let r: Vec<String> = Vec::new();
                assert(str_views(r@) =~= Seq::<Seq<char>>::empty());
                r
            },
            Some(k) => {
                let katakana = crate::kana::hiragana_to_katakana(reading);
                let ghost outs = model_views(k.outputs@);
                let ghost ctx = k.context@;
                let mut i: usize = 0;
                assert(outs.skip(0) =~= outs);
                while i < k.outputs.len()
                    invariant
                        i <= k.outputs.len(),
                        outs == model_views(k.outputs@),
                        ctx == k.context@,
                        katakana@ == to_katakana(reading@),
                        self@.kanji == Some(KanjiView { context: ctx, outputs: outs }),
                        first_output(outs, katakana@, ctx, num_candidates as nat) == first_output(
                            outs.skip(i as int),
                            katakana@,
                            ctx,
                            num_candidates as nat,
                        ),
                    decreases k.outputs.len() - i,
                {
                    assert(outs.skip(i as int)[0] == outs[i as int]);
                    if k.outputs[i].num_candidates == num_candidates && str_eq(
                        k.outputs[i].reading.as_str(),
                        katakana.as_str(),
                    ) && str_eq(k.outputs[i].context.as_str(), k.context.as_str()) {
                        assert(first_output(outs, katakana@, ctx, num_candidates as nat) == Some(outs[i as int]));
                        return Self::run_strategy(&k.outputs[i]);
                    }
                    assert(outs.skip(i as int).drop_first() =~= outs.skip(i + 1));
                    i = i + 1;
                }
                assert(outs.skip(i as int).len() == 0);
                let r: Vec<String> = Vec::new();
                assert(str_views(r@) =~= Seq::<Seq<char>>::empty());
                r
            },
        }
    }

    /// The candidates of one model output under its strategy.
    pub fn run_strategy(m: &ModelOutput) -> (r: Vec<String>)
        ensures
            str_views(r@) == strategy_candidates(model_views(seq![*m])[0]),
    {
        let ghost mv = model_views(seq![*m])[0];
        assert(mv.main == str_views(m.main@));
        assert(mv.light == opt_strs_view(m.light));
        match m.strategy {
            ConversionStrategy::ParallelBeam { beam_width } => match &m.light {
                Some(l) => {
                    let top1 = first_strings(&m.main, 1);
                    let beam = first_strings(l, beam_width);
                    Self::merge_candidates_dedup(top1, beam, beam_width)
                },
                None => {
                    let r: Vec<String> = Vec::new();
                    assert(str_views(r@) =~= Seq::<Seq<char>>::empty());
                    r
                },
            },
            ConversionStrategy::LightModelOnly => match &m.light {
                Some(l) => first_strings(l, 1),
                None => {
                    let r: Vec<String> = Vec::new();
                    assert(str_views(r@) =~= Seq::<Seq<char>>::empty());
                    r
                },
            },
            ConversionStrategy::MainModelOnly => first_strings(&m.main, 1),
            ConversionStrategy::MainModelBeam { beam_width } => first_strings(&m.main, beam_width),
        }
    }

    /// Suggestions while typing: the model's candidates, or the reading
    /// itself when no model is available or it produced nothing.
    pub fn run_auto_suggest(&self, reading: &str, num_candidates: usize) -> (r: Vec<String>)
        ensures
            str_views(r@) == auto_suggestions(self@.kanji, reading@, num_candidates as nat),
            r@.len() > 0,
    {
        if self.converters.kanji.is_none() {
            let mut r = Vec::new();
            r.push(reading.to_owned());
            assert(str_views(r@) =~= seq![reading@]);
            return r;
        }
        let candidates = self.run_kana_kanji_conversion(reading, num_candidates);
        if candidates.len() == 0 {
            let mut r = Vec::new();
            r.push(reading.to_owned());
            assert(str_views(r@) =~= seq![reading@]);
            r
        } else {
            candidates
        }
    }

    /// Look up learning cache candidates for a reading (exact match only, max 3).
    pub fn lookup_learning_exact(&self, reading: &str) -> (r: Vec<Candidate>)
        ensures
            cand_views(r@) == Seq::new(
                learning_exact_texts(self@.learning, reading@).len(),
                |i: int| learning_candidate(learning_exact_texts(self@.learning, reading@)[i], reading@, i),
            ),
    {
        let ghost texts = learning_exact_texts(self@.learning, reading@);
        let surfaces = match &self.learning {
            None => {
                let r: Vec<Candidate> = Vec::new();
                assert(cand_views(r@) =~= Seq::new(texts.len(), |i: int| learning_candidate(texts[i], reading@, i)));
                return r;
            },
            Some(cache) => {
                let found = cache.lookup(reading);
                let none: Vec<String> = Vec::new();
                proof {
                    assert(str_views(found@) == surfaces_for(cache@, reading@));
                    assert(str_views(none@) =~= Seq::<Seq<char>>::empty());
                    assert(surfaces_for(cache@, reading@) + Seq::<Seq<char>>::empty() =~= surfaces_for(cache@, reading@));
                }
                Self::merge_candidates_dedup(found, none, MAX_LEARNING_CANDIDATES)
            },
        };
        let mut r: Vec<Candidate> = Vec::new();
        let mut i: usize = 0;
        while i < surfaces.len()
            invariant
                i <= surfaces.len(),
                str_views(surfaces@) == texts,
                cand_views(r@) == Seq::new(i as nat, |k: int| learning_candidate(texts[k], reading@, k)),
            decreases surfaces.len() - i,
        {
            let label = CandidateSource::Learning.label();
            let annotation = match label {
                Some(l) => Some(l.to_owned()),
                None => None,
            };
            let ghost prev = cand_views(r@);
            assert(texts[i as int] == surfaces@[i as int]@);
            r.push(Candidate {
                text: surfaces[i].clone(),
                reading: Some(reading.to_owned()),
                annotation,
                index: i,
            });
            assert(cand_views(r@) =~= prev.push(learning_candidate(texts[i as int], reading@, i as int)));
            i = i + 1;
            assert(cand_views(r@) =~= Seq::new(i as nat, |k: int| learning_candidate(texts[k], reading@, k)));
        }
        r
    }

    /// Look up learning cache candidates for a reading (exact + prefix match, max 3).
    pub fn lookup_learning_candidates(&self, reading: &str) -> (r: Vec<Candidate>)
        ensures
            cand_views(r@) == Seq::new(
                learning_display(self@.learning, reading@).len(),
                |i: int| CandidateView {
                    text: learning_display(self@.learning, reading@)[i].text,
                    reading: learning_display(self@.learning, reading@)[i].reading,
                    annotation: source_label(CandidateSource::Learning),
                    index: i as nat,
                },
            ),
    {
        let ghost d = learning_display(self@.learning, reading@);
        let cache = match &self.learning {
            None => {
                let r: Vec<Candidate> = Vec::new();
                assert(cand_views(r@) =~= Seq::new(d.len(), |i: int| CandidateView {
                    text: d[i].text,
                    reading: d[i].reading,
                    annotation: source_label(CandidateSource::Learning),
                    index: i as nat,
                }));
                return r;
            },
            Some(c) => c,
        };
        let ghost l = cache@;
        let ghost pool = learning_pool(l, reading@);
        // Exact matches first.
        let mut pool_vec: Vec<AnnotatedCandidate> = Vec::new();
        let exact = cache.lookup(reading);
        let mut i: usize = 0;
        while i < exact.len()
            invariant
                i <= exact.len(),
                exact@.map_values(|s: String| s@) == surfaces_for(l, reading@),
                ann_views(pool_vec@) == surfaces_for(l, reading@).take(i as int).map_values(
                    |s: Seq<char>| AnnotatedView { text: s, source: CandidateSource::Learning, reading: Some(reading@) },
                ),
            decreases exact.len() - i,
        {
            let ghost prev = ann_views(pool_vec@);
            pool_vec.push(AnnotatedCandidate {
                text: exact[i].clone(),
                source: CandidateSource::Learning,
                reading: Some(reading.to_owned()),
            });
            assert(ann_views(pool_vec@) =~= prev.push(AnnotatedView { text: exact@[i as int]@, source: CandidateSource::Learning, reading: Some(reading@) }));
            assert(exact@.map_values(|s: String| s@)[i as int] == exact@[i as int]@);
            assert(surfaces_for(l, reading@).take(i + 1) =~= surfaces_for(l, reading@).take(i as int).push(exact@[i as int]@));
            i = i + 1;
            assert(ann_views(pool_vec@) =~= surfaces_for(l, reading@).take(i as int).map_values(
                |s: Seq<char>| AnnotatedView { text: s, source: CandidateSource::Learning, reading: Some(reading@) },
            ));
        }
        assert(surfaces_for(l, reading@).take(i as int) =~= surfaces_for(l, reading@));
        let ghost exact_part = ann_views(pool_vec@);
        // Then prefix (predictive) matches with a longer reading.
        let prefixed = cache.prefix_lookup(reading);
        let ghost pm = entries_with_prefix(l, reading@);
        let mut j: usize = 0;
        while j < prefixed.len()
            invariant
                j <= prefixed.len(),
                prefixed@.map_values(|p: (String, String)| (p.0@, p.1@)) == pm,
                ann_views(pool_vec@) == exact_part + longer_prefix_matches(pm.take(j as int), reading@),
            decreases prefixed.len() - j,
        {
            assert(pm.take(j + 1).drop_last() =~= pm.take(j as int));
            assert(pm[j as int] == (prefixed[j as int].0@, prefixed[j as int].1@));
            let ghost prev = ann_views(pool_vec@);
            if !str_eq(prefixed[j].0.as_str(), reading) {
                pool_vec.push(AnnotatedCandidate {
                    text: prefixed[j].1.clone(),
                    source: CandidateSource::Learning,
                    reading: Some(prefixed[j].0.clone()),
                });
                assert(ann_views(pool_vec@) =~= prev.push(AnnotatedView { text: pm[j as int].1, source: CandidateSource::Learning, reading: Some(pm[j as int].0) }));
            }
            j = j + 1;
            assert(ann_views(pool_vec@) =~= exact_part + longer_prefix_matches(pm.take(j as int), reading@));
        }
        assert(pm.take(j as int) =~= pm);
        assert(ann_views(pool_vec@) == pool);
        // Distinct surfaces, first three.
        let mut builder = CandidateBuilder::new();
        let mut k: usize = 0;
        while k < pool_vec.len()
            invariant
                k <= pool_vec.len(),
                ann_views(pool_vec@) == pool,
                builder@ == push_all_new(Seq::empty(), pool.take(k as int)),
            decreases pool_vec.len() - k,
        {
            assert(pool.take(k + 1).drop_last() =~= pool.take(k as int));
            builder.push_annotated_if_new(pool_vec[k].duplicate());
            k = k + 1;
        }
        assert(pool.take(k as int) =~= pool);
        let all = builder.into_candidates();
        let mut r: Vec<Candidate> = Vec::new();
        let mut m: usize = 0;
        while m < all.len() && m < MAX_LEARNING_CANDIDATES
            invariant
                m <= all.len(),
                m <= MAX_LEARNING_CANDIDATES,
                ann_views(all@) == push_all_new(Seq::empty(), pool),
                d == take_at_most(ann_views(all@), MAX_LEARNING_CANDIDATES as nat),
                cand_views(r@) == Seq::new(m as nat, |i: int| CandidateView {
                    text: d[i].text,
                    reading: d[i].reading,
                    annotation: source_label(CandidateSource::Learning),
                    index: i as nat,
                }),
            decreases all.len() - m,
        {
            let label = CandidateSource::Learning.label();
            let annotation = match label {
                Some(lb) => Some(lb.to_owned()),
                None => None,
            };
            assert(d[m as int] == ann_views(all@)[m as int]);
            let ghost prev = cand_views(r@);
            r.push(Candidate {
                text: all[m].text.clone(),
                reading: crate::candidate::clone_opt(&all[m].reading),
                annotation,
                index: m,
            });
            assert(cand_views(r@) =~= prev.push(CandidateView {
                text: d[m as int].text,
                reading: d[m as int].reading,
                annotation: source_label(CandidateSource::Learning),
                index: m as nat,
            }));
            m = m + 1;
            assert(cand_views(r@) =~= Seq::new(m as nat, |i: int| CandidateView {
                text: d[i].text,
                reading: d[i].reading,
                annotation: source_label(CandidateSource::Learning),
                index: i as nat,
            }));
        }
        assert(d.len() == m);
        r
    }

    /// Search user and system dictionaries for candidates matching a reading.
    ///
    /// User dictionary results come first, then system dictionary results
    /// sorted by score; each text once, at most `limit`.
    pub fn search_dictionaries(&self, reading: &str, limit: usize) -> (r: Vec<AnnotatedCandidate>)
        ensures
            ann_views(r@) == dictionary_candidates(
                self@.user_dict,
                self@.system_dict,
                reading@,
                limit as nat,
            ),
    {
        let mut items: Vec<AnnotatedCandidate> = Vec::new();
        match &self.dicts.user {
            Some(dict) => {
                let found = dict.exact_match_search(reading);
                annotate_entries(&found, CandidateSource::UserDictionary, &mut items);
            },
            None => {},
        }
        let ghost user_part = ann_views(items@);
        match &self.dicts.system {
            Some(dict) => {
                let found = sort_entries_by_score(dict.exact_match_search(reading));
                annotate_entries(&found, CandidateSource::Dictionary, &mut items);
            },
            None => {
                assert(ann_views(items@) =~= user_part + Seq::<AnnotatedView>::empty());
            },
        }
        let ghost all = ann_views(items@);
        proof {
            let u = match self@.user_dict {
                Some(d) => as_annotated(entries_for(d, reading@), CandidateSource::UserDictionary),
                None => Seq::empty(),
            };
            assert(user_part =~= u);
        }
        let mut builder = CandidateBuilder::new();
        let mut k: usize = 0;
        while k < items.len()
            invariant
                k <= items.len(),
                ann_views(items@) == all,
                builder@ == push_all_new_limited(Seq::empty(), all.take(k as int), limit as nat),
            decreases items.len() - k,
        {
            assert(all.take(k + 1).drop_last() =~= all.take(k as int));
            if builder.len() < limit {
                builder.push_annotated_if_new(items[k].duplicate());
            }
            k = k + 1;
        }
        assert(all.take(k as int) =~= all);
        builder.into_candidates()
    }

    /// Look up dictionary candidates for a reading (one page, for display while typing).
    pub fn lookup_dict_candidates(&self, reading: &str) -> (r: Vec<Candidate>)
        ensures
            cand_views(r@) == Seq::new(
                dictionary_candidates(self@.user_dict, self@.system_dict, reading@, crate::candidate::DEFAULT_PAGE_SIZE as nat).len(),
                |i: int| CandidateView {
                    text: dictionary_candidates(self@.user_dict, self@.system_dict, reading@, crate::candidate::DEFAULT_PAGE_SIZE as nat)[i].text,
                    reading: Some(reading@),
                    annotation: source_label(dictionary_candidates(self@.user_dict, self@.system_dict, reading@, crate::candidate::DEFAULT_PAGE_SIZE as nat)[i].source),
                    index: i as nat,
                },
            ),
    {
        let found = self.search_dictionaries(reading, crate::candidate::DEFAULT_PAGE_SIZE);
        let ghost d = ann_views(found@);
        let mut r: Vec<Candidate> = Vec::new();
        let mut i: usize = 0;
        while i < found.len()
            invariant
                i <= found.len(),
                d == ann_views(found@),
                cand_views(r@) == Seq::new(i as nat, |k: int| CandidateView {
                    text: d[k].text,
                    reading: Some(reading@),
                    annotation: source_label(d[k].source),
                    index: k as nat,
                }),
            decreases found.len() - i,
        {
            let annotation = match found[i].source.label() {
                Some(l) => Some(l.to_owned()),
                None => None,
            };
            let ghost prev = cand_views(r@);
            r.push(Candidate {
                text: found[i].text.clone(),
                reading: Some(reading.to_owned()),
                annotation,
                index: i,
            });
            assert(cand_views(r@) =~= prev.push(CandidateView {
                text: d[i as int].text,
                reading: Some(reading@),
                annotation: source_label(d[i as int].source),
                index: i as nat,
            }));
            i = i + 1;
            assert(cand_views(r@) =~= Seq::new(i as nat, |k: int| CandidateView {
                text: d[k].text,
                reading: Some(reading@),
                annotation: source_label(d[k].source),
                index: k as nat,
            }));
        }
        r
    }

    /// Build conversion candidates for a reading from multiple sources.
    ///
    /// Priority: learning (exact matches) -> user dictionary -> model ->
    /// system dictionary -> hiragana / katakana / kanji-numeral fallbacks,
    /// each text once.  Without a kana-kanji converter the reading itself is the
    /// only candidate.
    pub fn build_conversion_candidates(&self, reading: &str, num_candidates: usize) -> (r: Vec<AnnotatedCandidate>)
        ensures
            ann_views(r@) == conversion_candidates(
                self@.kanji,
                self@.learning,
                self@.user_dict,
                self@.system_dict,
                reading@,
                num_candidates as nat,
            ),
    {
        if self.converters.kanji.is_none() {
            // The converter cannot be initialised: offer the reading itself.
            let mut r: Vec<AnnotatedCandidate> = Vec::new();
            r.push(AnnotatedCandidate { text: reading.to_owned(), source: CandidateSource::Fallback, reading: None });
            assert(ann_views(r@) =~= seq![fallback(reading@)]);
            return r;
        }
        let candidates = self.run_kana_kanji_conversion(reading, num_candidates);
        let ghost model = str_views(candidates@);
        let hiragana = reading.to_owned();
        let katakana = crate::kana::hiragana_to_katakana(reading);
        let mut builder = CandidateBuilder::new();

        // 1. Learning cache candidates (exact match only).
        let learned = self.lookup_learning_exact(reading);
        let ghost texts = learning_exact_texts(self@.learning, reading@);
        let ghost lv = texts.map_values(
            |t: Seq<char>| AnnotatedView { text: t, source: CandidateSource::Learning, reading: None },
        );
        assert(cand_views(learned@).len() == learned@.len());
        assert(learned@.len() == texts.len());
        let mut i: usize = 0;
        while i < learned.len()
            invariant
                i <= learned.len(),
                learned@.len() == texts.len(),
                lv.len() == texts.len(),
                lv == texts.map_values(
                    |t: Seq<char>| AnnotatedView { text: t, source: CandidateSource::Learning, reading: None },
                ),
                cand_views(learned@) == Seq::new(texts.len(), |k: int| learning_candidate(texts[k], reading@, k)),
                builder@ == push_all_new(Seq::empty(), lv.take(i as int)),
            decreases learned.len() - i,
        {
            assert(cand_views(learned@)[i as int] == learning_candidate(texts[i as int], reading@, i as int));
            // Exact matches carry the input reading; drop it as redundant.
            let cand_reading = match &learned[i].reading {
                Some(r) => if str_eq(r.as_str(), reading) {
                    None
                } else {
                    Some(r.clone())
                },
                None => None,
            };
            assert(lv.take(i + 1) =~= lv.take(i as int).push(lv[i as int]));
            assert(lv.take(i + 1).drop_last() =~= lv.take(i as int));
            builder.push_if_new(learned[i].text.clone(), CandidateSource::Learning, cand_reading);
            i = i + 1;
        }
        assert(lv.take(i as int) =~= lv);
        let ghost b0 = builder@;

        // 2. User dictionary.
        let dict_results = self.search_dictionaries(reading, usize::MAX);
        let ghost dv = ann_views(dict_results@);
        let mut k: usize = 0;
        while k < dict_results.len()
            invariant
                k <= dict_results.len(),
                dv == ann_views(dict_results@),
                builder@ == push_all_new(b0, of_source(dv.take(k as int), CandidateSource::UserDictionary)),
            decreases dict_results.len() - k,
        {
            assert(dv.take(k + 1).drop_last() =~= dv.take(k as int));
            assert(dv.take(k + 1).last() == dict_results@[k as int]@);
            if dict_results[k].source == CandidateSource::UserDictionary {
                let ghost before = of_source(dv.take(k as int), CandidateSource::UserDictionary);
                assert(before.push(dict_results@[k as int]@).drop_last() =~= before);
                builder.push_annotated_if_new(dict_results[k].duplicate());
            }
            k = k + 1;
        }
        assert(dv.take(k as int) =~= dv);
        let ghost b1 = builder@;

        // 3. Model inference results, without candidates longer than the reading.
        let reading_len = char_count(reading);
        let mut j: usize = 0;
        while j < candidates.len()
            invariant
                j <= candidates.len(),
                model == str_views(candidates@),
                reading_len == reading@.len(),
                builder@ == push_all_new(b1, model_annotated(model.take(j as int), reading_len as nat)),
            decreases candidates.len() - j,
        {
            let text = candidates[j].clone();
            assert(model.take(j + 1).drop_last() =~= model.take(j as int));
            assert(model.take(j + 1).last() == text@);
            if char_count(text.as_str()) <= reading_len {
                let ghost before = model_annotated(model.take(j as int), reading_len as nat);
                let ghost x = AnnotatedView { text: text@, source: CandidateSource::Model, reading: None };
                assert(before.push(x).drop_last() =~= before);
                builder.push_if_new(text, CandidateSource::Model, None);
            }
            j = j + 1;
        }
        assert(model.take(j as int) =~= model);
        let ghost b2 = builder@;

        // 4. System dictionary, by score.
        let mut k: usize = 0;
        while k < dict_results.len()
            invariant
                k <= dict_results.len(),
                dv == ann_views(dict_results@),
                builder@ == push_all_new(b2, of_source(dv.take(k as int), CandidateSource::Dictionary)),
            decreases dict_results.len() - k,
        {
            assert(dv.take(k + 1).drop_last() =~= dv.take(k as int));
            assert(dv.take(k + 1).last() == dict_results@[k as int]@);
            if dict_results[k].source == CandidateSource::Dictionary {
                let ghost before = of_source(dv.take(k as int), CandidateSource::Dictionary);
                assert(before.push(dict_results@[k as int]@).drop_last() =~= before);
                builder.push_annotated_if_new(dict_results[k].duplicate());
            }
            k = k + 1;
        }
        assert(dv.take(k as int) =~= dv);

        // 5. Hiragana / katakana forms of the reading.
        builder.push_if_new(hiragana, CandidateSource::Fallback, None);
        builder.push_if_new(katakana, CandidateSource::Fallback, None);

        // 6. Kanji numeral form (e.g. "312" -> "三一二").
        match crate::kana::digits_to_kanji(reading) {
            Some(kanji_num) => builder.push_if_new(kanji_num, CandidateSource::Fallback, None),
            None => {},
        }
        builder.into_candidates()
    }
}


// ---------------------------------------------------------------------------
// Conversion state transitions
// ---------------------------------------------------------------------------

/// Candidate window entries for annotated candidates of `reading`: each
/// carries its own reading or else `reading`, its source's label, and its position.
pub open spec fn to_candidate_views(c: Seq<AnnotatedView>, reading: Seq<char>) -> Seq<CandidateView> {
    Seq::new(
        c.len(),
        |i: int| CandidateView {
            text: c[i].text,
            reading: Some(
                match c[i].reading {
                    Some(r) => r,
                    None => reading,
                },
            ),
            annotation: source_label(c[i].source),
            index: i as nat,
        },
    )
}

/// The candidates with the suggestion shown while typing put first, unless it
/// is empty, the reading itself, or already among them.
pub open spec fn with_previous_suggestion(c: Seq<AnnotatedView>, prev: Seq<char>, reading: Seq<char>) -> Seq<AnnotatedView> {
    if prev.len() > 0 && prev != reading && !has_text(c, prev) {
        seq![AnnotatedView { text: prev, source: CandidateSource::Model, reading: None }] + c
    } else {
        c
    }
}

/// Whether the candidate window is shown after `count` conversion key presses.
pub open spec fn window_shown(threshold: usize, count: nat) -> bool {
    threshold == 0 || count >= threshold
}

/// Actions after the selected candidate changed: the highlighted preedit,
/// then the candidate window and the aux text for `reading` shown, or both hidden.
pub open spec fn conversion_actions(p: PreeditView, l: CandidateListView, reading: Seq<char>, show: bool) -> Seq<ActionView> {
    if show {
        seq![
            ActionView::UpdatePreedit(p),
            ActionView::ShowCandidates(l),
            ActionView::UpdateAuxText(conversion_aux(reading, l)),
        ]
    } else {
        seq![ActionView::UpdatePreedit(p), ActionView::HideCandidates, ActionView::HideAuxText]
    }
}

/// The engine after pending romaji went into the composed text.
pub open spec fn after_flush(e: EngineView) -> EngineView {
    if flushed(e.romaji.buffer).len() == 0 {
        EngineView { romaji: RomajiView { buffer: Seq::empty(), ..e.romaji }, ..e }
    } else {
        EngineView {
            text: insert_at(e.text, e.cursor as int, flushed(e.romaji.buffer)),
            cursor: e.cursor + flushed(e.romaji.buffer).len(),
            anchor: None,
            romaji: RomajiView {
                buffer: Seq::empty(),
                output: e.romaji.output + flushed(e.romaji.buffer),
                ..e.romaji
            },
            ..e
        }
    }
}

/// The reading a conversion starts on (the selection, or else all composed
/// text) and, for a selection, the text before and after it.
pub open spec fn conversion_split(f: EngineView) -> (Seq<char>, Option<(Seq<char>, Seq<char>)>) {
    match spec_selection(f.anchor, f.cursor as usize) {
        Some((s, x)) => (
            f.text.subrange(s as int, x as int),
            Some((f.text.subrange(0, s as int), f.text.subrange(x as int, f.text.len() as int))),
        ),
        None => (f.text, None),
    }
}

/// Candidates a conversion of `reading` offers, in the engine `e`.
pub open spec fn start_candidates(e: EngineView, reading: Seq<char>) -> Seq<AnnotatedView> {
    with_previous_suggestion(
        conversion_candidates(e.kanji, e.learning, e.user_dict, e.system_dict, reading, e.config.num_candidates as nat),
        e.live,
        reading,
    )
}

/// What starting a conversion does to `e`.
pub open spec fn start_conversion_post(e: EngineView, post: EngineView, r: ResultView) -> bool {
    let f = after_flush(e);
    let reading = conversion_split(f).0;
    let base = EngineView {
        remaining: conversion_split(f).1,
        anchor: None,
        cursor: 0,
        live: Seq::empty(),
        romaji: RomajiView { buffer: Seq::empty(), output: Seq::empty(), raw: Seq::empty() },
        ..f
    };
    if reading.len() == 0 {
        post == base && r == (ResultView { consumed: true, actions: Seq::empty() })
    } else {
        let cands = start_candidates(e, reading);
        let list = CandidateListView { candidates: to_candidate_views(cands, reading), selected: 0 };
        let p = highlighted_preedit(cands[0].text);
        &&& post == EngineView {
            state: StateView::Conversion { preedit: p, candidates: list },
            space_count: 1,
            ..base
        }
        &&& r == (ResultView {
            consumed: true,
            actions: conversion_actions(p, list, reading, window_shown(e.config.candidate_window_threshold, 1)),
        })
    }
}

/// Text and reading of the selected candidate while converting.
pub open spec fn selected_info(e: EngineView) -> Option<(Seq<char>, Option<Seq<char>>)> {
    match e.state {
        StateView::Conversion { candidates, .. } => Some(
            (
                match selected_text_of(candidates) {
                    Some(t) => t,
                    None => Seq::empty(),
                },
                selected_reading_of(candidates),
            ),
        ),
        _ => None,
    }
}

/// The learning cache after remembering `surface` for `reading`, if both exist.
pub open spec fn learned(
    l: Option<Seq<(Seq<char>, Seq<char>)>>,
    reading: Option<Seq<char>>,
    surface: Seq<char>,
) -> Option<Seq<(Seq<char>, Seq<char>)>> {
    match (l, reading) {
        (Some(l), Some(r)) => Some(seq![(r, surface)] + without(l, r, surface)),
        _ => l,
    }
}

/// The learning cache after forgetting `surface` for `reading`, if both exist.
pub open spec fn forgotten(
    l: Option<Seq<(Seq<char>, Seq<char>)>>,
    reading: Option<Seq<char>>,
    surface: Seq<char>,
) -> Option<Seq<(Seq<char>, Seq<char>)>> {
    match (l, reading) {
        (Some(l), Some(r)) => Some(without(l, r, surface)),
        _ => l,
    }
}

/// What forgetting the selected candidate does: while converting, its
/// choice for its reading leaves the learning cache; nothing else changes.
pub open spec fn forget_post(e: EngineView, post: EngineView, r: ResultView) -> bool {
    match selected_info(e) {
        None => post == e && r == (ResultView { consumed: false, actions: Seq::empty() }),
        Some((text, rd)) => {
            &&& post == EngineView { learning: forgotten(e.learning, rd, text), ..e }
            &&& r == (ResultView { consumed: true, actions: Seq::empty() })
        },
    }
}

/// No pending, produced or typed romaji.
pub open spec fn empty_romaji() -> RomajiView {
    RomajiView { buffer: Seq::empty(), output: Seq::empty(), raw: Seq::empty() }
}

/// The aux-text action of the composing state.
pub open spec fn composing_aux(e: EngineView) -> ActionView {
    if e.config.auto_suggest {
        ActionView::UpdateAuxText(e.live)
    } else {
        ActionView::HideAuxText
    }
}

/// `e` composing: composing preedit and the pending romaji.
pub open spec fn composing(e: EngineView) -> EngineView {
    EngineView {
        state: StateView::Composing { preedit: composing_preedit(e), romaji_buffer: e.romaji.buffer },
        ..e
    }
}

/// What committing the selected candidate does to `e`.  A converted
/// selection is put back between the text before and after it and composing
/// goes on; a whole conversion is committed and the engine empties.
pub open spec fn commit_conversion_post(e: EngineView, post: EngineView, r: ResultView) -> bool {
    let e1 = EngineView { space_count: 0, ..e };
    match selected_info(e) {
        None => post == e1 && r == (ResultView { consumed: false, actions: Seq::empty() }),
        Some((text, rd)) => if text.len() == 0 {
            post == e1 && r == (ResultView { consumed: true, actions: Seq::empty() })
        } else {
            let e2 = EngineView { learning: learned(e.learning, rd, text), ..e1 };
            match e.remaining {
                Some((before, after)) => {
                    let baked = before + text + after;
                    let e3 = EngineView {
                        text: baked,
                        cursor: baked.len(),
                        romaji: empty_romaji(),
                        live: Seq::empty(),
                        remaining: None,
                        ..e2
                    };
                    &&& post == composing(e3)
                    &&& r == (ResultView {
                        consumed: true,
                        actions: seq![
                            ActionView::UpdatePreedit(composing_preedit(e3)),
                            ActionView::HideCandidates,
                            composing_aux(e3),
                        ],
                    })
                },
                None => {
                    &&& post == emptied(e2)
                    &&& r == (ResultView { consumed: true, actions: clear_actions().push(ActionView::Commit(text)) })
                },
            }
        },
    }
}

/// The engine after cancelling a conversion: composing the whole composed
/// text with the caret at its end (empty if there is none); unchanged
/// (but for the key count) when not converting.
pub open spec fn cancelled(e: EngineView) -> EngineView {
    let e1 = EngineView { space_count: 0, ..e };
    if !(e.state is Conversion) {
        e1
    } else if e.text.len() == 0 {
        emptied(e1)
    } else {
        composing(
            EngineView {
                cursor: e.text.len(),
                remaining: None,
                romaji: RomajiView { buffer: Seq::empty(), output: e.text, raw: e.text },
                ..e1
            },
        )
    }
}

/// The result of cancelling a conversion.
pub open spec fn cancel_result(e: EngineView) -> ResultView {
    if !(e.state is Conversion) {
        ResultView { consumed: false, actions: Seq::empty() }
    } else if e.text.len() == 0 {
        ResultView { consumed: true, actions: clear_actions() }
    } else {
        ResultView {
            consumed: true,
            actions: seq![
                ActionView::UpdatePreedit(composing_preedit(cancelled(e))),
                ActionView::HideCandidates,
                ActionView::UpdateAuxText(e.live),
            ],
        }
    }
}

/// What cancelling a conversion does to `e`.
pub open spec fn cancel_conversion_post(e: EngineView, post: EngineView, r: ResultView) -> bool {
    post == cancelled(e) && r == cancel_result(e)
}

/// Ways of moving through the candidates.
pub enum NavOp {
    Next,
    Prev,
    NextPage,
    PrevPage,
}

/// The selection after a move.
pub open spec fn nav_selected(op: NavOp, l: CandidateListView) -> nat {
    match op {
        NavOp::Next => next_selected(l),
        NavOp::Prev => prev_selected(l),
        NavOp::NextPage => next_page_selected(l),
        NavOp::PrevPage => prev_page_selected(l),
    }
}

/// What moving through the candidates does to `e` (with the space count
/// already updated by the caller).
pub open spec fn navigate_post(op: NavOp, e: EngineView, post: EngineView, r: ResultView) -> bool {
    match e.state {
        StateView::Conversion { candidates, .. } => {
            let l = CandidateListView { selected: nav_selected(op, candidates), ..candidates };
            let t = match selected_text_of(l) {
                Some(t) => t,
                None => Seq::empty(),
            };
            let p = highlighted_preedit(t);
            let aux = match selected_reading_of(l) {
                Some(rd) => rd,
                None => Seq::empty(),
            };
            &&& post == EngineView { state: StateView::Conversion { preedit: p, candidates: l }, ..e }
            &&& r == (ResultView {
                consumed: true,
                actions: conversion_actions(p, l, aux, window_shown(e.config.candidate_window_threshold, e.space_count)),
            })
        },
        _ => post == e && r == (ResultView { consumed: false, actions: Seq::empty() }),
    }
}

/// What picking a candidate by digit does to `e`: the candidate is committed
/// together with the text before a converted selection; the text after it
/// stays composed.
pub open spec fn select_by_digit_post(e: EngineView, digit: nat, post: EngineView, r: ResultView) -> bool {
    match e.state {
        StateView::Conversion { preedit, candidates } => match digit_target(candidates, digit) {
            None => post == e && r == (ResultView { consumed: true, actions: Seq::empty() }),
            Some(i) => {
                let l = CandidateListView { selected: i, ..candidates };
                let text = l.candidates[i as int].text;
                let e1 = EngineView {
                    state: StateView::Conversion { preedit, candidates: l },
                    learning: learned(e.learning, l.candidates[i as int].reading, text),
                    space_count: 0,
                    remaining: None,
                    ..e
                };
                match e.remaining {
                    Some((before, after)) => {
                        let e2 = EngineView {
                            text: after,
                            cursor: after.len(),
                            romaji: empty_romaji(),
                            live: Seq::empty(),
                            ..e1
                        };
                        if after.len() == 0 {
                            &&& post == emptied(e2)
                            &&& r == (ResultView {
                                consumed: true,
                                actions: clear_actions().push(ActionView::Commit(before + text)),
                            })
                        } else {
                            &&& post == composing(e2)
                            &&& r == (ResultView {
                                consumed: true,
                                actions: seq![
                                    ActionView::Commit(before + text),
                                    ActionView::UpdatePreedit(composing_preedit(e2)),
                                    ActionView::HideCandidates,
                                    composing_aux(e2),
                                ],
                            })
                        }
                    },
                    None => {
                        &&& post == emptied(e1)
                        &&& r == (ResultView { consumed: true, actions: clear_actions().push(ActionView::Commit(text)) })
                    },
                }
            },
        },
        _ => post == e && r == (ResultView { consumed: false, actions: Seq::empty() }),
    }
}

/// The state with its preedit replaced by `p` (the empty state has none).
pub open spec fn with_preedit(s: StateView, p: PreeditView) -> StateView {
    match s {
        StateView::Empty => StateView::Empty,
        StateView::Composing { romaji_buffer, .. } => StateView::Composing { preedit: p, romaji_buffer },
        StateView::Conversion { candidates, .. } => StateView::Conversion { preedit: p, candidates },
    }
}

/// The preedit of a state (empty when there is none).
pub open spec fn preedit_view(s: &InputState) -> PreeditView {
    match s@ {
        StateView::Empty => crate::preedit::empty_preedit(),
        StateView::Composing { preedit, .. } => preedit,
        StateView::Conversion { preedit, .. } => preedit,
    }
}

/// The candidate list of a state (empty when there is none).
pub open spec fn candidates_view(s: &InputState) -> CandidateListView {
    match s@ {
        StateView::Conversion { candidates, .. } => candidates,
        _ => CandidateListView { candidates: Seq::empty(), selected: 0 },
    }
}


/// The engine before direct conversion commits: pending romaji flushed while composing.
pub open spec fn direct_base(e: EngineView) -> EngineView {
    match e.state {
        StateView::Composing { .. } => after_flush(e),
        _ => e,
    }
}

/// The reading direct conversion works on.
pub open spec fn direct_reading(e: EngineView) -> Seq<char> {
    match e.state {
        StateView::Empty => Seq::empty(),
        _ => direct_base(e).text,
    }
}

/// Direct conversion of the reading into `out`: nothing to convert leaves the
/// key unconsumed; otherwise `out` is committed and the engine empties.
pub open spec fn direct_post(e: EngineView, out: Seq<char>, post: EngineView, r: ResultView) -> bool {
    if direct_reading(e).len() == 0 {
        post == direct_base(e) && r == (ResultView { consumed: false, actions: Seq::empty() })
    } else {
        post == emptied(direct_base(e)) && r == (ResultView {
            consumed: true,
            actions: clear_actions().push(ActionView::Commit(out)),
        })
    }
}

/// Direct conversion of the typed romaji into `out`.
pub open spec fn raw_post(e: EngineView, out: Seq<char>, post: EngineView, r: ResultView) -> bool {
    if e.romaji.raw.len() == 0 {
        post == e && r == (ResultView { consumed: false, actions: Seq::empty() })
    } else {
        post == emptied(e) && r == (ResultView {
            consumed: true,
            actions: clear_actions().push(ActionView::Commit(out)),
        })
    }
}

/// What committing the selected candidate and typing `ch` does: the
/// candidate (after the text before a converted selection) is committed, the
/// engine empties, and `ch` starts new input.
pub open spec fn commit_and_continue_post(e: EngineView, ch: char, post: EngineView, r: ResultView) -> bool {
    match selected_info(e) {
        None => post == e && r == (ResultView { consumed: false, actions: Seq::empty() }),
        Some((text, rd)) => {
            let commit_text = match e.remaining {
                Some((before, _)) => before + text,
                None => text,
            };
            let e1 = emptied(EngineView { learning: learned(e.learning, rd, text), ..e });
            let t = crate::input::typed(e1, ch, false);
            &&& post == crate::input::refreshed(t)
            &&& r == (ResultView {
                consumed: true,
                actions: seq![ActionView::Commit(commit_text), ActionView::HideCandidates]
                    + crate::input::refresh_actions(t),
            })
        },
    }
}

/// The engine with the conversion key count advanced by one (saturating).
pub open spec fn counted(e: EngineView) -> EngineView {
    EngineView {
        space_count: if e.space_count < usize::MAX {
            e.space_count + 1
        } else {
            e.space_count
        },
        ..e
    }
}

/// What a key does in the conversion state.
pub open spec fn conversion_key_post(e: EngineView, key: KeyEvent, post: EngineView, r: ResultView) -> bool {
    match key.keysym {
        Keysym::RETURN => commit_conversion_post(e, post, r),
        Keysym::ESCAPE => cancel_conversion_post(e, post, r),
        Keysym::F6 => direct_post(e, direct_reading(e), post, r),
        Keysym::F7 => direct_post(e, to_katakana(direct_reading(e)), post, r),
        Keysym::F8 => direct_post(e, to_halfwidth(to_katakana(direct_reading(e))), post, r),
        Keysym::F9 => raw_post(e, to_fullwidth(e.romaji.raw), post, r),
        Keysym::F10 => raw_post(e, e.romaji.raw, post, r),
        Keysym::SPACE => navigate_post(NavOp::Next, counted(e), post, r),
        Keysym::DOWN => navigate_post(NavOp::Next, counted(e), post, r),
        Keysym::TAB => navigate_post(NavOp::Next, counted(e), post, r),
        Keysym::UP => navigate_post(NavOp::Prev, e, post, r),
        Keysym::PAGE_DOWN => navigate_post(NavOp::NextPage, e, post, r),
        Keysym::PAGE_UP => navigate_post(NavOp::PrevPage, e, post, r),
        Keysym::BACKSPACE => cancel_conversion_post(e, post, r),
        _ => if key.modifiers.control_key && !key.modifiers.alt_key && (key.keysym == Keysym::Char('n')
            || key.keysym == Keysym::Char('N')) {
            navigate_post(NavOp::Next, counted(e), post, r)
        } else if key.modifiers.control_key && !key.modifiers.alt_key && (key.keysym == Keysym::Char(
            'p',
        ) || key.keysym == Keysym::Char('P')) {
            navigate_post(NavOp::Prev, e, post, r)
        } else if keysym_digit(key.keysym) is Some {
            select_by_digit_post(e, keysym_digit(key.keysym)->0 as nat, post, r)
        } else if keysym_char(key.keysym) is Some && !key.modifiers.control_key && !key.modifiers.alt_key {
            commit_and_continue_post(e, keysym_char(key.keysym)->0, post, r)
        } else {
            post == e && r == (ResultView { consumed: false, actions: Seq::empty() })
        },
    }
}

impl InputMethodEngine {
    /// Transition to the conversion state with the given reading and candidate list.
    pub fn enter_conversion_state(&mut self, reading: &str, candidates: CandidateList) -> (r: EngineResult)
        requires
            engine_wf(old(self)@),
            candidates.wf(),
        ensures
            caret_wf(final(self)@),
            old(self)@.anchor is None && candidates@.candidates.len() > 0 ==> engine_wf(final(self)@),
            ({
                let p = highlighted_preedit(
                    match selected_text_of(candidates@) {
                        Some(t) => t,
                        None => reading@,
                    },
                );
                &&& final(self)@ == EngineView {
                    state: StateView::Conversion { preedit: p, candidates: candidates@ },
                    space_count: 1,
                    ..old(self)@
                }
                &&& r@ == (ResultView {
                    consumed: true,
                    actions: conversion_actions(
                        p,
                        candidates@,
                        reading@,
                        window_shown(old(self)@.config.candidate_window_threshold, 1),
                    ),
                })
            }),
    {
        let selected_text = match candidates.selected_text() {
            Some(t) => t.to_owned(),
            None => reading.to_owned(),
        };
        let preedit = Preedit::highlighted(selected_text.as_str());
        let shown_list = candidates.duplicate();
        self.state = InputState::Conversion { preedit: preedit.duplicate(), candidates };
        self.conversion_space_count = 1;
        let threshold = self.config.candidate_window_threshold;
        let show = threshold == 0 || self.conversion_space_count >= threshold;
        let mut result = EngineResult::consumed().with_action(EngineAction::UpdatePreedit(preedit));
        if show {
            let aux = self.format_aux_conversion_with_page(reading, Some(&shown_list));
            result = result.with_action(EngineAction::ShowCandidates(shown_list)).with_action(
                EngineAction::UpdateAuxText(aux),
            );
            assert(result@.actions =~= conversion_actions(preedit_view(&self.state), candidates_view(&self.state), reading@, true));
        } else {
            result = result.with_action(EngineAction::HideCandidates).with_action(EngineAction::HideAuxText);
            assert(result@.actions =~= conversion_actions(preedit_view(&self.state), candidates_view(&self.state), reading@, false));
        }
        result
    }

    /// Start kanji conversion of the selection, or of all composed text when
    /// nothing is selected.
    pub fn start_conversion(&mut self) -> (r: EngineResult)
        requires
            engine_wf(old(self)@),
        ensures
            engine_wf(final(self)@),
            start_conversion_post(old(self)@, final(self)@, r@),
    {
        let ghost e = self@;
        // Flush any remaining romaji into the composed text.
        self.flush_romaji_to_composed();
        let ghost f = self@;
        assert(f == after_flush(e));
        let full_text = self.input_buf.text.clone();
        let n = char_count(full_text.as_str());

        // Selection-based partial conversion: convert only the selected range.
        let (reading, remaining) = match self.input_buf.selection_range() {
            Some((sel_start, sel_end)) => {
                let before = substring(full_text.as_str(), 0, sel_start);
                let selected = substring(full_text.as_str(), sel_start, sel_end);
                let after = substring(full_text.as_str(), sel_end, n);
                (selected, Some((before, after)))
            },
            None => (full_text, None),
        };
        assert(reading@ == conversion_split(f).0);
        assert(opt_pair_view(remaining) == conversion_split(f).1);
        self.remaining_after_conversion = remaining;
        self.input_buf.clear_selection();

        // Keep the suggestion shown while typing: it stays a candidate even if
        // the conversion below ranks differently.
        let mut prev_suggest_text = String::new();
        std::mem::swap(&mut prev_suggest_text, &mut self.live.text);
        self.converters.romaji.reset();
        self.input_buf.cursor_pos = 0;

        if char_count(reading.as_str()) == 0 {
            return EngineResult::consumed();
        }

        let mut candidates = self.build_conversion_candidates(reading.as_str(), self.config.num_candidates);
        proof {
            lemma_conversion_candidates_nonempty(
                e.kanji,
                e.learning,
                e.user_dict,
                e.system_dict,
                reading@,
                e.config.num_candidates as nat,
            );
        }
        if char_count(prev_suggest_text.as_str()) > 0 && !str_eq(prev_suggest_text.as_str(), reading.as_str())
            && !contains_text(&candidates, prev_suggest_text.as_str()) {
            let ghost old_c = ann_views(candidates@);
            candidates.insert(
                0,
                AnnotatedCandidate { text: prev_suggest_text, source: CandidateSource::Model, reading: None },
            );
            assert(ann_views(candidates@) =~= seq![
                AnnotatedView { text: e.live, source: CandidateSource::Model, reading: None },
            ] + old_c);
        }
        let ghost cands = ann_views(candidates@);
        assert(cands == start_candidates(e, reading@));
        assert(cands.len() > 0);

        // Candidate window entries with reading and source annotation.
        let mut entries: Vec<Candidate> = Vec::new();
        let mut i: usize = 0;
        while i < candidates.len()
            invariant
                i <= candidates.len(),
                cands == ann_views(candidates@),
                cand_views(entries@) == to_candidate_views(cands, reading@).take(i as int),
            decreases candidates.len() - i,
        {
            let ac = &candidates[i];
            let cand_reading = match &ac.reading {
                Some(r) => r.clone(),
                None => reading.clone(),
            };
            let mut c = match ac.source.label() {
                None => Candidate::with_reading(ac.text.as_str(), cand_reading.as_str()),
                Some(label) => Candidate {
                    text: ac.text.clone(),
                    reading: Some(cand_reading),
                    annotation: Some(label.to_owned()),
                    index: 0,
                },
            };
            c.index = i;
            let ghost prev = cand_views(entries@);
            entries.push(c);
            assert(cand_views(entries@) =~= prev.push(to_candidate_views(cands, reading@)[i as int]));
            assert(to_candidate_views(cands, reading@).take(i + 1) =~= to_candidate_views(cands, reading@).take(i as int).push(
                to_candidate_views(cands, reading@)[i as int],
            ));
            i = i + 1;
        }
        assert(to_candidate_views(cands, reading@).take(i as int) =~= to_candidate_views(cands, reading@));
        let list = CandidateList::new(entries);
        self.enter_conversion_state(reading.as_str(), list)
    }

    /// Text and reading of the selected candidate, or `None` when not converting.
    pub fn selected_conversion_info(&self) -> (r: Option<(String, Option<String>)>)
        requires
            engine_wf(self@),
        ensures
            match selected_info(self@) {
                None => r is None,
                Some((t, rd)) => r matches Some((a, b)) && a@ == t && opt_view(b) == rd,
            },
    {
        match &self.state {
            InputState::Conversion { candidates, .. } => {
                let text = match candidates.selected_text() {
                    Some(t) => t.to_owned(),
                    None => String::new(),
                };
                let reading = candidates.selected_reading();
                Some((text, reading))
            },
            _ => None,
        }
    }

    /// Record a conversion selection in the learning cache.
    pub fn record_learning(&mut self, reading: &str, surface: &str)
        ensures
            final(self)@ == (EngineView { learning: learned(old(self)@.learning, Some(reading@), surface@), ..old(self)@ }),
    {
        match &mut self.learning {
            Some(cache) => cache.record(reading, surface),
            None => {},
        }
    }

    /// Remember the choice of `text` if the candidate has a reading.
    fn record_choice(&mut self, reading: &Option<String>, text: &str)
        ensures
            final(self)@ == (EngineView { learning: learned(old(self)@.learning, opt_view(*reading), text@), ..old(self)@ }),
    {
        match reading {
            Some(r) => self.record_learning(r.as_str(), text),
            None => {},
        }
    }

    /// Remove the selected candidate from the learning data: the choice of
    /// its text for its reading is forgotten; the conversion goes on.
    pub fn forget_selected_candidate(&mut self) -> (r: EngineResult)
        requires
            engine_wf(old(self)@),
        ensures
            engine_wf(final(self)@),
            forget_post(old(self)@, final(self)@, r@),
    {
        match self.selected_conversion_info() {
            None => EngineResult::not_consumed(),
            Some((text, reading)) => {
                match (&mut self.learning, &reading) {
                    (Some(cache), Some(rd)) => cache.forget(rd.as_str(), text.as_str()),
                    _ => {},
                }
                EngineResult::consumed()
            },
        }
    }

    /// The composing-state result after a converted selection went back into
    /// the composed text.
    fn composing_result(&mut self, preedit: Preedit) -> (r: EngineResult)
        ensures
            final(self)@ == old(self)@,
            r@ == (ResultView {
                consumed: true,
                actions: seq![
                    ActionView::UpdatePreedit(preedit@),
                    ActionView::HideCandidates,
                    composing_aux(old(self)@),
                ],
            }),
    {
        let result = EngineResult::consumed().with_action(EngineAction::UpdatePreedit(preedit)).with_action(
            EngineAction::HideCandidates,
        );
        let result = if self.config.auto_suggest {
            result.with_action(EngineAction::UpdateAuxText(self.format_aux_composing()))
        } else {
            result.with_action(EngineAction::HideAuxText)
        };
        assert(result@.actions =~= seq![
            ActionView::UpdatePreedit(preedit@),
            ActionView::HideCandidates,
            composing_aux(old(self)@),
        ]);
        result
    }

    /// Commit the current conversion.
    ///
    /// A converted selection is put back in place between the text before and
    /// after it, and composing goes on; a whole conversion is committed.
    pub fn commit_conversion(&mut self) -> (r: EngineResult)
        requires
            engine_wf(old(self)@),
        ensures
            engine_wf(final(self)@),
            commit_conversion_post(old(self)@, final(self)@, r@),
    {
        self.conversion_space_count = 0;
        let (text, reading) = match self.selected_conversion_info() {
            Some(info) => info,
            None => {
                return EngineResult::not_consumed();
            },
        };
        if char_count(text.as_str()) == 0 {
            return EngineResult::consumed();
        }
        self.record_choice(&reading, text.as_str());

        // Check for remaining text from partial conversion.
        let mut remaining = None;
        std::mem::swap(&mut remaining, &mut self.remaining_after_conversion);
        match remaining {
            Some((before, after)) => {
                // Partial conversion: the result goes back between `before`
                // and `after`, and composing goes on.
                let baked = concat3(before.as_str(), text.as_str(), after.as_str());
                self.input_buf.cursor_pos = char_count(baked.as_str());
                self.input_buf.text = baked;
                self.converters.romaji.reset();
                self.live.text = String::new();
                let preedit = self.set_composing_state();
                self.composing_result(preedit)
            },
            None => {
                self.enter_empty_state();
                EngineResult::cleared().with_action(EngineAction::Commit(text))
            },
        }
    }

    /// Cancel conversion and return to composing the whole composed text.
    pub fn cancel_conversion(&mut self) -> (r: EngineResult)
        requires
            engine_wf(old(self)@),
        ensures
            engine_wf(final(self)@),
            cancel_conversion_post(old(self)@, final(self)@, r@),
    {
        self.conversion_space_count = 0;
        match &self.state {
            InputState::Conversion { .. } => {},
            _ => {
                return EngineResult::not_consumed();
            },
        }
        // The composed text still holds the whole text, the converted
        // selection included: drop the remainder and go back to it.
        self.remaining_after_conversion = None;
        let reading = self.input_buf.text.clone();
        if char_count(reading.as_str()) == 0 {
            self.enter_empty_state();
            return EngineResult::cleared();
        }
        self.input_buf.cursor_pos = char_count(reading.as_str());
        // The romaji converter holds the reading as already-converted input.
        self.converters.romaji.load_converted(reading.as_str());
        let preedit = self.set_composing_state();
        let aux = self.format_aux_composing();
        let result = EngineResult::consumed().with_action(EngineAction::UpdatePreedit(preedit)).with_action(
            EngineAction::HideCandidates,
        ).with_action(EngineAction::UpdateAuxText(aux));
        proof {
            let e2 = EngineView {
                cursor: old(self)@.text.len(),
                remaining: None,
                romaji: RomajiView { buffer: Seq::empty(), output: old(self)@.text, raw: old(self)@.text },
                space_count: 0,
                ..old(self)@
            };
            assert(result@.actions =~= seq![
                ActionView::UpdatePreedit(composing_preedit(e2)),
                ActionView::HideCandidates,
                ActionView::UpdateAuxText(e2.live),
            ]);
        }
        result
    }

    /// Update preedit after candidate selection change.
    pub fn update_conversion_preedit(&mut self, selected_text: &str, candidates: &CandidateList) -> (r: EngineResult)
        requires
            engine_wf(old(self)@),
            candidates.wf(),
        ensures
            engine_wf(final(self)@),
            ({
                let p = highlighted_preedit(selected_text@);
                let aux = match selected_reading_of(candidates@) {
                    Some(rd) => rd,
                    None => Seq::empty(),
                };
                &&& final(self)@ == EngineView { state: with_preedit(old(self)@.state, p), ..old(self)@ }
                &&& r@ == (ResultView {
                    consumed: true,
                    actions: conversion_actions(
                        p,
                        candidates@,
                        aux,
                        window_shown(old(self)@.config.candidate_window_threshold, old(self)@.space_count),
                    ),
                })
            }),
    {
        let n = char_count(selected_text);
        let mut preedit = Preedit::with_text(selected_text);
        let mut attrs = Vec::new();
        attrs.push(PreeditAttribute::new(0, n, AttributeType::Highlight));
        preedit.set_attributes(attrs);
        assert(preedit@ =~= highlighted_preedit(selected_text@)) by {
            assert(preedit@.attributes =~= highlighted_preedit(selected_text@).attributes);
        }
        let mut st = InputState::Empty;
        std::mem::swap(&mut st, &mut self.state);
        match st {
            InputState::Conversion { preedit: _, candidates: list } => {
                self.state = InputState::Conversion { preedit: preedit.duplicate(), candidates: list };
            },
            InputState::Composing { preedit: _, romaji_buffer } => {
                self.state = InputState::Composing { preedit: preedit.duplicate(), romaji_buffer };
            },
            InputState::Empty => {
                self.state = InputState::Empty;
            },
        }
        let reading = match candidates.selected_reading() {
            Some(rd) => rd,
            None => String::new(),
        };
        let threshold = self.config.candidate_window_threshold;
        let show = threshold == 0 || self.conversion_space_count >= threshold;
        let result = EngineResult::consumed().with_action(EngineAction::UpdatePreedit(preedit));
        let result = if show {
            let aux = self.format_aux_conversion_with_page(reading.as_str(), Some(candidates));
            result.with_action(EngineAction::ShowCandidates(candidates.duplicate())).with_action(
                EngineAction::UpdateAuxText(aux),
            )
        } else {
            result.with_action(EngineAction::HideCandidates).with_action(EngineAction::HideAuxText)
        };
        proof {
            let aux = match selected_reading_of(candidates@) {
                Some(rd) => rd,
                None => Seq::empty(),
            };
            assert(result@.actions =~= conversion_actions(highlighted_preedit(selected_text@), candidates@, aux, show));
        }
        result
    }

    /// Move through the candidates, then update the preedit.
    pub fn navigate_candidate(&mut self, op: NavOp) -> (r: EngineResult)
        requires
            engine_wf(old(self)@),
        ensures
            engine_wf(final(self)@),
            navigate_post(op, old(self)@, final(self)@, r@),
    {
        let mut st = InputState::Empty;
        std::mem::swap(&mut st, &mut self.state);
        match st {
            InputState::Conversion { preedit, mut candidates } => {
                match op {
                    NavOp::Next => {
                        candidates.move_next();
                    },
                    NavOp::Prev => {
                        candidates.move_prev();
                    },
                    NavOp::NextPage => {
                        candidates.next_page();
                    },
                    NavOp::PrevPage => {
                        candidates.prev_page();
                    },
                }
                let text = match candidates.selected_text() {
                    Some(t) => t.to_owned(),
                    None => String::new(),
                };
                let shown = candidates.duplicate();
                self.state = InputState::Conversion { preedit, candidates };
                self.update_conversion_preedit(text.as_str(), &shown)
            },
            other => {
                self.state = other;
                EngineResult::not_consumed()
            },
        }
    }

    /// Select next candidate.
    pub fn next_candidate(&mut self) -> (r: EngineResult)
        requires
            engine_wf(old(self)@),
        ensures
            engine_wf(final(self)@),
            navigate_post(
                NavOp::Next,
                EngineView {
                    space_count: if old(self)@.space_count < usize::MAX {
                        old(self)@.space_count + 1
                    } else {
                        old(self)@.space_count
                    },
                    ..old(self)@
                },
                final(self)@,
                r@,
            ),
    {
        self.conversion_space_count = self.conversion_space_count.saturating_add(1);
        self.navigate_candidate(NavOp::Next)
    }

    /// Select previous candidate.
    pub fn prev_candidate(&mut self) -> (r: EngineResult)
        requires
            engine_wf(old(self)@),
        ensures
            engine_wf(final(self)@),
            navigate_post(NavOp::Prev, old(self)@, final(self)@, r@),
    {
        self.navigate_candidate(NavOp::Prev)
    }

    /// Go to next candidate page.
    pub fn next_candidate_page(&mut self) -> (r: EngineResult)
        requires
            engine_wf(old(self)@),
        ensures
            engine_wf(final(self)@),
            navigate_post(NavOp::NextPage, old(self)@, final(self)@, r@),
    {
        self.navigate_candidate(NavOp::NextPage)
    }

    /// Go to previous candidate page.
    pub fn prev_candidate_page(&mut self) -> (r: EngineResult)
        requires
            engine_wf(old(self)@),
        ensures
            engine_wf(final(self)@),
            navigate_post(NavOp::PrevPage, old(self)@, final(self)@, r@),
    {
        self.navigate_candidate(NavOp::PrevPage)
    }

    /// Select a candidate by digit (1-9) and commit it at once.
    ///
    /// Unlike Enter, which puts a converted selection back into the composed
    /// text for further editing, a digit is a final choice: the text before a
    /// converted selection is committed together with the candidate, and the
    /// text after it stays composed.  When nothing is left the engine goes
    /// through the common path into the empty state (hiragana mode again).
    pub fn select_candidate_by_digit(&mut self, digit: usize) -> (r: EngineResult)
        requires
            engine_wf(old(self)@),
        ensures
            engine_wf(final(self)@),
            select_by_digit_post(old(self)@, digit as nat, final(self)@, r@),
    {
        let mut st = InputState::Empty;
        std::mem::swap(&mut st, &mut self.state);
        let (selected_text, reading) = match st {
            InputState::Conversion { preedit, mut candidates } => {
                if candidates.select_on_page(digit).is_none() {
                    self.state = InputState::Conversion { preedit, candidates };
                    return EngineResult::consumed();
                }
                let text = match candidates.selected_text() {
                    Some(t) => t.to_owned(),
                    None => String::new(),
                };
                let reading = candidates.selected_reading();
                self.state = InputState::Conversion { preedit, candidates };
                (text, reading)
            },
            other => {
                self.state = other;
                return EngineResult::not_consumed();
            },
        };

        // Record learning before committing.
        self.record_choice(&reading, selected_text.as_str());

        // Commit immediately after digit selection.
        self.conversion_space_count = 0;
        let mut remaining = None;
        std::mem::swap(&mut remaining, &mut self.remaining_after_conversion);
        match remaining {
            Some((before, after)) => {
                // Partial conversion: commit `before + selected`, keep `after` composing.
                let commit_text = crate::text::concat(before.as_str(), selected_text.as_str());
                self.input_buf.cursor_pos = char_count(after.as_str());
                self.input_buf.text = after;
                self.converters.romaji.reset();
                self.live.text = String::new();
                let ghost e2 = self@;
                let preedit = self.set_composing_state();
                if self.input_buf.char_len() == 0 {
                    self.enter_empty_state();
                    return EngineResult::cleared().with_action(EngineAction::Commit(commit_text));
                }
                let result = EngineResult::consumed().with_action(EngineAction::Commit(commit_text));
                let result = result.with_action(EngineAction::UpdatePreedit(preedit)).with_action(
                    EngineAction::HideCandidates,
                );
                let result = if self.config.auto_suggest {
                    result.with_action(EngineAction::UpdateAuxText(self.format_aux_composing()))
                } else {
                    result.with_action(EngineAction::HideAuxText)
                };
                proof {
                    assert(result@.actions =~= seq![
                        ActionView::Commit(before@ + selected_text@),
                        ActionView::UpdatePreedit(composing_preedit(e2)),
                        ActionView::HideCandidates,
                        composing_aux(e2),
                    ]);
                }
                result
            },
            None => {
                self.enter_empty_state();
                EngineResult::cleared().with_action(EngineAction::Commit(selected_text))
            },
        }
    }

    /// Backspace while converting returns to composing the reading.
    pub fn backspace_conversion(&mut self) -> (r: EngineResult)
        requires
            engine_wf(old(self)@),
        ensures
            engine_wf(final(self)@),
            cancel_conversion_post(old(self)@, final(self)@, r@),
    {
        self.cancel_conversion()
    }

    /// The reading direct conversion works on: the composed text (pending
    /// romaji flushed first while composing); empty when nothing is composed.
    pub fn get_reading_for_direct_convert(&mut self) -> (t: String)
        requires
            engine_wf(old(self)@),
        ensures
            engine_wf(final(self)@),
            final(self)@ == direct_base(old(self)@),
            t@ == direct_reading(old(self)@),
    {
        match &self.state {
            InputState::Conversion { .. } => self.input_buf.text.clone(),
            InputState::Composing { .. } => {
                self.flush_romaji_to_composed();
                self.input_buf.text.clone()
            },
            InputState::Empty => String::new(),
        }
    }

    /// Commit text directly and reset state.
    pub fn commit_direct(&mut self, text: String) -> (r: EngineResult)
        ensures
            final(self)@ == emptied(old(self)@),
            r@ == (ResultView { consumed: true, actions: clear_actions().push(ActionView::Commit(text@)) }),
    {
        self.enter_empty_state();
        EngineResult::cleared().with_action(EngineAction::Commit(text))
    }

    /// F6: commit as hiragana.
    pub fn direct_convert_hiragana(&mut self) -> (r: EngineResult)
        requires
            engine_wf(old(self)@),
        ensures
            engine_wf(final(self)@),
            direct_post(old(self)@, direct_reading(old(self)@), final(self)@, r@),
    {
        let text = self.get_reading_for_direct_convert();
        if char_count(text.as_str()) == 0 {
            return EngineResult::not_consumed();
        }
        self.commit_direct(text)
    }

    /// F7: commit as full-width katakana.
    pub fn direct_convert_katakana(&mut self) -> (r: EngineResult)
        requires
            engine_wf(old(self)@),
        ensures
            engine_wf(final(self)@),
            direct_post(old(self)@, to_katakana(direct_reading(old(self)@)), final(self)@, r@),
    {
        let text = self.get_reading_for_direct_convert();
        if char_count(text.as_str()) == 0 {
            return EngineResult::not_consumed();
        }
        let katakana = crate::kana::hiragana_to_katakana(text.as_str());
        self.commit_direct(katakana)
    }

    /// F8: commit as half-width katakana.
    pub fn direct_convert_halfwidth_katakana(&mut self) -> (r: EngineResult)
        requires
            engine_wf(old(self)@),
        ensures
            engine_wf(final(self)@),
            direct_post(
                old(self)@,
                to_halfwidth(to_katakana(direct_reading(old(self)@))),
                final(self)@,
                r@,
            ),
    {
        let text = self.get_reading_for_direct_convert();
        if char_count(text.as_str()) == 0 {
            return EngineResult::not_consumed();
        }
        let hw_katakana = crate::kana::hiragana_to_halfwidth_katakana(text.as_str());
        self.commit_direct(hw_katakana)
    }

    /// F9: commit the typed romaji as full-width ASCII.
    pub fn direct_convert_fullwidth_ascii(&mut self) -> (r: EngineResult)
        ensures
            raw_post(old(self)@, to_fullwidth(old(self)@.romaji.raw), final(self)@, r@),
    {
        let raw = self.converters.romaji.raw_input().to_owned();
        if char_count(raw.as_str()) == 0 {
            return EngineResult::not_consumed();
        }
        let fullwidth = crate::kana::ascii_to_fullwidth(raw.as_str());
        self.commit_direct(fullwidth)
    }

    /// F10: commit the typed romaji as half-width ASCII.
    pub fn direct_convert_halfwidth_ascii(&mut self) -> (r: EngineResult)
        ensures
            raw_post(old(self)@, old(self)@.romaji.raw, final(self)@, r@),
    {
        let raw = self.converters.romaji.raw_input().to_owned();
        if char_count(raw.as_str()) == 0 {
            return EngineResult::not_consumed();
        }
        self.commit_direct(raw)
    }

    /// Commit the current conversion and then take a new character as fresh input.
    pub fn commit_conversion_and_continue(&mut self, ch: char) -> (r: EngineResult)
        requires
            engine_wf(old(self)@),
        ensures
            engine_wf(final(self)@),
            commit_and_continue_post(old(self)@, ch, final(self)@, r@),
    {
        let (text, reading) = match self.selected_conversion_info() {
            Some(info) => info,
            None => {
                return EngineResult::not_consumed();
            },
        };
        let ghost e = self@;
        let ghost t = text@;
        self.record_choice(&reading, text.as_str());

        // The commit includes the text before a converted selection.
        let mut remaining = None;
        std::mem::swap(&mut remaining, &mut self.remaining_after_conversion);
        let commit_text = match remaining {
            Some((before, _after)) => crate::text::concat(before.as_str(), text.as_str()),
            None => text,
        };
        assert(commit_text@ == (match e.remaining {
            Some((before, _)) => before + t,
            None => t,
        }));
        self.enter_empty_state();
        assert(self@ == emptied(EngineView { learning: learned(e.learning, opt_view(reading), t), ..e }));

        // Start new input with the character.
        let new_input_result = self.start_input(ch);

        // Commit first, then the new input's actions.
        let result = EngineResult::consumed().with_action(EngineAction::Commit(commit_text)).with_action(
            EngineAction::HideCandidates,
        );
        let ghost head = result@.actions;
        assert(head =~= seq![ActionView::Commit(commit_text@), ActionView::HideCandidates]);
        let mut actions = result.actions;
        let mut rest = new_input_result.actions;
        actions.append(&mut rest);
        let result = EngineResult { consumed: true, actions };
        assert(result@.actions =~= head + new_input_result@.actions);
        result
    }

    /// Process a key in the conversion state.
    pub fn process_key_conversion(&mut self, key: &KeyEvent) -> (r: EngineResult)
        requires
            engine_wf(old(self)@),
        ensures
            engine_wf(final(self)@),
            conversion_key_post(old(self)@, *key, final(self)@, r@),
    {
        match key.keysym {
            Keysym::RETURN => self.commit_conversion(),
            Keysym::ESCAPE => self.cancel_conversion(),
            Keysym::F6 => self.direct_convert_hiragana(),
            Keysym::F7 => self.direct_convert_katakana(),
            Keysym::F8 => self.direct_convert_halfwidth_katakana(),
            Keysym::F9 => self.direct_convert_fullwidth_ascii(),
            Keysym::F10 => self.direct_convert_halfwidth_ascii(),
            Keysym::SPACE | Keysym::DOWN | Keysym::TAB => self.next_candidate(),
            Keysym::UP => self.prev_candidate(),
            Keysym::PAGE_DOWN => self.next_candidate_page(),
            Keysym::PAGE_UP => self.prev_candidate_page(),
            Keysym::BACKSPACE => self.backspace_conversion(),
            _ => {
                // Ctrl+N / Ctrl+P: emacs-style candidate navigation.
                if key.modifiers.control_key && !key.modifiers.alt_key {
                    if key.keysym == Keysym::Char('n') || key.keysym == Keysym::Char('N') {
                        return self.next_candidate();
                    }
                    if key.keysym == Keysym::Char('p') || key.keysym == Keysym::Char('P') {
                        return self.prev_candidate();
                    }
                }
                // Digit selection (1-9).
                match key.keysym.digit_value() {
                    Some(digit) => {
                        return self.select_candidate_by_digit(digit);
                    },
                    None => {},
                }
                // Any printable character: commit the conversion and start new input.
                match key.to_char() {
                    Some(ch) => {
                        if !key.modifiers.control_key && !key.modifiers.alt_key {
                            return self.commit_conversion_and_continue(ch);
                        }
                    },
                    None => {},
                }
                EngineResult::not_consumed()
            },
        }
    }
}

/// Whether some annotated candidate has the given text.
pub fn contains_text(v: &Vec<AnnotatedCandidate>, text: &str) -> (r: bool)
    ensures
        r == has_text(ann_views(v@), text@),
{
    let mut i: usize = 0;
    while i < v.len()
        invariant
            i <= v.len(),
            forall|j: int| 0 <= j < i ==> (#[trigger] ann_views(v@)[j]).text != text@,
        decreases v.len() - i,
    {
        if str_eq(v[i].text.as_str(), text) {
            assert(ann_views(v@)[i as int].text == text@);
            return true;
        }
        i = i + 1;
    }
    false
}

/// `push_new` keeps every text and adds the pushed one.
pub proof fn lemma_push_new_keeps(l: Seq<AnnotatedView>, c: AnnotatedView)
    ensures
        has_text(push_new(l, c), c.text),
        push_new(l, c).len() >= l.len(),
        forall|t: Seq<char>| has_text(l, t) ==> has_text(push_new(l, c), t),
{
    let r = push_new(l, c);
    if !has_text(l, c.text) {
        assert(r[l.len() as int] == c);
        assert forall|t: Seq<char>| has_text(l, t) implies has_text(r, t) by {
            let i = choose|i: int| 0 <= i < l.len() && (#[trigger] l[i]).text == t;
            assert(r[i] == l[i]);
        }
    }
}

pub proof fn lemma_push_all_new_keeps(l: Seq<AnnotatedView>, items: Seq<AnnotatedView>)
    ensures
        push_all_new(l, items).len() >= l.len(),
        forall|t: Seq<char>| has_text(l, t) ==> has_text(push_all_new(l, items), t),
    decreases items.len(),
{
    if items.len() > 0 {
        lemma_push_all_new_keeps(l, items.drop_last());
        lemma_push_new_keeps(push_all_new(l, items.drop_last()), items.last());
    }
}

/// Conversion always offers the reading itself among its candidates.
pub proof fn lemma_conversion_candidates_nonempty(
    kanji: Option<KanjiView>,
    learning: Option<Seq<(Seq<char>, Seq<char>)>>,
    user: Option<Seq<DictEntryView>>,
    system: Option<Seq<DictEntryView>>,
    reading: Seq<char>,
    n: nat,
)
    ensures
        has_text(conversion_candidates(kanji, learning, user, system, reading, n), reading),
        conversion_candidates(kanji, learning, user, system, reading, n).len() > 0,
{
    let c = conversion_candidates(kanji, learning, user, system, reading, n);
    if kanji is None {
        assert(c[0].text == reading);
    } else {
        let learning_t = learning_exact_texts(learning, reading);
        let model = model_candidates(kanji, reading, n);
        let dict = dictionary_candidates(user, system, reading, usize::MAX as nat);
        let b0 = push_all_new(
            Seq::empty(),
            learning_t.map_values(|t: Seq<char>| AnnotatedView { text: t, source: CandidateSource::Learning, reading: None }),
        );
        let b1 = push_all_new(b0, of_source(dict, CandidateSource::UserDictionary));
        let b2 = push_all_new(b1, model_annotated(model, reading.len()));
        let b3 = push_all_new(b2, of_source(dict, CandidateSource::Dictionary));
        let b35 = push_new(b3, fallback(reading));
        let b4 = push_new(b35, fallback(to_katakana(reading)));
        lemma_push_new_keeps(b3, fallback(reading));
        lemma_push_new_keeps(b35, fallback(to_katakana(reading)));
        if has_ascii_digit(reading) {
            lemma_push_new_keeps(b4, fallback(to_kanji_digits(reading)));
        }
        assert(has_text(c, reading));
        let i = choose|i: int| 0 <= i < c.len() && (#[trigger] c[i]).text == reading;
    }
}

} // verus!
