//! Properties of the library as a whole, proved over the specifications the
//! functions' contracts use.
use vstd::prelude::*;
use vstd::arithmetic::div_mod::{lemma_fundamental_div_mod, lemma_mod_bound, lemma_mod_self_0, lemma_small_mod};
use crate::candidate::{
    dedup, digit_target, lemma_dedup_distinct, lemma_dedup_prefix, list_wf, next_page_selected,
    next_selected, page_start, prev_page_selected, prev_selected, take_at_most, CandidateListView,
    DEFAULT_PAGE_SIZE,
};
use crate::conversion::strategy_candidates;
use crate::engine::{ConversionStrategy, ModelOutputView};
use crate::kana::{
    halfwidth_chars, hira_to_kata_char, is_ascii_digit, is_hiragana, is_katakana,
    kanji_digit, kata_to_hira_char, has_ascii_digit, to_halfwidth, to_hiragana, to_kanji_digits,
    to_katakana, to_fullwidth,
};

verus! {

// ---------------------------------------------------------------------------
// Kana conversions
// ---------------------------------------------------------------------------

/// Hiragana to katakana and back gives back the same text, for any text
/// without characters of the katakana block.
pub proof fn law_hiragana_katakana_round_trip(s: Seq<char>)
    requires
        forall|i: int| 0 <= i < s.len() ==> !is_katakana(#[trigger] s[i]),
    ensures
        to_hiragana(to_katakana(s)) == s,
{
    assert forall|i: int| 0 <= i < s.len() implies #[trigger] to_hiragana(to_katakana(s))[i] == s[i] by {
        let c = s[i];
        if is_hiragana(c) {
            assert(is_katakana(hira_to_kata_char(c)));
        }
    }
    assert(to_hiragana(to_katakana(s)) =~= s);
}

/// Katakana to hiragana and back gives back the same text, for any text
/// without characters of the hiragana block.
pub proof fn law_katakana_hiragana_round_trip(s: Seq<char>)
    requires
        forall|i: int| 0 <= i < s.len() ==> !is_hiragana(#[trigger] s[i]),
    ensures
        to_katakana(to_hiragana(s)) == s,
{
    assert forall|i: int| 0 <= i < s.len() implies #[trigger] to_katakana(to_hiragana(s))[i] == s[i] by {
        let c = s[i];
        if is_katakana(c) {
            assert(is_hiragana(kata_to_hira_char(c)));
        }
    }
    assert(to_katakana(to_hiragana(s)) =~= s);
}

/// Converting to katakana twice is converting once; likewise for hiragana.
pub proof fn law_kana_conversions_idempotent(s: Seq<char>)
    ensures
        to_katakana(to_katakana(s)) == to_katakana(s),
        to_hiragana(to_hiragana(s)) == to_hiragana(s),
{
    assert(to_katakana(to_katakana(s)) =~= to_katakana(s));
    assert(to_hiragana(to_hiragana(s)) =~= to_hiragana(s));
}

/// Katakana, hiragana, full-width and kanji-numeral forms have as many
/// characters as the text.
pub proof fn law_character_conversions_keep_length(s: Seq<char>)
    ensures
        to_katakana(s).len() == s.len(),
        to_hiragana(s).len() == s.len(),
        to_fullwidth(s).len() == s.len(),
        to_kanji_digits(s).len() == s.len(),
{
}

/// The kanji-numeral form holds no ASCII digit, and keeps every other character.
pub proof fn law_kanji_digits_replace_every_digit(s: Seq<char>)
    ensures
        !has_ascii_digit(to_kanji_digits(s)),
        forall|i: int| 0 <= i < s.len() && !is_ascii_digit(s[i]) ==> #[trigger] to_kanji_digits(s)[i] == s[i],
{
    let t = to_kanji_digits(s);
    if has_ascii_digit(t) {
        let i = choose|i: int| 0 <= i < t.len() && is_ascii_digit(#[trigger] t[i]);
        assert(t[i] == kanji_digit(s[i]));
    }
}

/// The half-width form of a concatenation is the concatenation of the half-width forms.
pub proof fn law_halfwidth_concat(a: Seq<char>, b: Seq<char>)
    ensures
        to_halfwidth(a + b) == to_halfwidth(a) + to_halfwidth(b),
    decreases b.len(),
{
    if b.len() == 0 {
        assert(a + b =~= a);
        assert(to_halfwidth(a) + to_halfwidth(b) =~= to_halfwidth(a));
    } else {
        assert((a + b).drop_last() =~= a + b.drop_last());
        assert((a + b).last() == b.last());
        law_halfwidth_concat(a, b.drop_last());
        assert(to_halfwidth(a + b) =~= to_halfwidth(a) + to_halfwidth(b));
    }
}

/// The half-width form is at least as long as the text and at most twice as long.
pub proof fn law_halfwidth_length(s: Seq<char>)
    ensures
        s.len() <= to_halfwidth(s).len() <= 2 * s.len(),
    decreases s.len(),
{
    if s.len() > 0 {
        law_halfwidth_length(s.drop_last());
        assert(1 <= halfwidth_chars(s.last()).len() <= 2);
    }
}


// ---------------------------------------------------------------------------
// Candidates
// ---------------------------------------------------------------------------

pub proof fn lemma_take_at_most_no_duplicates(s: Seq<Seq<char>>, n: nat)
    requires
        s.no_duplicates(),
    ensures
        take_at_most(s, n).no_duplicates(),
        take_at_most(s, n).len() <= n,
        take_at_most(s, n).len() <= s.len(),
        forall|i: int| 0 <= i < take_at_most(s, n).len() ==> #[trigger] take_at_most(s, n)[i] == s[i],
{
}

/// Merged model candidates hold no text twice, at most `max_candidates` of
/// them, each from one of the two lists, and start with the first primary
/// candidate when there is one to keep.
pub proof fn law_merge_candidates(primary: Seq<Seq<char>>, secondary: Seq<Seq<char>>, max_candidates: nat)
    ensures
        take_at_most(dedup(primary + secondary), max_candidates).no_duplicates(),
        take_at_most(dedup(primary + secondary), max_candidates).len() <= max_candidates,
        forall|t: Seq<char>| take_at_most(dedup(primary + secondary), max_candidates).contains(t)
            ==> (primary.contains(t) || secondary.contains(t)),
        primary.len() > 0 && max_candidates > 0 ==> take_at_most(dedup(primary + secondary), max_candidates)[0]
            == primary[0],
{
    let all = primary + secondary;
    lemma_dedup_distinct(all);
    lemma_take_at_most_no_duplicates(dedup(all), max_candidates);
    let r = take_at_most(dedup(all), max_candidates);
    assert forall|t: Seq<char>| r.contains(t) implies (primary.contains(t) || secondary.contains(t)) by {
        let i = choose|i: int| 0 <= i < r.len() && r[i] == t;
        assert(dedup(all)[i] == t);
        assert(dedup(all).contains(t));
        assert(all.contains(t));
        let k = choose|k: int| 0 <= k < all.len() && all[k] == t;
        if k < primary.len() {
            assert(primary[k] == t);
        } else {
            assert(secondary[k - primary.len()] == t);
        }
    }
    if primary.len() > 0 && max_candidates > 0 {
        lemma_dedup_prefix(all, 1);
        assert(all.take(1) =~= seq![primary[0]]);
        assert(all.take(1).drop_last() =~= Seq::<Seq<char>>::empty());
        assert(dedup(Seq::<Seq<char>>::empty()) =~= Seq::<Seq<char>>::empty());
        assert(dedup(all.take(1)) =~= seq![primary[0]]);
        assert(dedup(all)[0] == primary[0]);
    }
}

/// Moving to the next candidate and back to the previous one returns to the
/// same candidate, and so does the reverse.
pub proof fn law_next_prev_inverse(l: CandidateListView)
    requires
        list_wf(l),
        l.candidates.len() > 0,
    ensures
        prev_selected(CandidateListView { selected: next_selected(l), ..l }) == l.selected,
        next_selected(CandidateListView { selected: prev_selected(l), ..l }) == l.selected,
{
    let n = l.candidates.len();
    if l.selected + 1 < n {
        lemma_small_mod((l.selected + 1) as nat, n);
    } else {
        lemma_mod_self_0(n as int);
    }
    let p = prev_selected(l);
    if p + 1 < n {
        lemma_small_mod((p + 1) as nat, n);
    } else {
        lemma_mod_self_0(n as int);
    }
}

/// Every candidate navigation keeps the selection on a candidate.
pub proof fn law_navigation_keeps_selection_valid(l: CandidateListView)
    requires
        list_wf(l),
    ensures
        list_wf(CandidateListView { selected: next_selected(l), ..l }),
        list_wf(CandidateListView { selected: prev_selected(l), ..l }),
        list_wf(CandidateListView { selected: next_page_selected(l), ..l }),
        list_wf(CandidateListView { selected: prev_page_selected(l), ..l }),
{
    let n = l.candidates.len();
    if n > 0 {
        lemma_mod_bound((l.selected + 1) as int, n as int);
    }
    lemma_page_start_le(l.selected);
}

pub proof fn lemma_page_start_le(selected: nat)
    ensures
        page_start(selected) <= selected,
{
    lemma_fundamental_div_mod(selected as int, DEFAULT_PAGE_SIZE as int);
    lemma_mod_bound(selected as int, DEFAULT_PAGE_SIZE as int);
}

/// A digit picks a candidate on the page being shown.
pub proof fn law_digit_picks_on_current_page(l: CandidateListView, d: nat)
    requires
        list_wf(l),
        digit_target(l, d) is Some,
    ensures
        page_start(l.selected) <= digit_target(l, d)->0 < page_start(l.selected) + DEFAULT_PAGE_SIZE,
        digit_target(l, d)->0 < l.candidates.len(),
        1 <= d <= DEFAULT_PAGE_SIZE,
{
}

/// In the parallel-beam strategy the result holds no text twice, at most
/// the beam width of them, each from one of the two models, and starts with
/// the main model's best candidate when there is one and the width is not zero.
pub proof fn law_parallel_beam(m: ModelOutputView, beam_width: usize, light: Seq<Seq<char>>)
    requires
        m.strategy == (ConversionStrategy::ParallelBeam { beam_width }),
        m.light == Some(light),
    ensures
        strategy_candidates(m).no_duplicates(),
        strategy_candidates(m).len() <= beam_width,
        forall|t: Seq<char>| strategy_candidates(m).contains(t) ==> (m.main.contains(t) || light.contains(t)),
        m.main.len() > 0 && beam_width > 0 ==> strategy_candidates(m)[0] == m.main[0],
{
    let p = take_at_most(m.main, 1);
    let q = take_at_most(light, beam_width as nat);
    law_merge_candidates(p, q, beam_width as nat);
    assert forall|t: Seq<char>| strategy_candidates(m).contains(t) implies (m.main.contains(t) || light.contains(t)) by {
        if p.contains(t) {
            let k = choose|k: int| 0 <= k < p.len() && p[k] == t;
            assert(m.main[k] == t);
        } else {
            assert(q.contains(t));
            let k = choose|k: int| 0 <= k < q.len() && q[k] == t;
            assert(light[k] == t);
        }
    }
}

// ---------------------------------------------------------------------------
// Half-width sound marks
// ---------------------------------------------------------------------------

/// Voiced katakana with their unvoiced counterparts (ガ/カ ... ボ/ホ, ヴ/ウ).
pub open spec fn voiced_pairs() -> Seq<(char, char)> {
    seq![
        ('\u{30AC}', '\u{30AB}'),
        ('\u{30AE}', '\u{30AD}'),
        ('\u{30B0}', '\u{30AF}'),
        ('\u{30B2}', '\u{30B1}'),
        ('\u{30B4}', '\u{30B3}'),
        ('\u{30B6}', '\u{30B5}'),
        ('\u{30B8}', '\u{30B7}'),
        ('\u{30BA}', '\u{30B9}'),
        ('\u{30BC}', '\u{30BB}'),
        ('\u{30BE}', '\u{30BD}'),
        ('\u{30C0}', '\u{30BF}'),
        ('\u{30C2}', '\u{30C1}'),
        ('\u{30C5}', '\u{30C4}'),
        ('\u{30C7}', '\u{30C6}'),
        ('\u{30C9}', '\u{30C8}'),
        ('\u{30D0}', '\u{30CF}'),
        ('\u{30D3}', '\u{30D2}'),
        ('\u{30D6}', '\u{30D5}'),
        ('\u{30D9}', '\u{30D8}'),
        ('\u{30DC}', '\u{30DB}'),
        ('\u{30F4}', '\u{30A6}'),
    ]
}

/// Semi-voiced katakana with their unvoiced counterparts (パ/ハ ... ポ/ホ).
pub open spec fn semi_voiced_pairs() -> Seq<(char, char)> {
    seq![
        ('\u{30D1}', '\u{30CF}'),
        ('\u{30D4}', '\u{30D2}'),
        ('\u{30D7}', '\u{30D5}'),
        ('\u{30DA}', '\u{30D8}'),
        ('\u{30DD}', '\u{30DB}'),
    ]
}

/// In half-width form every voiced katakana is the half-width character of
/// its unvoiced kana followed by the voiced sound mark U+FF9E, and every
/// semi-voiced one is that character followed by the semi-voiced mark
/// U+FF9F; the unvoiced kana themselves take one half-width character.
#[verifier::spinoff_prover]
#[verifier::rlimit(50)]
pub proof fn law_halfwidth_sound_marks()
    ensures
        forall|i: int| 0 <= i < voiced_pairs().len() ==> {
            let (v, u) = #[trigger] voiced_pairs()[i];
            &&& halfwidth_chars(u).len() == 1
            &&& halfwidth_chars(v) == seq![halfwidth_chars(u)[0], '\u{FF9E}']
        },
        forall|i: int| 0 <= i < semi_voiced_pairs().len() ==> {
            let (v, u) = #[trigger] semi_voiced_pairs()[i];
            &&& halfwidth_chars(u).len() == 1
            &&& halfwidth_chars(v) == seq![halfwidth_chars(u)[0], '\u{FF9F}']
        },
        forall|c: char| #[trigger] to_halfwidth(seq![c]) == halfwidth_chars(c),
{
    assert forall|i: int| 0 <= i < voiced_pairs().len() implies {
        let (v, u) = #[trigger] voiced_pairs()[i];
        &&& halfwidth_chars(u).len() == 1
        &&& halfwidth_chars(v) == seq![halfwidth_chars(u)[0], '\u{FF9E}']
    } by {
        if i == 0 {
            assert(voiced_pairs()[0] == ('\u{30AC}', '\u{30AB}'));
            assert(halfwidth_chars('\u{30AC}') =~= seq![halfwidth_chars('\u{30AB}')[0], '\u{FF9E}']);
        } else if i == 1 {
            assert(voiced_pairs()[1] == ('\u{30AE}', '\u{30AD}'));
            assert(halfwidth_chars('\u{30AE}') =~= seq![halfwidth_chars('\u{30AD}')[0], '\u{FF9E}']);
        } else if i == 2 {
            assert(voiced_pairs()[2] == ('\u{30B0}', '\u{30AF}'));
            assert(halfwidth_chars('\u{30B0}') =~= seq![halfwidth_chars('\u{30AF}')[0], '\u{FF9E}']);
        } else if i == 3 {
            assert(voiced_pairs()[3] == ('\u{30B2}', '\u{30B1}'));
            assert(halfwidth_chars('\u{30B2}') =~= seq![halfwidth_chars('\u{30B1}')[0], '\u{FF9E}']);
        } else if i == 4 {
            assert(voiced_pairs()[4] == ('\u{30B4}', '\u{30B3}'));
            assert(halfwidth_chars('\u{30B4}') =~= seq![halfwidth_chars('\u{30B3}')[0], '\u{FF9E}']);
        } else if i == 5 {
            assert(voiced_pairs()[5] == ('\u{30B6}', '\u{30B5}'));
            assert(halfwidth_chars('\u{30B6}') =~= seq![halfwidth_chars('\u{30B5}')[0], '\u{FF9E}']);
        } else if i == 6 {
            assert(voiced_pairs()[6] == ('\u{30B8}', '\u{30B7}'));
            assert(halfwidth_chars('\u{30B8}') =~= seq![halfwidth_chars('\u{30B7}')[0], '\u{FF9E}']);
        } else if i == 7 {
            assert(voiced_pairs()[7] == ('\u{30BA}', '\u{30B9}'));
            assert(halfwidth_chars('\u{30BA}') =~= seq![halfwidth_chars('\u{30B9}')[0], '\u{FF9E}']);
        } else if i == 8 {
            assert(voiced_pairs()[8] == ('\u{30BC}', '\u{30BB}'));
            assert(halfwidth_chars('\u{30BC}') =~= seq![halfwidth_chars('\u{30BB}')[0], '\u{FF9E}']);
        } else if i == 9 {
            assert(voiced_pairs()[9] == ('\u{30BE}', '\u{30BD}'));
            assert(halfwidth_chars('\u{30BE}') =~= seq![halfwidth_chars('\u{30BD}')[0], '\u{FF9E}']);
        } else if i == 10 {
            assert(voiced_pairs()[10] == ('\u{30C0}', '\u{30BF}'));
            assert(halfwidth_chars('\u{30C0}') =~= seq![halfwidth_chars('\u{30BF}')[0], '\u{FF9E}']);
        } else if i == 11 {
            assert(voiced_pairs()[11] == ('\u{30C2}', '\u{30C1}'));
            assert(halfwidth_chars('\u{30C2}') =~= seq![halfwidth_chars('\u{30C1}')[0], '\u{FF9E}']);
        } else if i == 12 {
            assert(voiced_pairs()[12] == ('\u{30C5}', '\u{30C4}'));
            assert(halfwidth_chars('\u{30C5}') =~= seq![halfwidth_chars('\u{30C4}')[0], '\u{FF9E}']);
        } else if i == 13 {
            assert(voiced_pairs()[13] == ('\u{30C7}', '\u{30C6}'));
            assert(halfwidth_chars('\u{30C7}') =~= seq![halfwidth_chars('\u{30C6}')[0], '\u{FF9E}']);
        } else if i == 14 {
            assert(voiced_pairs()[14] == ('\u{30C9}', '\u{30C8}'));
            assert(halfwidth_chars('\u{30C9}') =~= seq![halfwidth_chars('\u{30C8}')[0], '\u{FF9E}']);
        } else if i == 15 {
            assert(voiced_pairs()[15] == ('\u{30D0}', '\u{30CF}'));
            assert(halfwidth_chars('\u{30D0}') =~= seq![halfwidth_chars('\u{30CF}')[0], '\u{FF9E}']);
        } else if i == 16 {
            assert(voiced_pairs()[16] == ('\u{30D3}', '\u{30D2}'));
            assert(halfwidth_chars('\u{30D3}') =~= seq![halfwidth_chars('\u{30D2}')[0], '\u{FF9E}']);
        } else if i == 17 {
            assert(voiced_pairs()[17] == ('\u{30D6}', '\u{30D5}'));
            assert(halfwidth_chars('\u{30D6}') =~= seq![halfwidth_chars('\u{30D5}')[0], '\u{FF9E}']);
        } else if i == 18 {
            assert(voiced_pairs()[18] == ('\u{30D9}', '\u{30D8}'));
            assert(halfwidth_chars('\u{30D9}') =~= seq![halfwidth_chars('\u{30D8}')[0], '\u{FF9E}']);
        } else if i == 19 {
            assert(voiced_pairs()[19] == ('\u{30DC}', '\u{30DB}'));
            assert(halfwidth_chars('\u{30DC}') =~= seq![halfwidth_chars('\u{30DB}')[0], '\u{FF9E}']);
        } else if i == 20 {
            assert(voiced_pairs()[20] == ('\u{30F4}', '\u{30A6}'));
            assert(halfwidth_chars('\u{30F4}') =~= seq![halfwidth_chars('\u{30A6}')[0], '\u{FF9E}']);
        }
    }
    assert forall|i: int| 0 <= i < semi_voiced_pairs().len() implies {
        let (v, u) = #[trigger] semi_voiced_pairs()[i];
        &&& halfwidth_chars(u).len() == 1
        &&& halfwidth_chars(v) == seq![halfwidth_chars(u)[0], '\u{FF9F}']
    } by {
        if i == 0 {
            assert(semi_voiced_pairs()[0] == ('\u{30D1}', '\u{30CF}'));
            assert(halfwidth_chars('\u{30D1}') =~= seq![halfwidth_chars('\u{30CF}')[0], '\u{FF9F}']);
        } else if i == 1 {
            assert(semi_voiced_pairs()[1] == ('\u{30D4}', '\u{30D2}'));
            assert(halfwidth_chars('\u{30D4}') =~= seq![halfwidth_chars('\u{30D2}')[0], '\u{FF9F}']);
        } else if i == 2 {
            assert(semi_voiced_pairs()[2] == ('\u{30D7}', '\u{30D5}'));
            assert(halfwidth_chars('\u{30D7}') =~= seq![halfwidth_chars('\u{30D5}')[0], '\u{FF9F}']);
        } else if i == 3 {
            assert(semi_voiced_pairs()[3] == ('\u{30DA}', '\u{30D8}'));
            assert(halfwidth_chars('\u{30DA}') =~= seq![halfwidth_chars('\u{30D8}')[0], '\u{FF9F}']);
        } else if i == 4 {
            assert(semi_voiced_pairs()[4] == ('\u{30DD}', '\u{30DB}'));
            assert(halfwidth_chars('\u{30DD}') =~= seq![halfwidth_chars('\u{30DB}')[0], '\u{FF9F}']);
        }
    }
    assert forall|c: char| #[trigger] to_halfwidth(seq![c]) == halfwidth_chars(c) by {
        assert(seq![c].drop_last() =~= Seq::<char>::empty());
        assert(seq![c].last() == c);
        assert(to_halfwidth(Seq::<char>::empty()) =~= Seq::<char>::empty());
        assert(to_halfwidth(seq![c]) == to_halfwidth(seq![c].drop_last()) + halfwidth_chars(seq![c].last()));
        assert(Seq::<char>::empty() + halfwidth_chars(c) =~= halfwidth_chars(c));
    }
}

} // verus!
