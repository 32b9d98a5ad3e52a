//! The learning cache: conversions the user chose, most recent first.
use vstd::prelude::*;
use crate::text::{char_count, str_eq, substring};

verus! {

/// One remembered choice: `surface` was chosen for `reading`.
#[derive(Debug)]
pub struct LearningEntry {
    pub reading: String,
    pub surface: String,
}

/// Remembered (reading, surface) pairs, most recently chosen first.
#[derive(Debug)]
pub struct LearningCache {
    entries: Vec<LearningEntry>,
}

pub open spec fn entry_views(s: Seq<LearningEntry>) -> Seq<(Seq<char>, Seq<char>)> {
    s.map_values(|e: LearningEntry| (e.reading@, e.surface@))
}

impl View for LearningCache {
    type V = Seq<(Seq<char>, Seq<char>)>;

    closed spec fn view(&self) -> Seq<(Seq<char>, Seq<char>)> {
        entry_views(self.entries@)
    }
}

/// The entries other than `(r, s)`, in order.
pub open spec fn without(entries: Seq<(Seq<char>, Seq<char>)>, r: Seq<char>, s: Seq<char>) -> Seq<
    (Seq<char>, Seq<char>),
>
    decreases entries.len(),
{
    if entries.len() == 0 {
        entries
    } else {
        let rest = without(entries.drop_last(), r, s);
        if entries.last() == (r, s) {
            rest
        } else {
            rest.push(entries.last())
        }
    }
}

/// Surfaces remembered for exactly `r`, most recent first.
pub open spec fn surfaces_for(entries: Seq<(Seq<char>, Seq<char>)>, r: Seq<char>) -> Seq<Seq<char>>
    decreases entries.len(),
{
    if entries.len() == 0 {
        Seq::empty()
    } else {
        let rest = surfaces_for(entries.drop_last(), r);
        if entries.last().0 == r {
            rest.push(entries.last().1)
        } else {
            rest
        }
    }
}

/// `p` is a prefix of `s`.
pub open spec fn is_prefix(p: Seq<char>, s: Seq<char>) -> bool {
    p.len() <= s.len() && s.subrange(0, p.len() as int) == p
}

/// Entries whose reading starts with `r`, most recent first.
pub open spec fn entries_with_prefix(entries: Seq<(Seq<char>, Seq<char>)>, r: Seq<char>) -> Seq<
    (Seq<char>, Seq<char>),
>
    decreases entries.len(),
{
    if entries.len() == 0 {
        entries
    } else {
        let rest = entries_with_prefix(entries.drop_last(), r);
        if is_prefix(r, entries.last().0) {
            rest.push(entries.last())
        } else {
            rest
        }
    }
}

proof fn lemma_take_succ<A>(s: Seq<A>, i: int)
    requires
        0 <= i < s.len(),
    ensures
        s.take(i + 1).drop_last() == s.take(i),
        s.take(i + 1).last() == s[i],
{
    assert(s.take(i + 1).drop_last() =~= s.take(i));
}

fn starts_with(p: &str, s: &str) -> (b: bool)
    ensures
        b == is_prefix(p@, s@),
{
    let np = char_count(p);
    let ns = char_count(s);
    if np > ns {
        return false;
    }
    let head = substring(s, 0, np);
    str_eq(head.as_str(), p)
}

impl LearningCache {
    pub fn new() -> (c: LearningCache)
        ensures
            c@ == Seq::<(Seq<char>, Seq<char>)>::empty(),
    {
        let c = LearningCache { entries: Vec::new() };
        assert(c@ =~= Seq::<(Seq<char>, Seq<char>)>::empty());
        c
    }

    /// Remember that `surface` was chosen for `reading`: the pair moves to the
    /// front, every other entry keeps its order.
    pub fn record(&mut self, reading: &str, surface: &str)
        ensures
            final(self)@ == seq![(reading@, surface@)] + without(old(self)@, reading@, surface@),
    {
        let ghost old_v = self@;
        let mut kept: Vec<LearningEntry> = Vec::new();
        kept.push(LearningEntry { reading: reading.to_owned(), surface: surface.to_owned() });
        let mut i: usize = 0;
        while i < self.entries.len()
            invariant
                i <= self.entries.len(),
                old_v == entry_views(self.entries@),
                entry_views(kept@) == seq![(reading@, surface@)] + without(old_v.take(i as int), reading@, surface@),
            decreases self.entries.len() - i,
        {
            proof {
                lemma_take_succ(old_v, i as int);
            }
            let e = &self.entries[i];
            assert(old_v[i as int] == (e.reading@, e.surface@));
            let ghost prev = entry_views(kept@);
            let same = str_eq(e.reading.as_str(), reading) && str_eq(e.surface.as_str(), surface);
            if !same {
                kept.push(LearningEntry { reading: e.reading.clone(), surface: e.surface.clone() });
                assert(entry_views(kept@) =~= prev.push(old_v[i as int]));
            }
            i = i + 1;
            assert(entry_views(kept@) =~= seq![(reading@, surface@)] + without(old_v.take(i as int), reading@, surface@));
        }
        assert(old_v.take(i as int) =~= old_v);
        self.entries = kept;
    }

    /// Forget that `surface` was chosen for `reading`; every other entry keeps its order.
    pub fn forget(&mut self, reading: &str, surface: &str)
        ensures
            final(self)@ == without(old(self)@, reading@, surface@),
    {
        let ghost old_v = self@;
        let mut kept: Vec<LearningEntry> = Vec::new();
        let mut i: usize = 0;
        while i < self.entries.len()
            invariant
                i <= self.entries.len(),
                old_v == entry_views(self.entries@),
                entry_views(kept@) == without(old_v.take(i as int), reading@, surface@),
            decreases self.entries.len() - i,
        {
            proof {
                lemma_take_succ(old_v, i as int);
            }
            let e = &self.entries[i];
            assert(old_v[i as int] == (e.reading@, e.surface@));
            let ghost prev = entry_views(kept@);
            let same = str_eq(e.reading.as_str(), reading) && str_eq(e.surface.as_str(), surface);
            if !same {
                kept.push(LearningEntry { reading: e.reading.clone(), surface: e.surface.clone() });
                assert(entry_views(kept@) =~= prev.push(old_v[i as int]));
            }
            i = i + 1;
            assert(entry_views(kept@) =~= without(old_v.take(i as int), reading@, surface@));
        }
        assert(old_v.take(i as int) =~= old_v);
        self.entries = kept;
    }

    /// Surfaces remembered for exactly `reading`, most recent first.
    pub fn lookup(&self, reading: &str) -> (r: Vec<String>)
        ensures
            r@.map_values(|s: String| s@) == surfaces_for(self@, reading@),
    {
        let mut r: Vec<String> = Vec::new();
        let mut i: usize = 0;
        while i < self.entries.len()
            invariant
                i <= self.entries.len(),
                r@.map_values(|s: String| s@) == surfaces_for(self@.take(i as int), reading@),
            decreases self.entries.len() - i,
        {
            proof {
                lemma_take_succ(self@, i as int);
            }
            if str_eq(self.entries[i].reading.as_str(), reading) {
                r.push(self.entries[i].surface.clone());
            }
            i = i + 1;
            assert(r@.map_values(|s: String| s@) =~= surfaces_for(self@.take(i as int), reading@));
        }
        assert(self@.take(i as int) =~= self@);
        r
    }

    /// Remembered (reading, surface) pairs whose reading starts with `reading`
    /// (the exact reading included), most recent first.
    pub fn prefix_lookup(&self, reading: &str) -> (r: Vec<(String, String)>)
        ensures
            r@.map_values(|p: (String, String)| (p.0@, p.1@)) == entries_with_prefix(self@, reading@),
    {
        let mut r: Vec<(String, String)> = Vec::new();
        let mut i: usize = 0;
        while i < self.entries.len()
            invariant
                i <= self.entries.len(),
                r@.map_values(|p: (String, String)| (p.0@, p.1@)) == entries_with_prefix(
                    self@.take(i as int),
                    reading@,
                ),
            decreases self.entries.len() - i,
        {
            proof {
                lemma_take_succ(self@, i as int);
            }
            if starts_with(reading, self.entries[i].reading.as_str()) {
                r.push((self.entries[i].reading.clone(), self.entries[i].surface.clone()));
            }
            i = i + 1;
            assert(r@.map_values(|p: (String, String)| (p.0@, p.1@)) =~= entries_with_prefix(
                self@.take(i as int),
                reading@,
            ));
        }
        assert(self@.take(i as int) =~= self@);
        r
    }
}

} // verus!
