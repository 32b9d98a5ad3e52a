//! Reading-to-surface dictionaries (the user's and the system's).
use vstd::prelude::*;
use crate::text::str_eq;

verus! {

/// One dictionary entry.  `score` orders the system dictionary's candidates
/// for a reading: lower scores come first.
#[derive(Debug)]
pub struct DictEntry {
    pub reading: String,
    pub surface: String,
    pub score: i64,
}

pub struct DictEntryView {
    pub reading: Seq<char>,
    pub surface: Seq<char>,
    pub score: i64,
}

impl View for DictEntry {
    type V = DictEntryView;

    open spec fn view(&self) -> DictEntryView {
        DictEntryView { reading: self.reading@, surface: self.surface@, score: self.score }
    }
}

impl DictEntry {
    pub fn duplicate(&self) -> (e: DictEntry)
        ensures
            e == *self,
    {
        DictEntry { reading: self.reading.clone(), surface: self.surface.clone(), score: self.score }
    }
}

pub open spec fn dict_views(s: Seq<DictEntry>) -> Seq<DictEntryView> {
    s.map_values(|e: DictEntry| e@)
}

/// Entries of the given reading, in dictionary order.
pub open spec fn entries_for(entries: Seq<DictEntryView>, r: Seq<char>) -> Seq<DictEntryView>
    decreases entries.len(),
{
    if entries.len() == 0 {
        entries
    } else {
        let rest = entries_for(entries.drop_last(), r);
        if entries.last().reading == r {
            rest.push(entries.last())
        } else {
            rest
        }
    }
}

/// A dictionary: a list of entries.
#[derive(Debug)]
pub struct Dictionary {
    entries: Vec<DictEntry>,
}

impl View for Dictionary {
    type V = Seq<DictEntryView>;

    closed spec fn view(&self) -> Seq<DictEntryView> {
        dict_views(self.entries@)
    }
}

impl Dictionary {
    pub fn new(entries: Vec<DictEntry>) -> (d: Dictionary)
        ensures
            d@ == dict_views(entries@),
    {
        Dictionary { entries }
    }

    /// The entries whose reading is exactly `reading`, in dictionary order.
    pub fn exact_match_search(&self, reading: &str) -> (r: Vec<DictEntry>)
        ensures
            dict_views(r@) == entries_for(self@, reading@),
    {
        let mut r: Vec<DictEntry> = Vec::new();
        let mut i: usize = 0;
        while i < self.entries.len()
            invariant
                i <= self.entries.len(),
                dict_views(r@) == entries_for(self@.take(i as int), reading@),
            decreases self.entries.len() - i,
        {
            assert(self@.take(i + 1).drop_last() =~= self@.take(i as int));
            if str_eq(self.entries[i].reading.as_str(), reading) {
                r.push(self.entries[i].duplicate());
            }
            i = i + 1;
            assert(dict_views(r@) =~= entries_for(self@.take(i as int), reading@));
        }
        assert(self@.take(i as int) =~= self@);
        r
    }
}

/// The user's and the system's dictionary, either of which may be absent.
#[derive(Debug)]
pub struct Dictionaries {
    pub user: Option<Dictionary>,
    pub system: Option<Dictionary>,
}

} // verus!
