//! Romaji to hiragana conversion as keys are typed.
//!
//! Typed letters collect in a pending buffer until they spell a syllable,
//! which is then emitted as kana.  A doubled consonant emits a small `っ`,
//! an `n` before a consonant emits `ん`, ASCII symbols become full-width, and
//! anything else that can never become a syllable is passed through unchanged.
use vstd::prelude::*;
use vstd::string::StrSliceExecFns;
use vstd::string::StringExecFns;
use crate::text::{char_count, char_from_u32, push_char, substring};

verus! {

pub open spec fn is_vowel(c: char) -> bool {
    c == 'a' || c == 'i' || c == 'u' || c == 'e' || c == 'o'
}

/// Position of a vowel in the kana order a, i, u, e, o.
pub open spec fn vowel_index(c: char) -> int {
    if c == 'a' {
        0
    } else if c == 'i' {
        1
    } else if c == 'u' {
        2
    } else if c == 'e' {
        3
    } else {
        4
    }
}

/// The kana of consonant `c` followed by the vowel of index `v`, for the
/// regular consonant rows.
pub open spec fn row_kana(c: char, v: int) -> Option<char> {
    if c == 'k' {
        Some((0x304B + 2 * v) as char)
    } else if c == 'g' {
        Some((0x304C + 2 * v) as char)
    } else if c == 's' {
        Some((0x3055 + 2 * v) as char)
    } else if c == 'z' {
        Some((0x3056 + 2 * v) as char)
    } else if c == 't' {
        Some((if v < 2 { 0x305F + 2 * v } else { 0x3064 + 2 * (v - 2) }) as char)
    } else if c == 'd' {
        Some((if v < 2 { 0x3060 + 2 * v } else { 0x3065 + 2 * (v - 2) }) as char)
    } else if c == 'n' {
        Some((0x306A + v) as char)
    } else if c == 'h' {
        Some((0x306F + 3 * v) as char)
    } else if c == 'b' {
        Some((0x3070 + 3 * v) as char)
    } else if c == 'p' {
        Some((0x3071 + 3 * v) as char)
    } else if c == 'm' {
        Some((0x307E + v) as char)
    } else if c == 'r' {
        Some((0x3089 + v) as char)
    } else {
        None
    }
}

/// Consonants that combine with `y` into a contracted sound (`kya`, ...).
pub open spec fn is_youon_consonant(c: char) -> bool {
    c == 'k' || c == 'g' || c == 'n' || c == 'h' || c == 'b' || c == 'p' || c == 'm' || c == 'r'
}

/// Small ya / yu / yo for the vowels a, u, o.
pub open spec fn small_y(v: char) -> Option<char> {
    if v == 'a' {
        Some('\u{3083}')
    } else if v == 'u' {
        Some('\u{3085}')
    } else if v == 'o' {
        Some('\u{3087}')
    } else {
        None
    }
}

/// ASCII punctuation and symbols (`!` to `/`, `:` to `@`, `[` to `` ` ``, `{` to `~`).
pub open spec fn is_ascii_symbol(c: char) -> bool {
    ('!' <= c && c <= '/') || (':' <= c && c <= '@') || ('[' <= c && c <= '`') || ('{' <= c && c <= '~')
}

/// The kana that a complete syllable spells, if `s` is one.  A symbol other
/// than `-`, `,` and `.` spells its full-width form.
pub open spec fn syllable(s: Seq<char>) -> Option<Seq<char>> {
    if s.len() == 1 {
        let c = s[0];
        if is_vowel(c) {
            Some(seq![(0x3042 + 2 * vowel_index(c)) as char])
        } else if c == '-' {
            Some(seq!['\u{30FC}'])
        } else if c == ',' {
            Some(seq!['\u{3001}'])
        } else if c == '.' {
            Some(seq!['\u{3002}'])
        } else if is_ascii_symbol(c) {
            Some(seq![((c as u32) + 0xFEE0) as char])
        } else {
            None
        }
    } else if s.len() == 2 {
        let c = s[0];
        let v = s[1];
        if c == 'n' && v == 'n' {
            Some(seq!['\u{3093}'])
        } else if !is_vowel(v) {
            None
        } else if row_kana(c, vowel_index(v)) is Some {
            Some(seq![row_kana(c, vowel_index(v))->0])
        } else if c == 'y' && small_y(v) is Some {
            Some(seq![(small_y(v)->0 as u32 + 1) as char])
        } else if c == 'w' && v == 'a' {
            Some(seq!['\u{308F}'])
        } else if c == 'w' && v == 'o' {
            Some(seq!['\u{3092}'])
        } else if c == 'j' && v == 'i' {
            Some(seq!['\u{3058}'])
        } else if c == 'j' && small_y(v) is Some {
            Some(seq!['\u{3058}', small_y(v)->0])
        } else if c == 'f' && v == 'u' {
            Some(seq!['\u{3075}'])
        } else {
            None
        }
    } else if s.len() == 3 {
        let c = s[0];
        let m = s[1];
        let v = s[2];
        if is_youon_consonant(c) && m == 'y' && small_y(v) is Some {
            Some(seq![row_kana(c, 1)->0, small_y(v)->0])
        } else if c == 's' && m == 'h' && v == 'i' {
            Some(seq!['\u{3057}'])
        } else if c == 's' && m == 'h' && small_y(v) is Some {
            Some(seq!['\u{3057}', small_y(v)->0])
        } else if c == 'c' && m == 'h' && v == 'i' {
            Some(seq!['\u{3061}'])
        } else if c == 'c' && m == 'h' && small_y(v) is Some {
            Some(seq!['\u{3061}', small_y(v)->0])
        } else if c == 't' && m == 's' && v == 'u' {
            Some(seq!['\u{3064}'])
        } else {
            None
        }
    } else {
        None
    }
}

/// Letters that begin a syllable but are not one yet.
pub open spec fn is_onset(c: char) -> bool {
    row_kana(c, 0) is Some || c == 'y' || c == 'w' || c == 'j' || c == 'f' || c == 'c'
}

/// `s` can still grow into a syllable.
pub open spec fn is_partial(s: Seq<char>) -> bool {
    if s.len() == 1 {
        is_onset(s[0])
    } else if s.len() == 2 {
        (is_youon_consonant(s[0]) && s[1] == 'y') || (s[0] == 's' && s[1] == 'h') || (s[0] == 'c'
            && s[1] == 'h') || (s[0] == 't' && s[1] == 's')
    } else {
        false
    }
}

/// What the first letter of a pending sequence that cannot become a
/// syllable turns into: `ん` for `n`, a small `っ` for a doubled consonant,
/// otherwise the letter itself.
pub open spec fn dead_head(s: Seq<char>) -> Seq<char> {
    if s[0] == 'n' {
        seq!['\u{3093}']
    } else if s.len() >= 2 && s[0] == s[1] && is_onset(s[0]) {
        seq!['\u{3063}']
    } else {
        seq![s[0]]
    }
}

/// Splits pending input into the kana it produces now and what stays pending.
pub open spec fn resolve(s: Seq<char>) -> (Seq<char>, Seq<char>)
    decreases s.len(),
{
    if s.len() == 0 {
        (Seq::empty(), Seq::empty())
    } else if syllable(s) is Some {
        (syllable(s)->0, Seq::empty())
    } else if is_partial(s) {
        (Seq::empty(), s)
    } else {
        let rest = resolve(s.drop_first());
        (dead_head(s) + rest.0, rest.1)
    }
}

/// What flushing a pending sequence produces: a lone `n` becomes `ん`,
/// anything else is kept as typed.
pub open spec fn flushed(s: Seq<char>) -> Seq<char> {
    if s == seq!['n'] {
        seq!['\u{3093}']
    } else {
        s
    }
}

fn kana_at(base: u32, off: u32) -> (c: char)
    requires
        0x3000 <= base + off < 0x3100,
    ensures
        c == (base + off) as char,
{
    match char_from_u32(base + off) {
        Some(c) => c,
        None => ' ',
    }
}

fn vowel_index_exec(c: char) -> (v: u32)
    ensures
        v == vowel_index(c),
{
    if c == 'a' {
        0
    } else if c == 'i' {
        1
    } else if c == 'u' {
        2
    } else if c == 'e' {
        3
    } else {
        4
    }
}

fn row_kana_exec(c: char, v: u32) -> (r: Option<char>)
    requires
        v <= 4,
    ensures
        r == row_kana(c, v as int),
{
    if c == 'k' {
        Some(kana_at(0x304B, 2 * v))
    } else if c == 'g' {
        Some(kana_at(0x304C, 2 * v))
    } else if c == 's' {
        Some(kana_at(0x3055, 2 * v))
    } else if c == 'z' {
        Some(kana_at(0x3056, 2 * v))
    } else if c == 't' {
        Some(
            if v < 2 {
                kana_at(0x305F, 2 * v)
            } else {
                kana_at(0x3064, 2 * (v - 2))
            },
        )
    } else if c == 'd' {
        Some(
            if v < 2 {
                kana_at(0x3060, 2 * v)
            } else {
                kana_at(0x3065, 2 * (v - 2))
            },
        )
    } else if c == 'n' {
        Some(kana_at(0x306A, v))
    } else if c == 'h' {
        Some(kana_at(0x306F, 3 * v))
    } else if c == 'b' {
        Some(kana_at(0x3070, 3 * v))
    } else if c == 'p' {
        Some(kana_at(0x3071, 3 * v))
    } else if c == 'm' {
        Some(kana_at(0x307E, v))
    } else if c == 'r' {
        Some(kana_at(0x3089, v))
    } else {
        None
    }
}

fn small_y_exec(v: char) -> (r: Option<char>)
    ensures
        r == small_y(v),
{
    if v == 'a' {
        Some('\u{3083}')
    } else if v == 'u' {
        Some('\u{3085}')
    } else if v == 'o' {
        Some('\u{3087}')
    } else {
        None
    }
}

fn is_vowel_exec(c: char) -> (b: bool)
    ensures
        b == is_vowel(c),
{
    c == 'a' || c == 'i' || c == 'u' || c == 'e' || c == 'o'
}

fn is_youon_consonant_exec(c: char) -> (b: bool)
    ensures
        b == is_youon_consonant(c),
{
    c == 'k' || c == 'g' || c == 'n' || c == 'h' || c == 'b' || c == 'p' || c == 'm' || c == 'r'
}

fn is_onset_exec(c: char) -> (b: bool)
    ensures
        b == is_onset(c),
{
    row_kana_exec(c, 0).is_some() || c == 'y' || c == 'w' || c == 'j' || c == 'f' || c == 'c'
}

/// One or two kana as a string.
fn kana_string(a: char, b: Option<char>) -> (s: String)
    ensures
        s@ == (match b {
            Some(b) => seq![a, b],
            None => seq![a],
        }),
{
    let mut s = String::new();
    push_char(&mut s, a);
    match b {
        Some(b) => push_char(&mut s, b),
        None => {},
    }
    assert(s@ =~= (match b {
        Some(b) => seq![a, b],
        None => seq![a],
    }));
    s
}

fn syllable_exec(s: &str) -> (r: Option<String>)
    ensures
        r matches Some(k) ==> syllable(s@) == Some(k@),
        r is None ==> syllable(s@) is None,
{
    let n = char_count(s);
    if n == 1 {
        let c = s.get_char(0);
        if is_vowel_exec(c) {
            let v = vowel_index_exec(c);
            Some(kana_string(kana_at(0x3042, 2 * v), None))
        } else if c == '-' {
            Some(kana_string('\u{30FC}', None))
        } else if c == ',' {
            Some(kana_string('\u{3001}', None))
        } else if c == '.' {
            Some(kana_string('\u{3002}', None))
        } else if ('!' <= c && c <= '/') || (':' <= c && c <= '@') || ('[' <= c && c <= '`') || ('{' <= c
            && c <= '~') {
            match char_from_u32(c as u32 + 0xFEE0) {
                Some(w) => Some(kana_string(w, None)),
                None => None,
            }
        } else {
            None
        }
    } else if n == 2 {
        let c = s.get_char(0);
        let v = s.get_char(1);
        if c == 'n' && v == 'n' {
            return Some(kana_string('\u{3093}', None));
        }
        if !is_vowel_exec(v) {
            return None;
        }
        let vi = vowel_index_exec(v);
        match row_kana_exec(c, vi) {
            Some(k) => {
                return Some(kana_string(k, None));
            },
            None => {},
        }
        let sy = small_y_exec(v);
        if c == 'y' && sy.is_some() {
            let y = sy.unwrap();
            Some(kana_string(kana_at(y as u32, 1), None))
        } else if c == 'w' && v == 'a' {
            Some(kana_string('\u{308F}', None))
        } else if c == 'w' && v == 'o' {
            Some(kana_string('\u{3092}', None))
        } else if c == 'j' && v == 'i' {
            Some(kana_string('\u{3058}', None))
        } else if c == 'j' && sy.is_some() {
            Some(kana_string('\u{3058}', sy))
        } else if c == 'f' && v == 'u' {
            Some(kana_string('\u{3075}', None))
        } else {
            None
        }
    } else if n == 3 {
        let c = s.get_char(0);
        let m = s.get_char(1);
        let v = s.get_char(2);
        let sy = small_y_exec(v);
        if is_youon_consonant_exec(c) && m == 'y' && sy.is_some() {
            match row_kana_exec(c, 1) {
                Some(k) => Some(kana_string(k, sy)),
                None => None,
            }
        } else if c == 's' && m == 'h' && v == 'i' {
            Some(kana_string('\u{3057}', None))
        } else if c == 's' && m == 'h' && sy.is_some() {
            Some(kana_string('\u{3057}', sy))
        } else if c == 'c' && m == 'h' && v == 'i' {
            Some(kana_string('\u{3061}', None))
        } else if c == 'c' && m == 'h' && sy.is_some() {
            Some(kana_string('\u{3061}', sy))
        } else if c == 't' && m == 's' && v == 'u' {
            Some(kana_string('\u{3064}', None))
        } else {
            None
        }
    } else {
        None
    }
}

fn is_partial_exec(s: &str) -> (b: bool)
    ensures
        b == is_partial(s@),
{
    let n = char_count(s);
    if n == 1 {
        is_onset_exec(s.get_char(0))
    } else if n == 2 {
        let a = s.get_char(0);
        let b = s.get_char(1);
        (is_youon_consonant_exec(a) && b == 'y') || (a == 's' && b == 'h') || (a == 'c' && b
            == 'h') || (a == 't' && b == 's')
    } else {
        false
    }
}

fn dead_head_exec(s: &str) -> (h: String)
    requires
        s@.len() > 0,
    ensures
        h@ == dead_head(s@),
{
    let n = char_count(s);
    let c = s.get_char(0);
    if c == 'n' {
        kana_string('\u{3093}', None)
    } else if n >= 2 && c == s.get_char(1) && is_onset_exec(c) {
        kana_string('\u{3063}', None)
    } else {
        kana_string(c, None)
    }
}

/// Resolve pending input into (emitted kana, still pending).
fn resolve_exec(s: &str) -> (r: (String, String))
    ensures
        (r.0@, r.1@) == resolve(s@),
{
    let mut pending = String::from_str(s);
    let mut emitted = String::new();
    loop
        invariant
            emitted@ + resolve(pending@).0 == resolve(s@).0,
            resolve(pending@).1 == resolve(s@).1,
        decreases pending@.len(),
    {
        let n = char_count(pending.as_str());
        if n == 0 {
            assert(emitted@ + Seq::<char>::empty() =~= emitted@);
            return (emitted, pending);
        }
        match syllable_exec(pending.as_str()) {
            Some(k) => {
                emitted.append(k.as_str());
                return (emitted, String::new());
            },
            None => {},
        }
        if is_partial_exec(pending.as_str()) {
            assert(emitted@ + Seq::<char>::empty() =~= emitted@);
            return (emitted, pending);
        }
        let head = dead_head_exec(pending.as_str());
        let rest = substring(pending.as_str(), 1, n);
        assert(rest@ =~= pending@.drop_first());
        let ghost old_e = emitted@;
        emitted.append(head.as_str());
        assert(resolve(pending@).0 == head@ + resolve(rest@).0);
        assert(emitted@ + resolve(rest@).0 =~= old_e + resolve(pending@).0);
        pending = rest;
    }
}

/// Romaji conversion state: pending letters, the kana produced so far, and
/// every character typed since the last reset.
#[derive(Debug)]
pub struct RomajiConverter {
    buffer: String,
    output: String,
    raw: String,
}

pub struct RomajiView {
    pub buffer: Seq<char>,
    pub output: Seq<char>,
    pub raw: Seq<char>,
}

impl View for RomajiConverter {
    type V = RomajiView;

    closed spec fn view(&self) -> RomajiView {
        RomajiView { buffer: self.buffer@, output: self.output@, raw: self.raw@ }
    }
}

impl RomajiConverter {
    pub fn new() -> (r: RomajiConverter)
        ensures
            r@.buffer == Seq::<char>::empty(),
            r@.output == Seq::<char>::empty(),
            r@.raw == Seq::<char>::empty(),
    {
        RomajiConverter { buffer: String::new(), output: String::new(), raw: String::new() }
    }

    /// Forget all pending, produced and typed input.
    pub fn reset(&mut self)
        ensures
            final(self)@.buffer == Seq::<char>::empty(),
            final(self)@.output == Seq::<char>::empty(),
            final(self)@.raw == Seq::<char>::empty(),
    {
        self.buffer = String::new();
        self.output = String::new();
        self.raw = String::new();
    }

    /// Type one character; returns the kana this produces now.
    pub fn push(&mut self, ch: char) -> (emitted: String)
        ensures
            (emitted@, final(self)@.buffer) == resolve(old(self)@.buffer.push(ch)),
            final(self)@.output == old(self)@.output + emitted@,
            final(self)@.raw == old(self)@.raw.push(ch),
    {
        push_char(&mut self.raw, ch);
        let mut pending = self.buffer.clone();
        push_char(&mut pending, ch);
        let (emitted, rest) = resolve_exec(pending.as_str());
        self.output.append(emitted.as_str());
        self.buffer = rest;
        emitted
    }

    /// Take everything pending: a lone `n` becomes `ん`, anything else stays as typed.
    pub fn flush(&mut self) -> (out: String)
        ensures
            out@ == flushed(old(self)@.buffer),
            final(self)@.buffer == Seq::<char>::empty(),
            final(self)@.output == old(self)@.output + out@,
            final(self)@.raw == old(self)@.raw,
    {
        let pending = self.buffer.clone();
        let out = if char_count(pending.as_str()) == 1 && pending.as_str().get_char(0) == 'n' {
            assert(pending@ =~= seq!['n']);
            kana_string('\u{3093}', None)
        } else {
            proof {
                if pending@ == seq!['n'] {
                    assert(pending@[0] == 'n');
                }
            }
            pending
        };
        self.buffer = String::new();
        self.output.append(out.as_str());
        out
    }

    /// Remove the last pending letter (and the last typed character).
    pub fn backspace(&mut self)
        ensures
            final(self)@.buffer == (if old(self)@.buffer.len() > 0 {
                old(self)@.buffer.drop_last()
            } else {
                old(self)@.buffer
            }),
            final(self)@.output == old(self)@.output,
            final(self)@.raw == (if old(self)@.buffer.len() > 0 && old(self)@.raw.len() > 0 {
                old(self)@.raw.drop_last()
            } else {
                old(self)@.raw
            }),
    {
        let n = char_count(self.buffer.as_str());
        if n > 0 {
            self.buffer = substring(self.buffer.as_str(), 0, n - 1);
            let m = char_count(self.raw.as_str());
            if m > 0 {
                self.raw = substring(self.raw.as_str(), 0, m - 1);
            }
        }
    }

    /// Take `text` as input that is already converted: nothing pending, and
    /// `text` as both what was produced and what was typed.
    pub fn load_converted(&mut self, text: &str)
        ensures
            final(self)@.buffer == Seq::<char>::empty(),
            final(self)@.output == text@,
            final(self)@.raw == text@,
    {
        self.buffer = String::new();
        self.output = String::from_str(text);
        self.raw = String::from_str(text);
    }

    pub fn buffer(&self) -> (b: &str)
        ensures
            b@ == self@.buffer,
    {
        self.buffer.as_str()
    }

    pub fn output(&self) -> (o: &str)
        ensures
            o@ == self@.output,
    {
        self.output.as_str()
    }

    pub fn raw_input(&self) -> (r: &str)
        ensures
            r@ == self@.raw,
    {
        self.raw.as_str()
    }
}

} // verus!
