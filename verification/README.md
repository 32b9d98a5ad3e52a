# karukan

The core of a Japanese input method, written in Verus: kana and character-width
conversions, romaji input, the candidate list, and the state machine that
composes, converts, commits and cancels text.  The functions' contracts
state their results over abstract views of the data, and Verus proves the
code against them.

## Layout

- `src/kana.rs` — hiragana/katakana, half-width and full-width forms, kanji
  numerals, NFKC normalization (through the `unicode-normalization` crate).
- `src/romaji.rs` — romaji to hiragana as keys are typed.
- `src/candidate.rs`, `src/learning.rs`, `src/dictionary.rs` — candidates and
  their sources: the learning cache, the user and system dictionaries.
- `src/engine.rs` — the engine's state, its abstract view and invariant.
- `src/input.rs`, `src/cursor.rs`, `src/conversion.rs` — key handling while
  composing, caret and selection movement, and the conversion session.
- `src/laws.rs`, `src/conversion_laws.rs` — properties that span functions
  (round trips, inverses, what a commit or a cancel gives back).
- `tests/` — scenarios run against the compiled library.

The neural kana-kanji models run outside the library: the host hands the
engine, per katakana reading and number of candidates asked for, the
strategy it ran the models with and what the main and the light model
produced (`KanjiConverter`); combining them, and everything the engine does
with the result, is verified.
