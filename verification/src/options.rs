//! Which counts a run reports.

use vstd::prelude::*;

verus! {

/// The four counts that can be asked for, each on or off.
#[derive(Clone, Copy, Debug, PartialEq, Eq, Structural)]
pub struct CountOptions {
    pub count_bytes: bool,
    pub count_lines: bool,
    pub count_characters: bool,
    pub count_words: bool,
}

/// Whether a flag at position `a` was given after one at position `b`. A
/// flag without a position was never given, so it is later than none, and
/// every flag with a position is later than it.
pub open spec fn given_later(a: Option<usize>, b: Option<usize>) -> bool {
    match (a, b) {
        (Some(x), Some(y)) => x > y,
        (Some(_), None) => true,
        (None, _) => false,
    }
}

/// The options that stand for four flags as they were given. With no flag at
/// all: lines, words and bytes. With both the byte flag and the character
/// flag: only the later of the two stays on. Otherwise the flags themselves.
pub open spec fn resolved(
    bytes: bool,
    lines: bool,
    characters: bool,
    words: bool,
    bytes_at: Option<usize>,
    characters_at: Option<usize>,
) -> CountOptions {
    let both = bytes && characters;
    let b = if both { given_later(bytes_at, characters_at) } else { bytes };
    let c = if both { given_later(characters_at, bytes_at) } else { characters };
    if !lines && !words && !b && !c {
        CountOptions {
            count_bytes: true,
            count_lines: true,
            count_characters: false,
            count_words: true,
        }
    } else {
        CountOptions { count_bytes: b, count_lines: lines, count_characters: c, count_words: words }
    }
}

impl CountOptions {
    /// Options with each count on or off as given.
    pub fn new(count_bytes: bool, count_lines: bool, count_characters: bool, count_words: bool) -> (o:
        Self)
        ensures
            o == (CountOptions { count_bytes, count_lines, count_characters, count_words }),
    {
        Self { count_bytes, count_lines, count_characters, count_words }
    }

    /// Whether these options are what `resolve` can give: some count is on,
    /// and bytes and characters are not both on.
    pub open spec fn is_resolved(self) -> bool {
        &&& self.count_bytes || self.count_lines || self.count_characters || self.count_words
        &&& !(self.count_bytes && self.count_characters)
    }

    /// How many counts are on.
    pub open spec fn enabled(self) -> nat {
        (if self.count_lines { 1nat } else { 0 }) + (if self.count_words { 1nat } else { 0 }) + (
        if self.count_bytes { 1nat } else { 0 }) + (if self.count_characters { 1nat } else { 0 })
    }

    /// Settles the options from the four flags and from where on the command
    /// line the byte flag and the character flag stood.
    pub fn resolve(
        bytes: bool,
        lines: bool,
        characters: bool,
        words: bool,
        bytes_at: Option<usize>,
        characters_at: Option<usize>,
    ) -> (o: Self)
        ensures
            o == resolved(bytes, lines, characters, words, bytes_at, characters_at),
            o.is_resolved(),
    {
        let mut count_bytes = bytes;
        let mut count_characters = characters;
        if bytes && characters {
            count_bytes = later(bytes_at, characters_at);
            count_characters = later(characters_at, bytes_at);
        }
        if !lines && !words && !count_bytes && !count_characters {
            CountOptions::new(true, true, false, true)
        } else {
            CountOptions::new(count_bytes, lines, count_characters, words)
        }
    }
}

/// Decides `given_later`.
fn later(a: Option<usize>, b: Option<usize>) -> (r: bool)
    ensures
        r == given_later(a, b),
{
    match a {
        Some(x) => match b {
            Some(y) => x > y,
            None => true,
        },
        None => false,
    }
}

/// Without any flag the counts are lines, words and bytes.
pub proof fn resolve_default(bytes_at: Option<usize>, characters_at: Option<usize>)
    ensures
        resolved(false, false, false, false, bytes_at, characters_at) == (CountOptions {
            count_bytes: true,
            count_lines: true,
            count_characters: false,
            count_words: true,
        }),
{
}

/// Of the byte flag and the character flag, both given at different places,
/// the later one wins and the earlier one is switched off; the line and word
/// flags pass through.
pub proof fn resolve_last_wins(lines: bool, words: bool, bytes_at: usize, characters_at: usize)
    requires
        bytes_at != characters_at,
    ensures
        ({
            let o = resolved(true, lines, true, words, Some(bytes_at), Some(characters_at));
            &&& o.count_bytes == (bytes_at > characters_at)
            &&& o.count_characters == (characters_at > bytes_at)
            &&& o.count_bytes != o.count_characters
            &&& o.count_lines == lines
            &&& o.count_words == words
        }),
{
}

/// Flags that do not hold both the byte flag and the character flag, and
/// are not all off, pass through as they are.
pub proof fn resolve_passes_through(
    bytes: bool,
    lines: bool,
    characters: bool,
    words: bool,
    bytes_at: Option<usize>,
    characters_at: Option<usize>,
)
    requires
        !(bytes && characters),
        bytes || lines || characters || words,
    ensures
        resolved(bytes, lines, characters, words, bytes_at, characters_at) == (CountOptions {
            count_bytes: bytes,
            count_lines: lines,
            count_characters: characters,
            count_words: words,
        }),
{
}

} // verus!
