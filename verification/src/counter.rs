//! The four counts of a text.

use crate::options::CountOptions;
use crate::text::{is_space, is_white_space};
use vstd::prelude::*;
use vstd::string::*;
use vstd::utf8::{encode_utf8, is_ascii_chars, is_ascii_chars_encode_utf8};

verus! {

/// How many bytes the text takes in UTF-8.
pub open spec fn byte_count(s: Seq<char>) -> nat {
    encode_utf8(s).len()
}

/// How many characters the text has.
pub open spec fn character_count(s: Seq<char>) -> nat {
    s.len()
}

/// How many line feeds the text holds.
pub open spec fn line_feeds(s: Seq<char>) -> nat
    decreases s.len(),
{
    if s.len() == 0 {
        0
    } else {
        line_feeds(s.drop_last()) + if s.last() == '\n' {
            1nat
        } else {
            0nat
        }
    }
}

/// How many lines the text has: each line feed ends one, and what follows
/// the last line feed is one more line unless it is empty.
pub open spec fn line_count(s: Seq<char>) -> nat {
    line_feeds(s) + if s.len() > 0 && s.last() != '\n' {
        1nat
    } else {
        0nat
    }
}

/// Whether a word starts at `i`: a character that is no white space, at the
/// start of the text or behind white space.
pub open spec fn starts_word(s: Seq<char>, i: int) -> bool {
    &&& 0 <= i < s.len()
    &&& !is_space(s[i])
    &&& (i == 0 || is_space(s[i - 1]))
}

/// How many words the text has: the places where one starts.
pub open spec fn word_count(s: Seq<char>) -> nat
    decreases s.len(),
{
    if s.len() == 0 {
        0
    } else {
        word_count(s.drop_last()) + if starts_word(s, s.len() - 1) {
            1nat
        } else {
            0nat
        }
    }
}

/// The counts of a text that `options` asks for, in the order lines, words,
/// bytes, characters.
pub open spec fn counts_of(s: Seq<char>, options: CountOptions) -> Seq<nat> {
    (if options.count_lines { seq![line_count(s)] } else { seq![] })
    + (if options.count_words { seq![word_count(s)] } else { seq![] })
    + (if options.count_bytes { seq![byte_count(s)] } else { seq![] })
    + (if options.count_characters { seq![character_count(s)] } else { seq![] })
}

/// The numbers of `v` as natural numbers.
pub open spec fn naturals(v: Seq<usize>) -> Seq<nat> {
    Seq::new(v.len(), |i: int| v[i] as nat)
}

/// Counts the bytes of `content`.
pub fn count_bytes(content: &str) -> (n: usize)
    ensures
        n == byte_count(content@),
{
    content.as_bytes().len()
}

/// Counts the characters of `content`: its Unicode scalar values.
pub fn count_characters(content: &str) -> (n: usize)
    ensures
        n == character_count(content@),
{
    content.unicode_len()
}

/// Counts the lines of `content`.
pub fn count_lines(content: &str) -> (n: usize)
    ensures
        n == line_count(content@),
{
    let ghost s = content@;
    // The length is a `usize`, so the counter below cannot overflow.
    let length = content.unicode_len();
    let mut feeds: usize = 0;
    let mut open = false;
    for c in it: content.chars()
        invariant
            it.seq() == s,
            length == s.len(),
            feeds == line_feeds(s.take(it.index())),
            feeds + (if open { 1int } else { 0 }) <= it.index(),
            open == (it.index() > 0 && s[it.index() - 1] != '\n'),
    {
        proof {
            assert(s.take(it.index() + 1).drop_last() =~= s.take(it.index()));
        }
        if c == '\n' {
            feeds = feeds + 1;
            open = false;
        } else {
            open = true;
        }
    }
    proof {
        assert(s.take(s.len() as int) =~= s);
    }
    if open {
        feeds + 1
    } else {
        feeds
    }
}

/// Counts the words of `content`: its runs of characters that are no
/// white space.
pub fn count_words(content: &str) -> (n: usize)
    ensures
        n == word_count(content@),
{
    let ghost s = content@;
    // The length is a `usize`, so the counter below cannot overflow.
    let length = content.unicode_len();
    let mut words: usize = 0;
    let mut after_space = true;
    for c in it: content.chars()
        invariant
            it.seq() == s,
            length == s.len(),
            words == word_count(s.take(it.index())),
            words <= it.index(),
            after_space == (it.index() == 0 || is_space(s[it.index() - 1])),
    {
        proof {
            assert(s.take(it.index() + 1).drop_last() =~= s.take(it.index()));
        }
        let space = is_white_space(c);
        if !space && after_space {
            words = words + 1;
        }
        after_space = space;
    }
    proof {
        assert(s.take(s.len() as int) =~= s);
    }
    words
}

/// Counts what `options` asks for in `content`. The counts come in the order
/// lines, words, bytes, characters, whatever the order the flags were given
/// in.
pub fn count(content: &str, options: &CountOptions) -> (v: Vec<usize>)
    ensures
        naturals(v@) == counts_of(content@, *options),
{
    let mut v: Vec<usize> = Vec::new();
    if options.count_lines {
        v.push(count_lines(content));
    }
    if options.count_words {
        v.push(count_words(content));
    }
    if options.count_bytes {
        v.push(count_bytes(content));
    }
    if options.count_characters {
        v.push(count_characters(content));
    }
    assert(naturals(v@) =~= counts_of(content@, *options));
    v
}

/// Where the count of words stands among the counts.
pub open spec fn place_of_words(options: CountOptions) -> int {
    if options.count_lines {
        1
    } else {
        0
    }
}

/// Where the count of bytes stands among the counts.
pub open spec fn place_of_bytes(options: CountOptions) -> int {
    place_of_words(options) + if options.count_words {
        1int
    } else {
        0
    }
}

/// Where the count of characters stands among the counts.
pub open spec fn place_of_characters(options: CountOptions) -> int {
    place_of_bytes(options) + if options.count_bytes {
        1int
    } else {
        0
    }
}

/// With every count on, the counts are four: lines, words, bytes,
/// characters.
pub proof fn counts_with_all_on(s: Seq<char>)
    ensures
        counts_of(
            s,
            CountOptions {
                count_bytes: true,
                count_lines: true,
                count_characters: true,
                count_words: true,
            },
        ) == seq![line_count(s), word_count(s), byte_count(s), character_count(s)],
{
    let all = CountOptions {
        count_bytes: true,
        count_lines: true,
        count_characters: true,
        count_words: true,
    };
    assert(counts_of(s, all) =~= seq![
        line_count(s),
        word_count(s),
        byte_count(s),
        character_count(s),
    ]);
}

/// There is one count for each count that is on, and the counts keep the
/// order lines, words, bytes, characters: each stands behind exactly those
/// of the earlier ones that are on.
pub proof fn counts_in_fixed_order(s: Seq<char>, options: CountOptions)
    ensures
        counts_of(s, options).len() == options.enabled(),
        options.count_lines ==> counts_of(s, options)[0] == line_count(s),
        options.count_words ==> counts_of(s, options)[place_of_words(options)] == word_count(s),
        options.count_bytes ==> counts_of(s, options)[place_of_bytes(options)] == byte_count(s),
        options.count_characters ==> counts_of(s, options)[place_of_characters(options)]
            == character_count(s),
{
}

/// Every count of the empty text is 0.
pub proof fn counts_of_empty_text(options: CountOptions)
    ensures
        forall|i: int|
            0 <= i < counts_of(Seq::empty(), options).len() ==> counts_of(
                Seq::empty(),
                options,
            )[i] == 0,
{
    let s = Seq::<char>::empty();
    assert(line_count(s) == 0);
    assert(word_count(s) == 0);
    assert(byte_count(s) == 0);
    assert(character_count(s) == 0);
}

/// A text of ASCII characters has as many bytes as characters.
pub proof fn bytes_of_ascii_text(s: Seq<char>)
    requires
        is_ascii_chars(s),
    ensures
        byte_count(s) == character_count(s),
{
    is_ascii_chars_encode_utf8(s);
}

} // verus!
