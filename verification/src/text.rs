//! Texts as sequences of characters: white space, trimming, joining, and
//! numbers written in decimal.

use vstd::prelude::*;
use vstd::string::*;

verus! {

/// Whether `c` is a white space character: one that has the Unicode property
/// `White_Space`.
pub open spec fn is_space(c: char) -> bool {
    let n = c as u32;
    ||| 0x09 <= n <= 0x0D
    ||| n == 0x20
    ||| n == 0x85
    ||| n == 0xA0
    ||| n == 0x1680
    ||| 0x2000 <= n <= 0x200A
    ||| n == 0x2028
    ||| n == 0x2029
    ||| n == 0x202F
    ||| n == 0x205F
    ||| n == 0x3000
}

/// The text without the white space at its end.
pub open spec fn trimmed(s: Seq<char>) -> Seq<char>
    decreases s.len(),
{
    if s.len() > 0 && is_space(s.last()) {
        trimmed(s.drop_last())
    } else {
        s
    }
}

/// The parts one after the other, with `separator` between each two.
pub open spec fn joined(parts: Seq<Seq<char>>, separator: Seq<char>) -> Seq<char>
    decreases parts.len(),
{
    if parts.len() == 0 {
        Seq::empty()
    } else if parts.len() == 1 {
        parts[0]
    } else {
        joined(parts.drop_last(), separator) + separator + parts.last()
    }
}

/// The texts of `names`.
pub open spec fn texts(names: Seq<String>) -> Seq<Seq<char>> {
    Seq::new(names.len(), |i: int| names[i]@)
}

/// The pieces of `s` between its blanks. A text without a blank is one
/// piece, and two blanks in a row have an empty piece between them.
pub open spec fn split_at_blanks(s: Seq<char>) -> Seq<Seq<char>>
    decreases s.len(),
{
    if s.len() == 0 {
        seq![Seq::empty()]
    } else {
        let before = split_at_blanks(s.drop_last());
        if s.last() == ' ' {
            before.push(Seq::empty())
        } else {
            before.drop_last().push(before.last().push(s.last()))
        }
    }
}

/// The character that writes the digit `d`.
pub open spec fn digit(d: nat) -> char {
    if d == 0 {
        '0'
    } else if d == 1 {
        '1'
    } else if d == 2 {
        '2'
    } else if d == 3 {
        '3'
    } else if d == 4 {
        '4'
    } else if d == 5 {
        '5'
    } else if d == 6 {
        '6'
    } else if d == 7 {
        '7'
    } else if d == 8 {
        '8'
    } else {
        '9'
    }
}

/// The number written in decimal, without leading zeros.
pub open spec fn decimal(n: nat) -> Seq<char>
    decreases n,
{
    if n < 10 {
        seq![digit(n)]
    } else {
        decimal(n / 10).push(digit(n % 10))
    }
}

/// `k` blanks.
pub open spec fn blanks(k: nat) -> Seq<char> {
    Seq::new(k, |i: int| ' ')
}

/// The number in decimal, with blanks in front where it has fewer than
/// `width` digits. A longer number is not cut.
pub open spec fn padded(n: nat, width: nat) -> Seq<char> {
    let d = decimal(n);
    if d.len() >= width {
        d
    } else {
        blanks((width - d.len()) as nat) + d
    }
}

/// Decides `is_space`.
pub fn is_white_space(c: char) -> (b: bool)
    ensures
        b == is_space(c),
{
    let n: u32 = c as u32;
    (0x09 <= n && n <= 0x0D) || n == 0x20 || n == 0x85 || n == 0xA0 || n == 0x1680 || (0x2000 <= n
        && n <= 0x200A) || n == 0x2028 || n == 0x2029 || n == 0x202F || n == 0x205F || n == 0x3000
}

/// A decimal numeral is not empty and ends in a digit, which is no white
/// space.
pub proof fn decimal_ends_in_digit(n: nat)
    ensures
        decimal(n).len() > 0,
        !is_space(decimal(n).last()),
{
    let d = digit(n % 10);
    assert(d == '0' || d == '1' || d == '2' || d == '3' || d == '4' || d == '5' || d == '6' || d
        == '7' || d == '8' || d == '9');
    assert(!is_space(d));
}

/// Trimming a text made of two parts trims the second part, and goes on
/// into the first only where nothing of the second is left.
pub proof fn trimmed_concat(a: Seq<char>, b: Seq<char>)
    ensures
        trimmed(a + b) == if trimmed(b).len() > 0 {
            a + trimmed(b)
        } else {
            trimmed(a)
        },
    decreases b.len(),
{
    if b.len() == 0 {
        assert(a + b =~= a);
    } else {
        assert((a + b).last() == b.last());
        assert((a + b).drop_last() =~= a + b.drop_last());
        if is_space(b.last()) {
            trimmed_concat(a, b.drop_last());
        }
    }
}

/// A larger number has no fewer digits.
pub proof fn decimal_grows(n: nat, m: nat)
    requires
        n <= m,
    ensures
        1 <= decimal(n).len() <= decimal(m).len(),
    decreases m,
{
    if n >= 10 {
        decimal_grows(n / 10, m / 10);
    } else if m >= 10 {
        decimal_grows(0, m / 10);
    }
}

/// How many characters of `s` are left when the white space at its end is
/// taken away.
pub fn trimmed_length(s: &str) -> (k: usize)
    ensures
        k <= s@.len(),
        trimmed(s@) == s@.take(k as int),
{
    let ghost t = s@;
    // The length is a `usize`, so the index below cannot overflow.
    let length = s.unicode_len();
    let mut k: usize = 0;
    let mut i: usize = 0;
    for c in it: s.chars()
        invariant
            it.seq() == t,
            length == t.len(),
            i == it.index(),
            k <= i,
            trimmed(t.take(i as int)) == t.take(k as int),
    {
        proof {
            assert(t.take(i + 1).drop_last() =~= t.take(i as int));
        }
        i = i + 1;
        if !is_white_space(c) {
            k = i;
        }
    }
    proof {
        assert(t.take(t.len() as int) =~= t);
    }
    k
}

/// Splits `s` at each blank.
pub fn split_blanks(s: &str) -> (pieces: Vec<String>)
    ensures
        texts(pieces@) == split_at_blanks(s@),
{
    let ghost t = s@;
    // The length is a `usize`, so the index below cannot overflow.
    let length = s.unicode_len();
    let mut pieces: Vec<String> = Vec::new();
    let mut start: usize = 0;
    let mut i: usize = 0;
    proof {
        assert(t.subrange(0, 0) =~= Seq::<char>::empty());
        assert(texts(pieces@) =~= Seq::<Seq<char>>::empty());
        assert(split_at_blanks(t.take(0)) =~= texts(pieces@).push(t.subrange(0, 0)));
    }
    for c in it: s.chars()
        invariant
            it.seq() == t,
            t == s@,
            length == t.len(),
            i == it.index(),
            start <= i,
            split_at_blanks(t.take(i as int)) == texts(pieces@).push(
                t.subrange(start as int, i as int),
            ),
    {
        let ghost before = texts(pieces@).push(t.subrange(start as int, i as int));
        proof {
            assert(t.take(i + 1).drop_last() =~= t.take(i as int));
            assert(before.drop_last() =~= texts(pieces@));
        }
        if c == ' ' {
            let piece = String::from_str(s.substring_char(start, i));
            let ghost earlier = pieces@;
            pieces.push(piece);
            start = i + 1;
            proof {
                assert(texts(pieces@) =~= texts(earlier).push(piece@));
                assert(t.subrange(start as int, i + 1) =~= Seq::<char>::empty());
            }
        } else {
            proof {
                assert(t.subrange(start as int, i + 1) =~= t.subrange(start as int, i as int).push(
                    c,
                ));
            }
        }
        i = i + 1;
    }
    let piece = String::from_str(s.substring_char(start, i));
    proof {
        assert(t.take(i as int) =~= t);
        assert(texts(pieces@.push(piece)) =~= texts(pieces@).push(piece@));
    }
    pieces.push(piece);
    pieces
}

/// The one-character text that writes the digit `d`.
fn digit_text(d: usize) -> (t: &'static str)
    requires
        d < 10,
    ensures
        t@ == seq![digit(d as nat)],
{
    proof {
        reveal_strlit("0");
        reveal_strlit("1");
        reveal_strlit("2");
        reveal_strlit("3");
        reveal_strlit("4");
        reveal_strlit("5");
        reveal_strlit("6");
        reveal_strlit("7");
        reveal_strlit("8");
        reveal_strlit("9");
    }
    let t = if d == 0 {
        "0"
    } else if d == 1 {
        "1"
    } else if d == 2 {
        "2"
    } else if d == 3 {
        "3"
    } else if d == 4 {
        "4"
    } else if d == 5 {
        "5"
    } else if d == 6 {
        "6"
    } else if d == 7 {
        "7"
    } else if d == 8 {
        "8"
    } else {
        "9"
    };
    assert(t@ =~= seq![digit(d as nat)]);
    t
}

/// Writes `n` in decimal at the end of `out`.
pub fn push_decimal(out: &mut String, n: u128)
    ensures
        final(out)@ == old(out)@ + decimal(n as nat),
    decreases n,
{
    if n >= 10 {
        push_decimal(out, n / 10);
    }
    let d: usize = (n % 10) as usize;
    out.append(digit_text(d));
    assert(out@ =~= old(out)@ + decimal(n as nat));
}

/// How many digits `n` has in decimal.
pub fn decimal_length(n: u128) -> (k: usize)
    ensures
        k == decimal(n as nat).len(),
{
    let mut numeral = String::new();
    push_decimal(&mut numeral, n);
    assert(numeral@ =~= decimal(n as nat));
    numeral.as_str().unicode_len()
}

/// Writes `k` blanks at the end of `out`.
pub fn push_blanks(out: &mut String, k: usize)
    ensures
        final(out)@ == old(out)@ + blanks(k as nat),
{
    let mut i: usize = 0;
    assert(out@ =~= old(out)@ + blanks(0));
    while i < k
        invariant
            i <= k,
            out@ == old(out)@ + blanks(i as nat),
        decreases k - i,
    {
        out.append(" ");
        i = i + 1;
        proof {
            reveal_strlit(" ");
            assert(out@ =~= old(out)@ + blanks(i as nat));
        }
    }
}

/// Writes `n` at the end of `out`, in decimal and at least `width` wide.
pub fn push_padded(out: &mut String, n: u128, width: usize)
    ensures
        final(out)@ == old(out)@ + padded(n as nat, width as nat),
{
    let length = decimal_length(n);
    if length < width {
        push_blanks(out, width - length);
    }
    push_decimal(out, n);
    assert(out@ =~= old(out)@ + padded(n as nat, width as nat));
}

} // verus!
