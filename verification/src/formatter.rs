//! One line of a report: counts in columns, then a label.

use crate::counter::naturals;
use crate::text::{
    decimal,
    decimal_ends_in_digit,
    is_space,
    joined,
    padded,
    push_padded,
    trimmed,
    trimmed_concat,
    trimmed_length,
};
use vstd::prelude::*;
use vstd::string::*;

verus! {

/// Each count written `width` wide.
pub open spec fn cells(counts: Seq<nat>, width: nat) -> Seq<Seq<char>> {
    Seq::new(counts.len(), |i: int| padded(counts[i], width))
}

/// The counts, each `width` wide, with one blank between each two.
pub open spec fn columns(counts: Seq<nat>, width: nat) -> Seq<char> {
    joined(cells(counts, width), seq![' '])
}

/// The label's text; nothing where there is no label.
pub open spec fn label_text(label: Option<Seq<char>>) -> Seq<char> {
    match label {
        Some(l) => l,
        None => Seq::empty(),
    }
}

/// A line: the columns, a blank, the label, and no white space at the end.
pub open spec fn formatted(counts: Seq<nat>, label: Option<Seq<char>>, width: nat) -> Seq<char> {
    trimmed(columns(counts, width) + seq![' '] + label_text(label))
}

/// The numbers of `v` as natural numbers.
pub open spec fn wide_naturals(v: Seq<u128>) -> Seq<nat> {
    Seq::new(v.len(), |i: int| v[i] as nat)
}

/// The text of an optional name.
pub open spec fn name_text(name: Option<String>) -> Option<Seq<char>> {
    match name {
        Some(n) => Some(n@),
        None => None,
    }
}

/// The columns are empty or end in a digit.
pub proof fn columns_end_in_digit(counts: Seq<nat>, width: nat)
    ensures
        counts.len() == 0 <==> columns(counts, width).len() == 0,
        counts.len() > 0 ==> !is_space(columns(counts, width).last()),
{
    let c = cells(counts, width);
    if counts.len() > 0 {
        decimal_ends_in_digit(counts.last());
        assert(c.last().len() > 0);
        assert(c.last().last() == decimal(counts.last()).last());
        if counts.len() > 1 {
            assert(columns(counts, width) == joined(c.drop_last(), seq![' ']) + seq![' ']
                + c.last());
        }
    }
}

/// A line with its label is the columns where the label is empty or all
/// white space, and else the columns, a blank and the label without the
/// white space at its end.
pub proof fn formatted_with_label(counts: Seq<nat>, label: Seq<char>, width: nat)
    ensures
        formatted(counts, Some(label), width) == if trimmed(label).len() > 0 {
            columns(counts, width) + seq![' '] + trimmed(label)
        } else {
            columns(counts, width)
        },
{
    let c = columns(counts, width);
    let blank = seq![' '];
    trimmed_concat(c + blank, label);
    if trimmed(label).len() == 0 {
        assert(trimmed(blank) =~= Seq::<char>::empty()) by {
            assert(is_space(blank.last()));
            assert(blank.drop_last() =~= Seq::<char>::empty());
            assert(trimmed(blank) == trimmed(blank.drop_last()));
        }
        trimmed_concat(c, blank);
        columns_end_in_digit(counts, width);
    }
}

/// A line without a label is the columns alone.
pub proof fn formatted_without_label(counts: Seq<nat>, width: nat)
    ensures
        formatted(counts, None, width) == columns(counts, width),
{
    formatted_with_label(counts, Seq::empty(), width);
}

/// The counts as wider numbers.
pub fn widened(counts: &Vec<usize>) -> (wide: Vec<u128>)
    ensures
        wide_naturals(wide@) == naturals(counts@),
        wide@.len() == counts@.len(),
{
    let mut wide: Vec<u128> = Vec::new();
    let mut i: usize = 0;
    while i < counts.len()
        invariant
            i <= counts.len(),
            wide@.len() == i,
            forall|j: int| 0 <= j < i ==> wide@[j] == counts@[j],
        decreases counts.len() - i,
    {
        wide.push(counts[i] as u128);
        i = i + 1;
    }
    assert(wide_naturals(wide@) =~= naturals(counts@));
    wide
}

/// Writes a line: each count right-aligned in `width` columns, one blank
/// between the counts and before the label, nothing after the last
/// character that is no white space.
pub fn format_line(counts: &Vec<u128>, label: Option<&str>, width: usize) -> (line: String)
    ensures
        line@ == formatted(
            wide_naturals(counts@),
            match label {
                Some(l) => Some(l@),
                None => None,
            },
            width as nat,
        ),
{
    let ghost numbers = wide_naturals(counts@);
    let ghost parts = cells(numbers, width as nat);
    let mut line = String::new();
    let mut i: usize = 0;
    assert(parts.take(0) =~= Seq::<Seq<char>>::empty());
    while i < counts.len()
        invariant
            i <= counts.len(),
            numbers == wide_naturals(counts@),
            parts == cells(numbers, width as nat),
            line@ == joined(parts.take(i as int), seq![' ']),
        decreases counts.len() - i,
    {
        let ghost before = line@;
        if i > 0 {
            line.append(" ");
        }
        push_padded(&mut line, counts[i], width);
        proof {
            reveal_strlit(" ");
            let now = parts.take(i + 1);
            assert(now.drop_last() =~= parts.take(i as int));
            assert(now.last() == padded(counts@[i as int] as nat, width as nat));
            if i > 0 {
                assert(line@ =~= before + seq![' '] + now.last());
            } else {
                assert(before =~= Seq::<char>::empty());
                assert(line@ =~= now.last());
            }
        }
        i = i + 1;
    }
    assert(parts.take(i as int) =~= parts);
    match label {
        Some(l) => {
            let keep = trimmed_length(l);
            if keep > 0 {
                line.append(" ");
                line.append(l.substring_char(0, keep));
            }
            proof {
                reveal_strlit(" ");
                formatted_with_label(numbers, l@, width as nat);
                assert(l@.subrange(0, keep as int) =~= l@.take(keep as int));
            }
        },
        None => {
            proof {
                formatted_without_label(numbers, width as nat);
            }
        },
    }
    line
}

/// Formats one line of a report. Each count is right-aligned in `digit`
/// columns, and a count with more digits is written in full. One blank
/// stands between the counts, and one before the name if there is a name.
/// White space at the end of the line is left out.
pub fn format_output(counts: Vec<usize>, name: Option<String>, digit: usize) -> (line: String)
    ensures
        line@ == formatted(naturals(counts@), name_text(name), digit as nat),
{
    let wide = widened(&counts);
    match &name {
        Some(n) => format_line(&wide, Some(n.as_str()), digit),
        None => format_line(&wide, None, digit),
    }
}

} // verus!
