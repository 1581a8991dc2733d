//! What a report says: the totals over the sources that could be read, the
//! width of the columns, the lines.

use crate::counter::counts_of;
use crate::formatter::formatted;
use crate::options::CountOptions;
use crate::text::{decimal, decimal_grows, joined, padded};
use vstd::prelude::*;

verus! {

/// What reading one source gave: its text, or the reason why it could not
/// be read.
pub type Outcome = Result<Seq<char>, Seq<char>>;

/// `current` with the sums so far added to it, place by place. Where the
/// sums are shorter, nothing is added.
pub open spec fn added(current: Seq<nat>, sums: Seq<nat>) -> Seq<nat> {
    Seq::new(
        current.len(),
        |i: int|
            current[i] + if i < sums.len() {
                sums[i]
            } else {
                0nat
            },
    )
}

/// The sums of the counts of the sources that could be read, place by
/// place. A source that could not be read adds nothing. Empty where none
/// could be read.
pub open spec fn totals(outcomes: Seq<Outcome>, options: CountOptions) -> Seq<nat>
    decreases outcomes.len(),
{
    if outcomes.len() == 0 {
        Seq::empty()
    } else {
        let before = totals(outcomes.drop_last(), options);
        match outcomes.last() {
            Ok(text) => added(counts_of(text, options), before),
            Err(_) => before,
        }
    }
}

/// The largest of the numbers; 0 where there is none.
pub open spec fn largest(numbers: Seq<nat>) -> nat
    decreases numbers.len(),
{
    if numbers.len() == 0 {
        0
    } else {
        let before = largest(numbers.drop_last());
        if numbers.last() > before {
            numbers.last()
        } else {
            before
        }
    }
}

/// The width that all lines of a report share: the number of digits of
/// the largest total.
pub open spec fn column_width(outcomes: Seq<Outcome>, options: CountOptions) -> nat {
    decimal(largest(totals(outcomes, options))).len()
}

/// The label of the source at `i`: the file's name, or none where the
/// source has no name.
pub open spec fn label_at(files: Seq<Seq<char>>, i: int) -> Option<Seq<char>> {
    if 0 <= i < files.len() {
        Some(files[i])
    } else {
        None
    }
}

/// The line of a source that could not be read.
pub open spec fn failure_line(reason: Seq<char>) -> Seq<char> {
    seq!['w', 'c', ':', ' '] + reason
}

/// The line of the source at `i`.
pub open spec fn source_line(
    files: Seq<Seq<char>>,
    options: CountOptions,
    outcomes: Seq<Outcome>,
    i: int,
) -> Seq<char> {
    match outcomes[i] {
        Ok(text) => formatted(
            counts_of(text, options),
            label_at(files, i),
            column_width(outcomes, options),
        ),
        Err(reason) => failure_line(reason),
    }
}

/// The lines of the sources, in their order.
pub open spec fn source_lines(
    files: Seq<Seq<char>>,
    options: CountOptions,
    outcomes: Seq<Outcome>,
) -> Seq<Seq<char>> {
    Seq::new(outcomes.len(), |i: int| source_line(files, options, outcomes, i))
}

/// The line of the totals.
pub open spec fn total_line(options: CountOptions, outcomes: Seq<Outcome>) -> Seq<char> {
    formatted(
        totals(outcomes, options),
        Some(seq!['t', 'o', 't', 'a', 'l']),
        column_width(outcomes, options),
    )
}

/// The lines of a report: one for each source and, with more than one
/// source, the line of the totals. With several sources of which none
/// could be read that last line holds no count, only a blank and the word.
pub open spec fn report_lines(
    files: Seq<Seq<char>>,
    options: CountOptions,
    outcomes: Seq<Outcome>,
) -> Seq<Seq<char>> {
    if outcomes.len() > 1 {
        source_lines(files, options, outcomes).push(total_line(options, outcomes))
    } else {
        source_lines(files, options, outcomes)
    }
}

/// The report: its lines with a line feed between each two, and none at
/// the end.
pub open spec fn report(files: Seq<Seq<char>>, options: CountOptions, outcomes: Seq<Outcome>) -> Seq<
    char,
> {
    joined(report_lines(files, options, outcomes), seq!['\n'])
}

/// The totals are empty, or there is one for each count that is on; the
/// latter as soon as one source could be read.
pub proof fn totals_length(outcomes: Seq<Outcome>, options: CountOptions)
    ensures
        totals(outcomes, options).len() == 0 || totals(outcomes, options).len()
            == options.enabled(),
        (exists|i: int| 0 <= i < outcomes.len() && outcomes[i] is Ok) ==> totals(
            outcomes,
            options,
        ).len() == options.enabled(),
    decreases outcomes.len(),
{
    if outcomes.len() > 0 {
        totals_length(outcomes.drop_last(), options);
        if outcomes.last() is Err {
            if exists|i: int| 0 <= i < outcomes.len() && outcomes[i] is Ok {
                let i = choose|i: int| 0 <= i < outcomes.len() && outcomes[i] is Ok;
                assert(outcomes.drop_last()[i] is Ok);
            }
        }
    }
}

/// A source that could not be read changes neither the totals nor the
/// width of the columns, wherever it stands among the others.
pub proof fn totals_skip_failure(
    outcomes: Seq<Outcome>,
    options: CountOptions,
    i: int,
    reason: Seq<char>,
)
    requires
        0 <= i <= outcomes.len(),
    ensures
        totals(outcomes.insert(i, Err(reason)), options) == totals(outcomes, options),
        column_width(outcomes.insert(i, Err(reason)), options) == column_width(outcomes, options),
    decreases outcomes.len(),
{
    let with = outcomes.insert(i, Err(reason));
    if i == outcomes.len() {
        assert(with.drop_last() =~= outcomes);
    } else {
        assert(with.last() == outcomes.last());
        assert(with.drop_last() =~= outcomes.drop_last().insert(i, Err(reason)));
        totals_skip_failure(outcomes.drop_last(), options, i, reason);
    }
}

/// Each count of a source that could be read is at most the total at its
/// place.
pub proof fn counts_within_totals(outcomes: Seq<Outcome>, options: CountOptions, i: int, k: int)
    requires
        0 <= i < outcomes.len(),
        outcomes[i] is Ok,
        0 <= k < options.enabled(),
    ensures
        totals(outcomes, options).len() == options.enabled(),
        counts_of(outcomes[i]->Ok_0, options)[k] <= totals(outcomes, options)[k],
    decreases outcomes.len(),
{
    totals_length(outcomes, options);
    let before = outcomes.drop_last();
    totals_length(before, options);
    if i < outcomes.len() - 1 {
        assert(before[i] == outcomes[i]);
        counts_within_totals(before, options, i, k);
    }
}

/// No number is larger than the largest.
pub proof fn largest_bounds(numbers: Seq<nat>, k: int)
    requires
        0 <= k < numbers.len(),
    ensures
        numbers[k] <= largest(numbers),
    decreases numbers.len(),
{
    if k < numbers.len() - 1 {
        largest_bounds(numbers.drop_last(), k);
    }
}

/// The lines of a report stand in columns: every count of a source that
/// could be read, and every total, is written exactly as wide as the
/// columns are.
pub proof fn columns_are_aligned(outcomes: Seq<Outcome>, options: CountOptions, i: int, k: int)
    requires
        0 <= i < outcomes.len(),
        outcomes[i] is Ok,
        0 <= k < options.enabled(),
    ensures
        padded(counts_of(outcomes[i]->Ok_0, options)[k], column_width(outcomes, options)).len()
            == column_width(outcomes, options),
        padded(totals(outcomes, options)[k], column_width(outcomes, options)).len()
            == column_width(outcomes, options),
{
    let sums = totals(outcomes, options);
    counts_within_totals(outcomes, options, i, k);
    largest_bounds(sums, k);
    decimal_grows(sums[k], largest(sums));
    decimal_grows(counts_of(outcomes[i]->Ok_0, options)[k], sums[k]);
}

/// Every source has its line at its place. The line of a source that
/// could not be read is `wc: ` and the reason, whatever the other sources
/// hold.
pub proof fn sources_keep_their_places(
    files: Seq<Seq<char>>,
    options: CountOptions,
    outcomes: Seq<Outcome>,
    i: int,
)
    requires
        0 <= i < outcomes.len(),
    ensures
        report_lines(files, options, outcomes)[i] == source_line(files, options, outcomes, i),
        outcomes[i] is Err ==> report_lines(files, options, outcomes)[i] == failure_line(
            outcomes[i]->Err_0,
        ),
{
}

/// A report on at most one source has no line of totals. A report on more
/// than one has it as its last line, also where only one of the sources, or
/// none, could be read.
pub proof fn total_line_with_several_sources(
    files: Seq<Seq<char>>,
    options: CountOptions,
    outcomes: Seq<Outcome>,
)
    ensures
        outcomes.len() <= 1 ==> report_lines(files, options, outcomes).len() == outcomes.len(),
        outcomes.len() > 1 ==> report_lines(files, options, outcomes).len() == outcomes.len() + 1,
        outcomes.len() > 1 ==> report_lines(files, options, outcomes).last() == total_line(
            options,
            outcomes,
        ),
{
}

} // verus!
