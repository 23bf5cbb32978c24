//! Laws of the processor, stated over the rendering model and proved
//! once for all inputs.

use crate::process::{counter_through, render_file, render_files, render_from};
use crate::render::{counter_after, is_blank, line_output, num_prefix, Policy};
use vstd::prelude::*;

verus! {

/// Rendering preserves the number of lines: one output line per input
/// line, whatever the policy and starting counter.
pub proof fn lemma_render_from_len(policy: Policy, counter: nat, lines: Seq<Seq<char>>)
    ensures
        render_from(policy, counter, lines).len() == lines.len(),
    decreases lines.len(),
{
    if lines.len() > 0 {
        lemma_render_from_len(
            policy,
            counter_after(policy, counter, lines[0]),
            lines.drop_first(),
        );
    }
}

/// The `i`th output line is the `i`th input line rendered at the counter
/// value the lines before it reached.
pub proof fn lemma_render_from_index(policy: Policy, counter: nat, lines: Seq<Seq<char>>, i: int)
    requires
        0 <= i < lines.len(),
    ensures
        render_from(policy, counter, lines)[i] == line_output(
            policy,
            counter_through(policy, counter, lines.take(i)),
            lines[i],
        ),
    decreases i,
{
    let c1 = counter_after(policy, counter, lines[0]);
    lemma_render_from_len(policy, c1, lines.drop_first());
    if i == 0 {
        assert(lines.take(0) =~= Seq::<Seq<char>>::empty());
    } else {
        lemma_render_from_index(policy, c1, lines.drop_first(), i - 1);
        assert(lines.take(i)[0] == lines[0]);
        assert(lines.take(i).drop_first() =~= lines.drop_first().take(i - 1));
        assert(lines.drop_first()[i - 1] == lines[i]);
    }
}

/// Under the plain policy every line passes through unchanged, whatever
/// the counter value.
pub proof fn lemma_plain_from(counter: nat, lines: Seq<Seq<char>>)
    ensures
        render_from(Policy::Plain, counter, lines) == lines,
    decreases lines.len(),
{
    if lines.len() == 0 {
        assert(render_from(Policy::Plain, counter, lines) =~= lines);
    } else {
        lemma_plain_from(counter, lines.drop_first());
        assert(render_from(Policy::Plain, counter, lines) =~= lines);
    }
}

/// Plain policy: the output equals the input verbatim, line for line,
/// with no prefixes.
pub proof fn plain_output_is_verbatim(lines: Seq<Seq<char>>)
    ensures
        render_file(Policy::Plain, lines) == lines,
{
    lemma_plain_from(0, lines);
}

/// Under the number-all policy every line consumes a counter value.
pub proof fn lemma_number_all_counter(counter: nat, lines: Seq<Seq<char>>)
    ensures
        counter_through(Policy::NumberAll, counter, lines) == counter + lines.len(),
    decreases lines.len(),
{
    if lines.len() > 0 {
        lemma_number_all_counter(counter + 1, lines.drop_first());
    }
}

/// Number-all policy: within a file the `i`th emitted line (0-indexed)
/// carries the number `i + 1`, right-aligned to width six and followed
/// by a tab, then the line text unchanged.
pub proof fn number_all_numbers_every_line(lines: Seq<Seq<char>>)
    ensures
        render_file(Policy::NumberAll, lines).len() == lines.len(),
        forall|i: int|
            0 <= i < lines.len() ==> render_file(Policy::NumberAll, lines)[i] == num_prefix(
                (i + 1) as nat,
            ) + lines[i],
{
    lemma_render_from_len(Policy::NumberAll, 0, lines);
    assert forall|i: int| 0 <= i < lines.len() implies render_file(Policy::NumberAll, lines)[i]
        == num_prefix((i + 1) as nat) + lines[i] by {
        lemma_render_from_index(Policy::NumberAll, 0, lines, i);
        lemma_number_all_counter(0, lines.take(i));
        assert(lines.take(i).len() == i);
    }
}

/// The number of non-blank lines in a sequence.
pub open spec fn nonblank_count(lines: Seq<Seq<char>>) -> nat
    decreases lines.len(),
{
    if lines.len() == 0 {
        0
    } else if is_blank(lines[0]) {
        nonblank_count(lines.drop_first())
    } else {
        nonblank_count(lines.drop_first()) + 1
    }
}

/// Under the number-nonblank policy exactly the non-blank lines consume
/// counter values.
pub proof fn lemma_nonblank_counter(counter: nat, lines: Seq<Seq<char>>)
    ensures
        counter_through(Policy::NumberNonblank, counter, lines) == counter + nonblank_count(lines),
    decreases lines.len(),
{
    if lines.len() > 0 {
        lemma_nonblank_counter(
            counter_after(Policy::NumberNonblank, counter, lines[0]),
            lines.drop_first(),
        );
    }
}

/// Number-nonblank policy: a blank line (empty or whitespace-only) is
/// emitted as an empty line with no prefix and consumes no counter
/// value; a non-blank line carries one more than the number of non-blank
/// lines before it — the numbers run as if the blank lines did not
/// exist.
pub proof fn number_nonblank_skips_blank_lines(lines: Seq<Seq<char>>)
    ensures
        render_file(Policy::NumberNonblank, lines).len() == lines.len(),
        forall|i: int|
            0 <= i < lines.len() && is_blank(lines[i]) ==> render_file(
                Policy::NumberNonblank,
                lines,
            )[i] == Seq::<char>::empty(),
        forall|i: int|
            0 <= i < lines.len() && !is_blank(lines[i]) ==> render_file(
                Policy::NumberNonblank,
                lines,
            )[i] == num_prefix(nonblank_count(lines.take(i)) + 1) + lines[i],
{
    lemma_render_from_len(Policy::NumberNonblank, 0, lines);
    assert forall|i: int| 0 <= i < lines.len() && is_blank(lines[i]) implies render_file(
        Policy::NumberNonblank,
        lines,
    )[i] == Seq::<char>::empty() by {
        lemma_render_from_index(Policy::NumberNonblank, 0, lines, i);
    }
    assert forall|i: int| 0 <= i < lines.len() && !is_blank(lines[i]) implies render_file(
        Policy::NumberNonblank,
        lines,
    )[i] == num_prefix(nonblank_count(lines.take(i)) + 1) + lines[i] by {
        lemma_render_from_index(Policy::NumberNonblank, 0, lines, i);
        lemma_nonblank_counter(0, lines.take(i));
    }
}

/// A two-file run renders each file with a fresh counter and
/// concatenates the outputs: numbering never carries from one file to
/// the next.
pub proof fn two_files_render_independently(policy: Policy, a: Seq<Seq<char>>, b: Seq<Seq<char>>)
    ensures
        render_files(policy, seq![a, b]) == render_file(policy, a) + render_file(policy, b),
{
    reveal_with_fuel(render_files, 4);
    assert(seq![a, b].drop_first() =~= seq![b]);
    assert(seq![b].drop_first() =~= Seq::<Seq<Seq<char>>>::empty());
    assert(render_files(policy, seq![a, b]) =~= render_file(policy, a) + render_file(policy, b));
}

/// Plain policy round trip: running the processor on two files in one
/// run equals running it on each alone and concatenating the outputs,
/// and both equal the concatenated input itself.
pub proof fn plain_round_trip(a: Seq<Seq<char>>, b: Seq<Seq<char>>)
    ensures
        render_file(Policy::Plain, a + b) == render_file(Policy::Plain, a) + render_file(
            Policy::Plain,
            b,
        ),
        render_files(Policy::Plain, seq![a, b]) == render_file(Policy::Plain, a) + render_file(
            Policy::Plain,
            b,
        ),
{
    plain_output_is_verbatim(a);
    plain_output_is_verbatim(b);
    plain_output_is_verbatim(a + b);
    two_files_render_independently(Policy::Plain, a, b);
}

} // verus!
