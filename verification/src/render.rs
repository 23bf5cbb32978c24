//! Rendering of a single line under a numbering policy: blankness,
//! decimal formatting of the line counter, and the numbered prefix.

use vstd::prelude::*;

verus! {

/// The three mutually exclusive numbering policies, chosen once per run.
#[derive(Clone, Copy, Debug, PartialEq, Eq, Structural)]
pub enum Policy {
    /// Emit every line unchanged.
    Plain,
    /// Prefix every line with the next counter value.
    NumberAll,
    /// Prefix only non-blank lines; blank lines come out empty and
    /// consume no counter value.
    NumberNonblank,
}

/// The characters that count as whitespace when deciding blankness:
/// the Unicode `White_Space` set, as `char::is_whitespace` uses it.
pub open spec fn is_space_char(c: char) -> bool {
    let u: u32 = c as u32;
    (0x09 <= u && u <= 0x0D) || u == 0x20 || u == 0x85 || u == 0xA0 || u == 0x1680 || (0x2000
        <= u && u <= 0x200A) || u == 0x2028 || u == 0x2029 || u == 0x202F || u == 0x205F || u
        == 0x3000
}

/// A line is blank when trimming whitespace leaves nothing: every
/// character is whitespace (an empty line is blank).
pub open spec fn is_blank(line: Seq<char>) -> bool {
    forall|i: int| 0 <= i < line.len() ==> is_space_char(#[trigger] line[i])
}

/// Whether one character is whitespace in the sense of `is_space_char`.
pub fn is_space(c: char) -> (r: bool)
    ensures
        r == is_space_char(c),
{
    let u: u32 = c as u32;
    (0x09 <= u && u <= 0x0D) || u == 0x20 || u == 0x85 || u == 0xA0 || u == 0x1680 || (0x2000
        <= u && u <= 0x200A) || u == 0x2028 || u == 0x2029 || u == 0x202F || u == 0x205F || u
        == 0x3000
}

/// Whether a line is blank: empty, or whitespace only.
pub fn line_is_blank(line: &str) -> (r: bool)
    ensures
        r == is_blank(line@),
{
    let len = line.unicode_len();
    let mut i: usize = 0;
    while i < len
        invariant
            i <= len,
            len == line@.len(),
            forall|j: int| 0 <= j < i ==> is_space_char(#[trigger] line@[j]),
        decreases len - i,
    {
        if !is_space(line.get_char(i)) {
            return false;
        }
        i += 1;
    }
    true
}

/// The decimal digit `d` as a character.
pub open spec fn digit_char(d: nat) -> char
    recommends
        d < 10,
{
    if d == 0 {
        '0'
    } else if d == 1 {
        '1'
    } else if d == 2 {
        '2'
    } else if d == 3 {
        '3'
    } else if d == 4 {
        '4'
    } else if d == 5 {
        '5'
    } else if d == 6 {
        '6'
    } else if d == 7 {
        '7'
    } else if d == 8 {
        '8'
    } else {
        '9'
    }
}

/// The decimal digits of `n`, most significant first, no leading zeros
/// (the single digit `0` for zero itself).
pub open spec fn decimal(n: nat) -> Seq<char>
    decreases n,
{
    if n < 10 {
        seq![digit_char(n)]
    } else {
        decimal(n / 10).push(digit_char(n % 10))
    }
}

/// `k` space characters.
pub open spec fn spaces(k: nat) -> Seq<char> {
    Seq::new(k, |i: int| ' ')
}

/// The prefix a numbered line carries: the counter value right-aligned
/// in a field of width six, then a tab.
pub open spec fn num_prefix(n: nat) -> Seq<char> {
    let d: Seq<char> = decimal(n);
    spaces(if d.len() >= 6 {
        0
    } else {
        (6 - d.len()) as nat
    }) + d + seq!['\t']
}

/// What one line renders to under a policy, given the counter value so
/// far (the number of lines already numbered in this file).
pub open spec fn line_output(policy: Policy, counter: nat, line: Seq<char>) -> Seq<char> {
    match policy {
        Policy::Plain => line,
        Policy::NumberAll => num_prefix(counter + 1) + line,
        Policy::NumberNonblank => if is_blank(line) {
            Seq::empty()
        } else {
            num_prefix(counter + 1) + line
        },
    }
}

/// Whether a line consumes a counter value under a policy.
pub open spec fn takes_number(policy: Policy, line: Seq<char>) -> bool {
    match policy {
        Policy::Plain => false,
        Policy::NumberAll => true,
        Policy::NumberNonblank => !is_blank(line),
    }
}

/// The counter value after one line is rendered.
pub open spec fn counter_after(policy: Policy, counter: nat, line: Seq<char>) -> nat {
    if takes_number(policy, line) {
        counter + 1
    } else {
        counter
    }
}

/// The single decimal digit `d` as a string slice.
fn digit_str(d: usize) -> (s: &'static str)
    requires
        d < 10,
    ensures
        s@ == seq![digit_char(d as nat)],
{
    let s: &'static str = if d == 0 {
        "0"
    } else if d == 1 {
        "1"
    } else if d == 2 {
        "2"
    } else if d == 3 {
        "3"
    } else if d == 4 {
        "4"
    } else if d == 5 {
        "5"
    } else if d == 6 {
        "6"
    } else if d == 7 {
        "7"
    } else if d == 8 {
        "8"
    } else {
        "9"
    };
    proof {
        reveal_strlit("0");
        reveal_strlit("1");
        reveal_strlit("2");
        reveal_strlit("3");
        reveal_strlit("4");
        reveal_strlit("5");
        reveal_strlit("6");
        reveal_strlit("7");
        reveal_strlit("8");
        reveal_strlit("9");
        assert(s@ =~= seq![digit_char(d as nat)]);
    }
    s
}

/// Appends the decimal digits of `n` to `out`.
fn push_decimal(out: &mut String, n: usize)
    ensures
        final(out)@ == old(out)@ + decimal(n as nat),
    decreases n,
{
    if n >= 10 {
        push_decimal(out, n / 10);
    }
    out.append(digit_str(n % 10));
    proof {
        if n >= 10 {
            assert(decimal(n as nat) =~= decimal((n / 10) as nat) + seq![
                digit_char((n % 10) as nat),
            ]);
        }
        assert(out@ =~= old(out)@ + decimal(n as nat));
    }
}

/// The line text prefixed for counter value `n`: the number right-aligned
/// to width six, a tab, then the line.
fn numbered_line(n: usize, line: &str) -> (r: String)
    ensures
        r@ == num_prefix(n as nat) + line@,
{
    let mut digits = String::new();
    push_decimal(&mut digits, n);
    let w: usize = digits.as_str().unicode_len();
    let pad: usize = if w >= 6 {
        0
    } else {
        6 - w
    };
    let mut s = String::new();
    let mut k: usize = 0;
    while k < pad
        invariant
            k <= pad,
            s@ =~= spaces(k as nat),
        decreases pad - k,
    {
        s.append(" ");
        k += 1;
        proof {
            reveal_strlit(" ");
            assert(s@ =~= spaces(k as nat));
        }
    }
    s.append(digits.as_str());
    s.append("\t");
    s.append(line);
    proof {
        reveal_strlit("\t");
        assert(s@ =~= num_prefix(n as nat) + line@);
    }
    s
}

/// Renders one line under `policy` with the counter value so far, and
/// returns the rendered line together with the counter value after it.
pub fn render_one_line(policy: Policy, counter: usize, line: &str) -> (r: (String, usize))
    requires
        counter < usize::MAX,
    ensures
        r.0@ == line_output(policy, counter as nat, line@),
        r.1 as nat == counter_after(policy, counter as nat, line@),
{
    match policy {
        Policy::Plain => (String::from_str(line), counter),
        Policy::NumberAll => (numbered_line(counter + 1, line), counter + 1),
        Policy::NumberNonblank => {
            if line_is_blank(line) {
                (String::new(), counter)
            } else {
                (numbered_line(counter + 1, line), counter + 1)
            }
        },
    }
}

} // verus!
