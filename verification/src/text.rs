//! Building blocks for the text of a line: string equality, decimal numbers
//! and zero-padded fields.

use vstd::prelude::*;

verus! {

/// Equality of two string slices, by `str`'s `==`: `true` exactly when both
/// hold the same characters in the same order.
#[verifier::external_body]
pub(crate) fn str_eq(a: &str, b: &str) -> (same: bool)
    ensures
        same == (a@ == b@),
{
    a == b
}

/// Appends one character, by `String::push`: the text afterwards is the text
/// before with `c` at its end.
#[verifier::external_body]
pub(crate) fn push_char(out: &mut String, c: char)
    ensures
        final(out)@ == old(out)@.push(c),
{
    out.push(c)
}

/// The character that stands for a single decimal digit.
pub open spec fn digit_char(d: int) -> char {
    if d == 0 {
        '0'
    } else if d == 1 {
        '1'
    } else if d == 2 {
        '2'
    } else if d == 3 {
        '3'
    } else if d == 4 {
        '4'
    } else if d == 5 {
        '5'
    } else if d == 6 {
        '6'
    } else if d == 7 {
        '7'
    } else if d == 8 {
        '8'
    } else {
        '9'
    }
}

/// The decimal numeral of `n`, without leading zeros (`0` is "0").
pub open spec fn decimal(n: nat) -> Seq<char>
    decreases n,
{
    if n < 10 {
        seq![digit_char(n as int)]
    } else {
        decimal(n / 10).push(digit_char((n % 10) as int))
    }
}

/// A run of `count` zeros.
pub open spec fn zeros(count: nat) -> Seq<char> {
    Seq::new(count, |i: int| '0')
}

/// The decimal numeral of `n`, filled with zeros on the left up to `width`
/// characters. A numeral that is longer than `width` is left as it is.
pub open spec fn zero_padded(n: nat, width: nat) -> Seq<char> {
    if decimal(n).len() < width {
        zeros((width - decimal(n).len()) as nat) + decimal(n)
    } else {
        decimal(n)
    }
}

/// How many digits the decimal numeral of `n` has.
pub open spec fn digit_count(n: nat) -> nat
    decreases n,
{
    if n < 10 {
        1
    } else {
        digit_count(n / 10) + 1
    }
}

/// A numeral has as many characters as the number has digits.
pub proof fn lemma_decimal_len(n: nat)
    ensures
        decimal(n).len() == digit_count(n),
        digit_count(n) >= 1,
    decreases n,
{
    if n >= 10 {
        lemma_decimal_len(n / 10);
    }
}

/// A number below ten to the `width` has at most `width` digits, so that its
/// padded numeral is exactly `width` characters long.
pub proof fn lemma_zero_padded_len(n: nat, width: nat)
    ensures
        zero_padded(n, width).len() >= width,
        digit_count(n) <= width ==> zero_padded(n, width).len() == width,
{
    lemma_decimal_len(n);
}

fn digit_of(d: u64) -> (c: char)
    requires
        d < 10,
    ensures
        c == digit_char(d as int),
{
    if d == 0 {
        '0'
    } else if d == 1 {
        '1'
    } else if d == 2 {
        '2'
    } else if d == 3 {
        '3'
    } else if d == 4 {
        '4'
    } else if d == 5 {
        '5'
    } else if d == 6 {
        '6'
    } else if d == 7 {
        '7'
    } else if d == 8 {
        '8'
    } else {
        '9'
    }
}

fn count_digits(n: u64) -> (count: usize)
    ensures
        count == digit_count(n as nat),
        1 <= count <= 20,
    decreases n,
{
    if n < 10 {
        1
    } else {
        proof {
            lemma_digit_count_bound(n as nat);
        }
        count_digits(n / 10) + 1
    }
}

proof fn lemma_digit_count_bound(n: nat)
    requires
        n <= u64::MAX,
    ensures
        digit_count(n) <= 20,
{
    reveal_with_fuel(digit_count, 21);
}

/// Appends the decimal numeral of `n` to `out`.
pub fn push_decimal(out: &mut String, n: u64)
    ensures
        final(out)@ == old(out)@ + decimal(n as nat),
    decreases n,
{
    if n >= 10 {
        push_decimal(out, n / 10);
    }
    push_char(out, digit_of(n % 10));
    assert(out@ =~= old(out)@ + decimal(n as nat));
}

/// Appends the decimal numeral of `n` to `out`, zero-padded to `width`.
pub fn push_zero_padded(out: &mut String, n: u64, width: usize)
    ensures
        final(out)@ == old(out)@ + zero_padded(n as nat, width as nat),
{
    let count: usize = count_digits(n);
    proof {
        lemma_decimal_len(n as nat);
    }
    let mut written: usize = count;
    while written < width
        invariant
            count <= written,
            written <= width || written == count,
            out@ == old(out)@ + zeros((written - count) as nat),
        decreases width - written,
    {
        push_char(out, '0');
        written = written + 1;
        assert(out@ =~= old(out)@ + zeros((written - count) as nat));
    }
    push_decimal(out, n);
    assert(out@ =~= old(out)@ + zero_padded(n as nat, width as nat));
}

} // verus!
