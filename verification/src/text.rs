//! Building the texts of messages.

use vstd::prelude::*;

verus! {

/// `String::push`: one more character at the end.
#[verifier::external_body]
pub(crate) fn push_char(s: &mut String, c: char)
    ensures
        final(s)@ == old(s)@.push(c),
{
    s.push(c)
}

/// The digit characters, by value.
pub open spec fn digit(d: nat) -> char {
    if d == 0 {
        '0'
    } else if d == 1 {
        '1'
    } else if d == 2 {
        '2'
    } else if d == 3 {
        '3'
    } else if d == 4 {
        '4'
    } else if d == 5 {
        '5'
    } else if d == 6 {
        '6'
    } else if d == 7 {
        '7'
    } else if d == 8 {
        '8'
    } else {
        '9'
    }
}

/// A number in decimal notation, without leading zeros.
pub open spec fn decimal(n: nat) -> Seq<char>
    decreases n,
{
    if n < 10 {
        seq![digit(n)]
    } else {
        decimal(n / 10).push(digit(n % 10))
    }
}

/// The decimal notation of a number's higher digits: nothing for zero.
spec fn higher_digits(n: nat) -> Seq<char> {
    if n == 0 {
        Seq::empty()
    } else {
        decimal(n)
    }
}

fn digit_char(d: u64) -> (c: char)
    requires
        d < 10,
    ensures
        c == digit(d as nat),
{
    if d == 0 {
        '0'
    } else if d == 1 {
        '1'
    } else if d == 2 {
        '2'
    } else if d == 3 {
        '3'
    } else if d == 4 {
        '4'
    } else if d == 5 {
        '5'
    } else if d == 6 {
        '6'
    } else if d == 7 {
        '7'
    } else if d == 8 {
        '8'
    } else {
        '9'
    }
}

/// Appends a text.
pub fn append_str(s: &mut String, t: &str)
    ensures
        final(s)@ == old(s)@ + t@,
{
    let n = t.unicode_len();
    let mut i: usize = 0;
    assert(old(s)@ + t@.take(0) =~= old(s)@);
    while i < n
        invariant
            i <= n,
            n == t@.len(),
            s@ == old(s)@ + t@.take(i as int),
        decreases n - i,
    {
        let c = t.get_char(i);
        push_char(s, c);
        assert(s@ =~= old(s)@ + t@.take(i + 1));
        i += 1;
    }
    assert(t@.take(n as int) =~= t@);
}

/// Appends a number in decimal notation.
pub fn append_decimal(s: &mut String, n: u64)
    ensures
        final(s)@ == old(s)@ + decimal(n as nat),
{
    let mut digits: Vec<char> = Vec::new();
    digits.push(digit_char(n % 10));
    let mut m: u64 = n / 10;
    assert(decimal(n as nat) =~= higher_digits(m as nat) + digits@.reverse());
    while m > 0
        invariant
            digits.len() >= 1,
            decimal(n as nat) == higher_digits(m as nat) + digits@.reverse(),
        decreases m,
    {
        let ghost before = digits@;
        digits.push(digit_char(m % 10));
        assert(digits@.reverse() =~= seq![digit((m % 10) as nat)] + before.reverse());
        assert(higher_digits(m as nat) =~= higher_digits((m / 10) as nat) + seq![
            digit((m % 10) as nat),
        ]);
        m = m / 10;
    }
    let ghost text = digits@.reverse();
    assert(decimal(n as nat) =~= text);
    let mut i: usize = digits.len();
    assert(old(s)@ + text.take(0) =~= old(s)@);
    while i > 0
        invariant
            i <= digits.len(),
            text == digits@.reverse(),
            s@ == old(s)@ + text.take(digits.len() - i),
        decreases i,
    {
        i -= 1;
        push_char(s, digits[i]);
        assert(text[digits.len() - 1 - i] == digits[i as int]);
        assert(s@ =~= old(s)@ + text.take(digits.len() - i));
    }
    assert(text.take(digits.len() as int) =~= text);
}

} // verus!
