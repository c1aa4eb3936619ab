//! Small helpers for building strings character by character.

use vstd::prelude::*;

verus! {

/// Relies on String::push: appends exactly the given character.
#[verifier::external_body]
pub(crate) fn push_char(s: &mut String, c: char)
    ensures
        final(s)@ == old(s)@.push(c),
{
    s.push(c)
}

/// The character of a decimal digit.
pub open spec fn digit_char(d: int) -> char {
    if d == 0 {
        '0'
    } else if d == 1 {
        '1'
    } else if d == 2 {
        '2'
    } else if d == 3 {
        '3'
    } else if d == 4 {
        '4'
    } else if d == 5 {
        '5'
    } else if d == 6 {
        '6'
    } else if d == 7 {
        '7'
    } else if d == 8 {
        '8'
    } else {
        '9'
    }
}

/// The decimal digits of a non-negative number, most significant first.
pub open spec fn dec_digits(n: int) -> Seq<char>
    decreases n,
{
    if n < 10 {
        seq![digit_char(n)]
    } else {
        dec_digits(n / 10) + seq![digit_char(n % 10)]
    }
}

/// The decimal rendering of a number: a minus sign for negative ones,
/// then the digits with no unnecessary leading zero.
pub open spec fn render_num(n: int) -> Seq<char> {
    if n < 0 {
        seq!['-'] + dec_digits(-n)
    } else {
        dec_digits(n)
    }
}

/// The character of a decimal digit, decided executably.
fn digit_char_of(d: u64) -> (c: char)
    requires
        d < 10,
    ensures
        c == digit_char(d as int),
{
    if d == 0 {
        '0'
    } else if d == 1 {
        '1'
    } else if d == 2 {
        '2'
    } else if d == 3 {
        '3'
    } else if d == 4 {
        '4'
    } else if d == 5 {
        '5'
    } else if d == 6 {
        '6'
    } else if d == 7 {
        '7'
    } else if d == 8 {
        '8'
    } else {
        '9'
    }
}

/// Appends the decimal digits of `m`.
pub(crate) fn push_dec(out: &mut String, m: u64)
    ensures
        final(out)@ == old(out)@ + dec_digits(m as int),
    decreases m,
{
    if m < 10 {
        push_char(out, digit_char_of(m));
        proof {
            assert(out@ =~= old(out)@ + dec_digits(m as int));
        }
    } else {
        push_dec(out, m / 10);
        push_char(out, digit_char_of(m % 10));
        proof {
            assert(out@ =~= old(out)@ + (dec_digits(m as int / 10) + seq![
                digit_char(m as int % 10),
            ]));
        }
    }
}

/// Appends the decimal rendering of `n`, sign included.
pub(crate) fn push_num(out: &mut String, n: i64)
    ensures
        final(out)@ == old(out)@ + render_num(n as int),
{
    if n < 0 {
        push_char(out, '-');
        let mag: u64 = (-(n as i128)) as u64;
        push_dec(out, mag);
        proof {
            assert(out@ =~= old(out)@ + (seq!['-'] + dec_digits(mag as int)));
        }
    } else {
        push_dec(out, n as u64);
    }
}

/// A number's digits are never empty and consist of digits alone.
pub proof fn lemma_dec_digits_are_digits(n: int)
    ensures
        dec_digits(n).len() >= 1,
        forall|k: int|
            0 <= k < dec_digits(n).len() ==> crate::scanner::is_digit(#[trigger] dec_digits(n)[k]),
    decreases n,
{
    if n < 10 {
    } else {
        lemma_dec_digits_are_digits(n / 10);
        let a = dec_digits(n / 10);
        let c = digit_char(n % 10);
        assert(forall|k: int|
            0 <= k < a.len() ==> (a + seq![c])[k] == #[trigger] a[k]);
        assert((a + seq![c])[a.len() as int] == c);
    }
}

/// The decimal value of the digits of `n` is `n` itself: rendering a
/// non-negative number and reading its digits back round-trips.
pub proof fn lemma_dec_digits_value(n: int)
    requires
        n >= 0,
    ensures
        crate::scanner::dec_val(dec_digits(n)) == n,
    decreases n,
{
    if n < 10 {
        let s = seq![digit_char(n)];
        assert(s.drop_last() =~= Seq::<char>::empty());
        assert(s.last() == digit_char(n));
        assert(crate::scanner::dec_val(Seq::<char>::empty()) == 0);
        assert(crate::scanner::dec_val(s) == crate::scanner::digit_val(digit_char(n)));
    } else {
        lemma_dec_digits_value(n / 10);
        let a = dec_digits(n / 10);
        let c = digit_char(n % 10);
        assert((a + seq![c]).drop_last() =~= a);
        assert((a + seq![c]).last() == c);
    }
}

} // verus!
