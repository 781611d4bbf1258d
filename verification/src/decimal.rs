//! Decimal text of integers, as `format!("{}")` writes them.

use vstd::prelude::*;

verus! {

/// `String::push` appends one character at the end of the string.
pub assume_specification[ String::push ](s: &mut String, ch: char)
    ensures
        final(s)@ == old(s)@.push(ch),
;

/// The character of a decimal digit `d` (`0 <= d < 10`).
pub open spec fn digit_char(d: nat) -> char
    recommends
        d < 10,
{
    ((48 + d) as u8) as char
}

/// Decimal digits of a natural number, most significant first, without
/// leading zeros (zero itself is the single digit `0`).
pub open spec fn decimal_nat(n: nat) -> Seq<char>
    decreases n,
{
    if n < 10 {
        seq![digit_char(n)]
    } else {
        decimal_nat(n / 10).push(digit_char(n % 10))
    }
}

/// Decimal text of an integer: a minus sign before the digits of its
/// magnitude when it is negative.
pub open spec fn decimal_int(i: int) -> Seq<char> {
    if i < 0 {
        seq!['-'] + decimal_nat((-i) as nat)
    } else {
        decimal_nat(i as nat)
    }
}

/// Appends the decimal digits of `n` to `s`.
pub fn push_decimal_u64(s: &mut String, n: u64)
    ensures
        final(s)@ == old(s)@ + decimal_nat(n as nat),
    decreases n,
{
    if n >= 10 {
        push_decimal_u64(s, n / 10);
    }
    let d: u8 = (n % 10) as u8;
    s.push((48u8 + d) as char);
    proof {
        if n >= 10 {
            assert(old(s)@ + decimal_nat(n as nat) =~= old(s)@ + decimal_nat((n / 10) as nat) + seq![
                digit_char((n % 10) as nat)]);
        } else {
            assert(old(s)@ + decimal_nat(n as nat) =~= old(s)@ + seq![digit_char(n as nat)]);
        }
    }
}

/// Appends the decimal text of `i` to `s`, with a leading `-` when `i` is
/// negative.
pub fn push_decimal_i64(s: &mut String, i: i64)
    ensures
        final(s)@ == old(s)@ + decimal_int(i as int),
{
    if i < 0 {
        s.push('-');
        let magnitude: u64 = ((-(i + 1)) as u64) + 1;
        push_decimal_u64(s, magnitude);
        assert(s@ =~= old(s)@ + (seq!['-'] + decimal_nat((-i) as nat)));
    } else {
        push_decimal_u64(s, i as u64);
    }
}

/// The number that a sequence of decimal digits stands for.
pub open spec fn digits_value(digits: Seq<char>) -> int
    decreases digits.len(),
{
    if digits.len() == 0 {
        0
    } else {
        10 * digits_value(digits.drop_last()) + (digits.last() as int - 48)
    }
}

/// The character of digit `d` has code `48 + d`.
proof fn lemma_digit_char_code(d: nat)
    requires
        d < 10,
    ensures
        digit_char(d) as int == 48 + d,
{
}

/// The decimal text of `n` is made of digits only, has no leading zero
/// (but for zero itself), and reads back as `n`.
pub proof fn lemma_decimal_nat_reads_back(n: nat)
    ensures
        decimal_nat(n).len() >= 1,
        forall|i: int|
            0 <= i < decimal_nat(n).len() ==> '0' <= #[trigger] decimal_nat(n)[i] <= '9',
        decimal_nat(n).len() > 1 ==> decimal_nat(n)[0] != '0',
        digits_value(decimal_nat(n)) == n,
    decreases n,
{
    let d = decimal_nat(n);
    if n < 10 {
        lemma_digit_char_code(n);
        assert(d =~= seq![digit_char(n)]);
        assert(d.drop_last() =~= Seq::<char>::empty());
        assert(digits_value(d.drop_last()) == 0);
        assert(d.last() == digit_char(n));
        assert(digits_value(d) == 10 * digits_value(d.drop_last()) + (d.last() as int - 48));
    } else {
        let m = n / 10;
        let prev = decimal_nat(m);
        lemma_decimal_nat_reads_back(m);
        lemma_digit_char_code(n % 10);
        assert(d == prev.push(digit_char(n % 10)));
        assert(d.drop_last() =~= prev);
        assert(d[0] == prev[0]);
        assert forall|i: int| 0 <= i < d.len() implies '0' <= #[trigger] d[i] <= '9' by {
            if i < prev.len() {
                assert(d[i] == prev[i]);
            }
        }
        if prev.len() == 1 {
            if m >= 10 {
                lemma_decimal_nat_reads_back(m / 10);
                assert(prev.len() == decimal_nat(m / 10).len() + 1);
            }
            lemma_digit_char_code(m);
            assert(prev =~= seq![digit_char(m)]);
        }
        assert(n == 10 * m + n % 10);
        assert(d.last() == digit_char(n % 10));
        assert(digits_value(d) == 10 * digits_value(d.drop_last()) + (d.last() as int - 48));
    }
}

/// The decimal text of an integer starts with `-` exactly when it is
/// negative, and the digits after the sign read back as its magnitude.
pub proof fn lemma_decimal_int_reads_back(i: int)
    ensures
        (decimal_int(i)[0] == '-') == (i < 0),
        i < 0 ==> digits_value(decimal_int(i).drop_first()) == -i,
        i >= 0 ==> digits_value(decimal_int(i)) == i,
{
    if i < 0 {
        lemma_decimal_nat_reads_back((-i) as nat);
        assert(decimal_int(i).drop_first() =~= decimal_nat((-i) as nat));
    } else {
        lemma_decimal_nat_reads_back(i as nat);
        assert('0' <= decimal_int(i)[0] <= '9');
    }
}

} // verus!
