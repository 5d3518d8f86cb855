//! Decimal rendering of integers, used for transaction indices and
//! timestamps. The spec functions fix the exact character sequence that the
//! executable renderers produce.

use vstd::prelude::*;
use vstd::string::StringExecFns;

verus! {

/// The character for one decimal digit.
pub open spec fn spec_digit(d: int) -> char {
    if d == 0 {
        '0'
    } else if d == 1 {
        '1'
    } else if d == 2 {
        '2'
    } else if d == 3 {
        '3'
    } else if d == 4 {
        '4'
    } else if d == 5 {
        '5'
    } else if d == 6 {
        '6'
    } else if d == 7 {
        '7'
    } else if d == 8 {
        '8'
    } else {
        '9'
    }
}

/// The usual base-ten rendering of a natural number, most significant digit
/// first, with no leading zeros (except for zero itself).
pub open spec fn spec_dec_nat(n: nat) -> Seq<char>
    decreases n,
{
    if n < 10 {
        seq![spec_digit(n as int)]
    } else {
        spec_dec_nat(n / 10).push(spec_digit((n % 10) as int))
    }
}

/// The base-ten rendering of a signed number: a leading `-` for negatives.
pub open spec fn spec_dec_int(n: int) -> Seq<char> {
    if n < 0 {
        seq!['-'] + spec_dec_nat((-n) as nat)
    } else {
        spec_dec_nat(n as nat)
    }
}

/// Whether `c` is one of the ten decimal digit characters.
pub open spec fn is_dec_digit(c: char) -> bool {
    c == '0' || c == '1' || c == '2' || c == '3' || c == '4' || c == '5' || c == '6' || c == '7'
        || c == '8' || c == '9'
}

fn digit_str(d: u64) -> (s: &'static str)
    requires
        d < 10,
    ensures
        s@ =~= seq![spec_digit(d as int)],
{
    proof {
        reveal_strlit("0");
        reveal_strlit("1");
        reveal_strlit("2");
        reveal_strlit("3");
        reveal_strlit("4");
        reveal_strlit("5");
        reveal_strlit("6");
        reveal_strlit("7");
        reveal_strlit("8");
        reveal_strlit("9");
    }
    match d {
        0 => "0",
        1 => "1",
        2 => "2",
        3 => "3",
        4 => "4",
        5 => "5",
        6 => "6",
        7 => "7",
        8 => "8",
        _ => "9",
    }
}

/// Renders `n` in base ten.
pub fn u64_to_dec(n: u64) -> (s: String)
    ensures
        s@ == spec_dec_nat(n as nat),
    decreases n,
{
    if n < 10 {
        String::from_str(digit_str(n))
    } else {
        let mut s = u64_to_dec(n / 10);
        s.append(digit_str(n % 10));
        proof {
            assert(s@ =~= spec_dec_nat(n as nat));
        }
        s
    }
}

/// Renders `n` in base ten, with a leading `-` when negative.
pub fn i64_to_dec(n: i64) -> (s: String)
    ensures
        s@ == spec_dec_int(n as int),
{
    if n >= 0 {
        u64_to_dec(n as u64)
    } else {
        // The magnitude of any negative `i64` fits in a `u64`.
        let magnitude: u64 = (-(n as i128)) as u64;
        proof {
            reveal_strlit("-");
            assert(magnitude == -(n as int));
        }
        let mut s = String::from_str("-");
        let m = u64_to_dec(magnitude);
        s.append(m.as_str());
        proof {
            assert("-"@ =~= seq!['-']);
            assert(s@ =~= spec_dec_int(n as int));
        }
        s
    }
}

/// The numeric value of one decimal digit character (zero for any other
/// character).
pub open spec fn spec_digit_value(c: char) -> nat {
    if c == '1' {
        1
    } else if c == '2' {
        2
    } else if c == '3' {
        3
    } else if c == '4' {
        4
    } else if c == '5' {
        5
    } else if c == '6' {
        6
    } else if c == '7' {
        7
    } else if c == '8' {
        8
    } else if c == '9' {
        9
    } else {
        0
    }
}

/// The natural number a digit string denotes in base ten.
pub open spec fn spec_dec_value(digits: Seq<char>) -> nat
    decreases digits.len(),
{
    if digits.len() == 0 {
        0
    } else {
        spec_dec_value(digits.drop_last()) * 10 + spec_digit_value(digits.last())
    }
}

/// Reading a decimal rendering back gives the number it came from.
pub proof fn lemma_dec_value_of_dec_nat(n: nat)
    ensures
        spec_dec_value(spec_dec_nat(n)) == n,
    decreases n,
{
    if n < 10 {
        let d = spec_dec_nat(n);
        assert(d == seq![spec_digit(n as int)]);
        assert(d.len() == 1);
        assert(d.last() == spec_digit(n as int));
        assert(d.drop_last() =~= Seq::<char>::empty());
        assert(spec_dec_value(d.drop_last()) == 0);
        assert(spec_digit_value(spec_digit(n as int)) == n);
        assert(spec_dec_value(d) == spec_dec_value(d.drop_last()) * 10 + spec_digit_value(
            d.last(),
        ));
    } else {
        let d = spec_dec_nat(n);
        assert(d == spec_dec_nat(n / 10).push(spec_digit((n % 10) as int)));
        assert(d.drop_last() =~= spec_dec_nat(n / 10));
        assert(d.last() == spec_digit((n % 10) as int));
        lemma_dec_value_of_dec_nat(n / 10);
        assert(spec_digit_value(spec_digit((n % 10) as int)) == n % 10);
        assert((n / 10) * 10 + n % 10 == n) by (nonlinear_arith);
    }
}

/// Every character of a decimal rendering is a digit, and there is at least
/// one of them.
pub proof fn lemma_dec_nat_digits(n: nat)
    ensures
        spec_dec_nat(n).len() >= 1,
        forall|i: int|
            0 <= i < spec_dec_nat(n).len() ==> is_dec_digit(#[trigger] spec_dec_nat(n)[i]),
    decreases n,
{
    if n >= 10 {
        lemma_dec_nat_digits(n / 10);
    }
}

/// Distinct naturals render as distinct digit strings.
pub proof fn lemma_dec_nat_injective(m: nat, n: nat)
    requires
        spec_dec_nat(m) == spec_dec_nat(n),
    ensures
        m == n,
    decreases m,
{
    lemma_dec_nat_digits(m);
    lemma_dec_nat_digits(n);
    if m < 10 && n < 10 {
        assert(spec_dec_nat(m) == seq![spec_digit(m as int)]);
        assert(spec_dec_nat(n) == seq![spec_digit(n as int)]);
        assert(spec_dec_nat(m)[0] == spec_digit(m as int));
        assert(spec_dec_nat(n)[0] == spec_digit(n as int));
        assert(spec_digit(m as int) == spec_digit(n as int));
        assert(m == n);
    } else if m < 10 {
        lemma_dec_nat_digits(n / 10);
        assert(spec_dec_nat(n) == spec_dec_nat(n / 10).push(spec_digit((n % 10) as int)));
        assert(spec_dec_nat(n).len() >= 2);
    } else if n < 10 {
        lemma_dec_nat_digits(m / 10);
        assert(spec_dec_nat(m) == spec_dec_nat(m / 10).push(spec_digit((m % 10) as int)));
        assert(spec_dec_nat(m).len() >= 2);
    } else {
        let dm = spec_dec_nat(m / 10);
        let dn = spec_dec_nat(n / 10);
        assert(spec_dec_nat(m) == dm.push(spec_digit((m % 10) as int)));
        assert(spec_dec_nat(n) == dn.push(spec_digit((n % 10) as int)));
        assert(spec_dec_nat(m).last() == spec_digit((m % 10) as int));
        assert(spec_dec_nat(n).last() == spec_digit((n % 10) as int));
        assert(m % 10 == n % 10);
        assert(dm =~= spec_dec_nat(m).drop_last());
        assert(dn =~= spec_dec_nat(n).drop_last());
        lemma_dec_nat_injective(m / 10, n / 10);
        assert(m == (m / 10) * 10 + m % 10) by (nonlinear_arith);
        assert(n == (n / 10) * 10 + n % 10) by (nonlinear_arith);
    }
}

} // verus!
