//! Percent-encoding of parameter keys and values.
//!
//! Keys and values are emitted into query strings and form-encoded bodies,
//! so every character outside the unreserved set is replaced by the `%XY`
//! encoding of each byte of its UTF-8 form. The spec functions fix the
//! exact output, over vstd's own UTF-8 model.

use vstd::prelude::*;
use vstd::string::StringExecFns;
use vstd::utf8::{
    char_is_scalar, encode_scalar, has_width_1_encoding, has_width_2_encoding,
    has_width_3_encoding, is_scalar, last_continuation_byte, leading_byte_width_1,
    leading_byte_width_2, leading_byte_width_3, leading_byte_width_4,
    second_last_continuation_byte, third_last_continuation_byte,
};

verus! {

/// The character for one hexadecimal digit (upper case).
pub open spec fn spec_hex_digit(d: int) -> char {
    if d == 0 {
        '0'
    } else if d == 1 {
        '1'
    } else if d == 2 {
        '2'
    } else if d == 3 {
        '3'
    } else if d == 4 {
        '4'
    } else if d == 5 {
        '5'
    } else if d == 6 {
        '6'
    } else if d == 7 {
        '7'
    } else if d == 8 {
        '8'
    } else if d == 9 {
        '9'
    } else if d == 10 {
        'A'
    } else if d == 11 {
        'B'
    } else if d == 12 {
        'C'
    } else if d == 13 {
        'D'
    } else if d == 14 {
        'E'
    } else {
        'F'
    }
}

/// Whether `c` may stand unencoded in a query string or form body: the
/// unreserved characters of URI syntax (ASCII letters, digits, `-`, `.`,
/// `_`, `~`).
pub open spec fn is_unreserved(c: char) -> bool {
    let n = c as u32;
    (0x30 <= n && n <= 0x39) || (0x41 <= n && n <= 0x5A) || (0x61 <= n && n <= 0x7A) || n == 0x2D
        || n == 0x2E || n == 0x5F || n == 0x7E
}

/// The three characters `%XY` encoding one byte.
pub open spec fn spec_pct_byte(b: u8) -> Seq<char> {
    seq!['%', spec_hex_digit(b as int / 16), spec_hex_digit(b as int % 16)]
}

/// The percent-encoding of a byte sequence, byte for byte.
pub open spec fn spec_pct_bytes(bs: Seq<u8>) -> Seq<char>
    decreases bs.len(),
{
    if bs.len() == 0 {
        Seq::empty()
    } else {
        spec_pct_byte(bs.first()) + spec_pct_bytes(bs.drop_first())
    }
}

/// One character as it appears percent-encoded: itself when unreserved,
/// otherwise each byte of its UTF-8 encoding as `%XY`.
pub open spec fn spec_pct_char(c: char) -> Seq<char> {
    if is_unreserved(c) {
        seq![c]
    } else {
        spec_pct_bytes(encode_scalar(c as u32))
    }
}

/// The percent-encoding of a character sequence.
pub open spec fn spec_pct_encode(s: Seq<char>) -> Seq<char>
    decreases s.len(),
{
    if s.len() == 0 {
        Seq::empty()
    } else {
        spec_pct_encode(s.drop_last()) + spec_pct_char(s.last())
    }
}

proof fn lemma_pct_bytes_cons(b: u8, rest: Seq<u8>)
    ensures
        spec_pct_bytes(seq![b] + rest) == spec_pct_byte(b) + spec_pct_bytes(rest),
{
    let s = seq![b] + rest;
    assert(s.first() == b);
    assert(s.drop_first() =~= rest);
}

proof fn lemma_pct_bytes_empty()
    ensures
        spec_pct_bytes(Seq::<u8>::empty()) == Seq::<char>::empty(),
{
}

fn hex_digit_str(d: u32) -> (s: &'static str)
    requires
        d < 16,
    ensures
        s@ =~= seq![spec_hex_digit(d as int)],
{
    proof {
        reveal_strlit("0");
        reveal_strlit("1");
        reveal_strlit("2");
        reveal_strlit("3");
        reveal_strlit("4");
        reveal_strlit("5");
        reveal_strlit("6");
        reveal_strlit("7");
        reveal_strlit("8");
        reveal_strlit("9");
        reveal_strlit("A");
        reveal_strlit("B");
        reveal_strlit("C");
        reveal_strlit("D");
        reveal_strlit("E");
        reveal_strlit("F");
    }
    match d {
        0 => "0",
        1 => "1",
        2 => "2",
        3 => "3",
        4 => "4",
        5 => "5",
        6 => "6",
        7 => "7",
        8 => "8",
        9 => "9",
        10 => "A",
        11 => "B",
        12 => "C",
        13 => "D",
        14 => "E",
        _ => "F",
    }
}

/// Relies on `String::push`: appends one character at the end.
#[verifier::external_body]
fn push_char(s: &mut String, c: char)
    ensures
        final(s)@ == old(s)@ + seq![c],
{
    s.push(c);
}

fn push_pct_byte(s: &mut String, b: u8)
    ensures
        final(s)@ == old(s)@ + spec_pct_byte(b),
{
    proof {
        reveal_strlit("%");
    }
    s.append("%");
    s.append(hex_digit_str(b as u32 / 16));
    s.append(hex_digit_str(b as u32 % 16));
    proof {
        assert(s@ =~= old(s)@ + spec_pct_byte(b));
    }
}

fn push_pct_char(s: &mut String, c: char)
    ensures
        final(s)@ == old(s)@ + spec_pct_char(c),
{
    let n = c as u32;
    proof {
        char_is_scalar(c);
    }
    if (0x30 <= n && n <= 0x39) || (0x41 <= n && n <= 0x5A) || (0x61 <= n && n <= 0x7A) || n
        == 0x2D || n == 0x2E || n == 0x5F || n == 0x7E {
        push_char(s, c);
    } else if n <= 0x7F {
        let b0: u8 = #[verifier::truncate] ((n & 0x7F) as u8);
        push_pct_byte(s, b0);
        proof {
            assert(encode_scalar(n) == seq![leading_byte_width_1(n)]);
            assert(encode_scalar(n) =~= seq![b0] + Seq::<u8>::empty());
            lemma_pct_bytes_cons(b0, Seq::<u8>::empty());
            lemma_pct_bytes_empty();
            assert(s@ =~= old(s)@ + spec_pct_char(c));
        }
    } else if n <= 0x7FF {
        let b0: u8 = 0xC0 | #[verifier::truncate] (((n >> 6) & 0x1F) as u8);
        let b1: u8 = 0x80 | #[verifier::truncate] ((n & 0x3F) as u8);
        push_pct_byte(s, b0);
        push_pct_byte(s, b1);
        proof {
            assert(encode_scalar(n) == seq![leading_byte_width_2(n), last_continuation_byte(n)]);
            assert(encode_scalar(n) =~= seq![b0] + (seq![b1] + Seq::<u8>::empty()));
            lemma_pct_bytes_cons(b0, seq![b1] + Seq::<u8>::empty());
            lemma_pct_bytes_cons(b1, Seq::<u8>::empty());
            lemma_pct_bytes_empty();
            assert(s@ =~= old(s)@ + spec_pct_char(c));
        }
    } else if n <= 0xFFFF {
        let b0: u8 = 0xE0 | #[verifier::truncate] (((n >> 12) & 0x0F) as u8);
        let b1: u8 = 0x80 | #[verifier::truncate] (((n >> 6) & 0x3F) as u8);
        let b2: u8 = 0x80 | #[verifier::truncate] ((n & 0x3F) as u8);
        push_pct_byte(s, b0);
        push_pct_byte(s, b1);
        push_pct_byte(s, b2);
        proof {
            assert(has_width_3_encoding(n));
            assert(encode_scalar(n) == seq![
                leading_byte_width_3(n),
                second_last_continuation_byte(n),
                last_continuation_byte(n),
            ]);
            assert(encode_scalar(n) =~= seq![b0] + (seq![b1] + (seq![b2] + Seq::<u8>::empty())));
            lemma_pct_bytes_cons(b0, seq![b1] + (seq![b2] + Seq::<u8>::empty()));
            lemma_pct_bytes_cons(b1, seq![b2] + Seq::<u8>::empty());
            lemma_pct_bytes_cons(b2, Seq::<u8>::empty());
            lemma_pct_bytes_empty();
            assert(s@ =~= old(s)@ + spec_pct_char(c));
        }
    } else {
        let b0: u8 = 0xF0 | #[verifier::truncate] (((n >> 18) & 0x7) as u8);
        let b1: u8 = 0x80 | #[verifier::truncate] (((n >> 12) & 0x3F) as u8);
        let b2: u8 = 0x80 | #[verifier::truncate] (((n >> 6) & 0x3F) as u8);
        let b3: u8 = 0x80 | #[verifier::truncate] ((n & 0x3F) as u8);
        push_pct_byte(s, b0);
        push_pct_byte(s, b1);
        push_pct_byte(s, b2);
        push_pct_byte(s, b3);
        proof {
            assert(encode_scalar(n) == seq![
                leading_byte_width_4(n),
                third_last_continuation_byte(n),
                second_last_continuation_byte(n),
                last_continuation_byte(n),
            ]);
            assert(encode_scalar(n) =~= seq![b0] + (seq![b1] + (seq![b2] + (seq![b3]
                + Seq::<u8>::empty()))));
            lemma_pct_bytes_cons(b0, seq![b1] + (seq![b2] + (seq![b3] + Seq::<u8>::empty())));
            lemma_pct_bytes_cons(b1, seq![b2] + (seq![b3] + Seq::<u8>::empty()));
            lemma_pct_bytes_cons(b2, seq![b3] + Seq::<u8>::empty());
            lemma_pct_bytes_cons(b3, Seq::<u8>::empty());
            lemma_pct_bytes_empty();
            assert(s@ =~= old(s)@ + spec_pct_char(c));
        }
    }
}

/// Percent-encodes one key or value.
pub fn pct_encode(input: &str) -> (r: String)
    ensures
        r@ == spec_pct_encode(input@),
{
    let mut r = String::new();
    let n = input.unicode_len();
    let mut i: usize = 0;
    while i < n
        invariant
            n == input@.len(),
            i <= n,
            r@ == spec_pct_encode(input@.take(i as int)),
        decreases n - i,
    {
        let c = input.get_char(i);
        push_pct_char(&mut r, c);
        proof {
            assert(input@.take(i + 1).drop_last() =~= input@.take(i as int));
            assert(input@.take(i + 1).last() == input@[i as int]);
        }
        i = i + 1;
    }
    proof {
        assert(input@.take(n as int) =~= input@);
    }
    r
}

} // verus!
