//! Decimal and fixed-width hexadecimal notation of natural numbers.

use vstd::prelude::*;
use vstd::string::StringExecFns;

verus! {

/// Sixteen to the power `n`.
pub open spec fn pow16(n: nat) -> nat
    decreases n,
{
    if n == 0 {
        1
    } else {
        16 * pow16((n - 1) as nat)
    }
}

/// The digits in use, in the order of their values: the first ten are the
/// decimal digits, all sixteen the lower-case hexadecimal digits.
pub open spec fn digit_chars() -> Seq<char> {
    seq!['0', '1', '2', '3', '4', '5', '6', '7', '8', '9', 'a', 'b', 'c', 'd', 'e', 'f']
}

/// The character that stands for the digit `d`, for `d` below sixteen.
pub open spec fn digit_char(d: nat) -> char {
    digit_chars()[d as int]
}

/// The value of the digit `c`, or `None` where `c` is no lower-case
/// hexadecimal digit.
pub open spec fn digit_value(c: char) -> Option<nat> {
    if digit_chars().contains(c) {
        Some(digit_chars().index_of(c) as nat)
    } else {
        None
    }
}

/// The `width` lowest hexadecimal digits of `v`, most significant first.
/// Where `v` has fewer digits, zeros stand in front.
pub open spec fn hex_digits(v: nat, width: nat) -> Seq<char>
    decreases width,
{
    if width == 0 {
        Seq::empty()
    } else {
        hex_digits(v / 16, (width - 1) as nat).push(digit_char(v % 16))
    }
}

/// The number that the hexadecimal digits `s` denote, most significant first;
/// `None` where a character of `s` is no lower-case hexadecimal digit.
pub open spec fn hex_value(s: Seq<char>) -> Option<nat>
    decreases s.len(),
{
    if s.len() == 0 {
        Some(0)
    } else {
        match (hex_value(s.drop_last()), digit_value(s.last())) {
            (Some(high), Some(d)) => Some(16 * high + d),
            _ => None,
        }
    }
}

/// The decimal notation of `v`, without leading zeros.
pub open spec fn decimal_digits(v: nat) -> Seq<char>
    decreases v,
{
    if v < 10 {
        seq![digit_char(v)]
    } else {
        decimal_digits(v / 10).push(digit_char(v % 10))
    }
}

/// The number that the decimal digits `s` denote; `None` where a character of
/// `s` is no decimal digit.
pub open spec fn decimal_value(s: Seq<char>) -> Option<nat>
    decreases s.len(),
{
    if s.len() == 0 {
        Some(0)
    } else {
        match (decimal_value(s.drop_last()), digit_value(s.last())) {
            (Some(high), Some(d)) => if d < 10 {
                Some(10 * high + d)
            } else {
                None
            },
            _ => None,
        }
    }
}

/// Each digit character has the value of its place among the digits.
pub proof fn lemma_digit_value(d: nat)
    requires
        d < 16,
    ensures
        digit_value(digit_char(d)) == Some(d),
{
    let digits = digit_chars();
    assert(digits[d as int] == digit_char(d));
    assert(digits.contains(digit_char(d)));
    let at = digits.index_of(digit_char(d));
    assert(0 <= at < 16 && digits[at] == digits[d as int]);
    assert(forall|i: int, j: int| 0 <= i < j < 16 ==> digits[i] != digits[j]);
}

/// Reading a decimal notation gives back the number.
pub proof fn lemma_decimal_round_trip(v: nat)
    ensures
        decimal_value(decimal_digits(v)) == Some(v),
        decimal_digits(v).len() >= 1,
    decreases v,
{
    lemma_digit_value(v % 10);
    if v < 10 {
        assert(decimal_digits(v).drop_last() =~= Seq::<char>::empty());
        assert(decimal_value(Seq::<char>::empty()) == Some(0nat));
    } else {
        lemma_decimal_round_trip(v / 10);
        assert(decimal_digits(v).drop_last() =~= decimal_digits(v / 10));
    }
}

/// A hexadecimal notation has as many digits as were asked for.
pub proof fn lemma_hex_digits_len(v: nat, width: nat)
    ensures
        hex_digits(v, width).len() == width,
    decreases width,
{
    if width > 0 {
        lemma_hex_digits_len(v / 16, (width - 1) as nat);
    }
}

/// Zero is written with zeros only, as many as the width asks for.
pub proof fn lemma_hex_digits_zero(width: nat)
    ensures
        hex_digits(0, width) == Seq::new(width, |i: int| '0'),
    decreases width,
{
    if width > 0 {
        lemma_hex_digits_zero((width - 1) as nat);
        lemma_hex_digits_len(0, (width - 1) as nat);
    }
    assert(hex_digits(0, width) =~= Seq::new(width, |i: int| '0'));
}

/// Reading a hexadecimal notation gives back the number, as far as its digits
/// fit the width.
pub proof fn lemma_hex_value_of_digits(v: nat, width: nat)
    ensures
        hex_value(hex_digits(v, width)) == Some(v % pow16(width)),
    decreases width,
{
    if width > 0 {
        let low = (width - 1) as nat;
        let head = hex_digits(v / 16, low);
        lemma_hex_value_of_digits(v / 16, low);
        lemma_digit_value(v % 16);
        assert(hex_digits(v, width).drop_last() =~= head);
        lemma_pow16_positive(low);
        let p = pow16(low) as int;
        let q = (v / 16) as int;
        let n = v as int;
        assert(n % (16 * p) == 16 * (q % p) + n % 16) by {
            vstd::arithmetic::div_mod::lemma_fundamental_div_mod(q, p);
            vstd::arithmetic::div_mod::lemma_mod_bound(q, p);
            let r = 16 * (q % p) + n % 16;
            assert(n == (q / p) * (16 * p) + r) by (nonlinear_arith)
                requires
                    n == 16 * q + n % 16,
                    q == p * (q / p) + q % p,
                    r == 16 * (q % p) + n % 16,
            ;
            vstd::arithmetic::div_mod::lemma_fundamental_div_mod_converse(n, 16 * p, q / p, r);
        }
    }
}

/// Every power of sixteen is positive.
pub proof fn lemma_pow16_positive(n: nat)
    ensures
        pow16(n) > 0,
    decreases n,
{
    if n > 0 {
        lemma_pow16_positive((n - 1) as nat);
    }
}

/// Round trip: a number below sixteen to the `width` is read back unchanged
/// from its notation of that width.
pub proof fn lemma_hex_round_trip(v: nat, width: nat)
    requires
        v < pow16(width),
    ensures
        hex_value(hex_digits(v, width)) == Some(v),
{
    lemma_hex_value_of_digits(v, width);
    vstd::arithmetic::div_mod::lemma_small_mod(v, pow16(width));
}

/// Writing `high` in `m` digits and then `low` in `n` digits writes the number
/// `high * 16^n + low` in `m + n` digits.
pub proof fn lemma_hex_digits_concat(high: nat, m: nat, low: nat, n: nat)
    requires
        low < pow16(n),
    ensures
        hex_digits(high * pow16(n) + low, m + n) == hex_digits(high, m) + hex_digits(low, n),
    decreases n,
{
    if n == 0 {
        assert(high * pow16(0) == high);
        assert(hex_digits(high, m) + hex_digits(low, 0) =~= hex_digits(high, m));
    } else {
        let below = (n - 1) as nat;
        let shifted = high * pow16(below);
        assert(high * pow16(n) == 16 * shifted) by (nonlinear_arith)
            requires
                pow16(n) == 16 * pow16(below),
                shifted == high * pow16(below),
        ;
        let v = high * pow16(n) + low;
        assert(v / 16 == shifted + low / 16);
        assert(v % 16 == low % 16);
        lemma_hex_digits_concat(high, m, low / 16, below);
        assert((m + n - 1) as nat == m + below);
        assert(hex_digits(v, m + n) =~= hex_digits(high, m) + hex_digits(low, n));
    }
}

/// The text of one digit.
fn digit_text(d: u8) -> (text: &'static str)
    requires
        d < 16,
    ensures
        text@ =~= seq![digit_char(d as nat)],
{
    proof {
        reveal_strlit("0");
        reveal_strlit("1");
        reveal_strlit("2");
        reveal_strlit("3");
        reveal_strlit("4");
        reveal_strlit("5");
        reveal_strlit("6");
        reveal_strlit("7");
        reveal_strlit("8");
        reveal_strlit("9");
        reveal_strlit("a");
        reveal_strlit("b");
        reveal_strlit("c");
        reveal_strlit("d");
        reveal_strlit("e");
        reveal_strlit("f");
    }
    match d {
        0 => "0",
        1 => "1",
        2 => "2",
        3 => "3",
        4 => "4",
        5 => "5",
        6 => "6",
        7 => "7",
        8 => "8",
        9 => "9",
        10 => "a",
        11 => "b",
        12 => "c",
        13 => "d",
        14 => "e",
        _ => "f",
    }
}

/// Appends the sixteen hexadecimal digits of `word` to `out`.
pub fn push_hex_word(out: &mut String, word: u64)
    ensures
        final(out)@ == old(out)@ + hex_digits(word as nat, 16),
{
    let ghost before = out@;
    let ghost mut written: u64 = 0;
    let mut count: u64 = 0;
    while count < 16
        invariant
            count <= 16,
            out@ == before + hex_digits(written as nat, count as nat),
            count == 0 ==> written == 0,
            count > 0 ==> written == word >> ((64 - 4 * count) as u64),
        decreases 16 - count,
    {
        let shift: u64 = 60 - 4 * count;
        let upper: u64 = word >> shift;
        let nibble: u64 = upper & 0xf;
        proof {
            assert(nibble == upper % 16 && nibble < 16) by (bit_vector)
                requires
                    nibble == upper & 0xf,
            ;
            assert(upper / 16 == written) by (bit_vector)
                requires
                    upper == word >> shift,
                    shift <= 60,
                    shift == 60 ==> written == 0,
                    shift < 60 ==> written == word >> ((shift + 4) as u64),
            ;
        }
        out.append(digit_text(nibble as u8));
        proof {
            assert(out@ =~= before + hex_digits(upper as nat, (count + 1) as nat));
            written = upper;
        }
        count = count + 1;
    }
    proof {
        assert(written == word) by (bit_vector)
            requires
                written == word >> 0,
        ;
    }
}

/// Appends the decimal notation of `v` to `out`.
pub fn push_decimal(out: &mut String, v: u64)
    ensures
        final(out)@ == old(out)@ + decimal_digits(v as nat),
    decreases v,
{
    let ghost before = out@;
    if v >= 10 {
        push_decimal(out, v / 10);
    }
    out.append(digit_text((v % 10) as u8));
    proof {
        assert(out@ =~= before + decimal_digits(v as nat));
    }
}

/// The decimal notation of `v` as text.
pub fn to_decimal(v: u64) -> (text: String)
    ensures
        text@ == decimal_digits(v as nat),
{
    let mut text = String::new();
    push_decimal(&mut text, v);
    text
}

} // verus!
