//! Elements of the two prime fields of BN254 and their text form.

use crate::digits::{
    hex_digits, hex_value, lemma_hex_digits_concat, lemma_hex_digits_len, lemma_hex_digits_zero,
    lemma_hex_round_trip, pow16, push_hex_word,
};
use crate::error::CodegenError;
use vstd::prelude::*;

verus! {

/// The number of hexadecimal digits in the text form of a field element: two
/// for each byte of the modulus.
pub const HEX_WIDTH: usize = 64;

/// Two to the power 64, the weight of a word in a field element.
pub open spec fn word_base() -> nat {
    0x1_0000_0000_0000_0000nat
}

/// The number that four 64-bit words denote, least significant word first.
pub open spec fn words_value(words: Seq<u64>) -> nat {
    (words[0] + word_base() * (words[1] + word_base() * (words[2] + word_base() * words[3]))) as nat
}

/// One of the two prime fields of BN254.
#[derive(Clone, Copy, Debug, PartialEq, Eq, Structural)]
pub enum Field {
    /// The field of scalars, whose order is the order of the curve's groups.
    Scalar,
    /// The field over which the curve is defined; coordinates of points lie
    /// in it.
    Base,
}

impl Field {
    /// The field's modulus.
    pub open spec fn modulus(self) -> nat {
        match self {
            Field::Scalar =>
                21888242871839275222246405745257275088548364400416034343698204186575808495617nat,
            Field::Base =>
                21888242871839275222246405745257275088696311157297823662689037894645226208583nat,
        }
    }

    /// The words of the field's modulus, least significant first.
    pub fn modulus_words(self) -> (words: [u64; 4])
        ensures
            words_value(words@) == self.modulus(),
    {
        match self {
            Field::Scalar => [
                0x43e1f593f0000001,
                0x2833e84879b97091,
                0xb85045b68181585d,
                0x30644e72e131a029,
            ],
            Field::Base => [
                0x3c208c16d87cfd47,
                0x97816a916871ca8d,
                0xb85045b68181585d,
                0x30644e72e131a029,
            ],
        }
    }
}

/// A field element as four 64-bit words, least significant first. The words
/// are the element's plain value, not a Montgomery form.
#[derive(Clone, Copy, Debug)]
pub struct FieldElement {
    pub words: [u64; 4],
}

impl View for FieldElement {
    type V = nat;

    /// The number that the words denote.
    open spec fn view(&self) -> nat {
        words_value(self.words@)
    }
}

impl FieldElement {
    /// Whether the words denote a number below the modulus of `field`.
    pub fn is_canonical(&self, field: Field) -> (below: bool)
        ensures
            below == (self@ < field.modulus()),
    {
        let modulus = field.modulus_words();
        if self.words[3] != modulus[3] {
            self.words[3] < modulus[3]
        } else if self.words[2] != modulus[2] {
            self.words[2] < modulus[2]
        } else if self.words[1] != modulus[1] {
            self.words[1] < modulus[1]
        } else {
            self.words[0] < modulus[0]
        }
    }
}

/// The text form of the field element `v`: its big-endian bytes in
/// hexadecimal, at the full width whatever the value.
pub open spec fn scalar_hex(v: nat) -> Seq<char> {
    hex_digits(v, HEX_WIDTH as nat)
}

/// The text form of each field has two digits for each byte of the modulus:
/// the modulus fills 32 bytes and no fewer.
pub proof fn lemma_modulus_width(field: Field)
    ensures
        pow16((HEX_WIDTH - 2) as nat) <= field.modulus() < pow16(HEX_WIDTH as nat),
{
    reveal_with_fuel(pow16, 65);
}

/// Round trip: reading the text form of a field element as a hexadecimal
/// number gives the element back.
pub proof fn lemma_scalar_hex_round_trip(field: Field, v: nat)
    requires
        v < field.modulus(),
    ensures
        hex_value(scalar_hex(v)) == Some(v),
{
    lemma_modulus_width(field);
    lemma_hex_round_trip(v, HEX_WIDTH as nat);
}

/// The text form has the same width whatever the element, and that of zero
/// is made of zeros only.
pub proof fn lemma_scalar_hex_width(v: nat)
    ensures
        scalar_hex(v).len() == HEX_WIDTH,
        scalar_hex(0) == Seq::new(HEX_WIDTH as nat, |i: int| '0'),
{
    lemma_hex_digits_len(v, HEX_WIDTH as nat);
    lemma_hex_digits_zero(HEX_WIDTH as nat);
}

/// The four words of a field element, written one after the other from the
/// most significant, are the text form of its value.
pub proof fn lemma_words_hex(words: Seq<u64>)
    requires
        words.len() == 4,
    ensures
        scalar_hex(words_value(words)) == hex_digits(words[3] as nat, 16) + hex_digits(
            words[2] as nat,
            16,
        ) + hex_digits(words[1] as nat, 16) + hex_digits(words[0] as nat, 16),
{
    assert(pow16(16) == word_base()) by {
        reveal_with_fuel(pow16, 17);
    }
    let top = words[3] as nat;
    let upper = (top * word_base() + words[2]) as nat;
    let most = (upper * word_base() + words[1]) as nat;
    lemma_hex_digits_concat(top, 16, words[2] as nat, 16);
    lemma_hex_digits_concat(upper, 32, words[1] as nat, 16);
    lemma_hex_digits_concat(most, 48, words[0] as nat, 16);
    assert(most * word_base() + words[0] == words_value(words)) by (nonlinear_arith)
        requires
            most == (words[3] * word_base() + words[2]) * word_base() + words[1],
            words_value(words) == words[0] + word_base() * (words[1] + word_base() * (words[2]
                + word_base() * words[3])),
    ;
}

/// The text form of `el` as an element of `field`: 64 lower-case hexadecimal
/// digits. An element that is not below the modulus has no text form.
pub fn render_scalar_to_hex(field: Field, el: &FieldElement) -> (res: Result<String, CodegenError>)
    ensures
        match res {
            Ok(text) => el@ < field.modulus() && text@ == scalar_hex(el@) && text@.len()
                == HEX_WIDTH,
            Err(e) => el@ >= field.modulus() && e == CodegenError::InvalidScalar,
        },
{
    if !el.is_canonical(field) {
        return Err(CodegenError::InvalidScalar);
    }
    let mut text = String::new();
    push_hex_word(&mut text, el.words[3]);
    push_hex_word(&mut text, el.words[2]);
    push_hex_word(&mut text, el.words[1]);
    push_hex_word(&mut text, el.words[0]);
    proof {
        lemma_words_hex(el.words@);
        assert(text@ =~= scalar_hex(el@));
        lemma_scalar_hex_width(el@);
    }
    Ok(text)
}

} // verus!
