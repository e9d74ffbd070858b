use bellman_ce::pairing::bn256::{Fq, Fr, FrRepr};
use bellman_ce::pairing::ff::{from_hex, to_hex, Field as _, PrimeField};
use bellman_vk_codegen::digits::{push_decimal, push_hex_word, to_decimal};
use bellman_vk_codegen::error::CodegenError;
use bellman_vk_codegen::field::{render_scalar_to_hex, Field, FieldElement, HEX_WIDTH};
use bellman_vk_codegen::points::{
    render_g1_affine_to_hex, render_g2_affine_to_hex, Fq2Element, G1Point, G2Point,
};

const R_WORDS: [u64; 4] =
    [0x43e1f593f0000001, 0x2833e84879b97091, 0xb85045b68181585d, 0x30644e72e131a029];
const Q_WORDS: [u64; 4] =
    [0x3c208c16d87cfd47, 0x97816a916871ca8d, 0xb85045b68181585d, 0x30644e72e131a029];

fn small(value: u64) -> FieldElement {
    FieldElement { words: [value, 0, 0, 0] }
}

fn zeros() -> String {
    "0".repeat(64)
}

fn padded(digits: &str) -> String {
    format!("{}{}", "0".repeat(64 - digits.len()), digits)
}

fn words_of_hex(text: &str) -> [u64; 4] {
    assert_eq!(text.len(), 64);
    let mut words = [0u64; 4];
    for (place, chunk) in text.as_bytes().chunks(16).enumerate() {
        let digits = std::str::from_utf8(chunk).unwrap();
        words[3 - place] = u64::from_str_radix(digits, 16).unwrap();
    }
    words
}

#[test]
fn decimal_of_small_and_large_numbers() {
    assert_eq!(to_decimal(0), "0");
    assert_eq!(to_decimal(9), "9");
    assert_eq!(to_decimal(10), "10");
    assert_eq!(to_decimal(268435456), "268435456");
    assert_eq!(to_decimal(u64::MAX), "18446744073709551615");
}

#[test]
fn push_decimal_appends() {
    let mut text = String::from("n=");
    push_decimal(&mut text, 1024);
    assert_eq!(text, "n=1024");
}

#[test]
fn push_hex_word_writes_sixteen_digits() {
    let mut text = String::from(">");
    push_hex_word(&mut text, 0);
    assert_eq!(text, ">0000000000000000");
    let mut text = String::new();
    push_hex_word(&mut text, 0x0123456789abcdef);
    assert_eq!(text, "0123456789abcdef");
    let mut text = String::new();
    push_hex_word(&mut text, u64::MAX);
    assert_eq!(text, "ffffffffffffffff");
}

#[test]
fn scalar_zero_is_all_zero_digits() {
    let text = render_scalar_to_hex(Field::Scalar, &small(0)).unwrap();
    assert_eq!(text.len(), HEX_WIDTH);
    assert_eq!(text, zeros());
}

#[test]
fn scalar_width_does_not_depend_on_value() {
    let values = [
        [0, 0, 0, 0],
        [1, 0, 0, 0],
        [u64::MAX, 0, 0, 0],
        [0, 1, 0, 0],
        [0, 0, 0, 1],
        [0x43e1f593f0000000, 0x2833e84879b97091, 0xb85045b68181585d, 0x30644e72e131a029],
    ];
    for words in values {
        let text = render_scalar_to_hex(Field::Scalar, &FieldElement { words }).unwrap();
        assert_eq!(text.len(), 64);
    }
}

#[test]
fn scalar_words_are_written_most_significant_first() {
    let element = FieldElement { words: [0x1111, 0x2222, 0x3333, 0x0444] };
    assert_eq!(
        render_scalar_to_hex(Field::Scalar, &element).unwrap(),
        "0000000000000444000000000000333300000000000022220000000000001111"
    );
}

#[test]
fn scalar_digits_are_lower_case() {
    assert_eq!(
        render_scalar_to_hex(Field::Scalar, &small(0xabcdef)).unwrap(),
        padded("abcdef")
    );
}

#[test]
fn scalar_round_trip() {
    let values = [
        [0, 0, 0, 0],
        [1, 0, 0, 0],
        [0xdeadbeef, 0x12345678, 0x9abcdef0, 0x0fedcba9],
        [0x43e1f593f0000000, 0x2833e84879b97091, 0xb85045b68181585d, 0x30644e72e131a029],
    ];
    for words in values {
        let text = render_scalar_to_hex(Field::Scalar, &FieldElement { words }).unwrap();
        assert_eq!(words_of_hex(&text), words);
        let read: Fr = from_hex(&text).unwrap();
        assert_eq!(read.into_repr().0, words);
    }
}

#[test]
fn scalar_agrees_with_the_field_library() {
    let mut element = Fr::from_str("7").unwrap();
    for _ in 0..20 {
        element.square();
        let words = element.into_repr().0;
        assert_eq!(
            render_scalar_to_hex(Field::Scalar, &FieldElement { words }).unwrap(),
            to_hex(&element)
        );
    }
    let mut coordinate = Fq::from_str("3").unwrap();
    for _ in 0..20 {
        coordinate.square();
        let words = coordinate.into_repr().0;
        assert_eq!(
            render_scalar_to_hex(Field::Base, &FieldElement { words }).unwrap(),
            to_hex(&coordinate)
        );
    }
}

#[test]
fn scalar_largest_element_of_each_field() {
    let mut words = R_WORDS;
    words[0] -= 1;
    assert_eq!(
        render_scalar_to_hex(Field::Scalar, &FieldElement { words }).unwrap(),
        "30644e72e131a029b85045b68181585d2833e84879b9709143e1f593f0000000"
    );
    let mut words = Q_WORDS;
    words[0] -= 1;
    assert_eq!(
        render_scalar_to_hex(Field::Base, &FieldElement { words }).unwrap(),
        "30644e72e131a029b85045b68181585d97816a916871ca8d3c208c16d87cfd46"
    );
}

#[test]
fn scalar_modulus_is_refused() {
    assert!(matches!(
        render_scalar_to_hex(Field::Scalar, &FieldElement { words: R_WORDS }),
        Err(CodegenError::InvalidScalar)
    ));
    assert!(matches!(
        render_scalar_to_hex(Field::Base, &FieldElement { words: Q_WORDS }),
        Err(CodegenError::InvalidScalar)
    ));
    assert!(matches!(
        render_scalar_to_hex(Field::Scalar, &FieldElement { words: [u64::MAX; 4] }),
        Err(CodegenError::InvalidScalar)
    ));
}

#[test]
fn scalar_between_the_two_moduli() {
    // The scalar field's modulus is the smaller one: it is an element of the
    // base field, not of the scalar field.
    let element = FieldElement { words: R_WORDS };
    assert!(render_scalar_to_hex(Field::Base, &element).is_ok());
    assert!(render_scalar_to_hex(Field::Scalar, &element).is_err());
    assert!(FieldElement { words: R_WORDS }.is_canonical(Field::Base));
    assert!(!FieldElement { words: R_WORDS }.is_canonical(Field::Scalar));
}

#[test]
fn scalar_is_compared_word_by_word() {
    let mut words = R_WORDS;
    words[3] -= 1;
    words[0] = u64::MAX;
    assert!(FieldElement { words }.is_canonical(Field::Scalar));
    let mut words = R_WORDS;
    words[1] += 1;
    words[0] = 0;
    assert!(!FieldElement { words }.is_canonical(Field::Scalar));
    let mut words = R_WORDS;
    words[2] -= 1;
    words[1] = u64::MAX;
    assert!(FieldElement { words }.is_canonical(Field::Scalar));
}

#[test]
fn modulus_words_of_both_fields() {
    assert_eq!(Field::Scalar.modulus_words(), R_WORDS);
    assert_eq!(Field::Base.modulus_words(), Q_WORDS);
    assert_eq!(Field::Scalar.modulus_words(), Fr::char().0);
    assert_eq!(Field::Base.modulus_words(), Fq::char().0);
    assert_eq!(FrRepr(R_WORDS), Fr::char());
}

#[test]
fn g1_point_is_written_x_then_y() {
    let point = G1Point { x: small(1), y: small(2), infinity: false };
    let texts = render_g1_affine_to_hex(&point).unwrap();
    assert_eq!(texts[0], padded("1"));
    assert_eq!(texts[1], padded("2"));
}

#[test]
fn g1_point_at_infinity_is_a_pair_of_zeros() {
    let point = G1Point { x: small(0), y: small(1), infinity: true };
    let texts = render_g1_affine_to_hex(&point).unwrap();
    assert_eq!(texts[0], zeros());
    assert_eq!(texts[1], zeros());
    // Its stored coordinates are not read at all.
    let point = G1Point {
        x: FieldElement { words: [u64::MAX; 4] },
        y: FieldElement { words: [u64::MAX; 4] },
        infinity: true,
    };
    let texts = render_g1_affine_to_hex(&point).unwrap();
    assert_eq!(texts[0], zeros());
    assert_eq!(texts[1], zeros());
}

#[test]
fn g1_point_with_a_coordinate_outside_the_field() {
    let point = G1Point { x: FieldElement { words: Q_WORDS }, y: small(2), infinity: false };
    assert!(matches!(render_g1_affine_to_hex(&point), Err(CodegenError::InvalidScalar)));
    let point = G1Point { x: small(1), y: FieldElement { words: Q_WORDS }, infinity: false };
    assert!(matches!(render_g1_affine_to_hex(&point), Err(CodegenError::InvalidScalar)));
}

#[test]
fn g1_coordinates_lie_in_the_base_field() {
    // Above the scalar field's modulus, below the base field's.
    let mut words = Q_WORDS;
    words[0] -= 1;
    let point = G1Point { x: FieldElement { words }, y: small(2), infinity: false };
    let texts = render_g1_affine_to_hex(&point).unwrap();
    assert_eq!(texts[0], "30644e72e131a029b85045b68181585d97816a916871ca8d3c208c16d87cfd46");
}

#[test]
fn g2_point_components_in_order() {
    let point = G2Point {
        x: Fq2Element { c0: small(0xa), c1: small(0xb) },
        y: Fq2Element { c0: small(0xc), c1: small(0xd) },
        infinity: false,
    };
    let texts = render_g2_affine_to_hex(&point).unwrap();
    assert_eq!(texts[0], padded("a"));
    assert_eq!(texts[1], padded("b"));
    assert_eq!(texts[2], padded("c"));
    assert_eq!(texts[3], padded("d"));
}

#[test]
fn g2_point_at_infinity_is_four_zeros() {
    let point = G2Point {
        x: Fq2Element { c0: small(5), c1: small(6) },
        y: Fq2Element { c0: small(7), c1: small(8) },
        infinity: true,
    };
    let texts = render_g2_affine_to_hex(&point).unwrap();
    for text in texts.iter() {
        assert_eq!(*text, zeros());
    }
}

#[test]
fn g2_point_with_a_component_outside_the_field() {
    for place in 0..4 {
        let mut parts = [small(1), small(2), small(3), small(4)];
        parts[place] = FieldElement { words: Q_WORDS };
        let point = G2Point {
            x: Fq2Element { c0: parts[0], c1: parts[1] },
            y: Fq2Element { c0: parts[2], c1: parts[3] },
            infinity: false,
        };
        assert!(matches!(render_g2_affine_to_hex(&point), Err(CodegenError::InvalidScalar)));
    }
}
