use bellman_ce::pairing::bn256::Fr;
use bellman_ce::pairing::ff::{from_hex, Field as _};
use bellman_vk_codegen::domain::EvaluationDomain;
use bellman_vk_codegen::error::CodegenError;
use bellman_vk_codegen::field::FieldElement;
use bellman_vk_codegen::key::VerificationKey;
use bellman_vk_codegen::parameter::Parameter;
use bellman_vk_codegen::builder::{parameters_for_domain, verification_key_parameters, ParameterMap};
use bellman_vk_codegen::points::{Fq2Element, G1Point, G2Point};

const Q_WORDS: [u64; 4] =
    [0x3c208c16d87cfd47, 0x97816a916871ca8d, 0xb85045b68181585d, 0x30644e72e131a029];
const R_WORDS: [u64; 4] =
    [0x43e1f593f0000001, 0x2833e84879b97091, 0xb85045b68181585d, 0x30644e72e131a029];

fn small(value: u64) -> FieldElement {
    FieldElement { words: [value, 0, 0, 0] }
}

fn padded(digits: &str) -> String {
    format!("{}{}", "0".repeat(64 - digits.len()), digits)
}

fn point(x: u64, y: u64) -> G1Point {
    G1Point { x: small(x), y: small(y), infinity: false }
}

fn g2(first: u64) -> G2Point {
    G2Point {
        x: Fq2Element { c0: small(first), c1: small(first + 1) },
        y: Fq2Element { c0: small(first + 2), c1: small(first + 3) },
        infinity: false,
    }
}

fn key(selectors: usize, next_steps: usize, permutations: usize, residues: usize) -> VerificationKey {
    VerificationKey {
        n: 5,
        num_inputs: 3,
        selector_commitments: (0..selectors).map(|i| point(0x100 + i as u64, 0x200 + i as u64)).collect(),
        next_step_selector_commitments: (0..next_steps)
            .map(|i| point(0x300 + i as u64, 0x400 + i as u64))
            .collect(),
        permutation_commitments: (0..permutations)
            .map(|i| point(0x500 + i as u64, 0x600 + i as u64))
            .collect(),
        non_residues: (0..residues).map(|i| small(0x700 + i as u64)).collect(),
        g2_elements: vec![g2(0x10), g2(0x20)],
    }
}

fn text<'a>(map: &'a ParameterMap, name: &str) -> Option<&'a str> {
    map.as_json().get(name).and_then(|value| value.as_str())
}

fn names(map: &ParameterMap) -> Vec<String> {
    map.as_json().keys().cloned().collect()
}

#[test]
fn parameter_names() {
    assert_eq!(Parameter::DomainSize.to_name(), "domain_size");
    assert_eq!(Parameter::NumInputs.to_name(), "num_inputs");
    assert_eq!(Parameter::Omega.to_name(), "omega");
    assert_eq!(
        Parameter::SelectorCommitment { index: 0, coordinate: 0 }.to_name(),
        "selector_commitment_0_0"
    );
    assert_eq!(
        Parameter::SelectorCommitment { index: 12, coordinate: 1 }.to_name(),
        "selector_commitment_12_1"
    );
    assert_eq!(
        Parameter::NextStepSelectorCommitment { index: 3, coordinate: 1 }.to_name(),
        "next_step_selector_commitment_3_1"
    );
    assert_eq!(
        Parameter::PermutationCommitment { index: 100, coordinate: 0 }.to_name(),
        "permutation_commitment_100_0"
    );
    assert_eq!(
        Parameter::PermutationNonResidue { index: 2 }.to_name(),
        "permutation_non_residue_2"
    );
    assert_eq!(Parameter::G2 { component: 0 }.to_name(), "g2_x_x_c0");
    assert_eq!(Parameter::G2 { component: 1 }.to_name(), "g2_x_x_c1");
    assert_eq!(Parameter::G2 { component: 2 }.to_name(), "g2_x_y_c0");
    assert_eq!(Parameter::G2 { component: 3 }.to_name(), "g2_x_y_c1");
}

#[test]
fn parameter_names_differ() {
    let mut all = vec![Parameter::DomainSize, Parameter::NumInputs, Parameter::Omega];
    for index in [0usize, 1, 9, 10, 11, 99, 100, 101] {
        for coordinate in 0..2 {
            all.push(Parameter::SelectorCommitment { index, coordinate });
            all.push(Parameter::NextStepSelectorCommitment { index, coordinate });
            all.push(Parameter::PermutationCommitment { index, coordinate });
        }
        all.push(Parameter::PermutationNonResidue { index });
    }
    for component in 0..4 {
        all.push(Parameter::G2 { component });
    }
    for (i, p) in all.iter().enumerate() {
        for (j, q) in all.iter().enumerate() {
            assert_eq!(p.to_name() == q.to_name(), i == j);
        }
    }
}

#[test]
fn map_of_a_key_with_three_selectors_and_two_permutations() {
    let map = verification_key_parameters(&key(3, 0, 2, 0)).unwrap();
    let mut expected = vec![
        "domain_size",
        "g2_x_x_c0",
        "g2_x_x_c1",
        "g2_x_y_c0",
        "g2_x_y_c1",
        "num_inputs",
        "omega",
        "permutation_commitment_0_0",
        "permutation_commitment_0_1",
        "permutation_commitment_1_0",
        "permutation_commitment_1_1",
        "selector_commitment_0_0",
        "selector_commitment_0_1",
        "selector_commitment_1_0",
        "selector_commitment_1_1",
        "selector_commitment_2_0",
        "selector_commitment_2_1",
    ];
    expected.sort();
    let mut found = names(&map);
    found.sort();
    assert_eq!(found, expected);
    assert_eq!(found.iter().filter(|name| name.starts_with("selector_commitment_")).count(), 6);
    assert_eq!(found.iter().filter(|name| name.starts_with("permutation_commitment_")).count(), 4);
}

#[test]
fn map_values_of_the_counts() {
    let map = verification_key_parameters(&key(1, 1, 1, 1)).unwrap();
    assert_eq!(text(&map, "domain_size"), Some("8"));
    assert_eq!(text(&map, "num_inputs"), Some("3"));
    assert_eq!(
        text(&map, "omega"),
        Some("2b337de1c8c14f22ec9b9e2f96afef3652627366f8170a0a948dad4ac1bd5e80")
    );
}

#[test]
fn map_domain_size_is_a_power_of_two_in_decimal() {
    for (n, expected) in [(0, "1"), (1, "1"), (4, "4"), (5, "8"), (1000, "1024"), (1 << 28, "268435456")]
    {
        let mut vk = key(0, 0, 0, 0);
        vk.n = n;
        let map = verification_key_parameters(&vk).unwrap();
        assert_eq!(text(&map, "domain_size"), Some(expected));
    }
}

#[test]
fn map_indices_follow_positions() {
    let vk = key(12, 2, 4, 3);
    let map = verification_key_parameters(&vk).unwrap();
    assert_eq!(map.as_json().len(), 3 + 2 * (12 + 2 + 4) + 3 + 4);
    for i in 0..12u64 {
        assert_eq!(
            text(&map, &format!("selector_commitment_{}_0", i)),
            Some(padded(&format!("{:x}", 0x100 + i)).as_str())
        );
        assert_eq!(
            text(&map, &format!("selector_commitment_{}_1", i)),
            Some(padded(&format!("{:x}", 0x200 + i)).as_str())
        );
    }
    for i in 0..2u64 {
        assert_eq!(
            text(&map, &format!("next_step_selector_commitment_{}_0", i)),
            Some(padded(&format!("{:x}", 0x300 + i)).as_str())
        );
        assert_eq!(
            text(&map, &format!("next_step_selector_commitment_{}_1", i)),
            Some(padded(&format!("{:x}", 0x400 + i)).as_str())
        );
    }
    for i in 0..4u64 {
        assert_eq!(
            text(&map, &format!("permutation_commitment_{}_0", i)),
            Some(padded(&format!("{:x}", 0x500 + i)).as_str())
        );
        assert_eq!(
            text(&map, &format!("permutation_commitment_{}_1", i)),
            Some(padded(&format!("{:x}", 0x600 + i)).as_str())
        );
    }
    for i in 0..3u64 {
        assert_eq!(
            text(&map, &format!("permutation_non_residue_{}", i)),
            Some(padded(&format!("{:x}", 0x700 + i)).as_str())
        );
    }
}

#[test]
fn map_keeps_equal_points_apart() {
    // Equal points at different places are written once for each place.
    let mut vk = key(0, 0, 0, 0);
    vk.selector_commitments = vec![point(7, 8), point(7, 8), point(1, 2)];
    let map = verification_key_parameters(&vk).unwrap();
    assert_eq!(map.as_json().len(), 7 + 6);
    assert_eq!(text(&map, "selector_commitment_0_0"), Some(padded("7").as_str()));
    assert_eq!(text(&map, "selector_commitment_1_0"), Some(padded("7").as_str()));
    assert_eq!(text(&map, "selector_commitment_2_0"), Some(padded("1").as_str()));
    assert_eq!(text(&map, "selector_commitment_2_1"), Some(padded("2").as_str()));
}

#[test]
fn map_reads_the_second_g2_element() {
    let mut vk = key(0, 0, 0, 0);
    vk.g2_elements = vec![g2(0x10), g2(0x20)];
    let map = verification_key_parameters(&vk).unwrap();
    assert_eq!(text(&map, "g2_x_x_c0"), Some(padded("20").as_str()));
    assert_eq!(text(&map, "g2_x_x_c1"), Some(padded("21").as_str()));
    assert_eq!(text(&map, "g2_x_y_c0"), Some(padded("22").as_str()));
    assert_eq!(text(&map, "g2_x_y_c1"), Some(padded("23").as_str()));
    // The first element is not even looked at.
    vk.g2_elements[0].x.c0 = FieldElement { words: [u64::MAX; 4] };
    let map = verification_key_parameters(&vk).unwrap();
    assert_eq!(text(&map, "g2_x_x_c0"), Some(padded("20").as_str()));
}

#[test]
fn map_without_non_residues() {
    let map = verification_key_parameters(&key(2, 1, 2, 0)).unwrap();
    assert!(names(&map).iter().all(|name| !name.starts_with("permutation_non_residue_")));
    assert_eq!(map.as_json().len(), 7 + 2 * 5);
}

#[test]
fn map_of_an_empty_key() {
    let map = verification_key_parameters(&key(0, 0, 0, 0)).unwrap();
    let mut found = names(&map);
    found.sort();
    assert_eq!(
        found,
        vec![
            "domain_size",
            "g2_x_x_c0",
            "g2_x_x_c1",
            "g2_x_y_c0",
            "g2_x_y_c1",
            "num_inputs",
            "omega"
        ]
    );
}

#[test]
fn map_values_are_json_strings() {
    let map = verification_key_parameters(&key(1, 1, 1, 1)).unwrap();
    assert!(map.as_json().values().all(|value| value.is_string()));
}

#[test]
fn map_for_a_given_domain() {
    let domain = EvaluationDomain { size: 16, generator: small(0xabc) };
    let map = parameters_for_domain(&key(1, 0, 0, 0), &domain).unwrap();
    assert_eq!(text(&map, "domain_size"), Some("16"));
    assert_eq!(text(&map, "omega"), Some(padded("abc").as_str()));
    assert_eq!(text(&map, "selector_commitment_0_0"), Some(padded("100").as_str()));
    assert_eq!(map.as_json().len(), 9);
}

#[test]
fn map_for_a_domain_with_a_generator_outside_the_field() {
    let domain = EvaluationDomain { size: 16, generator: FieldElement { words: R_WORDS } };
    assert!(matches!(
        parameters_for_domain(&key(1, 0, 0, 0), &domain),
        Err(CodegenError::InvalidScalar)
    ));
}

#[test]
fn malformed_key() {
    for count in [0usize, 1, 3] {
        let mut vk = key(1, 1, 1, 1);
        vk.g2_elements = (0..count).map(|i| g2(i as u64)).collect();
        assert!(matches!(verification_key_parameters(&vk), Err(CodegenError::MalformedKey)));
        let domain = EvaluationDomain { size: 8, generator: small(1) };
        assert!(matches!(parameters_for_domain(&vk, &domain), Err(CodegenError::MalformedKey)));
    }
}

#[test]
fn key_with_too_many_gates() {
    let mut vk = key(1, 1, 1, 1);
    vk.n = (1 << 28) + 1;
    assert!(matches!(verification_key_parameters(&vk), Err(CodegenError::DomainTooLarge)));
}

#[test]
fn key_with_a_non_residue_outside_the_field() {
    let mut vk = key(1, 1, 1, 3);
    vk.non_residues[2] = FieldElement { words: R_WORDS };
    assert!(matches!(verification_key_parameters(&vk), Err(CodegenError::InvalidScalar)));
}

#[test]
fn key_with_a_coordinate_outside_the_field() {
    let outside = G1Point { x: small(1), y: FieldElement { words: Q_WORDS }, infinity: false };
    let mut vk = key(3, 1, 1, 1);
    vk.selector_commitments[2] = outside;
    assert!(matches!(verification_key_parameters(&vk), Err(CodegenError::InvalidScalar)));
    let mut vk = key(1, 2, 1, 1);
    vk.next_step_selector_commitments[1] = outside;
    assert!(matches!(verification_key_parameters(&vk), Err(CodegenError::InvalidScalar)));
    let mut vk = key(1, 1, 4, 1);
    vk.permutation_commitments[0] = outside;
    assert!(matches!(verification_key_parameters(&vk), Err(CodegenError::InvalidScalar)));
    let mut vk = key(1, 1, 1, 1);
    vk.g2_elements[1].y.c1 = FieldElement { words: Q_WORDS };
    assert!(matches!(verification_key_parameters(&vk), Err(CodegenError::InvalidScalar)));
}

#[test]
fn first_reason_counts() {
    // Malformed before too large, too large before an invalid scalar.
    let mut vk = key(1, 1, 1, 1);
    vk.n = usize::MAX;
    vk.non_residues[0] = FieldElement { words: R_WORDS };
    assert!(matches!(verification_key_parameters(&vk), Err(CodegenError::DomainTooLarge)));
    vk.g2_elements.pop();
    assert!(matches!(verification_key_parameters(&vk), Err(CodegenError::MalformedKey)));
}

#[test]
fn key_with_a_point_at_infinity() {
    let mut vk = key(2, 0, 0, 0);
    vk.selector_commitments[1] = G1Point { x: small(0), y: small(1), infinity: true };
    let map = verification_key_parameters(&vk).unwrap();
    assert_eq!(text(&map, "selector_commitment_1_0"), Some("0".repeat(64).as_str()));
    assert_eq!(text(&map, "selector_commitment_1_1"), Some("0".repeat(64).as_str()));
}

#[test]
fn map_omega_generates_the_domain() {
    for (n, size) in [(1usize, 1u64), (2, 2), (3, 4), (5, 8), (8, 8), (1000, 1024)] {
        let mut vk = key(0, 0, 0, 0);
        vk.n = n;
        let map = verification_key_parameters(&vk).unwrap();
        let omega: Fr = from_hex(text(&map, "omega").unwrap()).unwrap();
        assert_eq!(omega.pow(&[size]), Fr::one());
        if size > 1 {
            let mut minus_one = Fr::one();
            minus_one.negate();
            assert_eq!(omega.pow(&[size / 2]), minus_one);
            assert_ne!(omega.pow(&[size / 2]), Fr::one());
        }
    }
}

#[test]
fn map_as_json_is_the_object_itself() {
    let map = verification_key_parameters(&key(1, 0, 0, 0)).unwrap();
    let object = map.as_json();
    assert_eq!(object.len(), 9);
    assert_eq!(
        object.get("num_inputs"),
        Some(&serde_json::Value::String(String::from("3")))
    );
}
