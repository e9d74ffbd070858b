//! The verification key and the parameters that it gives.

use crate::digits::decimal_digits;
use crate::domain::{
    is_power_of_two, lemma_next_power_of_two, next_power_of_two, subgroup_generator, DomainModel,
    MAX_DOMAIN_SIZE,
};
use crate::error::CodegenError;
use crate::field::{
    lemma_scalar_hex_width, scalar_hex, Field, FieldElement, HEX_WIDTH,
};
use crate::parameter::{
    lemma_named_complete, lemma_named_sound, lemma_residue_names, named, Parameter,
};
use crate::points::{G1Coordinates, G1Point, G2Coordinates, G2Point};
use vstd::prelude::*;

verus! {

/// The verification key of a PLONK circuit over BN254 with gates of width
/// four and a selector for the next step.
#[derive(Clone, Debug)]
pub struct VerificationKey {
    /// The number of gates, before padding.
    pub n: usize,
    /// The number of public inputs.
    pub num_inputs: usize,
    pub selector_commitments: Vec<G1Point>,
    pub next_step_selector_commitments: Vec<G1Point>,
    pub permutation_commitments: Vec<G1Point>,
    /// The coset representatives of the permutation argument.
    pub non_residues: Vec<FieldElement>,
    /// Two elements of the second group. Only the second one reaches the
    /// verifier.
    pub g2_elements: Vec<G2Point>,
}

/// What a verification key is: its counts as numbers, its points by their
/// coordinates, its scalars as numbers.
pub struct KeyModel {
    pub n: nat,
    pub num_inputs: nat,
    pub selector_commitments: Seq<G1Coordinates>,
    pub next_step_selector_commitments: Seq<G1Coordinates>,
    pub permutation_commitments: Seq<G1Coordinates>,
    pub non_residues: Seq<nat>,
    pub g2_elements: Seq<G2Coordinates>,
}

/// The points of `points` by their coordinates.
pub open spec fn coordinates_of(points: Seq<G1Point>) -> Seq<G1Coordinates> {
    points.map_values(|p: G1Point| p@)
}

/// The field elements of `scalars` as numbers.
pub open spec fn values_of(scalars: Seq<FieldElement>) -> Seq<nat> {
    scalars.map_values(|e: FieldElement| e@)
}

impl View for VerificationKey {
    type V = KeyModel;

    open spec fn view(&self) -> KeyModel {
        KeyModel {
            n: self.n as nat,
            num_inputs: self.num_inputs as nat,
            selector_commitments: coordinates_of(self.selector_commitments@),
            next_step_selector_commitments: coordinates_of(self.next_step_selector_commitments@),
            permutation_commitments: coordinates_of(self.permutation_commitments@),
            non_residues: values_of(self.non_residues@),
            g2_elements: self.g2_elements@.map_values(|p: G2Point| p@),
        }
    }
}

/// Whether every point of `points` can be written.
pub open spec fn all_encodable(points: Seq<G1Coordinates>) -> bool {
    forall|i: int| 0 <= i < points.len() ==> (#[trigger] points[i]).encodable()
}

/// Whether every number of `scalars` is below the modulus of the scalar
/// field.
pub open spec fn all_scalars(scalars: Seq<nat>) -> bool {
    forall|i: int| 0 <= i < scalars.len() ==> #[trigger] scalars[i] < Field::Scalar.modulus()
}

impl KeyModel {
    /// Whether the key gives the parameter `p`: the three counts and the
    /// four components of the second group element always, a coordinate of a
    /// point or a scalar where the index lies within its sequence.
    pub open spec fn gives(self, p: Parameter) -> bool {
        match p {
            Parameter::DomainSize => true,
            Parameter::NumInputs => true,
            Parameter::Omega => true,
            Parameter::SelectorCommitment { index, coordinate } => index
                < self.selector_commitments.len() && coordinate < 2,
            Parameter::NextStepSelectorCommitment { index, coordinate } => index
                < self.next_step_selector_commitments.len() && coordinate < 2,
            Parameter::PermutationCommitment { index, coordinate } => index
                < self.permutation_commitments.len() && coordinate < 2,
            Parameter::PermutationNonResidue { index } => index < self.non_residues.len(),
            Parameter::G2 { component } => component < 4,
        }
    }

    /// The text that stands for the parameter `p` in a verifier for this key
    /// over `domain`. The components of the second group are those of the
    /// key's second element, never of its first.
    pub open spec fn value(self, domain: DomainModel, p: Parameter) -> Seq<char> {
        match p {
            Parameter::DomainSize => decimal_digits(domain.size),
            Parameter::NumInputs => decimal_digits(self.num_inputs),
            Parameter::Omega => scalar_hex(domain.generator),
            Parameter::SelectorCommitment { index, coordinate } => {
                self.selector_commitments[index as int].hex()[coordinate as int]
            },
            Parameter::NextStepSelectorCommitment { index, coordinate } => {
                self.next_step_selector_commitments[index as int].hex()[coordinate as int]
            },
            Parameter::PermutationCommitment { index, coordinate } => {
                self.permutation_commitments[index as int].hex()[coordinate as int]
            },
            Parameter::PermutationNonResidue { index } => {
                scalar_hex(self.non_residues[index as int])
            },
            Parameter::G2 { component } => self.g2_elements[1].hex()[component as int],
        }
    }

    /// Whether every field element of the key that reaches the verifier is
    /// below the modulus of its field.
    pub open spec fn encodable(self) -> bool {
        &&& all_encodable(self.selector_commitments)
        &&& all_encodable(self.next_step_selector_commitments)
        &&& all_encodable(self.permutation_commitments)
        &&& all_scalars(self.non_residues)
        &&& self.g2_elements[1].encodable()
    }

    /// Why the key gives no parameters over `domain`, if it gives none: it
    /// does not hold two elements of the second group, or else a field
    /// element, the domain's generator or one of the key, is not below its
    /// modulus.
    pub open spec fn defect(self, domain: DomainModel) -> Option<CodegenError> {
        if self.g2_elements.len() != 2 {
            Some(CodegenError::MalformedKey)
        } else if !(domain.generator < Field::Scalar.modulus() && self.encodable()) {
            Some(CodegenError::InvalidScalar)
        } else {
            None
        }
    }

    /// The parameters of a verifier for this key over `domain`: under the
    /// name of each parameter that the key gives stands its text, and
    /// nothing stands under any other name.
    pub open spec fn parameters(self, domain: DomainModel) -> Map<Seq<char>, Seq<char>> {
        Map::new(
            |name: Seq<char>| (named(name) matches Some(p) && self.gives(p)),
            |name: Seq<char>| self.value(domain, named(name)->0),
        )
    }

    /// The evaluation domain of the key: its number of gates rounded up to a
    /// power of two, and the generator for that size.
    pub open spec fn domain(self) -> DomainModel {
        DomainModel {
            size: next_power_of_two(self.n),
            generator: subgroup_generator(next_power_of_two(self.n)),
        }
    }

    /// Why there is no verifier for the key, if there is none. Of several
    /// reasons the first one counts: the key does not hold two elements of
    /// the second group; its domain is too large; a field element of the key
    /// is not below its modulus.
    pub open spec fn rejection(self) -> Option<CodegenError> {
        if self.g2_elements.len() != 2 {
            Some(CodegenError::MalformedKey)
        } else if next_power_of_two(self.n) > MAX_DOMAIN_SIZE {
            Some(CodegenError::DomainTooLarge)
        } else if !self.encodable() {
            Some(CodegenError::InvalidScalar)
        } else {
            None
        }
    }

    /// Whether no sequence of the key is longer than an index can count.
    pub open spec fn countable(self) -> bool {
        &&& self.selector_commitments.len() <= usize::MAX
        &&& self.next_step_selector_commitments.len() <= usize::MAX
        &&& self.permutation_commitments.len() <= usize::MAX
        &&& self.non_residues.len() <= usize::MAX
    }
}

/// Every parameter that the key gives stands in the map under its own name,
/// with its own text: the index in a name is the place of the element in its
/// sequence.
pub proof fn lemma_parameter_entry(key: KeyModel, domain: DomainModel, p: Parameter)
    requires
        p.well_formed(),
        key.gives(p),
    ensures
        key.parameters(domain).contains_key(p.name()),
        key.parameters(domain)[p.name()] == key.value(domain, p),
{
    lemma_named_complete(p);
}

/// Nothing stands in the map but the parameters that the key gives.
pub proof fn lemma_parameter_names(key: KeyModel, domain: DomainModel, name: Seq<char>)
    requires
        key.parameters(domain).contains_key(name),
    ensures
        exists|p: Parameter| p.well_formed() && key.gives(p) && #[trigger] p.name() == name,
{
    lemma_named_sound(name);
    let p = named(name)->0;
    assert(p.name() == name);
}

/// The size in the map of a key over its own domain is the least power of
/// two that is not below the key's number of gates, in decimal.
pub proof fn lemma_domain_size(key: KeyModel)
    ensures
        key.parameters(key.domain())[Parameter::DomainSize.name()] == decimal_digits(
            next_power_of_two(key.n),
        ),
        is_power_of_two(next_power_of_two(key.n)),
        key.n <= next_power_of_two(key.n),
        forall|q: nat| is_power_of_two(q) && key.n <= q ==> next_power_of_two(key.n) <= q,
{
    lemma_parameter_entry(key, key.domain(), Parameter::DomainSize);
    lemma_next_power_of_two(key.n);
}

/// Every field element in the map has the same width, whatever its value:
/// all texts but the two counts are made of 64 digits.
pub proof fn lemma_value_width(key: KeyModel, domain: DomainModel, p: Parameter)
    requires
        p.well_formed(),
        key.gives(p),
        p != Parameter::DomainSize,
        p != Parameter::NumInputs,
    ensures
        key.value(domain, p).len() == HEX_WIDTH,
{
    lemma_scalar_hex_width(0);
    match p {
        Parameter::Omega => {
            lemma_scalar_hex_width(domain.generator);
        },
        Parameter::SelectorCommitment { index, coordinate } => {
            let point = key.selector_commitments[index as int];
            lemma_scalar_hex_width(point.x);
            lemma_scalar_hex_width(point.y);
        },
        Parameter::NextStepSelectorCommitment { index, coordinate } => {
            let point = key.next_step_selector_commitments[index as int];
            lemma_scalar_hex_width(point.x);
            lemma_scalar_hex_width(point.y);
        },
        Parameter::PermutationCommitment { index, coordinate } => {
            let point = key.permutation_commitments[index as int];
            lemma_scalar_hex_width(point.x);
            lemma_scalar_hex_width(point.y);
        },
        Parameter::PermutationNonResidue { index } => {
            lemma_scalar_hex_width(key.non_residues[index as int]);
        },
        Parameter::G2 { component } => {
            let point = key.g2_elements[1];
            lemma_scalar_hex_width(point.x_c0);
            lemma_scalar_hex_width(point.x_c1);
            lemma_scalar_hex_width(point.y_c0);
            lemma_scalar_hex_width(point.y_c1);
        },
        _ => {},
    }
}

/// The components of the second group in the map are those of the key's
/// second element, whatever its first element is.
pub proof fn lemma_second_group_element(key: KeyModel, domain: DomainModel, component: usize)
    requires
        component < 4,
    ensures
        key.parameters(domain).contains_key(Parameter::G2 { component }.name()),
        key.parameters(domain)[Parameter::G2 { component }.name()]
            == key.g2_elements[1].hex()[component as int],
{
    lemma_parameter_entry(key, domain, Parameter::G2 { component });
}

/// A key without non-residues gives no parameter whose name begins like
/// that of a non-residue.
pub proof fn lemma_no_residues(key: KeyModel, domain: DomainModel, name: Seq<char>)
    requires
        key.non_residues.len() == 0,
        "permutation_non_residue_"@.is_prefix_of(name),
    ensures
        !key.parameters(domain).contains_key(name),
{
    if key.parameters(domain).contains_key(name) {
        lemma_named_sound(name);
        lemma_residue_names(named(name)->0);
    }
}

} // verus!
