//! The parameters that a verification key gives to a template, and their
//! names.

use crate::digits::{
    decimal_digits, decimal_value, digit_char, digit_value, lemma_decimal_round_trip,
    lemma_digit_value, push_decimal,
};
use vstd::prelude::*;
use vstd::string::StringExecFns;

verus! {

/// One parameter of a verifier. An index is the place of an element in its
/// sequence of the key, counted from zero; a coordinate is 0 for `x` and 1
/// for `y`; a component counts through `x.c0`, `x.c1`, `y.c0`, `y.c1`.
#[derive(Clone, Copy, Debug, PartialEq, Eq, Structural)]
pub enum Parameter {
    DomainSize,
    NumInputs,
    Omega,
    SelectorCommitment { index: usize, coordinate: usize },
    NextStepSelectorCommitment { index: usize, coordinate: usize },
    PermutationCommitment { index: usize, coordinate: usize },
    PermutationNonResidue { index: usize },
    G2 { component: usize },
}

/// The name of a coordinate of an indexed point: the family's prefix, the
/// index, an underscore and the coordinate.
pub open spec fn coordinate_name(family: Seq<char>, index: nat, coordinate: nat) -> Seq<char> {
    family + decimal_digits(index) + "_"@ + decimal_digits(coordinate)
}

/// The name of an indexed scalar: the family's prefix and the index.
pub open spec fn indexed_name(family: Seq<char>, index: nat) -> Seq<char> {
    family + decimal_digits(index)
}

impl Parameter {
    /// Whether the parameter is one that a key can give: a coordinate is 0 or
    /// 1, a component at most 3.
    pub open spec fn well_formed(self) -> bool {
        match self {
            Parameter::SelectorCommitment { coordinate, .. } => coordinate < 2,
            Parameter::NextStepSelectorCommitment { coordinate, .. } => coordinate < 2,
            Parameter::PermutationCommitment { coordinate, .. } => coordinate < 2,
            Parameter::G2 { component } => component < 4,
            _ => true,
        }
    }

    /// The name under which a template refers to the parameter.
    pub open spec fn name(self) -> Seq<char> {
        match self {
            Parameter::DomainSize => "domain_size"@,
            Parameter::NumInputs => "num_inputs"@,
            Parameter::Omega => "omega"@,
            Parameter::SelectorCommitment { index, coordinate } => coordinate_name(
                "selector_commitment_"@,
                index as nat,
                coordinate as nat,
            ),
            Parameter::NextStepSelectorCommitment { index, coordinate } => coordinate_name(
                "next_step_selector_commitment_"@,
                index as nat,
                coordinate as nat,
            ),
            Parameter::PermutationCommitment { index, coordinate } => coordinate_name(
                "permutation_commitment_"@,
                index as nat,
                coordinate as nat,
            ),
            Parameter::PermutationNonResidue { index } => indexed_name(
                "permutation_non_residue_"@,
                index as nat,
            ),
            Parameter::G2 { component } => if component == 0 {
                "g2_x_x_c0"@
            } else if component == 1 {
                "g2_x_x_c1"@
            } else if component == 2 {
                "g2_x_y_c0"@
            } else {
                "g2_x_y_c1"@
            },
        }
    }

    /// The parameter's name as text.
    pub fn to_name(&self) -> (text: String)
        ensures
            text@ == self.name(),
    {
        match *self {
            Parameter::DomainSize => "domain_size".to_owned(),
            Parameter::NumInputs => "num_inputs".to_owned(),
            Parameter::Omega => "omega".to_owned(),
            Parameter::SelectorCommitment { index, coordinate } => coordinate_text(
                "selector_commitment_",
                index,
                coordinate,
            ),
            Parameter::NextStepSelectorCommitment { index, coordinate } => coordinate_text(
                "next_step_selector_commitment_",
                index,
                coordinate,
            ),
            Parameter::PermutationCommitment { index, coordinate } => coordinate_text(
                "permutation_commitment_",
                index,
                coordinate,
            ),
            Parameter::PermutationNonResidue { index } => {
                let mut text = "permutation_non_residue_".to_owned();
                push_decimal(&mut text, index as u64);
                text
            },
            Parameter::G2 { component } => if component == 0 {
                "g2_x_x_c0".to_owned()
            } else if component == 1 {
                "g2_x_x_c1".to_owned()
            } else if component == 2 {
                "g2_x_y_c0".to_owned()
            } else {
                "g2_x_y_c1".to_owned()
            },
        }
    }
}

/// The name of a coordinate of an indexed point as text.
fn coordinate_text(family: &str, index: usize, coordinate: usize) -> (text: String)
    ensures
        text@ == coordinate_name(family@, index as nat, coordinate as nat),
{
    let mut text = family.to_owned();
    push_decimal(&mut text, index as u64);
    text.append("_");
    push_decimal(&mut text, coordinate as u64);
    text
}

/// The index that stands in `name` from the place `from` up to `until`, as
/// far as decimal digits stand there.
spec fn index_in(name: Seq<char>, from: int, until: int) -> usize {
    match decimal_value(name.subrange(from, until)) {
        Some(v) => v as usize,
        None => 0,
    }
}

/// The coordinate that the last character of `name` stands for.
spec fn last_digit(name: Seq<char>) -> usize {
    match digit_value(name.last()) {
        Some(d) => d as usize,
        None => 0,
    }
}

/// The one parameter that `name` can be the name of, going by the few
/// characters in which the names of different kinds differ.
spec fn candidate(name: Seq<char>) -> Parameter {
    let len = name.len() as int;
    if len < 13 {
        if name[0] == 'd' {
            Parameter::DomainSize
        } else if name[0] == 'n' {
            Parameter::NumInputs
        } else if name[0] == 'o' {
            Parameter::Omega
        } else {
            Parameter::G2 {
                component: if name[5] == 'y' {
                    if name[8] == '1' {
                        3usize
                    } else {
                        2usize
                    }
                } else {
                    if name[8] == '1' {
                        1usize
                    } else {
                        0usize
                    }
                },
            }
        }
    } else if name[0] == 's' {
        Parameter::SelectorCommitment {
            index: index_in(name, 20, len - 2),
            coordinate: last_digit(name),
        }
    } else if name[0] == 'n' {
        Parameter::NextStepSelectorCommitment {
            index: index_in(name, 30, len - 2),
            coordinate: last_digit(name),
        }
    } else if name[12] == 'c' {
        Parameter::PermutationCommitment {
            index: index_in(name, 23, len - 2),
            coordinate: last_digit(name),
        }
    } else {
        Parameter::PermutationNonResidue { index: index_in(name, 24, len) }
    }
}

/// The parameter that `name` is the name of, if it is the name of one.
pub closed spec fn named(name: Seq<char>) -> Option<Parameter> {
    let p = candidate(name);
    if p.well_formed() && p.name() == name {
        Some(p)
    } else {
        None
    }
}

/// What `named` finds has the name that was asked for.
pub proof fn lemma_named_sound(name: Seq<char>)
    ensures
        named(name) matches Some(p) ==> p.well_formed() && p.name() == name,
{
}

/// Every parameter is found again from its name.
pub proof fn lemma_named_complete(p: Parameter)
    requires
        p.well_formed(),
    ensures
        named(p.name()) == Some(p),
{
    reveal_strlit("domain_size");
    reveal_strlit("num_inputs");
    reveal_strlit("omega");
    reveal_strlit("g2_x_x_c0");
    reveal_strlit("g2_x_x_c1");
    reveal_strlit("g2_x_y_c0");
    reveal_strlit("g2_x_y_c1");
    reveal_strlit("selector_commitment_");
    reveal_strlit("next_step_selector_commitment_");
    reveal_strlit("permutation_commitment_");
    reveal_strlit("permutation_non_residue_");
    reveal_strlit("_");
    let name = p.name();
    match p {
        Parameter::SelectorCommitment { index, coordinate } => {
            lemma_coordinate_name_parts("selector_commitment_"@, index, coordinate);
        },
        Parameter::NextStepSelectorCommitment { index, coordinate } => {
            lemma_coordinate_name_parts("next_step_selector_commitment_"@, index, coordinate);
        },
        Parameter::PermutationCommitment { index, coordinate } => {
            lemma_coordinate_name_parts("permutation_commitment_"@, index, coordinate);
        },
        Parameter::PermutationNonResidue { index } => {
            lemma_decimal_round_trip(index as nat);
            assert(name.subrange(24, name.len() as int) =~= decimal_digits(index as nat));
        },
        _ => {},
    }
    assert(candidate(name) == p);
}

/// Different parameters have different names.
pub proof fn lemma_names_differ(p: Parameter, q: Parameter)
    requires
        p.well_formed(),
        q.well_formed(),
        p.name() == q.name(),
    ensures
        p == q,
{
    lemma_named_complete(p);
    lemma_named_complete(q);
}

/// Only the name of a non-residue begins like the name of a non-residue.
pub proof fn lemma_residue_names(p: Parameter)
    requires
        p.well_formed(),
        "permutation_non_residue_"@.is_prefix_of(p.name()),
    ensures
        p is PermutationNonResidue,
{
    reveal_strlit("domain_size");
    reveal_strlit("num_inputs");
    reveal_strlit("omega");
    reveal_strlit("g2_x_x_c0");
    reveal_strlit("g2_x_x_c1");
    reveal_strlit("g2_x_y_c0");
    reveal_strlit("g2_x_y_c1");
    reveal_strlit("selector_commitment_");
    reveal_strlit("next_step_selector_commitment_");
    reveal_strlit("permutation_commitment_");
    reveal_strlit("permutation_non_residue_");
    let name = p.name();
    let begin = name.subrange(0, 24);
    assert(begin[0] == 'p' && begin[12] == 'n');
    assert(name[0] == 'p' && name[12] == 'n');
    match p {
        Parameter::SelectorCommitment { index, coordinate } => {
            assert(name[0] == "selector_commitment_"@[0]);
        },
        Parameter::NextStepSelectorCommitment { index, coordinate } => {
            assert(name[0] == "next_step_selector_commitment_"@[0]);
        },
        Parameter::PermutationCommitment { index, coordinate } => {
            assert(name[12] == "permutation_commitment_"@[12]);
        },
        _ => {},
    }
}

/// Where the index and the coordinate stand in the name of a coordinate.
proof fn lemma_coordinate_name_parts(family: Seq<char>, index: usize, coordinate: usize)
    requires
        coordinate < 2,
    ensures
        ({
            let name = coordinate_name(family, index as nat, coordinate as nat);
            &&& name.len() >= family.len() + 3
            &&& name.subrange(0, family.len() as int) == family
            &&& index_in(name, family.len() as int, name.len() - 2) == index
            &&& last_digit(name) == coordinate
        }),
{
    reveal_strlit("_");
    let name = coordinate_name(family, index as nat, coordinate as nat);
    lemma_decimal_round_trip(index as nat);
    lemma_digit_value(coordinate as nat);
    assert(decimal_digits(coordinate as nat) =~= seq![digit_char(coordinate as nat)]);
    assert(name.subrange(0, family.len() as int) =~= family);
    assert(name.subrange(family.len() as int, name.len() - 2) =~= decimal_digits(index as nat));
    assert(name.last() == digit_char(coordinate as nat));
}

} // verus!
