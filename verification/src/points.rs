//! Points of the two groups of BN254 and their text form.

use crate::error::CodegenError;
use crate::field::{render_scalar_to_hex, scalar_hex, Field, FieldElement};
use vstd::prelude::*;

verus! {

/// A point of the first group in affine coordinates, both in the base field.
#[derive(Clone, Copy, Debug)]
pub struct G1Point {
    pub x: FieldElement,
    pub y: FieldElement,
    /// Set for the point at infinity, whose coordinates mean nothing.
    pub infinity: bool,
}

/// An element `c0 + c1 * u` of the quadratic extension of the base field.
#[derive(Clone, Copy, Debug)]
pub struct Fq2Element {
    pub c0: FieldElement,
    pub c1: FieldElement,
}

/// A point of the second group in affine coordinates, both in the quadratic
/// extension of the base field.
#[derive(Clone, Copy, Debug)]
pub struct G2Point {
    pub x: Fq2Element,
    pub y: Fq2Element,
    /// Set for the point at infinity, whose coordinates mean nothing.
    pub infinity: bool,
}

/// What a point of the first group is: its coordinates as numbers.
pub struct G1Coordinates {
    pub x: nat,
    pub y: nat,
    pub infinity: bool,
}

/// What a point of the second group is: the components of its coordinates as
/// numbers.
pub struct G2Coordinates {
    pub x_c0: nat,
    pub x_c1: nat,
    pub y_c0: nat,
    pub y_c1: nat,
    pub infinity: bool,
}

impl View for G1Point {
    type V = G1Coordinates;

    open spec fn view(&self) -> G1Coordinates {
        G1Coordinates { x: self.x@, y: self.y@, infinity: self.infinity }
    }
}

impl View for G2Point {
    type V = G2Coordinates;

    open spec fn view(&self) -> G2Coordinates {
        G2Coordinates {
            x_c0: self.x.c0@,
            x_c1: self.x.c1@,
            y_c0: self.y.c0@,
            y_c1: self.y.c1@,
            infinity: self.infinity,
        }
    }
}

impl G1Coordinates {
    /// Whether the point can be written: it is the point at infinity, or both
    /// coordinates are below the modulus of the base field.
    pub open spec fn encodable(self) -> bool {
        self.infinity || (self.x < Field::Base.modulus() && self.y < Field::Base.modulus())
    }

    /// The two texts of the point: `x`, then `y`. The point at infinity is
    /// written as the pair of zeros, whatever coordinates it is stored with.
    pub open spec fn hex(self) -> Seq<Seq<char>> {
        if self.infinity {
            seq![scalar_hex(0), scalar_hex(0)]
        } else {
            seq![scalar_hex(self.x), scalar_hex(self.y)]
        }
    }
}

impl G2Coordinates {
    /// Whether the point can be written: it is the point at infinity, or all
    /// four components are below the modulus of the base field.
    pub open spec fn encodable(self) -> bool {
        self.infinity || (self.x_c0 < Field::Base.modulus() && self.x_c1 < Field::Base.modulus()
            && self.y_c0 < Field::Base.modulus() && self.y_c1 < Field::Base.modulus())
    }

    /// The four texts of the point, in the order `x.c0`, `x.c1`, `y.c0`,
    /// `y.c1`. The point at infinity is written as four zeros.
    pub open spec fn hex(self) -> Seq<Seq<char>> {
        if self.infinity {
            seq![scalar_hex(0), scalar_hex(0), scalar_hex(0), scalar_hex(0)]
        } else {
            seq![
                scalar_hex(self.x_c0),
                scalar_hex(self.x_c1),
                scalar_hex(self.y_c0),
                scalar_hex(self.y_c1),
            ]
        }
    }
}

/// The two coordinates of a point of the first group as text, `x` before
/// `y`. A finite point with a coordinate that is not below the modulus of the
/// base field cannot be written.
pub fn render_g1_affine_to_hex(point: &G1Point) -> (res: Result<[String; 2], CodegenError>)
    ensures
        match res {
            Ok(texts) => point@.encodable() && texts@.len() == 2 && texts@[0]@ == point@.hex()[0]
                && texts@[1]@ == point@.hex()[1],
            Err(e) => !point@.encodable() && e == CodegenError::InvalidScalar,
        },
{
    let zero = FieldElement { words: [0, 0, 0, 0] };
    let (x, y) = if point.infinity {
        (&zero, &zero)
    } else {
        (&point.x, &point.y)
    };
    let x_text = match render_scalar_to_hex(Field::Base, x) {
        Ok(text) => text,
        Err(e) => { return Err(e); },
    };
    let y_text = match render_scalar_to_hex(Field::Base, y) {
        Ok(text) => text,
        Err(e) => { return Err(e); },
    };
    Ok([x_text, y_text])
}

/// The four components of a point of the second group as text, in the order
/// `x.c0`, `x.c1`, `y.c0`, `y.c1`. A finite point with a component that is
/// not below the modulus of the base field cannot be written.
pub fn render_g2_affine_to_hex(point: &G2Point) -> (res: Result<[String; 4], CodegenError>)
    ensures
        match res {
            Ok(texts) => point@.encodable() && texts@.len() == 4 && (forall|j: int|
                0 <= j < 4 ==> (#[trigger] texts@[j])@ == point@.hex()[j]),
            Err(e) => !point@.encodable() && e == CodegenError::InvalidScalar,
        },
{
    let zero = Fq2Element {
        c0: FieldElement { words: [0, 0, 0, 0] },
        c1: FieldElement { words: [0, 0, 0, 0] },
    };
    let (x, y) = if point.infinity {
        (&zero, &zero)
    } else {
        (&point.x, &point.y)
    };
    let x_c0 = match render_scalar_to_hex(Field::Base, &x.c0) {
        Ok(text) => text,
        Err(e) => { return Err(e); },
    };
    let x_c1 = match render_scalar_to_hex(Field::Base, &x.c1) {
        Ok(text) => text,
        Err(e) => { return Err(e); },
    };
    let y_c0 = match render_scalar_to_hex(Field::Base, &y.c0) {
        Ok(text) => text,
        Err(e) => { return Err(e); },
    };
    let y_c1 = match render_scalar_to_hex(Field::Base, &y.c1) {
        Ok(text) => text,
        Err(e) => { return Err(e); },
    };
    Ok([x_c0, x_c1, y_c0, y_c1])
}

} // verus!
