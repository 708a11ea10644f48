//! The kinematic model of the arm: an immutable value object holding the
//! seven geometry scalars, the six joint offsets and the six sign
//! corrections. Lengths are fixed-point nanometers, offsets fixed-point
//! nanoradians. Construction is the sole mutation point; geometry validity
//! is the solver's responsibility, so no validation happens here.

use vstd::prelude::*;

verus! {

/// Arm geometry, joint offsets and sign corrections of a 6-axis arm with
/// parallel-orthogonal wrist structure.
#[derive(Clone, Copy, Debug)]
pub struct KinematicModel {
    pub a1: i64,
    pub a2: i64,
    pub b: i64,
    pub c1: i64,
    pub c2: i64,
    pub c3: i64,
    pub c4: i64,
    pub offsets: [i64; 6],
    pub sign_corrections: [i8; 6],
}

impl KinematicModel {
    /// Build a model from the seven geometry scalars (nanometers), the six
    /// joint offsets (nanoradians) and the six sign corrections.
    #[allow(clippy::too_many_arguments)]
    pub fn new(
        a1: i64,
        a2: i64,
        b: i64,
        c1: i64,
        c2: i64,
        c3: i64,
        c4: i64,
        offsets: (i64, i64, i64, i64, i64, i64),
        sign_corrections: (i8, i8, i8, i8, i8, i8),
    ) -> (r: Self)
        ensures
            r.a1 == a1,
            r.a2 == a2,
            r.b == b,
            r.c1 == c1,
            r.c2 == c2,
            r.c3 == c3,
            r.c4 == c4,
            r.offsets@ == seq![
                offsets.0,
                offsets.1,
                offsets.2,
                offsets.3,
                offsets.4,
                offsets.5,
            ],
            r.sign_corrections@ == seq![
                sign_corrections.0,
                sign_corrections.1,
                sign_corrections.2,
                sign_corrections.3,
                sign_corrections.4,
                sign_corrections.5,
            ],
    {
        let r = KinematicModel {
            a1,
            a2,
            b,
            c1,
            c2,
            c3,
            c4,
            offsets: [offsets.0, offsets.1, offsets.2, offsets.3, offsets.4, offsets.5],
            sign_corrections: [
                sign_corrections.0,
                sign_corrections.1,
                sign_corrections.2,
                sign_corrections.3,
                sign_corrections.4,
                sign_corrections.5,
            ],
        };
        proof {
            assert(r.offsets@ =~= seq![
                offsets.0,
                offsets.1,
                offsets.2,
                offsets.3,
                offsets.4,
                offsets.5,
            ]);
            assert(r.sign_corrections@ =~= seq![
                sign_corrections.0,
                sign_corrections.1,
                sign_corrections.2,
                sign_corrections.3,
                sign_corrections.4,
                sign_corrections.5,
            ]);
        }
        r
    }

    pub fn a1(&self) -> (r: i64)
        ensures
            r == self.a1,
    {
        self.a1
    }

    pub fn a2(&self) -> (r: i64)
        ensures
            r == self.a2,
    {
        self.a2
    }

    pub fn b(&self) -> (r: i64)
        ensures
            r == self.b,
    {
        self.b
    }

    pub fn c1(&self) -> (r: i64)
        ensures
            r == self.c1,
    {
        self.c1
    }

    pub fn c2(&self) -> (r: i64)
        ensures
            r == self.c2,
    {
        self.c2
    }

    pub fn c3(&self) -> (r: i64)
        ensures
            r == self.c3,
    {
        self.c3
    }

    pub fn c4(&self) -> (r: i64)
        ensures
            r == self.c4,
    {
        self.c4
    }

    /// The six joint offsets, as a vector for easier handling outside.
    pub fn offsets(&self) -> (r: Vec<i64>)
        ensures
            r@ == self.offsets@,
    {
        let mut v: Vec<i64> = Vec::new();
        v.push(self.offsets[0]);
        v.push(self.offsets[1]);
        v.push(self.offsets[2]);
        v.push(self.offsets[3]);
        v.push(self.offsets[4]);
        v.push(self.offsets[5]);
        proof {
            assert(v@ =~= self.offsets@);
        }
        v
    }

    /// The six sign corrections, as a vector for easier handling outside.
    pub fn sign_corrections(&self) -> (r: Vec<i8>)
        ensures
            r@ == self.sign_corrections@,
    {
        let mut v: Vec<i8> = Vec::new();
        v.push(self.sign_corrections[0]);
        v.push(self.sign_corrections[1]);
        v.push(self.sign_corrections[2]);
        v.push(self.sign_corrections[3]);
        v.push(self.sign_corrections[4]);
        v.push(self.sign_corrections[5]);
        proof {
            assert(v@ =~= self.sign_corrections@);
        }
        v
    }
}

} // verus!
