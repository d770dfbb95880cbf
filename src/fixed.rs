use vstd::prelude::*;

verus! {

/// The fixed-point scale: the integer `FIX_ONE` stands for the real number 1.
pub const FIX_ONE: i64 = 4294967296;

/// The largest magnitude a coordinate handed to the evaluator may have.
pub const COORD_LIMIT: i64 = 2305843009213693952;

/// A complex number in fixed point: `re / FIX_ONE + i * im / FIX_ONE`.
#[derive(Clone, Copy, Debug, PartialEq, Eq, Structural)]
pub struct FixedComplex {
    pub re: i64,
    pub im: i64,
}

/// A point or displacement of the plane in fixed point.
#[derive(Clone, Copy, Debug, PartialEq, Eq, Structural)]
pub struct Vector2 {
    pub x: i64,
    pub y: i64,
}

/// `p / FIX_ONE`, rounded toward zero, so that `fix_trunc(-p) == -fix_trunc(p)`.
pub open spec fn fix_trunc(p: int) -> int {
    if p >= 0 {
        p / (FIX_ONE as int)
    } else {
        -((-p) / (FIX_ONE as int))
    }
}

/// Fixed-point multiplication: the product of two fixed-point values.
pub open spec fn fix_mul(a: int, b: int) -> int {
    fix_trunc(a * b)
}

/// Whether a coordinate lies in the range the evaluator accepts.
pub open spec fn in_coord_range(v: int) -> bool {
    -COORD_LIMIT <= v <= COORD_LIMIT
}

pub(crate) fn fix_trunc_exec(p: i128) -> (r: i128)
    requires
        -0x4000_0000_0000_0000_0000_0000_0000_0000 <= p <= 0x4000_0000_0000_0000_0000_0000_0000_0000,
    ensures
        r == fix_trunc(p as int),
{
    if p >= 0 {
        p / (FIX_ONE as i128)
    } else {
        -((-p) / (FIX_ONE as i128))
    }
}

/// Values of `fix_trunc` on inputs bounded by `k * FIX_ONE`.
pub proof fn lemma_fix_trunc_bound(p: int, k: int)
    requires
        k >= 0,
        -k * FIX_ONE <= p <= k * FIX_ONE,
    ensures
        -k <= fix_trunc(p) <= k,
{
}

pub proof fn lemma_fix_trunc_exact(a: int)
    ensures
        fix_trunc(a * FIX_ONE) == a,
{
}

/// Rounding toward zero commutes with negation.
pub proof fn lemma_fix_trunc_odd(p: int)
    ensures
        fix_trunc(-p) == -fix_trunc(p),
{
}

} // verus!

verus! {

/// `p / 2`, rounded toward zero, so that `half_trunc(-p) == -half_trunc(p)`.
pub open spec fn half_trunc(p: int) -> int {
    if p >= 0 {
        p / 2
    } else {
        -((-p) / 2)
    }
}

/// `v` limited to the coordinate range.
pub open spec fn clamp_coord(v: int) -> int {
    if v > COORD_LIMIT {
        COORD_LIMIT as int
    } else if v < -COORD_LIMIT {
        -COORD_LIMIT
    } else {
        v
    }
}

pub(crate) fn half_trunc_exec(p: i128) -> (r: i128)
    requires
        -0x4000_0000_0000_0000_0000_0000_0000_0000 <= p <= 0x4000_0000_0000_0000_0000_0000_0000_0000,
    ensures
        r == half_trunc(p as int),
{
    if p >= 0 {
        p / 2
    } else {
        -((-p) / 2)
    }
}

pub(crate) fn clamp_coord_exec(v: i128) -> (r: i64)
    ensures
        r == clamp_coord(v as int),
{
    if v > COORD_LIMIT as i128 {
        COORD_LIMIT
    } else if v < -(COORD_LIMIT as i128) {
        -COORD_LIMIT
    } else {
        v as i64
    }
}

/// A rotation of the plane, given by its cosine and sine in fixed point.
#[derive(Clone, Copy, Debug, PartialEq, Eq, Structural)]
pub struct Rotation {
    pub cos: i64,
    pub sin: i64,
}

impl Rotation {
    pub open spec fn wf(&self) -> bool {
        -FIX_ONE <= self.cos <= FIX_ONE && -FIX_ONE <= self.sin <= FIX_ONE
    }

    /// The rotation by angle 0.
    pub fn identity() -> (r: Rotation)
        ensures
            r.wf(),
            r.cos == FIX_ONE,
            r.sin == 0,
    {
        Rotation { cos: FIX_ONE, sin: 0 }
    }
}

} // verus!
