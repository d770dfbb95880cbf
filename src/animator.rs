use vstd::prelude::*;
use crate::fixed::{Rotation, Vector2, FIX_ONE};

verus! {

/// `a * b / FIX_ONE`, rounded toward zero.
pub open spec fn trunc_mul(a: int, b: int) -> int {
    let p = a * b;
    if p >= 0 {
        p / (FIX_ONE as int)
    } else {
        -((-p) / (FIX_ONE as int))
    }
}

/// `v` limited to the range of `i64`.
pub open spec fn saturate(v: int) -> int {
    if v > i64::MAX {
        i64::MAX as int
    } else if v < i64::MIN {
        i64::MIN as int
    } else {
        v
    }
}

pub open spec fn abs(v: int) -> int {
    if v < 0 {
        -v
    } else {
        v
    }
}

/// Whether an optional threshold is given and `d` lies under it.
pub open spec fn under(epsilon: Option<i64>, d: int) -> bool {
    match epsilon {
        Some(e) => abs(d) < e,
        None => false,
    }
}

/// How an animated value moves, one step at a time. Rates, friction and
/// coefficients are in fixed point.
#[derive(Clone, Copy, Debug, PartialEq, Eq, Structural)]
pub enum Anim {
    /// The value stays where it is.
    Still,
    /// The value moves by `velocity` each step; the velocity then decays by
    /// `friction`, and the motion ends once it is under `epsilon`.
    Velocity { velocity: i64, friction: i64, epsilon: Option<i64> },
    /// The value grows by the fraction `scale_velocity` of itself each step;
    /// that fraction then decays by `friction`, and the motion ends once it
    /// is under `epsilon`.
    ScaleVelocity { scale_velocity: i64, friction: i64, epsilon: Option<i64> },
    /// The value closes the fraction `coefficient` of its distance to `target`
    /// each step, and snaps to it once that distance is under `epsilon`.
    Target { target: i64, coefficient: i64, epsilon: Option<i64> },
}

impl Anim {
    /// Friction and coefficients are fractions between 0 and 1; thresholds
    /// are not negative.
    pub open spec fn wf(&self) -> bool {
        match *self {
            Anim::Still => true,
            Anim::Velocity { friction, epsilon, .. } => 0 <= friction <= FIX_ONE && eps_ok(epsilon),
            Anim::ScaleVelocity { friction, epsilon, .. } => 0 <= friction <= FIX_ONE && eps_ok(
                epsilon,
            ),
            Anim::Target { coefficient, epsilon, .. } => 0 <= coefficient <= FIX_ONE && eps_ok(
                epsilon,
            ),
        }
    }
}

pub open spec fn eps_ok(epsilon: Option<i64>) -> bool {
    match epsilon {
        Some(e) => e >= 0,
        None => true,
    }
}

/// A value and the motion that drives it.
#[derive(Clone, Copy, Debug, PartialEq, Eq, Structural)]
pub struct Animator {
    pub value: i64,
    pub anim: Anim,
}

/// The state after one step from `value` under `anim`.
pub open spec fn step(value: int, anim: Anim) -> (int, Anim) {
    match anim {
        Anim::Still => (value, anim),
        Anim::Velocity { velocity, friction, epsilon } => {
            let v = saturate(value + velocity);
            let nv = trunc_mul(velocity as int, friction as int);
            if under(epsilon, nv) {
                (v, Anim::Still)
            } else {
                (v, Anim::Velocity { velocity: nv as i64, friction, epsilon })
            }
        },
        Anim::ScaleVelocity { scale_velocity, friction, epsilon } => {
            let v = saturate(value + trunc_mul(value, scale_velocity as int));
            let ns = trunc_mul(scale_velocity as int, friction as int);
            if under(epsilon, ns) {
                (v, Anim::Still)
            } else {
                (v, Anim::ScaleVelocity { scale_velocity: ns as i64, friction, epsilon })
            }
        },
        Anim::Target { target, coefficient, epsilon } => {
            let v = value + trunc_mul(target - value, coefficient as int);
            if under(epsilon, target - v) {
                (target as int, Anim::Still)
            } else {
                (v, anim)
            }
        },
    }
}

/// The state after `n` steps.
pub open spec fn steps(value: int, anim: Anim, n: nat) -> (int, Anim)
    decreases n,
{
    if n == 0 {
        (value, anim)
    } else {
        let s = step(value, anim);
        steps(s.0, s.1, (n - 1) as nat)
    }
}

proof fn lemma_trunc_mul_shrinks(a: int, f: int)
    requires
        0 <= f <= FIX_ONE,
    ensures
        abs(trunc_mul(a, f)) <= abs(a),
        f < FIX_ONE && a != 0 ==> abs(trunc_mul(a, f)) < abs(a),
        a >= 0 ==> trunc_mul(a, f) >= 0,
        a <= 0 ==> trunc_mul(a, f) <= 0,
{
    let one = FIX_ONE as int;
    if a >= 0 {
        assert(0 <= a * f <= a * one) by (nonlinear_arith)
            requires
                0 <= a,
                0 <= f <= one,
        ;
        if f < one && a != 0 {
            assert(a * f <= a * one - a) by (nonlinear_arith)
                requires
                    0 < a,
                    f <= one - 1,
            ;
        }
    } else {
        assert(0 <= (-a) * f <= (-a) * one) by (nonlinear_arith)
            requires
                0 < -a,
                0 <= f <= one,
        ;
        assert(-(a * f) == (-a) * f) by (nonlinear_arith);
        if f < one {
            assert((-a) * f <= (-a) * one - (-a)) by (nonlinear_arith)
                requires
                    0 < -a,
                    f <= one - 1,
            ;
        }
    }
}

fn trunc_mul_exec(a: i64, b: i64) -> (r: i64)
    requires
        0 <= b <= FIX_ONE,
    ensures
        r == trunc_mul(a as int, b as int),
{
    proof {
        lemma_trunc_mul_shrinks(a as int, b as int);
        let one = FIX_ONE as int;
        let (x, y) = (a as int, b as int);
        assert(i64::MIN * y <= x * y <= i64::MAX * y) by (nonlinear_arith)
            requires
                i64::MIN <= x <= i64::MAX,
                0 <= y,
        ;
    }
    let p = (a as i128) * (b as i128);
    if p >= 0 {
        (p / (FIX_ONE as i128)) as i64
    } else {
        (-((-p) / (FIX_ONE as i128))) as i64
    }
}

pub(crate) fn saturate_exec(v: i128) -> (r: i64)
    ensures
        r == saturate(v as int),
{
    if v > i64::MAX as i128 {
        i64::MAX
    } else if v < i64::MIN as i128 {
        i64::MIN
    } else {
        v as i64
    }
}

fn under_exec(epsilon: Option<i64>, d: i128) -> (r: bool)
    requires
        -0x1_0000_0000_0000_0000 <= d <= 0x1_0000_0000_0000_0000,
    ensures
        r == under(epsilon, d as int),
{
    match epsilon {
        Some(e) => {
            if d < 0 {
                -d < e as i128
            } else {
                d < e as i128
            }
        },
        None => false,
    }
}

impl Animator {
    pub open spec fn wf(&self) -> bool {
        self.anim.wf()
    }

    pub fn new(value: i64, anim: Anim) -> (r: Animator)
        requires
            anim.wf(),
        ensures
            r.wf(),
            r.value == value,
            r.anim == anim,
    {
        Animator { value, anim }
    }

    pub fn anim(&self) -> (r: &Anim)
        ensures
            *r == self.anim,
    {
        &self.anim
    }

    /// Replaces the motion; the value is kept.
    pub fn set_anim(&mut self, anim: Anim)
        requires
            anim.wf(),
        ensures
            final(self).wf(),
            final(self).value == old(self).value,
            final(self).anim == anim,
    {
        self.anim = anim;
    }

    /// Advances the value by one step of its motion.
    pub fn update(&mut self)
        requires
            old(self).wf(),
        ensures
            final(self).wf(),
            (final(self).value as int, final(self).anim) == step(
                old(self).value as int,
                old(self).anim,
            ),
    {
        match self.anim {
            Anim::Still => {},
            Anim::Velocity { velocity, friction, epsilon } => {
                self.value = saturate_exec(self.value as i128 + velocity as i128);
                let nv = trunc_mul_exec(velocity, friction);
                if under_exec(epsilon, nv as i128) {
                    self.anim = Anim::Still;
                } else {
                    self.anim = Anim::Velocity { velocity: nv, friction, epsilon };
                }
            },
            Anim::ScaleVelocity { scale_velocity, friction, epsilon } => {
                proof {
                    lemma_trunc_mul_bound(self.value as int, scale_velocity as int);
                }
                let grow = trunc_mul_wide(self.value, scale_velocity);
                self.value = saturate_exec(self.value as i128 + grow);
                let ns = trunc_mul_exec(scale_velocity, friction);
                if under_exec(epsilon, ns as i128) {
                    self.anim = Anim::Still;
                } else {
                    self.anim = Anim::ScaleVelocity { scale_velocity: ns, friction, epsilon };
                }
            },
            Anim::Target { target, coefficient, epsilon } => {
                let d = target as i128 - self.value as i128;
                proof {
                    lemma_trunc_mul_shrinks(d as int, coefficient as int);
                }
                let moved = trunc_mul_wide_diff(d, coefficient);
                let v = self.value as i128 + moved;
                if under_exec(epsilon, target as i128 - v) {
                    self.value = target;
                    self.anim = Anim::Still;
                } else {
                    self.value = v as i64;
                }
            },
        }
    }
}

proof fn lemma_trunc_mul_bound(a: int, b: int)
    requires
        i64::MIN <= a <= i64::MAX,
        i64::MIN <= b <= i64::MAX,
    ensures
        -0x4000_0000_0000_0000_0000_0000_0000_0000 <= a * b <= 0x4000_0000_0000_0000_0000_0000_0000_0000,
{
    assert(-0x4000_0000_0000_0000_0000_0000_0000_0000 <= a * b
        <= 0x4000_0000_0000_0000_0000_0000_0000_0000) by (nonlinear_arith)
        requires
            i64::MIN <= a <= i64::MAX,
            i64::MIN <= b <= i64::MAX,
    ;
}

fn trunc_mul_wide(a: i64, b: i64) -> (r: i128)
    ensures
        r == trunc_mul(a as int, b as int),
        -0x4000_0000_0000_0000_0000_0000 <= r <= 0x4000_0000_0000_0000_0000_0000,
{
    proof {
        lemma_trunc_mul_bound(a as int, b as int);
    }
    let p = (a as i128) * (b as i128);
    if p >= 0 {
        p / (FIX_ONE as i128)
    } else {
        -((-p) / (FIX_ONE as i128))
    }
}

fn trunc_mul_wide_diff(d: i128, c: i64) -> (r: i128)
    requires
        -0x1_0000_0000_0000_0000 <= d <= 0x1_0000_0000_0000_0000,
        0 <= c <= FIX_ONE,
    ensures
        r == trunc_mul(d as int, c as int),
{
    proof {
        let one = FIX_ONE as int;
        let (x, y) = (d as int, c as int);
        assert(-0x1_0000_0000_0000_0000 * y <= x * y <= 0x1_0000_0000_0000_0000 * y) by (nonlinear_arith)
            requires
                -0x1_0000_0000_0000_0000 <= x <= 0x1_0000_0000_0000_0000,
                0 <= y,
        ;
    }
    let p = d * (c as i128);
    if p >= 0 {
        p / (FIX_ONE as i128)
    } else {
        -((-p) / (FIX_ONE as i128))
    }
}

} // verus!

verus! {

proof fn lemma_still_stays(value: int, n: nat)
    ensures
        steps(value, Anim::Still, n) == (value, Anim::Still),
    decreases n,
{
    if n > 0 {
        lemma_still_stays(value, (n - 1) as nat);
    }
}

/// A velocity motion with friction under 1 and a positive threshold stops:
/// after `|velocity| + 1` steps, or any more, the motion is `Still`.
pub proof fn lemma_velocity_stops(
    value: int,
    velocity: i64,
    friction: i64,
    epsilon: i64,
    n: nat,
)
    requires
        0 <= friction < FIX_ONE,
        epsilon > 0,
        n >= abs(velocity as int) + 1,
    ensures
        steps(value, Anim::Velocity { velocity, friction, epsilon: Some(epsilon) }, n).1
            == Anim::Still,
    decreases n,
{
    let anim = Anim::Velocity { velocity, friction, epsilon: Some(epsilon) };
    let s = step(value, anim);
    lemma_trunc_mul_shrinks(velocity as int, friction as int);
    let nv = trunc_mul(velocity as int, friction as int);
    if under(Some(epsilon), nv) {
        lemma_still_stays(s.0, (n - 1) as nat);
    } else {
        assert(velocity != 0);
        assert(abs(nv) < abs(velocity as int));
        assert((nv as i64) as int == nv);
        lemma_velocity_stops(s.0, nv as i64, friction, epsilon, (n - 1) as nat);
    }
}

/// One step of a target motion with a coefficient in `(0, 1]` never moves the
/// value away from the target; the motion ends, with the value exactly on the
/// target, precisely when the eased value comes within the threshold.
pub proof fn lemma_target_step(value: int, target: i64, coefficient: i64, epsilon: Option<i64>)
    requires
        i64::MIN <= value <= i64::MAX,
        0 < coefficient <= FIX_ONE,
    ensures
        ({
            let anim = Anim::Target { target, coefficient, epsilon };
            let s = step(value, anim);
            let eased = value + trunc_mul(target - value, coefficient as int);
            &&& abs(target - s.0) <= abs(target - value)
            &&& i64::MIN <= s.0 <= i64::MAX
            &&& (s.1 == Anim::Still) == under(epsilon, target - eased)
            &&& s.1 == Anim::Still ==> s.0 == target
            &&& s.1 != Anim::Still ==> s.1 == anim && s.0 == eased
        }),
{
    lemma_trunc_mul_shrinks(target - value, coefficient as int);
}

/// Along the steps of a target motion with a coefficient in `(0, 1]`, the
/// distance to the target never grows.
pub proof fn lemma_target_monotone(
    value: int,
    target: i64,
    coefficient: i64,
    epsilon: Option<i64>,
    n: nat,
)
    requires
        i64::MIN <= value <= i64::MAX,
        0 < coefficient <= FIX_ONE,
    ensures
        ({
            let anim = Anim::Target { target, coefficient, epsilon };
            abs(target - steps(value, anim, n + 1).0) <= abs(target - steps(value, anim, n).0)
        }),
    decreases n,
{
    let anim = Anim::Target { target, coefficient, epsilon };
    let s = step(value, anim);
    lemma_target_step(value, target, coefficient, epsilon);
    assert(steps(value, anim, n + 1) == steps(s.0, s.1, n));
    if n == 0 {
        assert(steps(s.0, s.1, 0) == s);
    } else {
        assert(steps(value, anim, n) == steps(s.0, s.1, (n - 1) as nat));
        if s.1 == Anim::Still {
            lemma_still_stays(s.0, n);
            lemma_still_stays(s.0, (n - 1) as nat);
        } else {
            lemma_target_monotone(s.0, target, coefficient, epsilon, (n - 1) as nat);
            assert((n - 1) as nat + 1 == n);
        }
    }
}

} // verus!

verus! {

/// How an animated point of the plane moves, one step at a time.
#[derive(Clone, Copy, Debug, PartialEq, Eq, Structural)]
pub enum VectorAnim {
    /// The point stays where it is.
    Still,
    /// Each step the velocity turns by `rotation`, the point moves by it, and
    /// it then decays by `friction`.
    VelocityWithRotation { velocity: Vector2, rotation: Rotation, friction: i64 },
    /// Each coordinate closes the fraction `coefficient` of its distance to
    /// `target`; the point snaps to it once their distance is under `epsilon`.
    Target { target: Vector2, coefficient: i64, epsilon: Option<i64> },
}

impl VectorAnim {
    pub open spec fn wf(&self) -> bool {
        match *self {
            VectorAnim::Still => true,
            VectorAnim::VelocityWithRotation { rotation, friction, .. } => rotation.wf() && 0
                <= friction <= FIX_ONE,
            VectorAnim::Target { coefficient, epsilon, .. } => 0 <= coefficient <= FIX_ONE
                && eps_ok(epsilon),
        }
    }
}

/// Whether a threshold is given and the displacement `(dx, dy)` is shorter.
pub open spec fn under_vec(epsilon: Option<i64>, dx: int, dy: int) -> bool {
    match epsilon {
        Some(e) => dx * dx + dy * dy < e * e,
        None => false,
    }
}

/// `v` turned by `r`, each coordinate kept in the range of `i64`.
pub open spec fn rotated(v: Vector2, r: Rotation) -> Vector2 {
    Vector2 {
        x: saturate(trunc_mul(v.x as int, r.cos as int) - trunc_mul(v.y as int, r.sin as int)) as i64,
        y: saturate(trunc_mul(v.x as int, r.sin as int) + trunc_mul(v.y as int, r.cos as int)) as i64,
    }
}

/// The state after one step from `value` under `anim`.
pub open spec fn step_vec(value: Vector2, anim: VectorAnim) -> (Vector2, VectorAnim) {
    match anim {
        VectorAnim::Still => (value, anim),
        VectorAnim::VelocityWithRotation { velocity, rotation, friction } => {
            let r = rotated(velocity, rotation);
            let p = Vector2 {
                x: saturate(value.x + r.x) as i64,
                y: saturate(value.y + r.y) as i64,
            };
            let nv = Vector2 {
                x: trunc_mul(r.x as int, friction as int) as i64,
                y: trunc_mul(r.y as int, friction as int) as i64,
            };
            (p, VectorAnim::VelocityWithRotation { velocity: nv, rotation, friction })
        },
        VectorAnim::Target { target, coefficient, epsilon } => {
            let x = value.x + trunc_mul(target.x - value.x, coefficient as int);
            let y = value.y + trunc_mul(target.y - value.y, coefficient as int);
            if under_vec(epsilon, target.x - x, target.y - y) {
                (target, VectorAnim::Still)
            } else {
                (Vector2 { x: x as i64, y: y as i64 }, anim)
            }
        },
    }
}

/// A point of the plane and the motion that drives it.
#[derive(Clone, Copy, Debug, PartialEq, Eq, Structural)]
pub struct VectorAnimator {
    pub value: Vector2,
    pub anim: VectorAnim,
}

fn under_vec_exec(epsilon: Option<i64>, dx: i128, dy: i128) -> (r: bool)
    requires
        eps_ok(epsilon),
        -0x1_0000_0000_0000_0000 <= dx <= 0x1_0000_0000_0000_0000,
        -0x1_0000_0000_0000_0000 <= dy <= 0x1_0000_0000_0000_0000,
    ensures
        r == under_vec(epsilon, dx as int, dy as int),
{
    match epsilon {
        Some(e) => {
            let e = e as i128;
            if dx >= e || -dx >= e || dy >= e || -dy >= e {
                proof {
                    lemma_square_at_least(dx as int, e as int);
                    lemma_square_at_least(dy as int, e as int);
                    assert((dy as int) * (dy as int) >= 0 && (dx as int) * (dx as int) >= 0)
                        by (nonlinear_arith);
                }
                false
            } else {
                proof {
                    lemma_square_below(dx as int, e as int);
                    lemma_square_below(dy as int, e as int);
                    lemma_square_below(e as int, 0x8000_0000_0000_0000);
                }
                dx * dx + dy * dy < e * e
            }
        },
        None => false,
    }
}

proof fn lemma_square_at_least(d: int, e: int)
    ensures
        (d >= e || -d >= e) && e >= 0 ==> d * d >= e * e,
{
    if (d >= e || -d >= e) && e >= 0 {
        assert(d * d >= e * e) by (nonlinear_arith)
            requires
                d >= e || -d >= e,
                e >= 0,
        ;
    }
}

proof fn lemma_square_below(d: int, e: int)
    requires
        -e < d < e,
        e <= 0x8000_0000_0000_0000,
    ensures
        0 <= d * d < 0x4000_0000_0000_0000_0000_0000_0000_0000,
{
    assert(0 <= d * d <= (e - 1) * (e - 1)) by (nonlinear_arith)
        requires
            -e < d < e,
    ;
    assert((e - 1) * (e - 1) < 0x8000_0000_0000_0000 * 0x8000_0000_0000_0000) by (nonlinear_arith)
        requires
            1 <= e <= 0x8000_0000_0000_0000,
    ;
}

impl VectorAnimator {
    pub open spec fn wf(&self) -> bool {
        self.anim.wf()
    }

    pub fn new(value: Vector2, anim: VectorAnim) -> (r: VectorAnimator)
        requires
            anim.wf(),
        ensures
            r.wf(),
            r.value == value,
            r.anim == anim,
    {
        VectorAnimator { value, anim }
    }

    pub fn anim(&self) -> (r: &VectorAnim)
        ensures
            *r == self.anim,
    {
        &self.anim
    }

    /// Replaces the motion; the point is kept.
    pub fn set_anim(&mut self, anim: VectorAnim)
        requires
            anim.wf(),
        ensures
            final(self).wf(),
            final(self).value == old(self).value,
            final(self).anim == anim,
    {
        self.anim = anim;
    }

    /// Sets the velocity of a motion with rotation, keeping its rotation and
    /// friction; any other motion is left as it is.
    pub fn set_vwr_velocity(&mut self, velocity: Vector2)
        requires
            old(self).wf(),
        ensures
            final(self).wf(),
            final(self).value == old(self).value,
            final(self).anim == (match old(self).anim {
                VectorAnim::VelocityWithRotation { rotation, friction, .. } => {
                    VectorAnim::VelocityWithRotation { velocity, rotation, friction }
                },
                other => other,
            }),
    {
        if let VectorAnim::VelocityWithRotation { rotation, friction, .. } = self.anim {
            self.anim = VectorAnim::VelocityWithRotation { velocity, rotation, friction };
        }
    }

    /// Advances the point by one step of its motion.
    pub fn update(&mut self)
        requires
            old(self).wf(),
        ensures
            final(self).wf(),
            (final(self).value, final(self).anim) == step_vec(old(self).value, old(self).anim),
    {
        match self.anim {
            VectorAnim::Still => {},
            VectorAnim::VelocityWithRotation { velocity, rotation, friction } => {
                let rx = saturate_exec(
                    trunc_mul_wide(velocity.x, rotation.cos) - trunc_mul_wide(velocity.y, rotation.sin),
                );
                let ry = saturate_exec(
                    trunc_mul_wide(velocity.x, rotation.sin) + trunc_mul_wide(velocity.y, rotation.cos),
                );
                self.value = Vector2 {
                    x: saturate_exec(self.value.x as i128 + rx as i128),
                    y: saturate_exec(self.value.y as i128 + ry as i128),
                };
                let nv = Vector2 { x: trunc_mul_exec(rx, friction), y: trunc_mul_exec(ry, friction) };
                self.anim = VectorAnim::VelocityWithRotation { velocity: nv, rotation, friction };
            },
            VectorAnim::Target { target, coefficient, epsilon } => {
                let dx = target.x as i128 - self.value.x as i128;
                let dy = target.y as i128 - self.value.y as i128;
                proof {
                    lemma_trunc_mul_shrinks(dx as int, coefficient as int);
                    lemma_trunc_mul_shrinks(dy as int, coefficient as int);
                }
                let x = self.value.x as i128 + trunc_mul_wide_diff(dx, coefficient);
                let y = self.value.y as i128 + trunc_mul_wide_diff(dy, coefficient);
                if under_vec_exec(epsilon, target.x as i128 - x, target.y as i128 - y) {
                    self.value = target;
                    self.anim = VectorAnim::Still;
                } else {
                    self.value = Vector2 { x: x as i64, y: y as i64 };
                }
            },
        }
    }
}

} // verus!

verus! {

/// A scale step with a rate above -1 keeps a positive value positive, and
/// the rate then decays by the friction.
pub proof fn lemma_scale_keeps_positive(
    value: int,
    scale_velocity: i64,
    friction: i64,
    epsilon: Option<i64>,
)
    requires
        0 < value <= i64::MAX,
        -FIX_ONE < scale_velocity,
        0 <= friction <= FIX_ONE,
    ensures
        ({
            let s = step(value, Anim::ScaleVelocity { scale_velocity, friction, epsilon });
            &&& s.0 > 0
            &&& s.1 == Anim::Still || s.1 == Anim::ScaleVelocity {
                scale_velocity: trunc_mul(scale_velocity as int, friction as int) as i64,
                friction,
                epsilon,
            }
        }),
{
    let one = FIX_ONE as int;
    let sv = scale_velocity as int;
    if sv < 0 {
        assert(value * sv > -value * one) by (nonlinear_arith)
            requires
                0 < value,
                -one < sv,
        ;
        assert(-(value * sv) == value * (-sv)) by (nonlinear_arith);
        assert((value * (-sv)) / one < value);
    } else {
        assert(value * sv >= 0) by (nonlinear_arith)
            requires
                0 < value,
                0 <= sv,
        ;
    }
}

} // verus!

verus! {

proof fn lemma_trunc_mul_scaled(a: int, f: int)
    requires
        0 <= f <= FIX_ONE,
    ensures
        abs(trunc_mul(a, f)) * FIX_ONE <= abs(a) * f,
{
    let one = FIX_ONE as int;
    assert(abs(a) * f == abs(a * f)) by (nonlinear_arith)
        requires
            0 <= f,
    ;
    let p = a * f;
    assert(abs(trunc_mul(a, f)) == abs(p) / one);
}

proof fn lemma_velocity_bounded_from(
    x0: int,
    x: int,
    v: int,
    w: i64,
    friction: i64,
    epsilon: Option<i64>,
    n: nat,
)
    requires
        i64::MIN <= x0 <= i64::MAX,
        i64::MIN <= x <= i64::MAX,
        0 <= friction < FIX_ONE,
        abs(x - x0) * (FIX_ONE - friction) + abs(w as int) * FIX_ONE <= abs(v) * FIX_ONE,
    ensures
        abs(steps(x, Anim::Velocity { velocity: w, friction, epsilon }, n).0 - x0) * (FIX_ONE
            - friction) <= abs(v) * FIX_ONE,
    decreases n,
{
    let one = FIX_ONE as int;
    let g = one - friction;
    let d = abs(x - x0);
    let aw = abs(w as int);
    assert(aw * one >= 0 && aw * g >= 0 && aw * friction >= 0) by (nonlinear_arith)
        requires
            aw >= 0,
            g > 0,
            friction >= 0,
            one > 0,
    ;
    if n > 0 {
        let anim = Anim::Velocity { velocity: w, friction, epsilon };
        let s = step(x, anim);
        let x1 = saturate(x + w);
        let d1 = abs(x1 - x0);
        assert(d1 <= d + aw);
        assert(d1 * g <= (d + aw) * g) by (nonlinear_arith)
            requires
                0 <= d1 <= d + aw,
                g > 0,
        ;
        assert((d + aw) * g == d * g + aw * one - aw * friction) by (nonlinear_arith)
            requires
                g == one - friction,
        ;
        let w1 = trunc_mul(w as int, friction as int);
        lemma_trunc_mul_scaled(w as int, friction as int);
        lemma_trunc_mul_shrinks(w as int, friction as int);
        if under(epsilon, w1) {
            lemma_still_stays(x1, (n - 1) as nat);
        } else {
            assert((w1 as i64) as int == w1);
            lemma_velocity_bounded_from(x0, x1, v, w1 as i64, friction, epsilon, (n - 1) as nat);
        }
    } else {
        assert(d * g <= abs(v) * one);
    }
}

/// Along a velocity motion with friction under 1, the value never strays from
/// where it started by more than `|velocity| / (1 - friction)`.
pub proof fn lemma_velocity_bounded(
    x0: i64,
    velocity: i64,
    friction: i64,
    epsilon: Option<i64>,
    n: nat,
)
    requires
        0 <= friction < FIX_ONE,
    ensures
        abs(steps(x0 as int, Anim::Velocity { velocity, friction, epsilon }, n).0 - x0) * (FIX_ONE
            - friction) <= abs(velocity as int) * FIX_ONE,
{
    let z = abs(x0 as int - x0 as int);
    assert(z == 0);
    assert(z * (FIX_ONE - friction) == 0) by (nonlinear_arith)
        requires
            z == 0,
    ;
    lemma_velocity_bounded_from(x0 as int, x0 as int, velocity as int, velocity, friction, epsilon, n);
}

} // verus!
