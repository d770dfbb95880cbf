use vstd::prelude::*;
use crate::fixed::{
    clamp_coord, clamp_coord_exec, fix_trunc, fix_trunc_exec, fix_mul, half_trunc, half_trunc_exec,
    in_coord_range, lemma_fix_trunc_bound, lemma_fix_trunc_exact, lemma_fix_trunc_odd, FixedComplex, Rotation, Vector2, FIX_ONE, COORD_LIMIT,
};
use crate::grid::Matrix;

verus! {

/// The squared escape radius, `2 * 2`, on the scale of a product of two
/// fixed-point values.
pub const ESCAPE_NORM: i128 = 73786976294838206464;

/// The home width of the Mandelbrot set's viewport: 4.
pub const DEFAULT_MANDELBROT_WIDTH: i64 = 17179869184;

/// The home width of a Julia set's viewport: 4.
pub const DEFAULT_JULIA_WIDTH: i64 = 17179869184;

/// The iteration cap of the default specs.
pub const DEFAULT_MAX_VAL: u16 = 500;

/// Which escape-time rule a view evaluates.
#[derive(Clone, Copy, Debug, PartialEq, Eq, Structural)]
pub enum FractalType {
    Mandelbrot,
    /// A Julia set, with its fixed seed `c`.
    Julia(FixedComplex),
}

/// What the evaluator needs to know of a view, besides its camera.
#[derive(Clone, Copy, Debug, PartialEq, Eq, Structural)]
pub struct FractalSpecs {
    pub fractal_type: FractalType,
    pub max_val: u16,
    pub default_width: i64,
    pub default_center: Vector2,
    /// The width-to-height ratio of one display cell, in fixed point.
    pub element_ar: i64,
    pub num_threads: usize,
    pub use_multi_threads: bool,
}

/// `|z|^2`, on the scale of a product of two fixed-point values.
pub open spec fn norm_sq(x: int, y: int) -> int {
    x * x + y * y
}

/// The real part of `z * z`, for `z = x + iy`.
pub open spec fn square_re(x: int, y: int) -> int {
    fix_trunc(x * x - y * y)
}

/// The imaginary part of `z * z`, for `z = x + iy`.
pub open spec fn square_im(x: int, y: int) -> int {
    fix_trunc(2 * x * y)
}

/// The Mandelbrot count, continued from iterate `z = x + iy` after `val` steps:
/// it stops once `|z| >= 2` or the cap is reached.
pub open spec fn mandel_from(cx: int, cy: int, x: int, y: int, val: nat, max: nat) -> nat
    decreases max - val,
{
    if val >= max || norm_sq(x, y) >= ESCAPE_NORM {
        val
    } else {
        mandel_from(cx, cy, square_re(x, y) + cx, square_im(x, y) + cy, val + 1, max)
    }
}

/// The Mandelbrot escape count of the point `c = cx + i cy`, iterating from `z = 0`.
pub open spec fn mandel_value(cx: int, cy: int, max: nat) -> nat {
    mandel_from(cx, cy, 0, 0, 0, max)
}

/// The Julia count, continued from iterate `z = x + iy` at step `val`: the
/// step at which `|z| >= 2` is first seen, or the cap.
pub open spec fn julia_from(cx: int, cy: int, x: int, y: int, val: nat, max: nat) -> nat
    decreases max - val,
{
    if val >= max {
        max
    } else if norm_sq(x, y) >= ESCAPE_NORM {
        val
    } else {
        julia_from(cx, cy, square_re(x, y) + cx, square_im(x, y) + cy, val + 1, max)
    }
}

/// The Julia escape count of the point `x + iy` for the seed `c = cx + i cy`.
pub open spec fn julia_value(cx: int, cy: int, x: int, y: int, max: nat) -> nat {
    julia_from(cx, cy, x, y, 0, max)
}

/// The value the evaluator gives the point `x + iy` under a fractal type.
pub open spec fn fractal_value(t: FractalType, x: int, y: int, max: nat) -> nat {
    match t {
        FractalType::Mandelbrot => mandel_value(x, y, max),
        FractalType::Julia(c) => julia_value(c.re as int, c.im as int, x, y, max),
    }
}

/// Whether the seed of a fractal type lies in the evaluator's range.
pub open spec fn type_in_range(t: FractalType) -> bool {
    match t {
        FractalType::Mandelbrot => true,
        FractalType::Julia(c) => in_coord_range(c.re as int) && in_coord_range(c.im as int),
    }
}

const ITERATE_LIMIT: i64 = 4611686018427387904;

proof fn lemma_square_bound(a: int)
    requires
        -ITERATE_LIMIT <= a <= ITERATE_LIMIT,
    ensures
        0 <= a * a <= 0x1000_0000_0000_0000_0000_0000_0000_0000,
{
    assert(0 <= a * a <= 0x1000_0000_0000_0000_0000_0000_0000_0000) by (nonlinear_arith)
        requires
            -ITERATE_LIMIT <= a <= ITERATE_LIMIT,
    ;
}

/// One step `z * z + c` stays within the iterate range while `|z| < 2`.
proof fn lemma_step_bound(x: int, y: int, cx: int, cy: int)
    requires
        norm_sq(x, y) <= ESCAPE_NORM,
        in_coord_range(cx),
        in_coord_range(cy),
    ensures
        -ITERATE_LIMIT <= square_re(x, y) + cx <= ITERATE_LIMIT,
        -ITERATE_LIMIT <= square_im(x, y) + cy <= ITERATE_LIMIT,
{
    assert(x * x >= 0 && y * y >= 0) by (nonlinear_arith);
    assert((x - y) * (x - y) >= 0) by (nonlinear_arith);
    assert((x + y) * (x + y) >= 0) by (nonlinear_arith);
    assert(-(x * x + y * y) <= 2 * x * y <= x * x + y * y) by (nonlinear_arith)
        requires
            (x - y) * (x - y) >= 0,
            (x + y) * (x + y) >= 0,
    ;
    let k = 4 * FIX_ONE;
    assert(k * FIX_ONE == ESCAPE_NORM);
    lemma_fix_trunc_bound(x * x - y * y, k);
    lemma_fix_trunc_bound(2 * x * y, k);
}

proof fn lemma_mandel_origin_from(val: nat, max: nat)
    requires
        val <= max,
    ensures
        mandel_from(0, 0, 0, 0, val, max) == max,
    decreases max - val,
{
    if val < max {
        assert(square_re(0, 0) == 0 && square_im(0, 0) == 0);
        lemma_mandel_origin_from(val + 1, max);
    }
}

/// Under the Mandelbrot rule the origin never escapes: its count is the cap,
/// whatever the cap.
pub proof fn lemma_mandelbrot_origin_never_escapes(max: nat)
    ensures
        mandel_value(0, 0, max) == max,
{
    lemma_mandel_origin_from(0, max);
}

/// Under the Mandelbrot rule the point `2 + 2i` escapes after one step: its
/// count is 1 for every positive cap.
pub proof fn lemma_mandelbrot_two_two_escapes(max: nat)
    requires
        max >= 1,
    ensures
        mandel_value(2 * FIX_ONE, 2 * FIX_ONE, max) == 1,
{
    let c = 2 * FIX_ONE;
    assert(square_re(0, 0) == 0 && square_im(0, 0) == 0);
    assert(c * c + c * c >= ESCAPE_NORM) by (nonlinear_arith)
        requires
            c == 8589934592,
    ;
    assert(mandel_from(c, c, c, c, 1, max) == 1);
}

/// Under the Mandelbrot rule a point with `|c| >= 2` is seen to escape right
/// after the first step: its count is 1, or 0 under a cap of 0.
pub proof fn lemma_mandelbrot_far_point(cx: int, cy: int, max: nat)
    requires
        norm_sq(cx, cy) >= ESCAPE_NORM,
    ensures
        mandel_value(cx, cy, max) == if max == 0 {
            0nat
        } else {
            1nat
        },
{
    assert(square_re(0, 0) == 0 && square_im(0, 0) == 0);
    assert(norm_sq(0, 0) == 0);
    if max > 0 {
        assert(mandel_from(cx, cy, cx, cy, 1, max) == 1);
    }
}

/// The squared radius `1/2 * 1/2`, on the scale of a product of two
/// fixed-point values.
pub const QUARTER_NORM: i128 = 4611686018427387904;

proof fn lemma_trunc_shrinks_square(a: int)
    ensures
        fix_trunc(a) * fix_trunc(a) * (FIX_ONE * FIX_ONE) <= a * a,
{
    let r = fix_trunc(a);
    let one = FIX_ONE as int;
    let m = if r < 0 { -r } else { r };
    let n = if a < 0 { -a } else { a };
    assert(0 <= m * one <= n);
    assert(m * one * (m * one) <= n * n) by (nonlinear_arith)
        requires
            0 <= m * one <= n,
    ;
    assert(r * r == m * m && a * a == n * n) by (nonlinear_arith)
        requires
            m == r || m == -r,
            n == a || n == -a,
    ;
    assert(m * one * (m * one) == m * m * (one * one)) by (nonlinear_arith);
}

/// Squaring a point within radius 1/2 keeps it within radius 1/2.
proof fn lemma_square_stays_small(x: int, y: int)
    requires
        norm_sq(x, y) <= QUARTER_NORM,
    ensures
        norm_sq(square_re(x, y), square_im(x, y)) <= QUARTER_NORM,
{
    let a = x * x - y * y;
    let b = 2 * x * y;
    let r = square_re(x, y);
    let t = square_im(x, y);
    let n = norm_sq(x, y);
    let q = QUARTER_NORM as int;
    let o2 = (FIX_ONE * FIX_ONE) as int;
    lemma_trunc_shrinks_square(a);
    lemma_trunc_shrinks_square(b);
    assert(a * a + b * b == n * n) by (nonlinear_arith)
        requires
            a == x * x - y * y,
            b == 2 * x * y,
            n == x * x + y * y,
    ;
    assert(n >= 0) by (nonlinear_arith)
        requires
            n == x * x + y * y,
    ;
    assert(n * n <= q * q) by (nonlinear_arith)
        requires
            0 <= n <= q,
    ;
    assert(o2 == 4 * q);
    assert((r * r + t * t) * o2 <= q * o2) by (nonlinear_arith)
        requires
            r * r * o2 <= a * a,
            t * t * o2 <= b * b,
            a * a + b * b <= q * q,
            o2 == 4 * q,
            q > 0,
    ;
    assert(r * r + t * t <= q) by (nonlinear_arith)
        requires
            (r * r + t * t) * o2 <= q * o2,
            o2 > 0,
    ;
}

proof fn lemma_julia_small_from(x: int, y: int, val: nat, max: nat)
    requires
        val <= max,
        norm_sq(x, y) <= QUARTER_NORM,
    ensures
        julia_from(0, 0, x, y, val, max) == max,
    decreases max - val,
{
    if val < max {
        lemma_square_stays_small(x, y);
        lemma_julia_small_from(square_re(x, y) + 0, square_im(x, y) + 0, val + 1, max);
    }
}

/// Under the Julia rule with seed `0`, no point within radius 1/2 of the
/// origin escapes: its count is the cap.
pub proof fn lemma_julia_zero_seed_small_never_escapes(x: int, y: int, max: nat)
    requires
        norm_sq(x, y) <= QUARTER_NORM,
    ensures
        julia_value(0, 0, x, y, max) == max,
{
    lemma_julia_small_from(x, y, 0, max);
}

proof fn lemma_julia_origin_from(val: nat, max: nat)
    requires
        val <= max,
    ensures
        julia_from(0, 0, 0, 0, val, max) == max,
    decreases max - val,
{
    if val < max {
        assert(square_re(0, 0) == 0 && square_im(0, 0) == 0);
        lemma_julia_origin_from(val + 1, max);
    }
}

/// Under the Julia rule with seed `0`, the origin never escapes: its count is
/// the cap, whatever the cap.
pub proof fn lemma_julia_zero_seed_origin_never_escapes(max: nat)
    ensures
        julia_value(0, 0, 0, 0, max) == max,
{
    lemma_julia_origin_from(0, max);
}

/// Under the Julia rule with seed `0`, the point `3` escapes at the first check
/// of the first iteration: its count is 0.
pub proof fn lemma_julia_zero_seed_three_escapes(max: nat)
    ensures
        julia_value(0, 0, 3 * FIX_ONE, 0, max) == 0,
{
    let x = 3 * FIX_ONE;
    assert(x * x + 0 * 0 > ESCAPE_NORM) by (nonlinear_arith)
        requires
            x == 12884901888,
    ;
}

/// The largest grid side the evaluator takes.
pub const MAX_GRID_SIDE: usize = 65536;

/// The width of one cell in the plane, at least one unit step, so that the
/// per-cell step never vanishes for a positive width.
pub open spec fn element_w(width: int, gw: int) -> int {
    at_least_one(width / gw)
}

/// `v`, raised to 1 where it is smaller.
pub open spec fn at_least_one(v: int) -> int {
    if v < 1 {
        1
    } else {
        v
    }
}

/// The height of one cell in the plane, at least one unit step: the plane
/// height spanned by the grid is derived from the width, the grid's shape and
/// the cells' aspect ratio.
pub open spec fn element_h(width: int, gw: int, ar: int) -> int {
    at_least_one((width * FIX_ONE) / (gw * ar))
}

/// The plane height spanned by a grid of `gw` columns and `gh` rows:
/// `width * (gh / gw) * (1 / ar)`, at least one unit step.
pub open spec fn height_span(width: int, gw: int, gh: int, ar: int) -> int {
    at_least_one((width * gh * FIX_ONE) / (gw * ar))
}

/// The per-column step `(ew, 0)` rotated, and the per-row step `(0, eh)` rotated.
pub open spec fn slopes(ew: int, eh: int, rot: Rotation) -> (int, int, int, int) {
    (fix_mul(ew, rot.cos as int), fix_mul(ew, rot.sin as int), -fix_mul(eh, rot.sin as int),
        fix_mul(eh, rot.cos as int))
}

/// The plane point sampled by column `ix` of row `row`: the center, moved
/// `ix - gw/2` column steps and `row - gh/2` row steps.
pub open spec fn lattice_point(
    center: Vector2,
    s: (int, int, int, int),
    gw: int,
    gh: int,
    ix: int,
    row: int,
) -> (int, int) {
    let dx = 2 * ix - gw;
    let dy = 2 * row - gh;
    (center.x + half_trunc(s.0 * dx + s.2 * dy), center.y + half_trunc(s.1 * dx + s.3 * dy))
}

/// The value of the cell in column `ix` of row `row` of a full grid of
/// `gw * gh` cells, for a viewport of the given center, width and rotation.
pub open spec fn cell_value(
    specs: FractalSpecs,
    center: Vector2,
    width: int,
    rot: Rotation,
    gw: int,
    gh: int,
    ix: int,
    row: int,
) -> nat {
    let s = slopes(element_w(width, gw), element_h(width, gw, specs.element_ar as int), rot);
    let p = lattice_point(center, s, gw, gh, ix, row);
    fractal_value(specs.fractal_type, clamp_coord(p.0), clamp_coord(p.1), specs.max_val as nat)
}

/// What makes a viewport one the evaluator takes.
pub open spec fn viewport_ok(specs: FractalSpecs, width: int, rot: Rotation, gw: int, gh: int) -> bool {
    &&& 0 < width <= COORD_LIMIT
    &&& 0 < gw <= MAX_GRID_SIDE
    &&& 0 < gh <= MAX_GRID_SIDE
    &&& specs.element_ar > 0
    &&& rot.wf()
    &&& type_in_range(specs.fractal_type)
}

const SLOPE_LIMIT: i128 = 0x4000_0000_0000_0000_0000_0000;

proof fn lemma_slope_bounds(width: int, gw: int, ar: int, rot: Rotation)
    requires
        0 < width <= COORD_LIMIT,
        0 < gw,
        ar > 0,
        rot.wf(),
    ensures
        0 <= element_w(width, gw) <= width,
        0 <= element_h(width, gw, ar) <= width * FIX_ONE,
        ({
            let s = slopes(element_w(width, gw), element_h(width, gw, ar), rot);
            &&& -SLOPE_LIMIT <= s.0 <= SLOPE_LIMIT
            &&& -SLOPE_LIMIT <= s.1 <= SLOPE_LIMIT
            &&& -SLOPE_LIMIT <= s.2 <= SLOPE_LIMIT
            &&& -SLOPE_LIMIT <= s.3 <= SLOPE_LIMIT
        }),
{
    let ew = element_w(width, gw);
    let eh = element_h(width, gw, ar);
    let one = FIX_ONE as int;
    assert(0 <= width / gw <= width) by (nonlinear_arith)
        requires
            0 < width,
            0 < gw,
    ;
    assert(gw * ar >= 1) by (nonlinear_arith)
        requires
            0 < gw,
            0 < ar,
    ;
    assert(0 <= (width * one) / (gw * ar) <= width * one) by (nonlinear_arith)
        requires
            0 < width,
            one > 0,
            gw * ar >= 1,
    ;
    lemma_mul_bound(ew, rot.cos as int);
    lemma_mul_bound(ew, rot.sin as int);
    lemma_mul_bound(eh, rot.cos as int);
    lemma_mul_bound(eh, rot.sin as int);
    lemma_fix_trunc_bound(ew * rot.cos, ew);
    lemma_fix_trunc_bound(ew * rot.sin, ew);
    lemma_fix_trunc_bound(eh * rot.cos, eh);
    lemma_fix_trunc_bound(eh * rot.sin, eh);
}

proof fn lemma_mul_bound(e: int, c: int)
    requires
        0 <= e,
        -FIX_ONE <= c <= FIX_ONE,
    ensures
        -e * FIX_ONE <= e * c <= e * FIX_ONE,
{
    let one = FIX_ONE as int;
    assert(-e * one <= e * c <= e * one) by (nonlinear_arith)
        requires
            0 <= e,
            -one <= c <= one,
    ;
}

proof fn lemma_offset_bound(s: int, d: int)
    requires
        -SLOPE_LIMIT <= s <= SLOPE_LIMIT,
        -2 * MAX_GRID_SIDE <= d <= 2 * MAX_GRID_SIDE,
    ensures
        -0x0100_0000_0000_0000_0000_0000_0000_0000 <= s * d <= 0x0100_0000_0000_0000_0000_0000_0000_0000,
{
    assert(-0x0100_0000_0000_0000_0000_0000_0000_0000 <= s * d
        <= 0x0100_0000_0000_0000_0000_0000_0000_0000) by (nonlinear_arith)
        requires
            -SLOPE_LIMIT <= s <= SLOPE_LIMIT,
            -2 * MAX_GRID_SIDE <= d <= 2 * MAX_GRID_SIDE,
    ;
}

/// Distinct cells of a row-major grid have distinct indices.
proof fn lemma_index_distinct(w: int, x1: int, y1: int, x2: int, y2: int)
    requires
        0 <= x1 < w,
        0 <= x2 < w,
        0 <= y1,
        0 <= y2,
        x1 != x2 || y1 != y2,
    ensures
        y1 * w + x1 != y2 * w + x2,
{
    if y1 < y2 {
        assert(y1 * w + x1 < y2 * w + x2) by (nonlinear_arith)
            requires
                y1 + 1 <= y2,
                0 <= x1 < w,
                0 <= x2,
        ;
    } else if y2 < y1 {
        assert(y2 * w + x2 < y1 * w + x1) by (nonlinear_arith)
            requires
                y2 + 1 <= y1,
                0 <= x2 < w,
                0 <= x1,
        ;
    }
}

/// The value of a cell when the lattice is not rotated: the point sampled is
/// the center moved by whole cell widths and heights along the axes.
pub open spec fn unrotated_cell_value(
    specs: FractalSpecs,
    center: Vector2,
    width: int,
    gw: int,
    gh: int,
    ix: int,
    row: int,
) -> nat {
    let ew = element_w(width, gw);
    let eh = element_h(width, gw, specs.element_ar as int);
    let x = center.x + half_trunc(ew * (2 * ix - gw));
    let y = center.y + half_trunc(eh * (2 * row - gh));
    fractal_value(specs.fractal_type, clamp_coord(x), clamp_coord(y), specs.max_val as nat)
}

/// Rotating the sampling lattice by angle 0 gives exactly the unrotated
/// lattice's values, cell for cell.
pub proof fn lemma_zero_rotation_is_unrotated(
    specs: FractalSpecs,
    center: Vector2,
    width: int,
    gw: int,
    gh: int,
    ix: int,
    row: int,
)
    ensures
        cell_value(specs, center, width, Rotation { cos: FIX_ONE, sin: 0 }, gw, gh, ix, row)
            == unrotated_cell_value(specs, center, width, gw, gh, ix, row),
{
    let ew = element_w(width, gw);
    let eh = element_h(width, gw, specs.element_ar as int);
    lemma_fix_trunc_exact(ew);
    lemma_fix_trunc_exact(eh);
    assert(ew * 0 == 0 && eh * 0 == 0);
    assert(fix_trunc(0) == 0);
    assert(ew * FIX_ONE == FIX_ONE * ew) by (nonlinear_arith);
    assert(eh * FIX_ONE == FIX_ONE * eh) by (nonlinear_arith);
    let dy = 2 * row - gh;
    let dx = 2 * ix - gw;
    assert(0 * dy == 0 && 0 * dx == 0);
}

/// The plane height spanned by the grid is at least one unit step, and it
/// grows with the viewport's width.
pub proof fn lemma_height_span_monotone(w1: int, w2: int, gw: int, gh: int, ar: int)
    requires
        0 < w1 <= w2,
        0 < gw,
        0 < gh,
        0 < ar,
    ensures
        height_span(w1, gw, gh, ar) >= 1,
        height_span(w1, gw, gh, ar) <= height_span(w2, gw, gh, ar),
{
    let d = gw * ar;
    assert(d > 0) by (nonlinear_arith)
        requires
            0 < gw,
            0 < ar,
            d == gw * ar,
    ;
    assert(w1 * gh * FIX_ONE <= w2 * gh * FIX_ONE) by (nonlinear_arith)
        requires
            0 < w1 <= w2,
            0 < gh,
    ;
    vstd::arithmetic::div_mod::lemma_div_is_ordered(w1 * gh * FIX_ONE, w2 * gh * FIX_ONE, d);
}

proof fn lemma_mandel_conjugate_from(cx: int, cy: int, x: int, y: int, val: nat, max: nat)
    ensures
        mandel_from(cx, -cy, x, -y, val, max) == mandel_from(cx, cy, x, y, val, max),
    decreases max - val,
{
    assert((-y) * (-y) == y * y) by (nonlinear_arith);
    assert(2 * x * (-y) == -(2 * x * y)) by (nonlinear_arith);
    lemma_fix_trunc_odd(2 * x * y);
    if val < max {
        lemma_mandel_conjugate_from(
            cx,
            cy,
            square_re(x, y) + cx,
            square_im(x, y) + cy,
            val + 1,
            max,
        );
    }
}

/// The Mandelbrot rule is symmetric about the real axis: a point and its
/// conjugate have the same count.
pub proof fn lemma_mandelbrot_conjugate(cx: int, cy: int, max: nat)
    ensures
        mandel_value(cx, -cy, max) == mandel_value(cx, cy, max),
{
    lemma_mandel_conjugate_from(cx, cy, 0, 0, 0, max);
}

/// An unrotated Mandelbrot grid centered on the real axis is a mirror image
/// of itself: row `iy` holds the values of row `gh - iy`.
pub proof fn lemma_mandelbrot_grid_mirror(
    specs: FractalSpecs,
    cx: i64,
    width: int,
    gw: int,
    gh: int,
    ix: int,
    iy: int,
)
    requires
        specs.fractal_type == FractalType::Mandelbrot,
    ensures
        cell_value(specs, Vector2 { x: cx, y: 0 }, width, Rotation { cos: FIX_ONE, sin: 0 }, gw, gh,
            ix, iy) == cell_value(specs, Vector2 { x: cx, y: 0 }, width,
            Rotation { cos: FIX_ONE, sin: 0 }, gw, gh, ix, gh - iy),
{
    let center = Vector2 { x: cx, y: 0 };
    let rot = Rotation { cos: FIX_ONE, sin: 0 };
    lemma_zero_rotation_is_unrotated(specs, center, width, gw, gh, ix, iy);
    lemma_zero_rotation_is_unrotated(specs, center, width, gw, gh, ix, gh - iy);
    let eh = element_h(width, gw, specs.element_ar as int);
    let dy = 2 * iy - gh;
    assert(2 * (gh - iy) - gh == -dy);
    assert(eh * (-dy) == -(eh * dy)) by (nonlinear_arith);
    let y = half_trunc(eh * dy);
    assert(half_trunc(-(eh * dy)) == -y);
    assert(clamp_coord(-y) == -clamp_coord(y));
    let ew = element_w(width, gw);
    let x = clamp_coord(cx + half_trunc(ew * (2 * ix - gw)));
    lemma_mandelbrot_conjugate(x, clamp_coord(y), specs.max_val as nat);
}

/// The evaluator: maps points, and viewports over a grid, to escape counts.
pub struct FractalCalc;

impl FractalSpecs {
    /// Specs of the Mandelbrot set with its home viewport of width 4 around 0.
    pub fn new_mandelbrot_with_defaults(element_ar: i64) -> (r: Self)
        ensures
            r.fractal_type == FractalType::Mandelbrot,
            r.max_val == DEFAULT_MAX_VAL,
            r.default_width == DEFAULT_MANDELBROT_WIDTH,
            r.default_center == (Vector2 { x: 0, y: 0 }),
            r.element_ar == element_ar,
            r.num_threads == 1,
            !r.use_multi_threads,
    {
        FractalSpecs {
            fractal_type: FractalType::Mandelbrot,
            max_val: DEFAULT_MAX_VAL,
            default_width: DEFAULT_MANDELBROT_WIDTH,
            default_center: Vector2 { x: 0, y: 0 },
            element_ar,
            num_threads: 1,
            use_multi_threads: false,
        }
    }

    /// Specs of the Julia set of seed `c` with its home viewport of width 4 around 0.
    pub fn new_julia(c: FixedComplex, element_ar: i64) -> (r: Self)
        ensures
            r.fractal_type == FractalType::Julia(c),
            r.max_val == DEFAULT_MAX_VAL,
            r.default_width == DEFAULT_JULIA_WIDTH,
            r.default_center == (Vector2 { x: 0, y: 0 }),
            r.element_ar == element_ar,
            r.num_threads == 1,
            !r.use_multi_threads,
    {
        FractalSpecs {
            fractal_type: FractalType::Julia(c),
            max_val: DEFAULT_MAX_VAL,
            default_width: DEFAULT_JULIA_WIDTH,
            default_center: Vector2 { x: 0, y: 0 },
            element_ar,
            num_threads: 1,
            use_multi_threads: false,
        }
    }
}

impl FractalCalc {
    /// The escape count of the point `x + iy` under the specs' rule and cap.
    pub fn get_value(specs: &FractalSpecs, x: i64, y: i64) -> (r: u16)
        requires
            in_coord_range(x as int),
            in_coord_range(y as int),
            type_in_range(specs.fractal_type),
        ensures
            r == fractal_value(specs.fractal_type, x as int, y as int, specs.max_val as nat),
    {
        match specs.fractal_type {
            FractalType::Mandelbrot => FractalCalc::get_mandelbrot_value(x, y, specs.max_val),
            FractalType::Julia(c) => FractalCalc::get_julia_value(&c, x, y, specs.max_val),
        }
    }

    /// The plane height spanned by a full grid of `matrix_width` columns and
    /// `full_matrix_height` rows, for a viewport `width` wide.
    pub fn get_height(specs: &FractalSpecs, matrix_width: usize, full_matrix_height: usize, width: i64)
        -> (r: i128)
        requires
            0 < width <= COORD_LIMIT,
            0 < matrix_width <= MAX_GRID_SIDE,
            0 < full_matrix_height <= MAX_GRID_SIDE,
            specs.element_ar > 0,
        ensures
            r == height_span(width as int, matrix_width as int, full_matrix_height as int,
                specs.element_ar as int),
    {
        proof {
            let (w, h, ar) = (width as int, full_matrix_height as int, specs.element_ar as int);
            assert(0 < w * h * FIX_ONE <= 0x0100_0000_0000_0000_0000_0000_0000_0000) by (nonlinear_arith)
                requires
                    0 < w <= COORD_LIMIT,
                    0 < h <= MAX_GRID_SIDE,
            ;
            assert(0 < (matrix_width as int) * ar <= 0x0100_0000_0000_0000_0000_0000_0000_0000) by (nonlinear_arith)
                requires
                    0 < matrix_width <= MAX_GRID_SIDE,
                    0 < ar <= 0x7fff_ffff_ffff_ffff,
            ;
        }
        let span = (width as i128) * (full_matrix_height as i128) * (FIX_ONE as i128) / ((
        matrix_width as i128) * (specs.element_ar as i128));
        if span < 1 {
            1
        } else {
            span
        }
    }

    /// Fills `matrix` with the values of the viewport of the given center,
    /// width and rotation.
    pub fn write_matrix(
        specs: &FractalSpecs,
        center: Vector2,
        width: i64,
        rotation: Rotation,
        matrix: &mut Matrix<u16>,
    )
        requires
            old(matrix).wf(),
            viewport_ok(*specs, width as int, rotation, old(matrix).spec_width() as int,
                old(matrix).spec_height() as int),
        ensures
            final(matrix).wf(),
            final(matrix).same_shape(old(matrix)),
            forall|ix: int, iy: int|
                0 <= ix < final(matrix).spec_width() && 0 <= iy < final(matrix).spec_height()
                    ==> final(matrix).cell(ix, iy) as nat == cell_value(*specs, center,
                    width as int, rotation, final(matrix).spec_width() as int,
                    final(matrix).spec_height() as int, ix, iy),
    {
        let h = matrix.height();
        FractalCalc::write_matrix_section(specs, center, width, rotation, matrix, 0, h);
    }

    /// Fills `section`, the rows `full_matrix_offset ..` of a full grid of
    /// `full_matrix_height` rows and as many columns as `section`, with the
    /// values of the viewport of the given center, width and rotation. The
    /// sampled point of each cell is computed from the center directly, so no
    /// rounding error builds up along a row or from row to row.
    pub fn write_matrix_section(
        specs: &FractalSpecs,
        center: Vector2,
        width: i64,
        rotation: Rotation,
        section: &mut Matrix<u16>,
        full_matrix_offset: usize,
        full_matrix_height: usize,
    )
        requires
            old(section).wf(),
            viewport_ok(*specs, width as int, rotation, old(section).spec_width() as int,
                full_matrix_height as int),
            full_matrix_offset + old(section).spec_height() <= full_matrix_height,
        ensures
            final(section).wf(),
            final(section).same_shape(old(section)),
            forall|ix: int, iy: int|
                0 <= ix < final(section).spec_width() && 0 <= iy < final(section).spec_height()
                    ==> final(section).cell(ix, iy) as nat == cell_value(*specs, center,
                    width as int, rotation, final(section).spec_width() as int,
                    full_matrix_height as int, ix, full_matrix_offset + iy),
    {
        let gw = section.width();
        let h = section.height();
        let ew0 = width / (gw as i64);
        let ew = if ew0 < 1 {
            1
        } else {
            ew0
        };
        proof {
            lemma_slope_bounds(width as int, gw as int, specs.element_ar as int, rotation);
            let (g, ar) = (gw as int, specs.element_ar as int);
            assert(0 < g * ar <= 0x0100_0000_0000_0000_0000_0000_0000_0000) by (nonlinear_arith)
                requires
                    0 < g <= MAX_GRID_SIDE,
                    0 < ar <= 0x7fff_ffff_ffff_ffff,
            ;
        }
        let eh0 = (width as i128) * (FIX_ONE as i128) / ((gw as i128) * (specs.element_ar as i128));
        let eh = if eh0 < 1 {
            1
        } else {
            eh0
        };
        proof {
            lemma_mul_bound(ew as int, rotation.cos as int);
            lemma_mul_bound(ew as int, rotation.sin as int);
            lemma_mul_bound(eh as int, rotation.cos as int);
            lemma_mul_bound(eh as int, rotation.sin as int);
        }
        let sxx = fix_trunc_exec((ew as i128) * (rotation.cos as i128));
        let sxy = fix_trunc_exec((ew as i128) * (rotation.sin as i128));
        let syx = -fix_trunc_exec(eh * (rotation.sin as i128));
        let syy = fix_trunc_exec(eh * (rotation.cos as i128));
        let ghost s = (sxx as int, sxy as int, syx as int, syy as int);
        assert(s == slopes(element_w(width as int, gw as int),
            element_h(width as int, gw as int, specs.element_ar as int), rotation));
        let ghost old_w = section.spec_width();
        let ghost old_h = section.spec_height();
        let mut iy: usize = 0;
        while iy < h
            invariant
                iy <= h,
                h == old_h,
                gw == old_w,
                section.wf(),
                section.spec_width() == old_w,
                section.spec_height() == old_h,
                viewport_ok(*specs, width as int, rotation, gw as int, full_matrix_height as int),
                full_matrix_offset + h <= full_matrix_height,
                -SLOPE_LIMIT <= sxx <= SLOPE_LIMIT,
                -SLOPE_LIMIT <= sxy <= SLOPE_LIMIT,
                -SLOPE_LIMIT <= syx <= SLOPE_LIMIT,
                -SLOPE_LIMIT <= syy <= SLOPE_LIMIT,
                s == (sxx as int, sxy as int, syx as int, syy as int),
                s == slopes(element_w(width as int, gw as int),
                    element_h(width as int, gw as int, specs.element_ar as int), rotation),
                forall|x: int, y: int|
                    0 <= x < gw && 0 <= y < iy ==> section.cell(x, y) as nat == cell_value(*specs,
                        center, width as int, rotation, gw as int, full_matrix_height as int, x,
                        full_matrix_offset + y),
            decreases h - iy,
        {
            let row = full_matrix_offset + iy;
            let dy = 2 * (row as i128) - (full_matrix_height as i128);
            let mut ix: usize = 0;
            while ix < gw
                invariant
                    ix <= gw,
                    iy < h,
                    h == old_h,
                    gw == old_w,
                    row == full_matrix_offset + iy,
                    dy == 2 * row - full_matrix_height,
                    section.wf(),
                    section.spec_width() == old_w,
                    section.spec_height() == old_h,
                    viewport_ok(*specs, width as int, rotation, gw as int, full_matrix_height as int),
                    full_matrix_offset + h <= full_matrix_height,
                    -SLOPE_LIMIT <= sxx <= SLOPE_LIMIT,
                    -SLOPE_LIMIT <= sxy <= SLOPE_LIMIT,
                    -SLOPE_LIMIT <= syx <= SLOPE_LIMIT,
                    -SLOPE_LIMIT <= syy <= SLOPE_LIMIT,
                    s == (sxx as int, sxy as int, syx as int, syy as int),
                    s == slopes(element_w(width as int, gw as int),
                        element_h(width as int, gw as int, specs.element_ar as int), rotation),
                    forall|x: int, y: int|
                        0 <= x < gw && 0 <= y < iy ==> section.cell(x, y) as nat == cell_value(
                            *specs, center, width as int, rotation, gw as int,
                            full_matrix_height as int, x, full_matrix_offset + y),
                    forall|x: int|
                        0 <= x < ix ==> section.cell(x, iy as int) as nat == cell_value(*specs,
                            center, width as int, rotation, gw as int, full_matrix_height as int, x,
                            row as int),
                decreases gw - ix,
            {
                let dx = 2 * (ix as i128) - (gw as i128);
                proof {
                    lemma_offset_bound(sxx as int, dx as int);
                    lemma_offset_bound(syx as int, dy as int);
                    lemma_offset_bound(sxy as int, dx as int);
                    lemma_offset_bound(syy as int, dy as int);
                }
                let px = center.x as i128 + half_trunc_exec(sxx * dx + syx * dy);
                let py = center.y as i128 + half_trunc_exec(sxy * dx + syy * dy);
                let value = FractalCalc::get_value(specs, clamp_coord_exec(px), clamp_coord_exec(py));
                let ghost before = *section;
                section.set(ix, iy, value);
                proof {
                    before.lemma_cell_index(ix as int, iy as int);
                    assert(section.cell(ix as int, iy as int) == value);
                    assert forall|x: int, y: int|
                        0 <= x < gw && 0 <= y < iy implies section.cell(x, y) as nat == cell_value(
                            *specs, center, width as int, rotation, gw as int,
                            full_matrix_height as int, x, full_matrix_offset + y) by {
                        lemma_index_distinct(gw as int, x, y, ix as int, iy as int);
                        before.lemma_cell_index(x, y);
                        assert(section.cell(x, y) == before.cell(x, y));
                    }
                    assert forall|x: int|
                        0 <= x < ix + 1 implies section.cell(x, iy as int) as nat == cell_value(*specs,
                            center, width as int, rotation, gw as int, full_matrix_height as int, x,
                            row as int) by {
                        if x < ix {
                            lemma_index_distinct(gw as int, x, iy as int, ix as int, iy as int);
                            before.lemma_cell_index(x, iy as int);
                            assert(section.cell(x, iy as int) == before.cell(x, iy as int));
                        } else {
                            let p = lattice_point(center, s, gw as int, full_matrix_height as int,
                                ix as int, row as int);
                            assert(p == (px as int, py as int));
                        }
                    }
                }
                ix = ix + 1;
            }
            iy = iy + 1;
        }
    }

    fn get_mandelbrot_value(x: i64, y: i64, max_val: u16) -> (r: u16)
        requires
            in_coord_range(x as int),
            in_coord_range(y as int),
        ensures
            r == mandel_value(x as int, y as int, max_val as nat),
    {
        let mut zx: i64 = 0;
        let mut zy: i64 = 0;
        let mut val: u16 = 0;
        loop
            invariant
                val <= max_val,
                -ITERATE_LIMIT <= zx <= ITERATE_LIMIT,
                -ITERATE_LIMIT <= zy <= ITERATE_LIMIT,
                in_coord_range(x as int),
                in_coord_range(y as int),
                mandel_from(x as int, y as int, zx as int, zy as int, val as nat, max_val as nat)
                    == mandel_value(x as int, y as int, max_val as nat),
            ensures
                val as nat == mandel_value(x as int, y as int, max_val as nat),
            decreases max_val - val,
        {
            proof {
                lemma_square_bound(zx as int);
                lemma_square_bound(zy as int);
            }
            let zx2 = (zx as i128) * (zx as i128);
            let zy2 = (zy as i128) * (zy as i128);
            if zx2 + zy2 >= ESCAPE_NORM || val >= max_val {
                assert(mandel_from(x as int, y as int, zx as int, zy as int, val as nat, max_val as nat)
                    == val as nat);
                break;
            }
            proof {
                lemma_step_bound(zx as int, zy as int, x as int, y as int);
                assert(-0x2000_0000_0000_0000_0000_0000_0000_0000 <= 2 * (zx as int) * (zy as int)
                    <= 0x2000_0000_0000_0000_0000_0000_0000_0000);
            }
            let re = fix_trunc_exec(zx2 - zy2) + x as i128;
            let im = fix_trunc_exec(2 * (zx as i128) * (zy as i128)) + y as i128;
            zx = re as i64;
            zy = im as i64;
            val = val + 1;
        }
        val
    }

    fn get_julia_value(c: &FixedComplex, x: i64, y: i64, max_val: u16) -> (r: u16)
        requires
            in_coord_range(c.re as int),
            in_coord_range(c.im as int),
            in_coord_range(x as int),
            in_coord_range(y as int),
        ensures
            r == julia_value(c.re as int, c.im as int, x as int, y as int, max_val as nat),
    {
        let mut zx: i64 = x;
        let mut zy: i64 = y;
        let mut val: u16 = 0;
        while val < max_val
            invariant
                val <= max_val,
                -ITERATE_LIMIT <= zx <= ITERATE_LIMIT,
                -ITERATE_LIMIT <= zy <= ITERATE_LIMIT,
                in_coord_range(c.re as int),
                in_coord_range(c.im as int),
                julia_from(c.re as int, c.im as int, zx as int, zy as int, val as nat, max_val as nat)
                    == julia_value(c.re as int, c.im as int, x as int, y as int, max_val as nat),
            decreases max_val - val,
        {
            proof {
                lemma_square_bound(zx as int);
                lemma_square_bound(zy as int);
            }
            let zx2 = (zx as i128) * (zx as i128);
            let zy2 = (zy as i128) * (zy as i128);
            if zx2 + zy2 >= ESCAPE_NORM {
                return val;
            }
            proof {
                lemma_step_bound(zx as int, zy as int, c.re as int, c.im as int);
                assert(-0x2000_0000_0000_0000_0000_0000_0000_0000 <= 2 * (zx as int) * (zy as int)
                    <= 0x2000_0000_0000_0000_0000_0000_0000_0000);
            }
            let re = fix_trunc_exec(zx2 - zy2) + c.re as i128;
            let im = fix_trunc_exec(2 * (zx as i128) * (zy as i128)) + c.im as i128;
            zx = re as i64;
            zy = im as i64;
            val = val + 1;
        }
        max_val
    }
}

} // verus!
