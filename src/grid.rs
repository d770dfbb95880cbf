use vstd::prelude::*;
use crate::fixed::FIX_ONE;

verus! {

/// A dense `width * height` buffer of cells, addressed row by row.
pub struct Matrix<T> {
    width: usize,
    height: usize,
    cells: Vec<T>,
}

/// The cell that blend factor `t` (in fixed point, `0..=FIX_ONE`) gives between
/// a cell `a` of the previous grid and a cell `b` of the current one, rounded down.
pub open spec fn blend_cell(t: int, a: int, b: int) -> int {
    ((FIX_ONE - t) * a + t * b) / (FIX_ONE as int)
}

impl<T: Copy> Matrix<T> {
    pub closed spec fn spec_width(&self) -> nat {
        self.width as nat
    }

    pub closed spec fn spec_height(&self) -> nat {
        self.height as nat
    }

    /// The cells, row after row.
    pub closed spec fn cells(&self) -> Seq<T> {
        self.cells@
    }

    pub open spec fn wf(&self) -> bool {
        self.cells().len() == self.spec_width() * self.spec_height()
    }

    /// The cell in column `x` of row `y`.
    pub open spec fn cell(&self, x: int, y: int) -> T {
        self.cells()[y * self.spec_width() + x]
    }

    pub open spec fn same_shape<U: Copy>(&self, o: &Matrix<U>) -> bool {
        self.spec_width() == o.spec_width() && self.spec_height() == o.spec_height()
    }

    /// A `width * height` matrix with every cell set to `fill`.
    pub fn new(width: usize, height: usize, fill: T) -> (r: Self)
        requires
            width * height <= usize::MAX,
        ensures
            r.wf(),
            r.spec_width() == width,
            r.spec_height() == height,
            forall|i: int| 0 <= i < r.cells().len() ==> r.cells()[i] == fill,
    {
        let n: usize = width * height;
        let mut cells: Vec<T> = Vec::with_capacity(n);
        let mut i: usize = 0;
        while i < n
            invariant
                i <= n,
                cells@.len() == i,
                forall|j: int| 0 <= j < i ==> cells@[j] == fill,
            decreases n - i,
        {
            cells.push(fill);
            i = i + 1;
        }
        Matrix { width, height, cells }
    }

    pub fn width(&self) -> (r: usize)
        ensures
            r == self.spec_width(),
    {
        self.width
    }

    pub fn height(&self) -> (r: usize)
        ensures
            r == self.spec_height(),
    {
        self.height
    }

    pub(crate) proof fn lemma_cell_index(&self, x: int, y: int)
        requires
            self.wf(),
            0 <= x < self.spec_width(),
            0 <= y < self.spec_height(),
        ensures
            0 <= y * self.spec_width() + x < self.cells().len(),
    {
        let w = self.spec_width() as int;
        let h = self.spec_height() as int;
        assert(y * w + x < h * w) by (nonlinear_arith)
            requires
                0 <= x < w,
                0 <= y < h,
        ;
        assert(0 <= y * w) by (nonlinear_arith)
            requires
                0 <= y,
                0 <= w,
        ;
        assert(h * w == w * h) by (nonlinear_arith);
    }

    /// The cell in column `x` of row `y`.
    pub fn get(&self, x: usize, y: usize) -> (r: T)
        requires
            self.wf(),
            x < self.spec_width(),
            y < self.spec_height(),
        ensures
            r == self.cell(x as int, y as int),
    {
        // the index lies below the buffer's length, which fits in usize
        let _len = self.cells.len();
        proof {
            self.lemma_cell_index(x as int, y as int);
        }
        self.cells[y * self.width + x]
    }

    /// Writes `v` into column `x` of row `y`, and nothing else.
    pub fn set(&mut self, x: usize, y: usize, v: T)
        requires
            old(self).wf(),
            x < old(self).spec_width(),
            y < old(self).spec_height(),
        ensures
            final(self).wf(),
            final(self).same_shape(old(self)),
            final(self).cells() == old(self).cells().update(
                y * old(self).spec_width() + x,
                v,
            ),
    {
        // the index lies below the buffer's length, which fits in usize
        let _len = self.cells.len();
        proof {
            self.lemma_cell_index(x as int, y as int);
        }
        let i = y * self.width + x;
        self.cells.set(i, v);
    }
}

impl Matrix<u16> {
    /// Blends `previous` and `current` cell by cell into `out`: factor 0 gives
    /// `previous`, factor `FIX_ONE` gives `current`.
    pub fn interpolate(t: i64, previous: &Matrix<u16>, current: &Matrix<u16>, out: &mut Matrix<u16>)
        requires
            0 <= t <= FIX_ONE,
            previous.wf(),
            current.wf(),
            old(out).wf(),
            previous.same_shape(current),
            previous.same_shape(old(out)),
        ensures
            final(out).wf(),
            final(out).same_shape(old(out)),
            forall|i: int|
                0 <= i < final(out).cells().len() ==> final(out).cells()[i] as int == blend_cell(
                    t as int,
                    previous.cells()[i] as int,
                    current.cells()[i] as int,
                ),
    {
        let n = out.cells.len();
        let tt = t as u64;
        let ghost w0 = out.width;
        let ghost h0 = out.height;
        let mut i: usize = 0;
        while i < n
            invariant
                i <= n,
                n == out.cells@.len(),
                out.width == w0,
                out.height == h0,
                out.wf(),
                0 <= tt <= FIX_ONE,
                previous.cells().len() == n,
                current.cells().len() == n,
                forall|j: int|
                    0 <= j < i ==> out.cells()[j] as int == blend_cell(
                        tt as int,
                        previous.cells()[j] as int,
                        current.cells()[j] as int,
                    ),
            decreases n - i,
        {
            let a = previous.cells[i] as u64;
            let b = current.cells[i] as u64;
            proof {
                lemma_blend_bounds(tt as int, a as int, b as int);
            }
            let v = ((FIX_ONE as u64 - tt) * a + tt * b) / (FIX_ONE as u64);
            out.cells.set(i, v as u16);
            i = i + 1;
        }
    }
}

proof fn lemma_blend_bounds(t: int, a: int, b: int)
    requires
        0 <= t <= FIX_ONE,
        0 <= a <= 0xffff,
        0 <= b <= 0xffff,
    ensures
        0 <= (FIX_ONE - t) * a <= FIX_ONE * 0xffff,
        0 <= t * b <= FIX_ONE * 0xffff,
        0 <= blend_cell(t, a, b) <= 0xffff,
{
    let one = FIX_ONE as int;
    assert(0 <= (one - t) * a <= (one - t) * 0xffff) by (nonlinear_arith)
        requires
            0 <= t <= one,
            0 <= a <= 0xffff,
    ;
    assert(0 <= t * b <= t * 0xffff) by (nonlinear_arith)
        requires
            0 <= t,
            0 <= b <= 0xffff,
    ;
}

/// Blending at factor 0 gives back the previous cell, at factor `FIX_ONE` the
/// current cell, and at factor one half the mean of the two, rounded down.
pub proof fn lemma_blend_endpoints(a: int, b: int)
    requires
        0 <= a,
        0 <= b,
    ensures
        blend_cell(0, a, b) == a,
        blend_cell(FIX_ONE as int, a, b) == b,
        blend_cell(FIX_ONE / 2, a, b) == (a + b) / 2,
{
    let one = FIX_ONE as int;
    let half = one / 2;
    assert((one - half) * a + half * b == (a + b) * half) by (nonlinear_arith)
        requires
            one == 2 * half,
    ;
    assert((one - 0) * a + 0 * b == a * one) by (nonlinear_arith);
    assert((one - one) * a + one * b == b * one) by (nonlinear_arith);
    assert((a + b) * half / one == (a + b) / 2) by (nonlinear_arith)
        requires
            one == 2 * half,
            half > 0,
            a + b >= 0,
    ;
}

} // verus!
