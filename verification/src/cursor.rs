//! The resumption point of a computation that walks a raster row by row.

use vstd::prelude::*;

verus! {

/// Number of pixels of a raster.
pub open spec fn area(width: u32, height: u32) -> nat {
    (width as nat) * (height as nat)
}

/// Column of the `n`-th pixel in row-major order.
pub open spec fn pixel_x(width: u32, n: nat) -> nat
    recommends
        width > 0,
{
    n % (width as nat)
}

/// Row of the `n`-th pixel in row-major order.
pub open spec fn pixel_y(width: u32, n: nat) -> nat
    recommends
        width > 0,
{
    n / (width as nat)
}

/// Row-major index of the pixel in column `x` of row `y`.
pub open spec fn pixel_index(width: u32, x: nat, y: nat) -> nat {
    y * (width as nat) + x
}

/// Where a walk over a `width` x `height` raster stands.
///
/// A cursor is `Fresh` while nothing was produced, `Running` while some but
/// not all pixels were, and `Done` once the walk has passed the last row.
/// A raster without pixels is done from the start.
pub struct FractalCursor {
    width: u32,
    height: u32,
    x_curr: u32,
    y_curr: u32,
    done: bool,
}

impl FractalCursor {
    pub closed spec fn width(&self) -> u32 {
        self.width
    }

    pub closed spec fn height(&self) -> u32 {
        self.height
    }

    /// Column of the next pixel to produce.
    pub closed spec fn x_curr(&self) -> u32 {
        self.x_curr
    }

    /// Row of the next pixel to produce.
    pub closed spec fn y_curr(&self) -> u32 {
        self.y_curr
    }

    /// The walk has passed the last row.
    pub closed spec fn done(&self) -> bool {
        self.done
    }

    /// The cursor is inside the raster while running and rests at the start of
    /// the row below the last one when done.
    pub closed spec fn wf(&self) -> bool {
        if self.done {
            self.x_curr == 0 && self.y_curr == self.height
        } else {
            self.x_curr < self.width && self.y_curr < self.height
        }
    }

    /// Number of pixels produced so far.
    pub open spec fn produced(&self) -> nat {
        pixel_index(self.width(), self.x_curr() as nat, self.y_curr() as nat)
    }

    /// `self` is the cursor that `before` becomes by producing `count` pixels.
    pub open spec fn continues(&self, before: FractalCursor, count: nat) -> bool {
        &&& self.width() == before.width()
        &&& self.height() == before.height()
        &&& self.produced() == before.produced() + count
    }

    /// A well-formed cursor is done exactly when every pixel was produced, and
    /// while it runs it stands on the pixel whose index is the number produced.
    pub proof fn lemma_position(&self)
        requires
            self.wf(),
        ensures
            self.produced() <= area(self.width(), self.height()),
            self.done() <==> self.produced() == area(self.width(), self.height()),
            !self.done() ==> self.x_curr() < self.width() && self.y_curr() < self.height(),
            !self.done() ==> self.x_curr() == pixel_x(self.width(), self.produced())
                && self.y_curr() == pixel_y(self.width(), self.produced()),
            self.done() ==> self.x_curr() == 0 && self.y_curr() == self.height(),
    {
        let w = self.width as int;
        let h = self.height as int;
        let x = self.x_curr as int;
        let y = self.y_curr as int;
        if self.done {
            assert(y * w + x == w * h) by (nonlinear_arith)
                requires
                    x == 0,
                    y == h,
            ;
        } else {
            assert(y * w + x < w * h) by (nonlinear_arith)
                requires
                    0 <= x < w,
                    0 <= y < h,
            ;
            vstd::arithmetic::div_mod::lemma_fundamental_div_mod_converse(y * w + x, w, y, x);
        }
    }

    /// A cursor at the origin of the raster; done at once where the raster
    /// has no pixels.
    pub fn new(width: u32, height: u32) -> (cursor: FractalCursor)
        ensures
            cursor.wf(),
            cursor.width() == width,
            cursor.height() == height,
            cursor.produced() == 0,
            cursor.x_curr() == 0,
            cursor.done() <==> width == 0 || height == 0,
    {
        let empty = width == 0 || height == 0;
        let y_curr: u32 = if empty { height } else { 0 };
        assert(pixel_index(width, 0, y_curr as nat) == 0) by (nonlinear_arith)
            requires
                width == 0 || y_curr == 0,
        ;
        FractalCursor { width, height, x_curr: 0, y_curr, done: empty }
    }

    pub fn is_done(&self) -> (done: bool)
        ensures
            done == self.done(),
    {
        self.done
    }

    /// Column of the next pixel.
    pub fn x(&self) -> (x: u32)
        ensures
            x == self.x_curr(),
    {
        self.x_curr
    }

    /// Row of the next pixel.
    pub fn y(&self) -> (y: u32)
        ensures
            y == self.y_curr(),
    {
        self.y_curr
    }

    /// Steps to the next pixel in row-major order: one column to the right,
    /// or to the start of the next row after the last column; past the last
    /// row the cursor is done.
    pub fn advance(&mut self)
        requires
            old(self).wf(),
            !old(self).done(),
        ensures
            final(self).wf(),
            final(self).continues(*old(self), 1),
    {
        let ghost w = self.width as int;
        let ghost x = self.x_curr as int;
        let ghost y = self.y_curr as int;
        self.x_curr = self.x_curr + 1;
        if self.x_curr >= self.width {
            self.x_curr = 0;
            self.y_curr = self.y_curr + 1;
            if self.y_curr >= self.height {
                self.done = true;
            }
            assert((y + 1) * w + 0 == y * w + x + 1) by (nonlinear_arith)
                requires
                    x + 1 == w,
            ;
        }
    }
}

/// `cursors` are the states of one walk, from its first to its last, and
/// `counts[i]` is the number of pixels produced between state `i` and the
/// next.
pub open spec fn is_run(cursors: Seq<FractalCursor>, counts: Seq<nat>) -> bool {
    &&& cursors.len() == counts.len() + 1
    &&& forall|i: int| 0 <= i < cursors.len() ==> (#[trigger] cursors[i]).wf()
    &&& forall|i: int|
        0 <= i < counts.len() ==> cursors[i + 1].continues(cursors[i], #[trigger] counts[i])
}

/// Sum of `counts`.
pub open spec fn total(counts: Seq<nat>) -> nat
    decreases counts.len(),
{
    if counts.len() == 0 {
        0
    } else {
        total(counts.drop_last()) + counts.last()
    }
}

/// Batch `i` of the run holds the pixel with row-major index `n`, at
/// `offset` places from its start.
pub open spec fn batch_holds(
    cursors: Seq<FractalCursor>,
    counts: Seq<nat>,
    i: int,
    offset: int,
    n: nat,
) -> bool {
    &&& 0 <= i < counts.len()
    &&& 0 <= offset < counts[i]
    &&& cursors[i].produced() + offset == n
}

/// Some batch of the run holds the pixel with row-major index `n`.
pub open spec fn covered(cursors: Seq<FractalCursor>, counts: Seq<nat>, n: nat) -> bool {
    exists|i: int, offset: int| batch_holds(cursors, counts, i, offset, n)
}

/// Row-major index and position are inverse to each other on the raster.
pub proof fn lemma_pixel_index(width: u32, height: u32, x: nat, y: nat)
    requires
        x < width,
        y < height,
    ensures
        pixel_index(width, x, y) < area(width, height),
        pixel_x(width, pixel_index(width, x, y)) == x,
        pixel_y(width, pixel_index(width, x, y)) == y,
{
    let w = width as int;
    let h = height as int;
    assert(y * w + x < w * h) by (nonlinear_arith)
        requires
            0 <= x < w,
            0 <= y < h,
    ;
    vstd::arithmetic::div_mod::lemma_fundamental_div_mod_converse(y * w + x, w, y as int, x as int);
}

/// Every index below the area is the index of its own position, which lies
/// on the raster.
pub proof fn lemma_pixel_position(width: u32, height: u32, n: nat)
    requires
        n < area(width, height),
    ensures
        pixel_x(width, n) < width,
        pixel_y(width, n) < height,
        pixel_index(width, pixel_x(width, n), pixel_y(width, n)) == n,
{
    let w = width as int;
    let h = height as int;
    assert(w > 0) by (nonlinear_arith)
        requires
            0 <= n < w * h,
            0 <= w,
    ;
    vstd::arithmetic::div_mod::lemma_fundamental_div_mod(n as int, w);
    vstd::arithmetic::div_mod::lemma_mod_bound(n as int, w);
    let q = n as int / w;
    let r = n as int % w;
    assert(q * w == w * q) by (nonlinear_arith);
    assert(0 <= q < h) by (nonlinear_arith)
        requires
            0 <= n < w * h,
            n == w * q + r,
            0 <= r < w,
    ;
}

/// In a run the number produced never falls.
proof fn lemma_run_monotone(cursors: Seq<FractalCursor>, counts: Seq<nat>, i: int, j: int)
    requires
        is_run(cursors, counts),
        0 <= i <= j < cursors.len(),
    ensures
        cursors[i].produced() <= cursors[j].produced(),
    decreases j - i,
{
    if i < j {
        lemma_run_monotone(cursors, counts, i, j - 1);
        assert(cursors[j - 1 + 1].continues(cursors[j - 1], counts[j - 1]));
    }
}

/// A state of a run has produced the sum of the counts before it.
proof fn lemma_run_total(cursors: Seq<FractalCursor>, counts: Seq<nat>)
    requires
        is_run(cursors, counts),
    ensures
        cursors.last().produced() == cursors[0].produced() + total(counts),
    decreases counts.len(),
{
    if counts.len() > 0 {
        let k = counts.len() - 1;
        let shorter = cursors.drop_last();
        let fewer = counts.drop_last();
        assert(is_run(shorter, fewer)) by {
            assert forall|i: int| 0 <= i < fewer.len() implies shorter[i + 1].continues(
                shorter[i],
                #[trigger] fewer[i],
            ) by {
                assert(cursors[i + 1].continues(cursors[i], counts[i]));
            }
        }
        lemma_run_total(shorter, fewer);
        assert(cursors[k + 1].continues(cursors[k], counts[k]));
    }
}

/// A pixel below what state `k` of a run has produced, and not below what
/// its first state had, lies in one of the batches before state `k`.
proof fn lemma_run_finds(cursors: Seq<FractalCursor>, counts: Seq<nat>, k: int, n: nat) -> (found:
    (int, int))
    requires
        is_run(cursors, counts),
        0 <= k < cursors.len(),
        cursors[0].produced() <= n < cursors[k].produced(),
    ensures
        batch_holds(cursors, counts, found.0, found.1, n),
    decreases k,
{
    assert(k > 0);
    assert(cursors[k - 1 + 1].continues(cursors[k - 1], counts[k - 1]));
    if n >= cursors[k - 1].produced() {
        (k - 1, n - cursors[k - 1].produced())
    } else {
        lemma_run_finds(cursors, counts, k - 1, n)
    }
}

/// Over any run of batches from a fresh cursor to a done one, the batches
/// hold as many points as the raster has pixels, and every pixel of the
/// raster lies in exactly one batch, at exactly one place in it.
pub proof fn lemma_run_covers_raster(cursors: Seq<FractalCursor>, counts: Seq<nat>)
    requires
        is_run(cursors, counts),
        cursors[0].produced() == 0,
        cursors.last().done(),
    ensures
        total(counts) == area(cursors[0].width(), cursors[0].height()),
        forall|x: nat, y: nat|
            x < cursors[0].width() && y < cursors[0].height() ==> covered(
                cursors,
                counts,
                #[trigger] pixel_index(cursors[0].width(), x, y),
            ),
        forall|i: int, offset: int, j: int, other: int, n: nat|
            #[trigger] batch_holds(cursors, counts, i, offset, n) && #[trigger] batch_holds(
                cursors,
                counts,
                j,
                other,
                n,
            ) ==> i == j && offset == other,
{
    let width = cursors[0].width();
    let height = cursors[0].height();
    let last = cursors.len() - 1;
    lemma_run_total(cursors, counts);
    lemma_run_dimensions(cursors, counts, last);
    cursors[last].lemma_position();
    assert forall|x: nat, y: nat| x < width && y < height implies covered(
        cursors,
        counts,
        #[trigger] pixel_index(width, x, y),
    ) by {
        lemma_pixel_index(width, height, x, y);
        let found = lemma_run_finds(cursors, counts, last, pixel_index(width, x, y));
        assert(batch_holds(cursors, counts, found.0, found.1, pixel_index(width, x, y)));
    }
    assert forall|i: int, offset: int, j: int, other: int, n: nat|
        #[trigger] batch_holds(cursors, counts, i, offset, n) && #[trigger] batch_holds(
            cursors,
            counts,
            j,
            other,
            n,
        ) implies i == j && offset == other by {
        assert(cursors[i + 1].continues(cursors[i], counts[i]));
        assert(cursors[j + 1].continues(cursors[j], counts[j]));
        if i < j {
            lemma_run_monotone(cursors, counts, i + 1, j);
        }
        if j < i {
            lemma_run_monotone(cursors, counts, j + 1, i);
        }
    }
}

/// Every state of a run walks the raster of the first.
proof fn lemma_run_dimensions(cursors: Seq<FractalCursor>, counts: Seq<nat>, k: int)
    requires
        is_run(cursors, counts),
        0 <= k < cursors.len(),
    ensures
        cursors[k].width() == cursors[0].width(),
        cursors[k].height() == cursors[0].height(),
    decreases k,
{
    if k > 0 {
        lemma_run_dimensions(cursors, counts, k - 1);
        assert(cursors[k - 1 + 1].continues(cursors[k - 1], counts[k - 1]));
    }
}

} // verus!
