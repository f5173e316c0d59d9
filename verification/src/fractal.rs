//! The resumable escape-time engine and the batches it hands out.

use crate::cursor::{area, lemma_pixel_position, pixel_index, pixel_x, pixel_y, FractalCursor};
use crate::orbit::{escape_count, escape_time};
use vstd::prelude::*;

verus! {

/// Largest number of points in one batch of a [`Fractal`].
pub const MAX_POINTS: usize = 1000;

/// The clock is looked at after the first point of a batch and then after
/// every `CHECK_INTERVAL`-th one.
pub const CHECK_INTERVAL: usize = 10;

/// The clock is looked at when `written` points of a batch are written.
pub open spec fn is_look(written: usize) -> bool {
    written >= 1 && (written - 1) % (CHECK_INTERVAL as int) == 0
}

/// A batch of iteration counts in a buffer of `N` places:
/// `values[0..num_points]` belong to consecutive pixels in row-major order,
/// the first of them `(x_start, y_start)`.
pub struct Points<const N: usize> {
    pub x_start: u32,
    pub y_start: u32,
    pub num_points: usize,
    pub values: [u32; N],
}

/// `count` is the escape time of the orbit that starts where `plane` puts
/// pixel `(x, y)`.
pub open spec fn pixel_count<S, M: Fn(u32, u32) -> S, A: Fn(S) -> S, E: Fn(&S) -> bool>(
    plane: M,
    advance: A,
    escaped: E,
    max_iterations: u32,
    x: u32,
    y: u32,
    count: u32,
) -> bool {
    exists|s: S| #[trigger]
        plane.ensures((x, y), s) && escape_count(advance, escaped, s, max_iterations, count)
}

/// `counts` are the escape times of the pixels with the row-major indices
/// `first`, `first + 1`, ... of a raster `width` wide.
pub open spec fn holds_counts<S, M: Fn(u32, u32) -> S, A: Fn(S) -> S, E: Fn(&S) -> bool>(
    counts: Seq<u32>,
    width: u32,
    first: nat,
    plane: M,
    advance: A,
    escaped: E,
    max_iterations: u32,
) -> bool {
    forall|i: int, x: u32, y: u32|
        0 <= i < counts.len() && x == pixel_x(width, (first + i) as nat) && y == pixel_y(
            width,
            (first + i) as nat,
        ) ==> #[trigger] pixel_count(plane, advance, escaped, max_iterations, x, y, counts[i])
}

/// How many points a batch holds, given what the clock said.
///
/// `expired` is asked with the number of points written so far. A batch is
/// empty only where the walk was done before it. Otherwise it ends with the
/// last pixel of the raster, with the last place in the buffer, or with the
/// first look at the clock that found the time used up, whichever comes
/// first: every look before the end of the batch said that time is left,
/// and a batch that ends early ends at a look that said it is not.
pub open spec fn batch_length<X: Fn(usize) -> bool>(
    n: usize,
    capacity: usize,
    remaining: nat,
    expired: X,
) -> bool {
    &&& n <= capacity
    &&& n <= remaining
    &&& n == 0 ==> capacity == 0 || remaining == 0
    &&& forall|written: usize|
        written < n && is_look(written) ==> #[trigger] expired.ensures((written,), false)
    &&& n < capacity && n < remaining ==> is_look(n) && expired.ensures((n,), true)
}

impl<const N: usize> Points<N> {
    /// The buffer holds at least the points of the batch.
    pub open spec fn wf(&self) -> bool {
        self.num_points <= N
    }

    /// The counts of the batch.
    pub open spec fn counts(&self) -> Seq<u32> {
        self.values@.take(self.num_points as int)
    }

    /// Row-major index of the first pixel of the batch on a raster `width`
    /// wide.
    pub open spec fn first(&self, width: u32) -> nat {
        pixel_index(width, self.x_start as nat, self.y_start as nat)
    }

    /// The batch lies on a `width` x `height` raster: it starts inside a
    /// row and ends with the last pixel at the latest.
    pub open spec fn on_raster(&self, width: u32, height: u32) -> bool {
        self.num_points > 0 ==> self.x_start < width && self.first(width) + self.num_points
            <= area(width, height)
    }

    /// Each point of a batch on a raster, placed by its row-major index,
    /// has a column below the width and a row below the height.
    pub proof fn lemma_on_raster(&self, width: u32, height: u32)
        requires
            self.on_raster(width, height),
        ensures
            forall|i: nat|
                i < self.num_points ==> pixel_x(width, #[trigger] (self.first(width) + i)) < width
                    && pixel_y(width, self.first(width) + i) < height,
    {
        assert forall|i: nat| i < self.num_points implies pixel_x(
            width,
            #[trigger] (self.first(width) + i),
        ) < width && pixel_y(width, self.first(width) + i) < height by {
            lemma_pixel_position(width, height, self.first(width) + i);
        }
    }

    /// An empty batch over a buffer of zeros.
    pub fn new() -> (points: Points<N>)
        ensures
            points.wf(),
            forall|i: int| 0 <= i < N ==> points.values[i] == 0,
            points.num_points == 0,
            points.x_start == 0,
            points.y_start == 0,
    {
        Points { x_start: 0, y_start: 0, num_points: 0, values: [0u32;N] }
    }

    /// Writes the next batch: from the pixel under `cursor` on, in row-major
    /// order, until the raster, the buffer or the time is used up.
    pub fn fill<S, M: Fn(u32, u32) -> S, A: Fn(S) -> S, E: Fn(&S) -> bool, X: Fn(usize) -> bool>(
        &mut self,
        cursor: &mut FractalCursor,
        max_iterations: u32,
        plane: &M,
        advance: &A,
        escaped: &E,
        expired: &X,
    )
        requires
            old(cursor).wf(),
            max_iterations < u32::MAX,
            forall|x: u32, y: u32|
                x < old(cursor).width() && y < old(cursor).height() ==> plane.requires((x, y)),
            forall|s: S| advance.requires((s,)),
            forall|s: &S| escaped.requires((s,)),
            forall|written: usize| expired.requires((written,)),
        ensures
            final(self).wf(),
            final(self).x_start == old(cursor).x_curr(),
            final(self).y_start == old(cursor).y_curr(),
            final(cursor).wf(),
            final(cursor).continues(*old(cursor), final(self).num_points as nat),
            final(self).on_raster(old(cursor).width(), old(cursor).height()),
            batch_length(
                final(self).num_points,
                N,
                (area(old(cursor).width(), old(cursor).height()) - old(cursor).produced()) as nat,
                *expired,
            ),
            holds_counts(
                final(self).counts(),
                old(cursor).width(),
                old(cursor).produced(),
                *plane,
                *advance,
                *escaped,
                max_iterations,
            ),
    {
        self.x_start = cursor.x();
        self.y_start = cursor.y();
        self.num_points = 0;
        let ghost first = cursor.produced();
        let ghost width = cursor.width();
        let ghost total = area(cursor.width(), cursor.height());
        let mut count: usize = 0;
        let mut stopped = false;
        proof {
            cursor.lemma_position();
        }
        while count < N && !cursor.is_done() && !stopped
            invariant
                cursor.wf(),
                cursor.width() == width,
                cursor.height() == old(cursor).height(),
                total == area(width, cursor.height()),
                old(cursor).wf(),
                count > 0 ==> !old(cursor).done(),
                first == old(cursor).produced(),
                width == old(cursor).width(),
                cursor.produced() == first + count,
                first + count <= total,
                count <= N,
                self.x_start == old(cursor).x_curr(),
                self.y_start == old(cursor).y_curr(),
                self.num_points == 0,
                forall|x: u32, y: u32|
                    x < width && y < cursor.height() ==> plane.requires((x, y)),
                max_iterations < u32::MAX,
                forall|s: S| advance.requires((s,)),
                forall|s: &S| escaped.requires((s,)),
                forall|written: usize| expired.requires((written,)),
                forall|written: usize|
                    written <= count && is_look(written) && !(written == count && (stopped
                        || cursor.done())) ==> #[trigger] expired.ensures((written,), false),
                stopped ==> !cursor.done() && is_look(count) && expired.ensures((count,), true),
                holds_counts(
                    self.values@.take(count as int),
                    width,
                    first,
                    *plane,
                    *advance,
                    *escaped,
                    max_iterations,
                ),
            decreases N - count,
        {
            proof {
                cursor.lemma_position();
                old(cursor).lemma_position();
            }
            let ghost before = self.values@;
            let x = cursor.x();
            let y = cursor.y();
            let start = plane(x, y);
            let value = escape_time(start, max_iterations, advance, escaped);
            self.values[count] = value;
            cursor.advance();
            proof {
                cursor.lemma_position();
                assert(pixel_count(*plane, *advance, *escaped, max_iterations, x, y, value));
                let longer = self.values@.take(count + 1);
                assert forall|i: int, px: u32, py: u32|
                    0 <= i < count + 1 && px == pixel_x(width, (first + i) as nat) && py
                        == pixel_y(width, (first + i) as nat) implies #[trigger] pixel_count(
                    *plane,
                    *advance,
                    *escaped,
                    max_iterations,
                    px,
                    py,
                    longer[i],
                ) by {
                    if i < count {
                        assert(longer[i] == before.take(count as int)[i]);
                        assert(pixel_count(
                            *plane,
                            *advance,
                            *escaped,
                            max_iterations,
                            px,
                            py,
                            before.take(count as int)[i],
                        ));
                    }
                }
            }
            count = count + 1;
            if !cursor.is_done() && (count - 1) % CHECK_INTERVAL == 0 {
                stopped = expired(count);
            }
        }
        proof {
            cursor.lemma_position();
        }
        self.num_points = count;
    }
}

/// An escape-time computation over a `width` x `height` raster that hands
/// out its iteration counts batch by batch.
pub struct Fractal {
    cursor: FractalCursor,
    iterations: u32,
    res: Points<MAX_POINTS>,
}

impl Fractal {
    /// Where the computation stands.
    pub closed spec fn cursor(&self) -> FractalCursor {
        self.cursor
    }

    /// The cap on the steps of one orbit.
    pub closed spec fn max_iterations(&self) -> u32 {
        self.iterations
    }

    /// The batch written by the last call of `calculate`.
    pub closed spec fn batch(&self) -> Points<MAX_POINTS> {
        self.res
    }

    /// The cursor and the batch are well formed, and the cap leaves room
    /// for the mark of a point that did not escape.
    pub open spec fn wf(&self) -> bool {
        &&& self.cursor().wf()
        &&& self.batch().wf()
        &&& self.max_iterations() < u32::MAX
    }

    /// An engine at the origin of the raster, with an empty batch.
    pub fn new(width: u32, height: u32, max_iterations: u32) -> (fractal: Fractal)
        requires
            max_iterations < u32::MAX,
        ensures
            fractal.wf(),
            fractal.cursor().width() == width,
            fractal.cursor().height() == height,
            fractal.cursor().produced() == 0,
            fractal.cursor().done() <==> width == 0 || height == 0,
            fractal.max_iterations() == max_iterations,
            fractal.batch().num_points == 0,
    {
        Fractal {
            cursor: FractalCursor::new(width, height),
            iterations: max_iterations,
            res: Points::new(),
        }
    }

    /// Every pixel of the raster was handed out.
    pub fn is_done(&self) -> (done: bool)
        ensures
            done == self.cursor().done(),
            self.wf() ==> (done <==> self.cursor().produced() == area(
                self.cursor().width(),
                self.cursor().height(),
            )),
    {
        proof {
            if self.wf() {
                self.cursor.lemma_position();
            }
        }
        self.cursor.is_done()
    }

    /// The escape time of the orbit from `start`, capped at the engine's
    /// `max_iterations`: 0 for a start that has escaped, the index of the
    /// first escape, or `max_iterations + 1` where there is none.
    pub fn iterate<S, A: Fn(S) -> S, E: Fn(&S) -> bool>(
        &self,
        start: S,
        advance: &A,
        escaped: &E,
    ) -> (count: u32)
        requires
            self.max_iterations() < u32::MAX,
            forall|s: S| advance.requires((s,)),
            forall|s: &S| escaped.requires((s,)),
        ensures
            escape_count(*advance, *escaped, start, self.max_iterations(), count),
            count <= self.max_iterations() + 1,
    {
        escape_time(start, self.iterations, advance, escaped)
    }

    /// Computes the next batch and returns it.
    ///
    /// `plane` maps a pixel to the start of its orbit, `advance` and
    /// `escaped` step and test the orbit, and `expired`, asked with the
    /// number of points written so far, tells whether the time for this
    /// batch is used up.
    pub fn calculate<
        S,
        M: Fn(u32, u32) -> S,
        A: Fn(S) -> S,
        E: Fn(&S) -> bool,
        X: Fn(usize) -> bool,
    >(
        &mut self,
        plane: M,
        advance: A,
        escaped: E,
        expired: X,
    ) -> (batch: &Points<MAX_POINTS>)
        requires
            old(self).wf(),
            forall|x: u32, y: u32|
                x < old(self).cursor().width() && y < old(self).cursor().height()
                    ==> plane.requires((x, y)),
            forall|s: S| advance.requires((s,)),
            forall|s: &S| escaped.requires((s,)),
            forall|written: usize| expired.requires((written,)),
        ensures
            final(self).wf(),
            final(self).max_iterations() == old(self).max_iterations(),
            final(self).batch() == *batch,
            batch.x_start == old(self).cursor().x_curr(),
            batch.y_start == old(self).cursor().y_curr(),
            final(self).cursor().continues(old(self).cursor(), batch.num_points as nat),
            batch.on_raster(old(self).cursor().width(), old(self).cursor().height()),
            batch_length(
                batch.num_points,
                MAX_POINTS,
                (area(old(self).cursor().width(), old(self).cursor().height()) - old(
                    self,
                ).cursor().produced()) as nat,
                expired,
            ),
            holds_counts(
                batch.counts(),
                old(self).cursor().width(),
                old(self).cursor().produced(),
                plane,
                advance,
                escaped,
                old(self).max_iterations(),
            ),
    {
        self.res.fill(&mut self.cursor, self.iterations, &plane, &advance, &escaped, &expired);
        &self.res
    }
}

} // verus!
