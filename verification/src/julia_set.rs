//! The engine for Julia sets: the same walk and the same counts as
//! [`crate::fractal::Fractal`], in larger batches.

use crate::cursor::{area, FractalCursor};
use crate::fractal::{batch_length, holds_counts};
use crate::orbit::{escape_count, escape_time};
use vstd::prelude::*;

pub use crate::fractal::Points;

verus! {

/// Largest number of points in one batch of a [`JuliaSet`].
pub const MAX_POINTS: usize = 5000;

/// An escape-time computation over a `width` x `height` raster that hands
/// out its iteration counts batch by batch.
pub struct JuliaSet {
    cursor: FractalCursor,
    iterations: u32,
    res: Points<MAX_POINTS>,
}

impl JuliaSet {
    /// Where the computation stands.
    pub closed spec fn cursor(&self) -> FractalCursor {
        self.cursor
    }

    /// The cap on the steps of one orbit.
    pub closed spec fn max_iterations(&self) -> u32 {
        self.iterations
    }

    /// The batch written by the last call of `calculate`.
    pub closed spec fn batch(&self) -> Points<MAX_POINTS> {
        self.res
    }

    /// The cursor and the batch are well formed, and the cap leaves room
    /// for the mark of a point that did not escape.
    pub open spec fn wf(&self) -> bool {
        &&& self.cursor().wf()
        &&& self.batch().wf()
        &&& self.max_iterations() < u32::MAX
    }

    /// An engine at the origin of the raster, with an empty batch.
    pub fn new(width: u32, height: u32, max_iterations: u32) -> (julia: JuliaSet)
        requires
            max_iterations < u32::MAX,
        ensures
            julia.wf(),
            julia.cursor().width() == width,
            julia.cursor().height() == height,
            julia.cursor().produced() == 0,
            julia.cursor().done() <==> width == 0 || height == 0,
            julia.max_iterations() == max_iterations,
            julia.batch().num_points == 0,
    {
        JuliaSet {
            cursor: FractalCursor::new(width, height),
            iterations: max_iterations,
            res: Points::new(),
        }
    }

    /// Every pixel of the raster was handed out.
    pub fn is_done(&self) -> (done: bool)
        ensures
            done == self.cursor().done(),
            self.wf() ==> (done <==> self.cursor().produced() == area(
                self.cursor().width(),
                self.cursor().height(),
            )),
    {
        proof {
            if self.wf() {
                self.cursor.lemma_position();
            }
        }
        self.cursor.is_done()
    }

    /// The escape time of the orbit from `start`, capped at the engine's
    /// `max_iterations`: 0 for a start that has escaped, the index of the
    /// first escape, or `max_iterations + 1` where there is none.
    pub fn iterate<S, A: Fn(S) -> S, E: Fn(&S) -> bool>(
        &self,
        start: S,
        advance: &A,
        escaped: &E,
    ) -> (count: u32)
        requires
            self.max_iterations() < u32::MAX,
            forall|s: S| advance.requires((s,)),
            forall|s: &S| escaped.requires((s,)),
        ensures
            escape_count(*advance, *escaped, start, self.max_iterations(), count),
            count <= self.max_iterations() + 1,
    {
        escape_time(start, self.iterations, advance, escaped)
    }

    /// Computes the next batch and returns it.
    ///
    /// `plane` maps a pixel to the start of its orbit, `advance` and
    /// `escaped` step and test the orbit, and `expired`, asked with the
    /// number of points written so far, tells whether the time for this
    /// batch is used up.
    pub fn calculate<
        S,
        M: Fn(u32, u32) -> S,
        A: Fn(S) -> S,
        E: Fn(&S) -> bool,
        X: Fn(usize) -> bool,
    >(
        &mut self,
        plane: M,
        advance: A,
        escaped: E,
        expired: X,
    ) -> (batch: &Points<MAX_POINTS>)
        requires
            old(self).wf(),
            forall|x: u32, y: u32|
                x < old(self).cursor().width() && y < old(self).cursor().height()
                    ==> plane.requires((x, y)),
            forall|s: S| advance.requires((s,)),
            forall|s: &S| escaped.requires((s,)),
            forall|written: usize| expired.requires((written,)),
        ensures
            final(self).wf(),
            final(self).max_iterations() == old(self).max_iterations(),
            final(self).batch() == *batch,
            batch.x_start == old(self).cursor().x_curr(),
            batch.y_start == old(self).cursor().y_curr(),
            final(self).cursor().continues(old(self).cursor(), batch.num_points as nat),
            batch.on_raster(old(self).cursor().width(), old(self).cursor().height()),
            batch_length(
                batch.num_points,
                MAX_POINTS,
                (area(old(self).cursor().width(), old(self).cursor().height()) - old(
                    self,
                ).cursor().produced()) as nat,
                expired,
            ),
            holds_counts(
                batch.counts(),
                old(self).cursor().width(),
                old(self).cursor().produced(),
                plane,
                advance,
                escaped,
                old(self).max_iterations(),
            ),
    {
        self.res.fill(&mut self.cursor, self.iterations, &plane, &advance, &escaped, &expired);
        &self.res
    }
}

} // verus!
