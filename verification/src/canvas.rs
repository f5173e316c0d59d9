//! What to paint for a batch of iteration counts: the position and the
//! colour of each point.

use crate::color::{
    channels, hex_byte, hex_color, hue_channels, lemma_channel_bounds, sector, to_hex, HUE_OFFSET,
    HUE_RANGE,
};
use crate::cursor::{pixel_x, pixel_y};
use crate::fractal::Points;
use vstd::prelude::*;
use vstd::string::StringExecFns;

verus! {

/// The colour of the points that did not escape: `#000000`.
pub open spec fn background() -> Seq<char> {
    seq!['#', '0', '0', '0', '0', '0', '0']
}

/// The colour of the integer hue `hue`, in degrees and taken modulo 360.
pub open spec fn hue_color(hue: u32) -> Seq<char> {
    hex_color(hue_channels(hue as nat, 1))
}

/// The colour of an iteration count on a canvas for `steps` iterations.
///
/// A count from `steps - 1` on has the background colour. A lower count
/// has the hue `count * HUE_RANGE / steps + HUE_OFFSET`, so the hues of the
/// escaping points stay below `HUE_OFFSET + HUE_RANGE` degrees.
pub open spec fn count_color(count: u32, steps: u32) -> Seq<char> {
    if count >= steps - 1 {
        background()
    } else {
        hex_color(
            hue_channels((count * HUE_RANGE + HUE_OFFSET * steps) as nat, steps as nat),
        )
    }
}

/// One point to paint.
pub struct Dot {
    pub x: u32,
    pub y: u32,
    pub color: String,
}

/// The raster width and the iteration cap that a batch is painted for.
pub struct Canvas {
    steps: u32,
    width: u32,
}

impl Canvas {
    /// The iteration cap: counts are coloured relative to it.
    pub closed spec fn steps(&self) -> u32 {
        self.steps
    }

    /// The width of the raster in pixels.
    pub closed spec fn width(&self) -> u32 {
        self.width
    }

    pub fn new(steps: u32, width: u32) -> (canvas: Canvas)
        ensures
            canvas.steps() == steps,
            canvas.width() == width,
    {
        Canvas { steps, width }
    }

    /// The colour of the hue `hue`, given in whole degrees.
    pub fn hue_to_rgb(hue: u32) -> (color: String)
        ensures
            color@ == hue_color(hue),
    {
        let hue: u64 = hue as u64;
        to_hex(channels(hue, 1))
    }

    /// The colour of the hue that belongs to an iteration count.
    pub fn iterations_as_hue_to_rgb(&self, iterations: u32) -> (color: String)
        requires
            self.steps() > 0,
        ensures
            color@ == hex_color(
                hue_channels(
                    (iterations * HUE_RANGE + HUE_OFFSET * self.steps()) as nat,
                    self.steps() as nat,
                ),
            ),
    {
        let turned: u64 = (iterations as u64) * (HUE_RANGE as u64);
        let shift: u64 = (HUE_OFFSET as u64) * (self.steps as u64);
        to_hex(channels(turned + shift, self.steps))
    }

    /// The colour of an iteration count: the background for a point that
    /// did not escape, else the colour of the count's hue.
    pub fn color_of(&self, count: u32) -> (color: String)
        ensures
            color@ == count_color(count, self.steps()),
    {
        if self.steps == 0 || count >= self.steps - 1 {
            proof {
                reveal_strlit("#000000");
            }
            let color = String::from_str("#000000");
            assert(color@ =~= background());
            color
        } else {
            self.iterations_as_hue_to_rgb(count)
        }
    }

    /// The points of a batch in the order of the batch, each with its
    /// position on the raster and its colour.
    pub fn draw_results<const N: usize>(&self, points: &Points<N>) -> (dots: Vec<Dot>)
        requires
            points.wf(),
            points.num_points > 0 ==> points.x_start < self.width(),
            points.num_points > 0 ==> pixel_y(
                self.width(),
                (points.first(self.width()) + points.num_points - 1) as nat,
            ) <= u32::MAX,
        ensures
            dots.len() == points.num_points,
            forall|i: int|
                0 <= i < dots.len() ==> {
                    let n = points.first(self.width()) + i;
                    &&& (#[trigger] dots[i]).x == pixel_x(self.width(), n as nat)
                    &&& dots[i].y == pixel_y(self.width(), n as nat)
                    &&& dots[i].color@ == count_color(points.counts()[i], self.steps())
                },
    {
        let ghost first = points.first(self.width);
        let ghost w = self.width as int;
        let mut dots: Vec<Dot> = Vec::new();
        let mut x = points.x_start;
        let mut y = points.y_start;
        let mut i: usize = 0;
        while i < points.num_points
            invariant
                points.wf(),
                w == self.width,
                first == points.first(self.width),
                points.num_points > 0 ==> pixel_y(
                    self.width,
                    (first + points.num_points - 1) as nat,
                ) <= u32::MAX,
                i <= points.num_points,
                dots.len() == i,
                points.num_points > 0 ==> x < self.width,
                i < points.num_points ==> y as int * w + x == first + i,
                forall|k: int|
                    0 <= k < i ==> {
                        &&& (#[trigger] dots[k]).x == pixel_x(self.width, (first + k) as nat)
                        &&& dots[k].y == pixel_y(self.width, (first + k) as nat)
                        &&& dots[k].color@ == count_color(points.values[k], self.steps)
                    },
            decreases points.num_points - i,
        {
            let color = self.color_of(points.values[i]);
            proof {
                vstd::arithmetic::div_mod::lemma_fundamental_div_mod_converse(
                    first + i,
                    w,
                    y as int,
                    x as int,
                );
                if x + 1 >= self.width && i + 1 < points.num_points {
                    let last = first + points.num_points - 1;
                    assert((y + 1) * w == y * w + w) by (nonlinear_arith);
                    vstd::arithmetic::div_mod::lemma_fundamental_div_mod_converse(
                        first + i + 1,
                        w,
                        y + 1,
                        0,
                    );
                    vstd::arithmetic::div_mod::lemma_div_is_ordered(first + i + 1, last, w);
                }
            }
            dots.push(Dot { x, y, color });
            i = i + 1;
            if x + 1 >= self.width {
                x = 0;
                if i < points.num_points {
                    y = y + 1;
                }
            } else {
                x = x + 1;
            }
        }
        dots
    }
}

/// A point that escaped before the cap less one never has the background
/// colour, and its hue lies in the first five sixths of the colour wheel: one
/// of its channels is 255, and its hue is below `HUE_RANGE` degrees.
pub proof fn lemma_hue_is_not_background(count: u32, steps: u32)
    requires
        count < steps - 1,
    ensures
        count_color(count, steps) != background(),
        sector((count * HUE_RANGE) as nat, steps as nat) < 5,
{
    let num = (count * HUE_RANGE) as nat;
    let den = steps as nat;
    lemma_channel_bounds(num, den);
    let rgb = hue_channels(num, den);
    let text = hex_color(rgb);
    assert(hex_byte(255) =~= seq!['F', 'F']);
    assert(rgb.0 == 255 || rgb.1 == 255 || rgb.2 == 255);
    assert(text[1] == 'F' || text[3] == 'F' || text[5] == 'F');
    assert(num < 300 * den) by (nonlinear_arith)
        requires
            num == count * 300,
            count < den,
    ;
    vstd::arithmetic::div_mod::lemma_small_mod(num, 360 * den);
    assert(num / (60 * den) < 5) by (nonlinear_arith)
        requires
            num < 300 * den,
            den > 0,
    ;
}

/// The colour of a count depends on nothing but the count and the iteration
/// cap: two canvases for the same cap, whatever their widths, and two calls
/// on the same canvas, give the same colour.
pub proof fn lemma_color_repeats(first: Canvas, second: Canvas, count: u32, a: String, b: String)
    requires
        first.steps() == second.steps(),
        a@ == count_color(count, first.steps()),
        b@ == count_color(count, second.steps()),
    ensures
        a@ == b@,
{
}

} // verus!
