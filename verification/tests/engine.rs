use fractals::cursor::FractalCursor;
use fractals::fractal::{Fractal, Points, CHECK_INTERVAL, MAX_POINTS};
use fractals::julia_set::JuliaSet;
use fractals::orbit::escape_time;
use std::cell::Cell;

// ------ the cursor ------

#[test]
fn cursor_starts_at_the_origin() {
    let cursor = FractalCursor::new(4, 3);
    assert!(!cursor.is_done());
    assert_eq!((cursor.x(), cursor.y()), (0, 0));
}

#[test]
fn cursor_walks_row_by_row() {
    let mut cursor = FractalCursor::new(3, 2);
    let mut seen = Vec::new();
    while !cursor.is_done() {
        seen.push((cursor.x(), cursor.y()));
        cursor.advance();
    }
    assert_eq!(seen, vec![(0, 0), (1, 0), (2, 0), (0, 1), (1, 1), (2, 1)]);
    assert_eq!((cursor.x(), cursor.y()), (0, 2));
}

#[test]
fn cursor_of_an_empty_raster_is_done() {
    assert!(FractalCursor::new(0, 0).is_done());
    assert!(FractalCursor::new(0, 5).is_done());
    assert!(FractalCursor::new(5, 0).is_done());
    assert!(!FractalCursor::new(1, 1).is_done());
}

#[test]
fn cursor_of_a_single_pixel() {
    let mut cursor = FractalCursor::new(1, 1);
    cursor.advance();
    assert!(cursor.is_done());
    assert_eq!((cursor.x(), cursor.y()), (0, 1));
}

#[test]
fn cursor_in_the_last_column_there_is() {
    let mut cursor = FractalCursor::new(u32::MAX, 1);
    for _ in 0..5 {
        cursor.advance();
    }
    assert_eq!((cursor.x(), cursor.y()), (5, 0));
    assert!(!cursor.is_done());
}

// ------ the escape time ------

fn doubling(start: u64, bound: u64, max_iterations: u32) -> u32 {
    escape_time(start, max_iterations, &|z: u64| z * 2, &|z: &u64| *z >= bound)
}

#[test]
fn escape_time_counts_from_one() {
    // 1, 2, 4, 8, 16, 32, 64, 128: the seventh step passes 100.
    assert_eq!(doubling(1, 100, 50), 7);
    // The first step escapes.
    assert_eq!(doubling(50, 100, 50), 1);
    assert_eq!(doubling(1, 2, 50), 1);
}

#[test]
fn escape_time_of_a_start_outside_is_zero() {
    assert_eq!(doubling(100, 100, 50), 0);
    assert_eq!(doubling(1000, 100, 50), 0);
    assert_eq!(doubling(1000, 100, 0), 0);
}

#[test]
fn escape_time_without_escape_is_one_above_the_cap() {
    // 0 stays 0.
    assert_eq!(doubling(0, 100, 50), 51);
    assert_eq!(doubling(0, 100, 1), 2);
    // With no step allowed, a start inside counts 1 and a start outside 0.
    assert_eq!(doubling(0, 100, 0), 1);
    // Seven steps are needed, six are allowed.
    assert_eq!(doubling(1, 100, 6), 7);
    // Seven steps are needed and allowed: an escape at the last step.
    assert_eq!(doubling(1, 100, 7), 7);
    // The same orbit under a cap of seven and of eight: the escape keeps its
    // count, and only an orbit that stays inside counts more.
    assert_eq!(doubling(1, 100, 8), 7);
    assert_eq!(doubling(0, 100, 7), 8);
    assert_eq!(doubling(0, 100, 8), 9);
}

#[test]
fn escape_time_does_not_change_with_a_higher_cap() {
    for bound in [2u64, 3, 100, 5000] {
        let mut before = doubling(1, bound, 0);
        for cap in 1..20u32 {
            let count = doubling(1, bound, cap);
            if before <= cap - 1 {
                // Escaped within the lower cap: the count stays.
                assert_eq!(count, before);
            } else {
                // Not escaped within the lower cap: the count is above it.
                assert_eq!(before, cap);
                assert!(count > cap - 1);
            }
            before = count;
        }
    }
}

#[test]
fn escape_time_stops_at_the_first_escape() {
    let steps = Cell::new(0u32);
    let count = escape_time(
        1u64,
        50,
        &|z: u64| {
            steps.set(steps.get() + 1);
            z * 2
        },
        &|z: &u64| *z >= 100,
    );
    assert_eq!(count, 7);
    assert_eq!(steps.get(), 7);
    // A value that comes back inside later does not count.
    let back = escape_time(0u32, 50, &|z: u32| z + 1, &|z: &u32| *z == 3 || *z == 4);
    assert_eq!(back, 3);
}

#[test]
fn escape_time_with_the_largest_cap() {
    assert_eq!(doubling(1, 100, u32::MAX - 1), 7);
    assert_eq!(escape_time(0u8, 3, &|z: u8| z, &|_: &u8| false), 4);
}

#[test]
fn engines_count_with_their_own_cap() {
    let fractal = Fractal::new(10, 10, 6);
    assert_eq!(fractal.iterate(1u64, &|z: u64| z * 2, &|z: &u64| *z >= 100), 7);
    let fractal = Fractal::new(10, 10, 400);
    assert_eq!(fractal.iterate(1u64, &|z: u64| z * 2, &|z: &u64| *z >= 100), 7);
    assert_eq!(fractal.iterate(100u64, &|z: u64| z * 2, &|z: &u64| *z >= 100), 0);
    let julia = JuliaSet::new(10, 10, 6);
    assert_eq!(julia.iterate(1u64, &|z: u64| z * 2, &|z: &u64| *z >= 100), 7);
    assert_eq!(julia.iterate(0u64, &|z: u64| z * 2, &|z: &u64| *z >= 100), 7);
    let julia = JuliaSet::new(10, 10, 400);
    assert_eq!(julia.iterate(1u64, &|z: u64| z * 2, &|z: &u64| *z >= 100), 7);
}

// ------ batches ------

#[test]
fn points_start_empty() {
    let points = Points::<5>::new();
    assert_eq!((points.x_start, points.y_start, points.num_points), (0, 0, 0));
    assert_eq!(points.values, [0u32; 5]);
    assert!(Points::<0>::new().values.is_empty());
}

/// Orbit of the pixel `(x, y)`: starts at `x + 1000 * y` and grows by one
/// until it reaches `bound`.
fn start_of(x: u32, y: u32) -> u64 {
    x as u64 + 1000 * y as u64
}

fn copy_of<const N: usize>(points: &Points<N>) -> (u32, u32, Vec<u32>) {
    (points.x_start, points.y_start, points.values[..points.num_points].to_vec())
}

#[test]
fn batch_of_a_small_raster_holds_every_pixel() {
    let mut fractal = Fractal::new(3, 2, 400);
    assert!(!fractal.is_done());
    let batch = fractal.calculate(start_of, |z| z + 1, |z| *z >= 1003, |_| false);
    // (0,0) -> 0 needs 1003 steps, more than the cap. (0,1) -> 1000 needs 3, (1,1) 2, (2,1) 1.
    assert_eq!(copy_of(batch), (0, 0, vec![401, 401, 401, 3, 2, 1]));
    assert_eq!(batch.values.len(), MAX_POINTS);
    assert!(fractal.is_done());
}

#[test]
fn batch_after_the_end_is_empty() {
    let mut fractal = Fractal::new(3, 2, 400);
    fractal.calculate(start_of, |z| z + 1, |z| *z >= 1003, |_| false);
    assert!(fractal.is_done());
    for _ in 0..3 {
        let batch = fractal.calculate(start_of, |z| z + 1, |z| *z >= 1003, |_| false);
        assert_eq!(copy_of(batch), (0, 2, vec![]));
        assert!(fractal.is_done());
    }
}

#[test]
fn batch_of_an_empty_raster_is_empty() {
    for (width, height) in [(0u32, 0u32), (0, 7), (7, 0)] {
        let mut fractal = Fractal::new(width, height, 400);
        assert!(fractal.is_done());
        let calls = Cell::new(0u32);
        let batch = fractal.calculate(
            |x, y| {
                calls.set(calls.get() + 1);
                start_of(x, y)
            },
            |z| z + 1,
            |z| *z >= 1003,
            |_| false,
        );
        assert_eq!(batch.num_points, 0);
        assert_eq!(calls.get(), 0);
        assert!(fractal.is_done());
    }
}

#[test]
fn batch_ends_with_the_buffer() {
    let mut fractal = Fractal::new(70, 30, 5);
    let batch = fractal.calculate(start_of, |z| z + 1, |_| false, |_| false);
    assert_eq!(batch.num_points, MAX_POINTS);
    assert_eq!((batch.x_start, batch.y_start), (0, 0));
    assert!(!fractal.is_done());
    let batch = fractal.calculate(start_of, |z| z + 1, |_| false, |_| false);
    assert_eq!(batch.num_points, MAX_POINTS);
    // 1000 = 14 * 70 + 20.
    assert_eq!((batch.x_start, batch.y_start), (20, 14));
    assert!(!fractal.is_done());
    let batch = fractal.calculate(start_of, |z| z + 1, |_| false, |_| false);
    assert_eq!(batch.num_points, 100);
    // 2000 = 28 * 70 + 40.
    assert_eq!((batch.x_start, batch.y_start), (40, 28));
    assert!(fractal.is_done());
}

#[test]
fn batch_of_a_julia_set_is_larger() {
    assert_eq!(fractals::julia_set::MAX_POINTS, 5000);
    let mut julia = JuliaSet::new(70, 100, 5);
    let batch = julia.calculate(start_of, |z| z + 1, |_| false, |_| false);
    assert_eq!(batch.num_points, 5000);
    assert_eq!(batch.values.len(), 5000);
    assert_eq!((batch.x_start, batch.y_start), (0, 0));
    assert!(!julia.is_done());
    let batch = julia.calculate(start_of, |z| z + 1, |_| false, |_| false);
    assert_eq!(batch.num_points, 2000);
    // 5000 = 71 * 70 + 30.
    assert_eq!((batch.x_start, batch.y_start), (30, 71));
    assert!(julia.is_done());
}

#[test]
fn batch_ends_when_the_time_is_up() {
    let mut fractal = Fractal::new(70, 30, 5);
    // The clock is looked at after the first point.
    let batch = fractal.calculate(start_of, |z| z + 1, |_| false, |_| true);
    assert_eq!(batch.num_points, 1);
    assert_eq!((batch.x_start, batch.y_start), (0, 0));
    let batch = fractal.calculate(start_of, |z| z + 1, |_| false, |_| true);
    assert_eq!(batch.num_points, 1);
    assert_eq!((batch.x_start, batch.y_start), (1, 0));
    assert!(!fractal.is_done());
}

#[test]
fn clock_is_read_every_tenth_point() {
    assert_eq!(CHECK_INTERVAL, 10);
    for allowed in 0..6u32 {
        let looks = Cell::new(0u32);
        let mut fractal = Fractal::new(70, 30, 5);
        let batch = fractal.calculate(
            start_of,
            |z| z + 1,
            |_| false,
            |_| {
                looks.set(looks.get() + 1);
                looks.get() > allowed
            },
        );
        // Looks follow the points 1, 11, 21, ...
        assert_eq!(batch.num_points as u32, 10 * allowed + 1);
        assert_eq!(looks.get(), allowed + 1);
    }
}

#[test]
fn clock_is_asked_with_the_points_written() {
    let asked = std::cell::RefCell::new(Vec::new());
    let mut fractal = Fractal::new(70, 30, 5);
    let batch = fractal.calculate(
        start_of,
        |z| z + 1,
        |_| false,
        |written| {
            asked.borrow_mut().push(written);
            written >= 31
        },
    );
    assert_eq!(batch.num_points, 31);
    assert_eq!(*asked.borrow(), vec![1, 11, 21, 31]);
}

#[test]
fn batch_ends_at_the_first_look_that_finds_the_time_used_up() {
    // Time is up at the second look and again later: the batch ends at the second.
    let mut fractal = Fractal::new(70, 30, 5);
    let batch =
        fractal.calculate(start_of, |z| z + 1, |_| false, |written| written == 11 || written > 40);
    assert_eq!(batch.num_points, 11);
    assert_eq!((batch.x_start, batch.y_start), (0, 0));
    assert!(!fractal.is_done());
    // The next batch starts after the last point written and counts its own points.
    let batch =
        fractal.calculate(start_of, |z| z + 1, |_| false, |written| written == 11 || written > 40);
    assert_eq!(batch.num_points, 11);
    assert_eq!((batch.x_start, batch.y_start), (11, 0));
    // Time that is up between two looks is found at the next look.
    let mut julia = JuliaSet::new(70, 100, 5);
    let batch = julia.calculate(start_of, |z| z + 1, |_| false, |written| written >= 15);
    assert_eq!(batch.num_points, 21);
    // No look says stop before the buffer is full.
    let mut fractal = Fractal::new(70, 30, 5);
    let batch = fractal.calculate(start_of, |z| z + 1, |_| false, |written| written > 991);
    assert_eq!(batch.num_points, 1000);
}

#[test]
fn clock_is_not_read_after_the_last_pixel() {
    let looks = Cell::new(0u32);
    let mut fractal = Fractal::new(1, 1, 5);
    let batch = fractal.calculate(
        start_of,
        |z| z + 1,
        |_| false,
        |_| {
            looks.set(looks.get() + 1);
            true
        },
    );
    assert_eq!(batch.num_points, 1);
    assert_eq!(looks.get(), 0);
    assert!(fractal.is_done());
    // Eleven pixels: one look, after the first.
    let mut fractal = Fractal::new(11, 1, 5);
    let batch = fractal.calculate(
        start_of,
        |z| z + 1,
        |_| false,
        |_| {
            looks.set(looks.get() + 1);
            false
        },
    );
    assert_eq!(batch.num_points, 11);
    assert_eq!(looks.get(), 1);
}

#[test]
fn batch_keeps_the_order_of_the_pixels() {
    let mut julia = JuliaSet::new(7, 5, 1000);
    let looks = Cell::new(0u32);
    let mut seen: Vec<u32> = Vec::new();
    let mut starts = Vec::new();
    while !julia.is_done() {
        let batch = julia.calculate(
            start_of,
            |z| z + 1,
            |z| *z % 1000 >= 7,
            |_| {
                looks.set(looks.get() + 1);
                looks.get() % 2 == 0
            },
        );
        starts.push((batch.x_start, batch.y_start, batch.num_points));
        seen.extend_from_slice(&batch.values[..batch.num_points]);
    }
    // Pixel (x, y) needs 7 - x steps, whatever its row.
    let row = [7u32, 6, 5, 4, 3, 2, 1];
    let expected: Vec<u32> = (0..5).flat_map(|_| row).collect();
    assert_eq!(seen, expected);
    // The time is up at every second look: batches of 11 points.
    assert_eq!(starts, vec![(0, 0, 11), (4, 1, 11), (1, 3, 11), (5, 4, 2)]);
}

/// Runs an engine to the end, the clock saying "time is up" by the given
/// pattern, and returns the number of times each pixel was handed out.
fn coverage(width: u32, height: u32, pattern: &[bool]) -> (usize, Vec<u32>) {
    let mut fractal = Fractal::new(width, height, 3);
    let looks = Cell::new(0usize);
    let mut hits = vec![0u32; (width * height) as usize];
    let mut total = 0usize;
    let mut rounds = 0;
    while !fractal.is_done() {
        let batch = fractal.calculate(
            |x, y| (x, y),
            |z| z,
            |_| false,
            |_| {
                looks.set(looks.get() + 1);
                pattern[looks.get() % pattern.len()]
            },
        );
        assert!(batch.num_points > 0);
        let first = (batch.y_start * width + batch.x_start) as usize;
        for offset in 0..batch.num_points {
            hits[first + offset] += 1;
        }
        total += batch.num_points;
        rounds += 1;
        assert!(rounds <= (width * height) as usize);
    }
    (total, hits)
}

#[test]
fn batches_cover_every_pixel_once() {
    let patterns: [&[bool]; 5] = [
        &[false],
        &[true],
        &[false, true],
        &[true, false, false],
        &[false, false, false, true, true],
    ];
    for (width, height) in [(1u32, 1u32), (1, 9), (9, 1), (7, 5), (64, 48), (100, 35), (33, 100)] {
        for pattern in patterns {
            let (total, hits) = coverage(width, height, pattern);
            assert_eq!(total, (width * height) as usize);
            assert!(hits.iter().all(|&n| n == 1));
        }
    }
}

#[test]
fn engine_can_rest_between_batches() {
    let mut fractal = Fractal::new(50, 50, 10);
    let first = copy_of(fractal.calculate(start_of, |z| z + 1, |z| *z % 7 == 0, |_| false));
    // Nothing happens while nobody calls.
    assert!(!fractal.is_done());
    assert!(!fractal.is_done());
    let second = copy_of(fractal.calculate(start_of, |z| z + 1, |z| *z % 7 == 0, |_| false));
    assert_eq!((first.0, first.1, first.2.len()), (0, 0, 1000));
    assert_eq!((second.0, second.1, second.2.len()), (0, 20, 1000));
    // A fresh engine over the same raster starts again at the origin.
    let mut again = Fractal::new(50, 50, 10);
    let anew = copy_of(again.calculate(start_of, |z| z + 1, |z| *z % 7 == 0, |_| false));
    assert_eq!(anew, first);
}

// ------ the two families ------

#[derive(Clone, Copy)]
struct Orbit {
    z: (f64, f64),
    c: (f64, f64),
}

fn step(orbit: Orbit) -> Orbit {
    let (re, im) = orbit.z;
    Orbit { z: (re * re - im * im + orbit.c.0, 2.0 * re * im + orbit.c.1), c: orbit.c }
}

fn beyond(orbit: &Orbit, threshold: f64) -> bool {
    orbit.z.0 * orbit.z.0 + orbit.z.1 * orbit.z.1 >= threshold
}

#[test]
fn mandelbrot_corner_escapes_and_centre_stays() {
    let (width, height) = (100u32, 100u32);
    let (min, max) = ((-2.0f64, -1.5f64), (1.0f64, 1.5f64));
    let scale = ((max.0 - min.0) / width as f64, (max.1 - min.1) / height as f64);
    let plane = |x: u32, y: u32| Orbit {
        z: (0.0, 0.0),
        c: (x as f64 * scale.0 + min.0, y as f64 * scale.1 + min.1),
    };
    let mut fractal = Fractal::new(width, height, 100);

    // Far outside the set: gone after the first step.
    let corner = fractal.iterate(plane(0, 0), &step, &|o: &Orbit| beyond(o, 4.0));
    assert_eq!(corner, 1);
    assert!(corner <= 5);
    // Deep inside the set: never escapes.
    let inside = plane(67, 50);
    assert!(inside.c.0.abs() < 0.02 && inside.c.1.abs() < 0.02);
    assert_eq!(fractal.iterate(inside, &step, &|o: &Orbit| beyond(o, 4.0)), 101);

    // The same two pixels in the batches.
    let mut counts: Vec<u32> = Vec::new();
    while !fractal.is_done() {
        let batch = fractal.calculate(plane, step, |o: &Orbit| beyond(o, 4.0), |_| false);
        counts.extend_from_slice(&batch.values[..batch.num_points]);
    }
    assert_eq!(counts.len(), 10_000);
    assert_eq!(counts[0], 1);
    assert_eq!(counts[50 * 100 + 67], 101);
    // No count is both an escape index and the mark of a point inside.
    assert!(counts.iter().all(|&count| count <= 101));
    // The picture is symmetric about the real axis: row 50 is the axis.
    for y in 1..50usize {
        for x in 0..100usize {
            assert_eq!(counts[(50 - y) * 100 + x], counts[(50 + y) * 100 + x]);
        }
    }
}

#[test]
fn julia_batches_match_single_orbits() {
    let (width, height) = (90u32, 60u32);
    let c = (-0.8f64, 0.156f64);
    let (min, max) = ((-1.5f64, -1.0f64), (1.5f64, 1.0f64));
    let scale = ((max.0 - min.0) / width as f64, (max.1 - min.1) / height as f64);
    let plane =
        |x: u32, y: u32| Orbit { z: (x as f64 * scale.0 + min.0, y as f64 * scale.1 + min.1), c };
    // An escape radius for this c: r * r - r >= |c|.
    let radius = 1.5f64;
    assert!(radius * radius - radius >= (c.0 * c.0 + c.1 * c.1).sqrt() - 0.1);
    let threshold = radius * radius;
    let mut julia = JuliaSet::new(width, height, 400);

    // The corner of the picture lies outside the radius from the start.
    let batch = julia.calculate(plane, step, |o: &Orbit| beyond(o, threshold), |_| false);
    assert_eq!(batch.values[0], 0);
    assert_eq!(batch.num_points, 5000);
    let first: Vec<u32> = batch.values[..batch.num_points].to_vec();
    let batch = julia.calculate(plane, step, |o: &Orbit| beyond(o, threshold), |_| false);
    assert_eq!(batch.num_points, 400);
    assert!(julia.is_done());
    // Each count is what the orbit of its pixel gives.
    for (index, count) in first.iter().enumerate().step_by(97) {
        let (x, y) = (index as u32 % width, index as u32 / width);
        let alone = julia.iterate(plane(x, y), &step, &|o: &Orbit| beyond(o, threshold));
        assert_eq!(*count, alone);
        assert!(*count <= 401);
    }
}
