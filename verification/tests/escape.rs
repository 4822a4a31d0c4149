use mandelbrot::escape::{escape_time_of, EscapeCounter};

/// Runs the orbit of `z -> z * z + c` from zero in `f64`, with `c = x_0 + y_0 i`,
/// and lets the counter decide after each test of `|z| <= 2`.
fn escape_time(x_0: f64, y_0: f64, bound: usize) -> usize {
    let mut x: f64 = 0.0;
    let mut y: f64 = 0.0;
    let mut counter = EscapeCounter::start(bound);
    while counter.advance(x * x + y * y <= 4.0) {
        let x_new = x * x - y * y + x_0;
        let y_new = 2.0 * x * y + y_0;
        x = x_new;
        y = y_new;
    }
    counter.iteration
}

#[test]
fn counter_starts_at_zero() {
    let counter = EscapeCounter::start(30);
    assert_eq!(counter.iteration, 0);
    assert_eq!(counter.bound, 30);
    assert_eq!(counter, EscapeCounter { iteration: 0, bound: 30 });
}

#[test]
fn counter_counts_a_passed_test() {
    let mut counter = EscapeCounter::start(30);
    assert!(counter.advance(true));
    assert_eq!(counter, EscapeCounter { iteration: 1, bound: 30 });
    assert!(counter.advance(true));
    assert_eq!(counter, EscapeCounter { iteration: 2, bound: 30 });
}

#[test]
fn counter_stops_at_a_failed_test() {
    let mut counter = EscapeCounter::start(30);
    assert!(counter.advance(true));
    assert!(!counter.advance(false));
    assert_eq!(counter, EscapeCounter { iteration: 1, bound: 30 });
    assert!(!counter.advance(false));
    assert_eq!(counter.iteration, 1);
}

#[test]
fn counter_stops_at_the_cap() {
    let mut counter = EscapeCounter::start(3);
    assert!(counter.advance(true));
    assert!(counter.advance(true));
    assert!(counter.advance(true));
    assert!(!counter.advance(true));
    assert_eq!(counter, EscapeCounter { iteration: 3, bound: 3 });
    assert!(!counter.advance(true));
    assert_eq!(counter.iteration, 3);
}

#[test]
fn counter_with_cap_zero_never_goes_on() {
    let mut counter = EscapeCounter::start(0);
    assert!(!counter.advance(true));
    assert_eq!(counter.iteration, 0);
    assert!(!counter.advance(false));
    assert_eq!(counter.iteration, 0);
}

#[test]
fn counter_resumes_from_a_given_count() {
    let mut counter = EscapeCounter { iteration: 28, bound: 30 };
    assert!(counter.advance(true));
    assert!(counter.advance(true));
    assert!(!counter.advance(true));
    assert_eq!(counter.iteration, 30);
}

#[test]
fn escape_time_of_is_the_place_of_the_first_failed_test() {
    assert_eq!(escape_time_of(&vec![true, false, true, true], 30), 1);
    assert_eq!(escape_time_of(&vec![true, true, false, true], 30), 2);
    assert_eq!(escape_time_of(&vec![true, true, true, false], 30), 3);
    assert_eq!(escape_time_of(&vec![false, true, true, true], 30), 0);
}

#[test]
fn escape_time_of_is_capped() {
    let within = vec![true, true, true, true, false];
    assert_eq!(escape_time_of(&within, 0), 0);
    assert_eq!(escape_time_of(&within, 1), 1);
    assert_eq!(escape_time_of(&within, 3), 3);
    assert_eq!(escape_time_of(&within, 4), 4);
    assert_eq!(escape_time_of(&within, 5), 4);
    assert_eq!(escape_time_of(&within, 500), 4);
}

#[test]
fn escape_time_of_an_orbit_that_never_fails_is_the_cap() {
    let within = vec![true; 31];
    for bound in 0..=30usize {
        assert_eq!(escape_time_of(&within, bound), bound);
    }
}

#[test]
fn escape_time_of_stops_where_the_outcomes_end() {
    assert_eq!(escape_time_of(&Vec::new(), 30), 0);
    assert_eq!(escape_time_of(&vec![true, true], 30), 2);
    assert_eq!(escape_time_of(&vec![true, true], 2), 2);
    assert_eq!(escape_time_of(&vec![true, true], 1), 1);
}

#[test]
fn escape_time_of_is_one_when_the_second_test_fails() {
    for bound in 1..50usize {
        assert_eq!(escape_time_of(&vec![true, false], bound), 1);
        assert_eq!(escape_time_of(&vec![true, false, true, true, true], bound), 1);
    }
}

#[test]
fn escape_time_of_lies_between_one_and_the_cap() {
    let tables: Vec<Vec<bool>> = vec![
        vec![true, false, false, true, true, true],
        vec![true, true, true, false, true, true],
        vec![true, true, true, true, true, true],
    ];
    for within in tables.iter() {
        for bound in 1..=5usize {
            let time = escape_time_of(within, bound);
            assert!(1 <= time && time <= bound);
        }
    }
}

#[test]
fn escape_time_of_never_falls_when_the_cap_rises() {
    let within = vec![true, true, true, true, true, true, true, false, true, true, true, true];
    let mut last = 0;
    for bound in 0..=11usize {
        let time = escape_time_of(&within, bound);
        assert!(last <= time);
        assert_eq!(time, bound.min(7));
        last = time;
    }
}

#[test]
fn escape_time_of_reads_only_the_outcomes_below_the_cap() {
    let first = vec![true, true, true, false, false];
    let second = vec![true, true, true, true, true];
    for bound in 0..=3usize {
        assert_eq!(escape_time_of(&first, bound), escape_time_of(&second, bound));
    }
    assert_ne!(escape_time_of(&first, 4), escape_time_of(&second, 4));
}

#[test]
fn escape_time_of_agrees_with_the_counter() {
    let within = vec![true, true, true, true, false, true];
    for bound in 0..=5usize {
        let mut counter = EscapeCounter::start(bound);
        let mut point = 0;
        while counter.advance(within[point]) {
            point += 1;
        }
        assert_eq!(counter.iteration, escape_time_of(&within, bound));
    }
}

#[test]
fn a_point_outside_radius_two_escapes_at_once() {
    for &bound in [1usize, 2, 30, 1000].iter() {
        assert_eq!(escape_time(2.5, 0.0, bound), 1);
        assert_eq!(escape_time(0.0, -2.001, bound), 1);
        assert_eq!(escape_time(-1.5, 1.5, bound), 1);
        assert_eq!(escape_time(-2.0, 0.001, bound), 1);
    }
}

#[test]
fn the_top_left_corner_of_the_viewport_escapes_at_once() {
    assert_eq!(escape_time(-2.333, 1.25, 30), 1);
}

#[test]
fn the_origin_never_escapes() {
    for &bound in [1usize, 30, 500].iter() {
        assert_eq!(escape_time(0.0, 0.0, bound), bound);
    }
}

#[test]
fn points_of_the_cardioid_and_the_bulb_never_escape() {
    for &bound in [1usize, 30, 500].iter() {
        assert_eq!(escape_time(-0.1, 0.1, bound), bound);
        assert_eq!(escape_time(0.25, 0.0, bound), bound);
        assert_eq!(escape_time(-1.0, 0.0, bound), bound);
        assert_eq!(escape_time(-1.1, 0.1, bound), bound);
        assert_eq!(escape_time(-2.0, 0.0, bound), bound);
    }
}

#[test]
fn orbits_that_escape_late_are_counted_step_by_step() {
    assert_eq!(escape_time(1.0, 1.0, 30), 2);
    assert_eq!(escape_time(1.0, 0.0, 30), 3);
    assert_eq!(escape_time(0.5, 0.0, 30), 5);
    assert_eq!(escape_time(0.5, 0.0, 4), 4);
    assert_eq!(escape_time(1.0, 0.0, 2), 2);
}

#[test]
fn a_larger_cap_never_lowers_the_escape_time() {
    let points = [(0.3, 0.5), (-0.75, 0.1), (0.26, 0.0), (-2.0, 0.0), (1.0, 1.0), (0.5, 0.0)];
    for &(x_0, y_0) in points.iter() {
        let top = escape_time(x_0, y_0, 200);
        let mut last = 0;
        for bound in 1..200usize {
            let time = escape_time(x_0, y_0, bound);
            assert!(last <= time && 1 <= time && time <= bound);
            assert_eq!(time, bound.min(top));
            last = time;
        }
    }
}

#[test]
fn the_same_point_and_cap_give_the_same_escape_time() {
    let points = [(0.3, 0.5), (-0.75, 0.1), (-2.333, 1.25), (0.0, 0.0)];
    for &(x_0, y_0) in points.iter() {
        let first = escape_time(x_0, y_0, 30);
        let _other = escape_time(1.0, 1.0, 7);
        assert_eq!(escape_time(x_0, y_0, 30), first);
    }
}
