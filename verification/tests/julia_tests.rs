use julia_png::fixed::Fx;
use julia_png::julia::{escape_count, julia_step};

#[test]
fn step_is_exact_on_integers() {
    // (1 + 2i)^2 = -3 + 4i when c = 0.
    let (ra, rb) = julia_step(
        Fx::from_int(1),
        Fx::from_int(2),
        Fx::from_int(0),
        Fx::from_int(0),
    );
    assert_eq!(ra, Fx::from_int(-3));
    assert_eq!(rb, Fx::from_int(4));
}

#[test]
fn far_point_escapes_in_one_step() {
    let ca = Fx::from_ratio(-7269, 10000);
    let cb = Fx::from_ratio(1889, 10000);
    let count = escape_count(
        Fx::from_int(10),
        Fx::from_int(10),
        ca,
        cb,
        Fx::from_int(100),
        50,
    );
    assert_eq!(count, 0);
}

#[test]
fn origin_does_not_escape_within_small_budget() {
    let ca = Fx::from_ratio(-7269, 10000);
    let cb = Fx::from_ratio(1889, 10000);
    let count = escape_count(
        Fx::from_int(0),
        Fx::from_int(0),
        ca,
        cb,
        Fx::from_int(100),
        50,
    );
    assert_eq!(count, 49);
}

#[test]
fn non_escape_records_last_loop_index() {
    // A fixed point of z^2 (z0 = 1, c = 0) never escapes: the recorded
    // count is max_iter - 1, not max_iter.
    let count = escape_count(
        Fx::from_int(1),
        Fx::from_int(0),
        Fx::from_int(0),
        Fx::from_int(0),
        Fx::from_int(100),
        7,
    );
    assert_eq!(count, 6);
}

#[test]
fn escape_checks_squared_magnitude() {
    // z0 = 4 with c = 0 squares to 16; 16^2 = 256 exceeds the threshold
    // of 100 at the very first step.
    let count = escape_count(
        Fx::from_int(4),
        Fx::from_int(0),
        Fx::from_int(0),
        Fx::from_int(0),
        Fx::from_int(100),
        50,
    );
    assert_eq!(count, 0);
}
