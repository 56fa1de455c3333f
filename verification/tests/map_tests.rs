use julia_png::fixed::Fx;
use julia_png::linmap::lin_map;

#[test]
fn map_test() {
    let v = Fx::from_int(0);
    let r = lin_map(v, Fx::from_int(0), Fx::from_int(1), Fx::from_int(0), Fx::from_int(255));
    assert_eq!(r, Fx::from_int(0));

    let v = Fx::from_int(1);
    let r = lin_map(v, Fx::from_int(0), Fx::from_int(1), Fx::from_int(0), Fx::from_int(255));
    assert_eq!(r, Fx::from_int(255));

    let v = Fx::from_ratio(1, 2);
    let r = lin_map(v, Fx::from_int(0), Fx::from_int(1), Fx::from_int(0), Fx::from_int(255));
    assert_eq!(r, Fx::from_ratio(255, 2));
}

#[test]
fn map_boundary_general_range() {
    let a = Fx::from_int(10);
    let b = Fx::from_int(20);
    let c = Fx::from_int(100);
    let d = Fx::from_int(200);
    assert_eq!(lin_map(a, a, b, c, d), c);
    assert_eq!(lin_map(b, a, b, c, d), d);
    assert_eq!(lin_map(Fx::from_int(15), a, b, c, d), Fx::from_int(150));
}

#[test]
fn map_keeps_fractions() {
    // 1 mapped from [0, 3] onto [0, 1] is exactly the fixed-point third.
    let r = lin_map(
        Fx::from_int(1),
        Fx::from_int(0),
        Fx::from_int(3),
        Fx::from_int(0),
        Fx::from_int(1),
    );
    assert_eq!(r, Fx::from_ratio(1, 3));
}

#[test]
fn map_descending_destination() {
    // A reversed destination range maps the start of the source to the
    // high end and the end of the source to the low end.
    let a = Fx::from_int(0);
    let b = Fx::from_int(4);
    let c = Fx::from_int(8);
    let d = Fx::from_int(0);
    assert_eq!(lin_map(a, a, b, c, d), c);
    assert_eq!(lin_map(b, a, b, c, d), d);
    assert_eq!(lin_map(Fx::from_int(2), a, b, c, d), Fx::from_int(4));
}
