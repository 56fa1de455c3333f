use julia_png::color::Pixel;
use julia_png::fixed::Fx;
use julia_png::image::to_rgba_bytes;
use julia_png::render::{palette_index, pixel_color, render, Config};

fn julia_constant() -> (Fx, Fx) {
    (Fx::from_ratio(-7269, 10000), Fx::from_ratio(1889, 10000))
}

fn small_config(width: usize, height: usize, palette: Vec<Pixel>, max_iter: u32) -> Config {
    let (ca, cb) = julia_constant();
    Config::new(
        width,
        height,
        palette,
        ca,
        cb,
        max_iter,
        Fx::from_int(100),
        Fx::from_ratio(1, 2),
        Fx::from_ratio(15, 100),
        Fx::from_ratio(25, 100),
    )
    .expect("configuration within bounds")
}

#[test]
fn index_bucketing_values() {
    // Count 0 lands in the first bucket for every palette size.
    assert_eq!(palette_index(0, 1000, 5), 0);
    assert_eq!(palette_index(0, 2, 1), 0);
    // Exact truncated value: 999 * 4 / 1000 = 3.996, truncated to 3.
    assert_eq!(palette_index(999, 1000, 5), 3);
    // With a single color every count lands in that color's bucket.
    assert_eq!(palette_index(999, 1000, 1), 0);
    assert_eq!(palette_index(1, 2, 1), 0);
}

#[test]
fn config_validation() {
    let palette = vec![Pixel::from_hex(0x000000)];
    let (ca, cb) = julia_constant();
    let bad = Config::new(
        0,
        1,
        palette.clone(),
        ca,
        cb,
        10,
        Fx::from_int(100),
        Fx::from_ratio(1, 2),
        Fx::from_int(0),
        Fx::from_int(0),
    );
    assert!(bad.is_none());
    let empty_palette = Config::new(
        1,
        1,
        Vec::new(),
        ca,
        cb,
        10,
        Fx::from_int(100),
        Fx::from_ratio(1, 2),
        Fx::from_int(0),
        Fx::from_int(0),
    );
    assert!(empty_palette.is_none());
    let zero_iter = Config::new(
        1,
        1,
        palette.clone(),
        ca,
        cb,
        0,
        Fx::from_int(100),
        Fx::from_ratio(1, 2),
        Fx::from_int(0),
        Fx::from_int(0),
    );
    assert!(zero_iter.is_none());
    let good = Config::new(
        1,
        1,
        palette,
        ca,
        cb,
        10,
        Fx::from_int(100),
        Fx::from_ratio(1, 2),
        Fx::from_int(0),
        Fx::from_int(0),
    );
    assert!(good.is_some());
}

#[test]
fn buffer_is_row_major() {
    let palette = vec![
        Pixel::from_hex(0x000000),
        Pixel::from_hex(0x9B1D1D),
        Pixel::from_hex(0xFFFFFF),
    ];
    let cfg = small_config(3, 2, palette, 20);
    let buf = render(&cfg);
    assert_eq!(buf.len(), 6);
    for y in 0..2usize {
        for x in 0..3usize {
            assert_eq!(buf[y * 3 + x], pixel_color(&cfg, x, y));
        }
    }
}

#[test]
fn end_to_end_two_pixel_scenario() {
    let black = Pixel::from_hex(0x000000);
    let white = Pixel::from_hex(0xFFFFFF);
    let cfg = small_config(2, 1, vec![black, white], 2);
    let buf = render(&cfg);
    assert_eq!(buf.len(), 2);
    for p in &buf {
        assert!(*p == black || *p == white);
    }
    let bytes = to_rgba_bytes(&buf);
    assert_eq!(bytes.len(), 8);
    assert_eq!(black.to_u8(), [0, 0, 0, 255]);
    assert_eq!(white.to_u8(), [255, 255, 255, 255]);
    // With max_iter = 2 both recorded counts (0 or 1) bucket to index 0,
    // so both pixels are opaque black.
    assert_eq!(bytes, vec![0, 0, 0, 255, 0, 0, 0, 255]);
}
