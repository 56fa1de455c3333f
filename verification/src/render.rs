//! The field evaluator: per-pixel plane coordinates, escape counts,
//! palette bucketing, and row-major assembly of the pixel buffer.

use crate::color::Pixel;
use crate::fixed::{
    abs_int, lemma_tdiv_bound, lemma_tdiv_cancel_common, lemma_tdiv_is_div, lemma_tdiv_nested,
    tdiv, tdiv_i128, Fx, SCALE,
};
use crate::julia::{escape_count, escape_count_spec};
use crate::linmap::{lin_map, lin_map_spec};
use vstd::arithmetic::div_mod::{
    lemma_div_by_multiple, lemma_div_is_ordered, lemma_div_of0, lemma_div_pos_is_pos,
    lemma_fundamental_div_mod, lemma_mod_division_less_than_divisor, lemma_multiply_divide_lt,
};
use vstd::arithmetic::mul::{
    lemma_mul_inequality, lemma_mul_is_commutative, lemma_mul_is_distributive_add_other_way,
    lemma_mul_nonnegative,
};
use vstd::prelude::*;

verus! {

/// Raw lower end of a plane-axis window: `offset - scale / 2`.
pub open spec fn axis_lo(scale: int, off: int) -> int {
    off - tdiv(scale, 2)
}

/// Raw upper end of a plane-axis window: `offset + scale / 2`.
pub open spec fn axis_hi(scale: int, off: int) -> int {
    off + tdiv(scale, 2)
}

/// The plane coordinate of pixel index `pix` on an axis of `extent`
/// pixels: the linear map from `[0, extent)` onto the axis window.
pub open spec fn coord_spec(pix: int, extent: int, scale: int, off: int) -> int {
    lin_map_spec(pix * SCALE, 0, extent * SCALE, axis_lo(scale, off), axis_hi(scale, off))
}

/// The palette bucket of a recorded iteration count: the linear map from
/// `[0, max_iter)` onto `[0, n_colors - 1]`, truncated to an integer.
pub open spec fn palette_index_spec(count: int, max_iter: int, n_colors: int) -> int {
    tdiv(count * (n_colors - 1), max_iter)
}

/// Maps a pixel index to its plane coordinate on one axis.
pub fn pixel_coord(pix: usize, extent: usize, scale: Fx, off: Fx) -> (r: Fx)
    requires
        pix < extent,
        extent <= 0x10_0000,
        abs_int(scale.v as int) <= 0x1000_0000_0000,
        abs_int(off.v as int) <= 0x1000_0000_0000,
    ensures
        r.v == coord_spec(pix as int, extent as int, scale.v as int, off.v as int),
        abs_int(r.v as int) <= 0x4000_0000_0000,
{
    let v = Fx::from_int(pix as i64);
    let lo_s = Fx::from_int(0);
    let hi_s = Fx::from_int(extent as i64);
    proof {
        lemma_tdiv_bound(scale.v as int, 2, 0x800_0000_0000);
    }
    let half: i64 = tdiv_i128(scale.v as i128, 2) as i64;
    let lo_d = Fx { v: off.v - half };
    let hi_d = Fx { v: off.v + half };
    proof {
        let num = (v.v as int) * ((hi_d.v as int) - (lo_d.v as int));
        assert(abs_int(num) <= 0x1000_0000_0000 * (hi_s.v as int)) by (nonlinear_arith)
            requires
                num == (v.v as int) * ((hi_d.v as int) - (lo_d.v as int)),
                0 <= v.v as int <= hi_s.v as int,
                abs_int((hi_d.v as int) - (lo_d.v as int)) <= 0x1000_0000_0000,
        ;
        lemma_tdiv_bound(num, hi_s.v as int, 0x1000_0000_0000);
    }
    lin_map(v, lo_s, hi_s, lo_d, hi_d)
}

/// Maps a recorded iteration count to a palette index by the shared
/// linear map, truncating the result to an integer bucket.
pub fn palette_index(count: u32, max_iter: u32, n_colors: usize) -> (idx: usize)
    requires
        count < max_iter,
        max_iter <= 0x4000_0000,
        1 <= n_colors <= 0x4000_0000,
    ensures
        idx == palette_index_spec(count as int, max_iter as int, n_colors as int),
        idx < n_colors,
{
    let v = Fx::from_int(count as i64);
    let lo_s = Fx::from_int(0);
    let hi_s = Fx::from_int(max_iter as i64);
    let lo_d = Fx::from_int(0);
    let hi_d = Fx::from_int((n_colors - 1) as i64);
    proof {
        let num = (v.v as int) * (hi_d.v as int);
        assert(0 <= num <= 0x4000_0000_0000_0000 * (hi_s.v as int)) by (nonlinear_arith)
            requires
                num == (v.v as int) * (hi_d.v as int),
                0 <= v.v as int <= hi_s.v as int,
                0 <= hi_d.v as int <= 0x4000_0000_0000_0000,
        ;
        lemma_tdiv_bound(num, hi_s.v as int, 0x4000_0000_0000_0000);
    }
    let r = lin_map(v, lo_s, hi_s, lo_d, hi_d);
    proof {
        let cc = count as int;
        let mm = max_iter as int;
        let nn = n_colors as int;
        let s = SCALE as int;
        let a = cc * (nn - 1);
        lemma_mul_nonnegative(cc, nn - 1);
        assert((cc * s) * ((nn - 1) * s) == (a * s) * s) by (nonlinear_arith)
            requires
                a == cc * (nn - 1),
        ;
        lemma_mul_nonnegative(a, s);
        lemma_tdiv_cancel_common(a * s, mm, s);
        assert(r.v == tdiv(a * s, mm));
        lemma_tdiv_nested(a, mm, s);
        // the bucket stays below the palette length
        lemma_mul_inequality(cc, mm, nn - 1);
        lemma_tdiv_is_div(a, mm);
        lemma_div_is_ordered(a, mm * (nn - 1), mm);
        lemma_mul_is_commutative(mm, nn - 1);
        lemma_div_by_multiple(nn - 1, mm);
        lemma_div_pos_is_pos(a, mm);
        assert(0 <= tdiv(a, mm) <= nn - 1);
    }
    let idx128: i128 = tdiv_i128(r.v as i128, 0x1_0000_0000i128);
    idx128 as usize
}

/// Index bucketing law: iteration count 0 always lands in the first
/// palette bucket, and with a single-color palette the last recorded
/// count (`max_iter - 1`) lands in the last (only) bucket.
pub proof fn lemma_index_bucketing(max_iter: int, n_colors: int)
    requires
        1 <= max_iter,
        1 <= n_colors,
    ensures
        palette_index_spec(0, max_iter, n_colors) == 0,
        n_colors == 1 ==> palette_index_spec(max_iter - 1, max_iter, n_colors) == n_colors - 1,
{
    lemma_div_of0(max_iter);
    assert(0int * (n_colors - 1) == 0);
    assert((max_iter - 1) * 0 == 0);
}

/// The full configuration of one rendering run: image dimensions, the
/// palette, the complex constant, the iteration budget and escape
/// threshold, and the plane window (scale and offsets).
pub struct Config {
    pub width: usize,
    pub height: usize,
    pub palette: Vec<Pixel>,
    pub ca: Fx,
    pub cb: Fx,
    pub max_iter: u32,
    pub threshold: Fx,
    pub scale: Fx,
    pub x_off: Fx,
    pub y_off: Fx,
}

/// The bounds a well-formed configuration obeys; they are what the
/// fixed-point evaluation needs to stay within machine integer ranges.
pub open spec fn config_ok(
    width: int,
    height: int,
    n_colors: int,
    ca: int,
    cb: int,
    max_iter: int,
    threshold: int,
    scale: int,
    x_off: int,
    y_off: int,
) -> bool {
    &&& 1 <= width <= 0x10_0000
    &&& 1 <= height <= 0x10_0000
    &&& width * height * 4 <= usize::MAX
    &&& 1 <= n_colors <= 0x4000_0000
    &&& 1 <= max_iter <= 0x4000_0000
    &&& 0 < threshold <= 0x400_0000_0000_0000
    &&& -0x1000_0000_0000 <= scale <= 0x1000_0000_0000
    &&& -0x1000_0000_0000 <= x_off <= 0x1000_0000_0000
    &&& -0x1000_0000_0000 <= y_off <= 0x1000_0000_0000
    &&& -0x4_0000_0000_0000 <= ca <= 0x4_0000_0000_0000
    &&& -0x4_0000_0000_0000 <= cb <= 0x4_0000_0000_0000
}

impl Config {
    /// Well-formedness of a configuration.
    pub open spec fn wf(&self) -> bool {
        config_ok(
            self.width as int,
            self.height as int,
            self.palette.len() as int,
            self.ca.v as int,
            self.cb.v as int,
            self.max_iter as int,
            self.threshold.v as int,
            self.scale.v as int,
            self.x_off.v as int,
            self.y_off.v as int,
        )
    }

    /// Builds a configuration, accepting exactly the values that satisfy
    /// the well-formedness bounds and rejecting all others.
    pub fn new(
        width: usize,
        height: usize,
        palette: Vec<Pixel>,
        ca: Fx,
        cb: Fx,
        max_iter: u32,
        threshold: Fx,
        scale: Fx,
        x_off: Fx,
        y_off: Fx,
    ) -> (r: Option<Config>)
        ensures
            r is Some <==> config_ok(
                width as int,
                height as int,
                palette.len() as int,
                ca.v as int,
                cb.v as int,
                max_iter as int,
                threshold.v as int,
                scale.v as int,
                x_off.v as int,
                y_off.v as int,
            ),
            r matches Some(c) ==> c == (Config {
                width,
                height,
                palette,
                ca,
                cb,
                max_iter,
                threshold,
                scale,
                x_off,
                y_off,
            }) && c.wf(),
    {
        if width < 1 || width > 0x10_0000 || height < 1 || height > 0x10_0000 {
            return None;
        }
        proof {
            assert((width as int) * (height as int) <= 0x10_0000 * 0x10_0000) by (nonlinear_arith)
                requires
                    1 <= width <= 0x10_0000,
                    1 <= height <= 0x10_0000,
            ;
        }
        if (width as u128) * (height as u128) * 4 > usize::MAX as u128 {
            return None;
        }
        let counts_ok = 1 <= palette.len() && palette.len() <= 0x4000_0000 && 1 <= max_iter
            && max_iter <= 0x4000_0000;
        let threshold_ok = 0 < threshold.v && threshold.v <= 0x400_0000_0000_0000;
        let window_ok = -0x1000_0000_0000 <= scale.v && scale.v <= 0x1000_0000_0000
            && -0x1000_0000_0000 <= x_off.v && x_off.v <= 0x1000_0000_0000 && -0x1000_0000_0000
            <= y_off.v && y_off.v <= 0x1000_0000_0000;
        let c_ok = -0x4_0000_0000_0000 <= ca.v && ca.v <= 0x4_0000_0000_0000 && -0x4_0000_0000_0000
            <= cb.v && cb.v <= 0x4_0000_0000_0000;
        if counts_ok && threshold_ok && window_ok && c_ok {
            Some(Config { width, height, palette, ca, cb, max_iter, threshold, scale, x_off, y_off })
        } else {
            None
        }
    }
}

/// The color of pixel `(x, y)` under configuration `cfg`: the palette
/// entry selected by the escape count of the mapped plane coordinate.
pub open spec fn pixel_color_spec(cfg: Config, x: int, y: int) -> Pixel {
    let za0 = coord_spec(x, cfg.width as int, cfg.scale.v as int, cfg.x_off.v as int);
    let zb0 = coord_spec(y, cfg.height as int, cfg.scale.v as int, cfg.y_off.v as int);
    let count = escape_count_spec(
        za0,
        zb0,
        cfg.ca.v as int,
        cfg.cb.v as int,
        cfg.threshold.v as int,
        cfg.max_iter as int,
    );
    cfg.palette@[palette_index_spec(count, cfg.max_iter as int, cfg.palette.len() as int)]
}

/// Evaluates one pixel: coordinate mapping, escape-time iteration, and
/// palette lookup.
pub fn pixel_color(cfg: &Config, x: usize, y: usize) -> (p: Pixel)
    requires
        cfg.wf(),
        x < cfg.width,
        y < cfg.height,
    ensures
        p == pixel_color_spec(*cfg, x as int, y as int),
{
    let za0 = pixel_coord(x, cfg.width, cfg.scale, cfg.x_off);
    let zb0 = pixel_coord(y, cfg.height, cfg.scale, cfg.y_off);
    let count = escape_count(za0, zb0, cfg.ca, cfg.cb, cfg.threshold, cfg.max_iter);
    let idx = palette_index(count, cfg.max_iter, cfg.palette.len());
    cfg.palette[idx]
}

/// The whole pixel field as a row-major sequence: entry `i` is the color
/// of pixel `(i % width, i / width)`.
pub open spec fn buffer_spec(cfg: Config) -> Seq<Pixel> {
    Seq::new(
        (cfg.width * cfg.height) as nat,
        |i: int| pixel_color_spec(cfg, i % (cfg.width as int), i / (cfg.width as int)),
    )
}

/// Evaluates the full field in row-major order (top-to-bottom rows,
/// left-to-right within a row), one palette color per pixel.
pub fn render(cfg: &Config) -> (buf: Vec<Pixel>)
    requires
        cfg.wf(),
    ensures
        buf@.len() == cfg.width * cfg.height,
        forall|y: int, x: int|
            0 <= y < cfg.height && 0 <= x < cfg.width ==> buf@[y * (cfg.width as int) + x]
                == pixel_color_spec(*cfg, x, y),
        buf@ == buffer_spec(*cfg),
{
    let ghost w = cfg.width as int;
    let ghost h = cfg.height as int;
    let mut buf: Vec<Pixel> = Vec::new();
    let mut y: usize = 0;
    while y < cfg.height
        invariant
            cfg.wf(),
            w == cfg.width as int,
            h == cfg.height as int,
            y <= cfg.height,
            buf@.len() == y * w,
            forall|yy: int, xx: int|
                0 <= yy < y && 0 <= xx < w ==> buf@[yy * w + xx] == pixel_color_spec(*cfg, xx, yy),
        decreases h - y,
    {
        let mut x: usize = 0;
        while x < cfg.width
            invariant
                cfg.wf(),
                w == cfg.width as int,
                h == cfg.height as int,
                y < cfg.height,
                x <= cfg.width,
                buf@.len() == y * w + x,
                forall|yy: int, xx: int|
                    0 <= yy < y && 0 <= xx < w ==> buf@[yy * w + xx] == pixel_color_spec(
                        *cfg,
                        xx,
                        yy,
                    ),
                forall|xx: int|
                    0 <= xx < x ==> buf@[y * w + xx] == pixel_color_spec(*cfg, xx, y as int),
            decreases w - x,
        {
            let p = pixel_color(cfg, x, y);
            buf.push(p);
            proof {
                assert forall|yy: int, xx: int| 0 <= yy < y && 0 <= xx < w implies #[trigger] (yy
                    * w + xx) < y * w by {
                    lemma_mul_inequality(yy + 1, y as int, w);
                    lemma_mul_is_distributive_add_other_way(w, yy, 1);
                }
            }
            x = x + 1;
        }
        proof {
            lemma_mul_is_distributive_add_other_way(w, y as int, 1);
        }
        y = y + 1;
    }
    proof {
        lemma_mul_is_commutative(h, w);
        assert forall|i: int| 0 <= i < w * h implies buf@[i] == buffer_spec(*cfg)[i] by {
            lemma_fundamental_div_mod(i, w);
            lemma_mod_division_less_than_divisor(i, w);
            lemma_multiply_divide_lt(i, w, h);
            lemma_mul_is_commutative(w, i / w);
        }
        assert(buf@ =~= buffer_spec(*cfg));
    }
    buf
}

} // verus!
