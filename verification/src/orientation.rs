//! Laws of EXIF orientation: every orientation is undone by applying it
//! again, except the two quarter turns (6 and 8), which undo each other.
//!
//! Each orientation is a remapping of pixels (`remap`); two remappings in
//! a row are one remapping by the composed source map, and a remapping by
//! the identity map gives back the picture it started from.
use vstd::prelude::*;

use vstd::arithmetic::div_mod::{lemma_fundamental_div_mod, lemma_fundamental_div_mod_converse};

use crate::imaging::{
    buffer_len, flip_source, half_source, mirror_source, mirrored, oriented, pixel_bytes,
    quarter_source, remap, three_quarters_source, turned_quarter, turned_three_quarters,
    well_formed, PixelModel,
};

verus! {

/// The source map that first asks `g`, then `f`: the source of pixel
/// `(x, y)` after remapping by `f` and then by `g`.
pub open spec fn compose(
    f: spec_fn(int, int) -> (int, int),
    g: spec_fn(int, int) -> (int, int),
) -> spec_fn(int, int) -> (int, int) {
    |x: int, y: int| f(g(x, y).0, g(x, y).1)
}

proof fn lemma_pixel_bytes_positive(m: PixelModel)
    ensures
        pixel_bytes(m.color) > 0,
{
}

/// Byte `i` of a `w` x `h` picture of `b` bytes per pixel is byte `i % b`
/// of pixel `(x, y)` with `x < w` and `y < h`.
proof fn lemma_split_index(i: int, w: int, h: int, b: int)
    requires
        w > 0,
        b > 0,
        0 <= i < b * w * h,
    ensures
        0 <= (i / b) % w < w,
        0 <= (i / b) / w < h,
        0 <= i % b < b,
        i == (((i / b) / w) * w + (i / b) % w) * b + i % b,
{
    lemma_fundamental_div_mod(i, b);
    let p = i / b;
    lemma_fundamental_div_mod(p, w);
    assert(0 <= p < w * h) by (nonlinear_arith)
        requires
            b > 0,
            0 <= i < b * w * h,
            i == b * p + i % b,
            0 <= i % b < b,
    ;
    assert(0 <= p / w < h) by (nonlinear_arith)
        requires
            w > 0,
            0 <= p < w * h,
            p == w * (p / w) + p % w,
            0 <= p % w < w,
    ;
    assert(i == ((p / w) * w + p % w) * b + i % b) by (nonlinear_arith)
        requires
            i == b * p + i % b,
            p == w * (p / w) + p % w,
    ;
}

/// Byte `c` of pixel `(x, y)` of a `w` x `h` picture of `b` bytes per
/// pixel lies at `(y * w + x) * b + c`, inside the picture.
proof fn lemma_join_index(x: int, y: int, c: int, w: int, h: int, b: int)
    requires
        0 <= x < w,
        0 <= y < h,
        0 <= c < b,
    ensures
        ((y * w + x) * b + c) / b == y * w + x,
        ((y * w + x) * b + c) % b == c,
        (y * w + x) % w == x,
        (y * w + x) / w == y,
        0 <= (y * w + x) * b + c < b * w * h,
{
    lemma_fundamental_div_mod_converse((y * w + x) * b + c, b, y * w + x, c);
    lemma_fundamental_div_mod_converse(y * w + x, w, y, x);
    assert(0 <= (y * w + x) * b + c < b * w * h) by (nonlinear_arith)
        requires
            0 <= x < w,
            0 <= y < h,
            0 <= c < b,
    ;
}

/// Remapping by `f` and then by `g` is remapping by their composition, when
/// `g` only asks for pixels inside the first result.
proof fn lemma_remap_compose(
    m: PixelModel,
    w1: u32,
    h1: u32,
    f: spec_fn(int, int) -> (int, int),
    w2: u32,
    h2: u32,
    g: spec_fn(int, int) -> (int, int),
)
    requires
        forall|x: int, y: int|
            0 <= x < w2 && 0 <= y < h2 ==> 0 <= #[trigger] g(x, y).0 < w1 && 0 <= g(x, y).1 < h1,
    ensures
        remap(remap(m, w1, h1, f), w2, h2, g) == remap(m, w2, h2, compose(f, g)),
{
    let b = pixel_bytes(m.color);
    lemma_pixel_bytes_positive(m);
    let m1 = remap(m, w1, h1, f);
    let left = remap(m1, w2, h2, g);
    let right = remap(m, w2, h2, compose(f, g));
    assert forall|i: int| 0 <= i < left.data.len() implies #[trigger] left.data[i]
        == right.data[i] by {
        let w = w2 as int;
        let h = h2 as int;
        if w == 0 {
            assert(b * w * h == 0) by (nonlinear_arith)
                requires
                    w == 0,
            ;
        }
        lemma_split_index(i, w, h, b);
        let x = (i / b) % w;
        let y = (i / b) / w;
        let a = g(x, y).0;
        let c = g(x, y).1;
        lemma_join_index(a, c, i % b, w1 as int, h1 as int, b);
        let j = (c * w1 + a) * b + i % b;
        assert(0 <= j < m1.data.len());
    }
    assert(left.data =~= right.data);
}

/// Remapping a well-formed picture by a map that sends every pixel to
/// itself gives the picture back.
proof fn lemma_remap_identity(m: PixelModel, f: spec_fn(int, int) -> (int, int))
    requires
        well_formed(m),
        forall|x: int, y: int|
            0 <= x < m.width && 0 <= y < m.height ==> #[trigger] f(x, y) == (x, y),
    ensures
        remap(m, m.width, m.height, f) == m,
{
    let b = pixel_bytes(m.color);
    lemma_pixel_bytes_positive(m);
    let r = remap(m, m.width, m.height, f);
    assert(buffer_len(m.width, m.height, b) == b * m.width * m.height);
    assert forall|i: int| 0 <= i < r.data.len() implies #[trigger] r.data[i] == m.data[i] by {
        let w = m.width as int;
        let h = m.height as int;
        if w == 0 {
            assert(b * w * h == 0) by (nonlinear_arith)
                requires
                    w == 0,
            ;
        }
        lemma_split_index(i, w, h, b);
    }
    assert(r.data =~= m.data);
}

/// A source map that keeps every pixel of a `w` x `h` picture inside it.
pub open spec fn stays_inside(g: spec_fn(int, int) -> (int, int), w: int, h: int, w1: int, h1: int) -> bool {
    forall|x: int, y: int|
        0 <= x < w && 0 <= y < h ==> 0 <= #[trigger] g(x, y).0 < w1 && 0 <= g(x, y).1 < h1
}

/// A source map that sends every pixel of a `w` x `h` picture to itself.
pub open spec fn is_identity_on(f: spec_fn(int, int) -> (int, int), w: int, h: int) -> bool {
    forall|x: int, y: int| 0 <= x < w && 0 <= y < h ==> #[trigger] f(x, y) == (x, y)
}

/// EXIF orientations 2, 3, 4, 5 and 7 each undo themselves: applying one
/// twice gives the picture back.
pub proof fn lemma_orientation_undoes_itself(orientation: i32, m: PixelModel)
    requires
        well_formed(m),
        orientation == 2 || orientation == 3 || orientation == 4 || orientation == 5
            || orientation == 7,
    ensures
        oriented(orientation, oriented(orientation, m)) == m,
{
    let w = m.width;
    let h = m.height;
    if orientation == 2 {
        let f = mirror_source(w);
        assert(stays_inside(f, w as int, h as int, w as int, h as int));
        lemma_remap_compose(m, w, h, f, w, h, f);
        assert(is_identity_on(compose(f, f), w as int, h as int));
        lemma_remap_identity(m, compose(f, f));
    } else if orientation == 3 {
        let f = half_source(w, h);
        assert(stays_inside(f, w as int, h as int, w as int, h as int));
        lemma_remap_compose(m, w, h, f, w, h, f);
        assert(is_identity_on(compose(f, f), w as int, h as int));
        lemma_remap_identity(m, compose(f, f));
    } else if orientation == 4 {
        let f = flip_source(h);
        assert(stays_inside(f, w as int, h as int, w as int, h as int));
        lemma_remap_compose(m, w, h, f, w, h, f);
        assert(is_identity_on(compose(f, f), w as int, h as int));
        lemma_remap_identity(m, compose(f, f));
    } else if orientation == 5 {
        let c1 = compose(quarter_source(h), mirror_source(h));
        assert(stays_inside(mirror_source(h), h as int, w as int, h as int, w as int));
        lemma_remap_compose(m, h, w, quarter_source(h), h, w, mirror_source(h));
        let c2 = compose(c1, quarter_source(w));
        assert(stays_inside(quarter_source(w), w as int, h as int, h as int, w as int));
        lemma_remap_compose(m, h, w, c1, w, h, quarter_source(w));
        let c3 = compose(c2, mirror_source(w));
        assert(stays_inside(mirror_source(w), w as int, h as int, w as int, h as int));
        lemma_remap_compose(m, w, h, c2, w, h, mirror_source(w));
        assert(is_identity_on(c3, w as int, h as int));
        lemma_remap_identity(m, c3);
    } else {
        let c1 = compose(three_quarters_source(w), mirror_source(h));
        assert(stays_inside(mirror_source(h), h as int, w as int, h as int, w as int));
        lemma_remap_compose(m, h, w, three_quarters_source(w), h, w, mirror_source(h));
        let c2 = compose(c1, three_quarters_source(h));
        assert(stays_inside(three_quarters_source(h), w as int, h as int, h as int, w as int));
        lemma_remap_compose(m, h, w, c1, w, h, three_quarters_source(h));
        let c3 = compose(c2, mirror_source(w));
        assert(stays_inside(mirror_source(w), w as int, h as int, w as int, h as int));
        lemma_remap_compose(m, w, h, c2, w, h, mirror_source(w));
        assert(is_identity_on(c3, w as int, h as int));
        lemma_remap_identity(m, c3);
    }
}

/// EXIF orientations 6 and 8 (a quarter turn and three quarter turns)
/// undo each other.
pub proof fn lemma_quarter_turns_undo_each_other(m: PixelModel)
    requires
        well_formed(m),
    ensures
        oriented(8, oriented(6, m)) == m,
        oriented(6, oriented(8, m)) == m,
{
    let w = m.width;
    let h = m.height;
    assert(stays_inside(three_quarters_source(h), w as int, h as int, h as int, w as int));
    lemma_remap_compose(m, h, w, quarter_source(h), w, h, three_quarters_source(h));
    assert(is_identity_on(compose(quarter_source(h), three_quarters_source(h)), w as int, h as int));
    lemma_remap_identity(m, compose(quarter_source(h), three_quarters_source(h)));
    assert(stays_inside(quarter_source(w), w as int, h as int, h as int, w as int));
    lemma_remap_compose(m, h, w, three_quarters_source(w), w, h, quarter_source(w));
    assert(is_identity_on(compose(three_quarters_source(w), quarter_source(w)), w as int, h as int));
    lemma_remap_identity(m, compose(three_quarters_source(w), quarter_source(w)));
}

/// Sample `c` of pixel `(x, y)` of a picture (column `x` from the left,
/// row `y` from the top).
pub open spec fn pixel_at(m: PixelModel, x: int, y: int, c: int) -> u8 {
    m.data[(y * m.width + x) * pixel_bytes(m.color) + c]
}

/// Remapping moves pixels as its source map says: pixel `(x, y)` of the
/// result is pixel `source(x, y)` of the picture, sample by sample, and
/// the color layout is kept.
pub proof fn lemma_remap_pixel(
    m: PixelModel,
    w: u32,
    h: u32,
    source: spec_fn(int, int) -> (int, int),
    x: int,
    y: int,
    c: int,
)
    requires
        0 <= x < w,
        0 <= y < h,
        0 <= c < pixel_bytes(m.color),
    ensures
        remap(m, w, h, source).color == m.color,
        pixel_at(remap(m, w, h, source), x, y, c) == pixel_at(
            m,
            source(x, y).0,
            source(x, y).1,
            c,
        ),
{
    let b = pixel_bytes(m.color);
    lemma_join_index(x, y, c, w as int, h as int, b);
    let r = remap(m, w, h, source);
    assert(0 <= (y * w + x) * b + c < r.data.len());
}

/// Where EXIF orientation puts each pixel. For a `w` x `h` picture,
/// orientations 5 to 8 give an `h` x `w` picture, the others a `w` x `h`
/// one, and pixel `(x, y)` of the result is, in the picture as stored:
/// 2 (mirror) `(w-1-x, y)`; 3 (half turn) `(w-1-x, h-1-y)`; 4 (flip)
/// `(x, h-1-y)`; 5 (transpose) `(y, x)`; 6 (a quarter turn clockwise)
/// `(y, h-1-x)`; 7 (transverse) `(w-1-y, h-1-x)`; 8 (a quarter turn
/// counter-clockwise) `(w-1-y, x)`; any other value `(x, y)`.
pub proof fn lemma_orientation_moves_pixels(orientation: i32, m: PixelModel, x: int, y: int, c: int)
    requires
        0 <= c < pixel_bytes(m.color),
        0 <= x < (if 5 <= orientation <= 8 {
            m.height
        } else {
            m.width
        }),
        0 <= y < (if 5 <= orientation <= 8 {
            m.width
        } else {
            m.height
        }),
    ensures
        oriented(orientation, m).color == m.color,
        oriented(orientation, m).width == (if 5 <= orientation <= 8 {
            m.height
        } else {
            m.width
        }),
        oriented(orientation, m).height == (if 5 <= orientation <= 8 {
            m.width
        } else {
            m.height
        }),
        pixel_at(oriented(orientation, m), x, y, c) == (if orientation == 2 {
            pixel_at(m, m.width - 1 - x, y, c)
        } else if orientation == 3 {
            pixel_at(m, m.width - 1 - x, m.height - 1 - y, c)
        } else if orientation == 4 {
            pixel_at(m, x, m.height - 1 - y, c)
        } else if orientation == 5 {
            pixel_at(m, y, x, c)
        } else if orientation == 6 {
            pixel_at(m, y, m.height - 1 - x, c)
        } else if orientation == 7 {
            pixel_at(m, m.width - 1 - y, m.height - 1 - x, c)
        } else if orientation == 8 {
            pixel_at(m, m.width - 1 - y, x, c)
        } else {
            pixel_at(m, x, y, c)
        }),
{
    let w = m.width;
    let h = m.height;
    if orientation == 2 {
        lemma_remap_pixel(m, w, h, mirror_source(w), x, y, c);
    } else if orientation == 3 {
        lemma_remap_pixel(m, w, h, half_source(w, h), x, y, c);
    } else if orientation == 4 {
        lemma_remap_pixel(m, w, h, flip_source(h), x, y, c);
    } else if orientation == 5 {
        let t = turned_quarter(m);
        lemma_remap_pixel(t, h, w, mirror_source(h), x, y, c);
        lemma_remap_pixel(m, h, w, quarter_source(h), h - 1 - x, y, c);
    } else if orientation == 6 {
        lemma_remap_pixel(m, h, w, quarter_source(h), x, y, c);
    } else if orientation == 7 {
        let t = turned_three_quarters(m);
        lemma_remap_pixel(t, h, w, mirror_source(h), x, y, c);
        lemma_remap_pixel(m, h, w, three_quarters_source(w), h - 1 - x, y, c);
    } else if orientation == 8 {
        lemma_remap_pixel(m, h, w, three_quarters_source(w), x, y, c);
    }
}

} // verus!
