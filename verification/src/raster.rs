//! Straight lines on a pixel grid.
//!
//! The pixels of a line are given in closed form: along the longer axis the
//! line visits every column (or row) between its end pixels once, and on the
//! other axis it takes the pixel nearest to the ideal line, the nearer to the
//! start where two are equally near. The drawing loop keeps an error term and
//! is proved to visit exactly these pixels.

use vstd::prelude::*;
use vstd::arithmetic::div_mod::{lemma_fundamental_div_mod, lemma_fundamental_div_mod_converse};

verus! {

/// The distance between two pixel coordinates.
pub open spec fn span(from: int, to: int) -> int {
    if to >= from {
        to - from
    } else {
        from - to
    }
}

/// The coordinate `d` pixels away from `from` in the direction of `to`.
pub open spec fn toward(from: int, to: int, d: int) -> int {
    if to >= from {
        from + d
    } else {
        from - d
    }
}

/// How far a line has moved along its shorter axis after `k` steps along the
/// longer one, for a line that is `n` pixels long and `m` pixels wide:
/// `k * m / n` rounded to the nearest integer, halves rounded down.
pub open spec fn minor_offset(k: int, n: int, m: int) -> int {
    if n > 0 {
        (2 * k * m + n - 1) / (2 * n)
    } else {
        0
    }
}

/// The number of steps from the first pixel of a line to its last.
pub open spec fn line_steps(a: (int, int), b: (int, int)) -> int {
    let dx = span(a.0, b.0);
    let dy = span(a.1, b.1);
    if dx >= dy {
        dx
    } else {
        dy
    }
}

/// The pixel that the line from `a` to `b` visits at step `k`.
pub open spec fn line_point(a: (int, int), b: (int, int), k: int) -> (int, int) {
    let dx = span(a.0, b.0);
    let dy = span(a.1, b.1);
    if dx >= dy {
        (toward(a.0, b.0, k), toward(a.1, b.1, minor_offset(k, dx, dy)))
    } else {
        (toward(a.0, b.0, minor_offset(k, dy, dx)), toward(a.1, b.1, k))
    }
}

/// The place of the pixel of step `k` in a row-major bitmap.
pub open spec fn line_index(a: (int, int), b: (int, int), width: int, k: int) -> int {
    line_point(a, b, k).1 * width + line_point(a, b, k).0
}

/// Whether one of the first `upto` pixels of the line lies at place `i`.
pub open spec fn hits_within(a: (int, int), b: (int, int), width: int, upto: int, i: int) -> bool {
    exists|k: int| 0 <= k < upto && #[trigger] line_index(a, b, width, k) == i
}

/// Whether the line from `a` to `b` passes through the pixel at place `i`.
pub open spec fn hits(a: (int, int), b: (int, int), width: int, i: int) -> bool {
    hits_within(a, b, width, line_steps(a, b) + 1, i)
}

/// A bitmap after the first `upto` pixels of a line were set to full
/// intensity.
pub open spec fn stamp_within(
    bitmap: Seq<u8>,
    width: int,
    a: (int, int),
    b: (int, int),
    upto: int,
) -> Seq<u8> {
    Seq::new(bitmap.len(), |i: int| if hits_within(a, b, width, upto, i) { 255u8 } else { bitmap[i] })
}

/// A bitmap after the line from `a` to `b` was drawn into it: the pixels of
/// the line have full intensity, all others are as they were.
pub open spec fn stamp(bitmap: Seq<u8>, width: int, a: (int, int), b: (int, int)) -> Seq<u8> {
    stamp_within(bitmap, width, a, b, line_steps(a, b) + 1)
}

/// The offset on the shorter axis is within half a pixel of the ideal line.
pub proof fn lemma_minor_offset_near(k: int, n: int, m: int)
    requires
        n > 0,
    ensures
        -n <= 2 * (minor_offset(k, n, m) * n - k * m) < n,
{
    let x = 2 * k * m + n - 1;
    let d = 2 * n;
    lemma_fundamental_div_mod(x, d);
    let q = x / d;
    let r = x % d;
    assert(0 <= r < d);
    assert(d * q == 2 * (q * n)) by (nonlinear_arith)
        requires
            d == 2 * n,
    ;
    assert(2 * k * m == 2 * (k * m)) by (nonlinear_arith);
}

/// The offset on the shorter axis is the only integer within half a pixel of
/// the ideal line, halves counted to the smaller one.
pub proof fn lemma_minor_offset_unique(k: int, n: int, m: int, b: int)
    requires
        n > 0,
        -n <= 2 * (b * n - k * m) < n,
    ensures
        b == minor_offset(k, n, m),
{
    let x = 2 * k * m + n - 1;
    let d = 2 * n;
    let r = n - 1 - 2 * (b * n - k * m);
    assert(b * d == 2 * (b * n)) by (nonlinear_arith)
        requires
            d == 2 * n,
    ;
    assert(2 * k * m == 2 * (k * m)) by (nonlinear_arith);
    lemma_fundamental_div_mod_converse(x, d, b, r);
}

/// On the shorter axis a line starts at offset zero, ends at the full width
/// and stays in between.
pub proof fn lemma_minor_offset_range(k: int, n: int, m: int)
    requires
        0 <= m <= n,
        0 <= k <= n,
    ensures
        0 <= minor_offset(k, n, m) <= m,
        minor_offset(0, n, m) == 0,
        minor_offset(n, n, m) == m,
        m == n ==> minor_offset(k, n, m) == k,
{
    if n > 0 {
        lemma_minor_offset_near(k, n, m);
        let b = minor_offset(k, n, m);
        assert(0 <= b <= m) by (nonlinear_arith)
            requires
                -n <= 2 * (b * n - k * m) < n,
                0 <= m <= n,
                0 <= k <= n,
                n > 0,
        ;
        lemma_minor_offset_unique(0, n, m, 0);
        assert(2 * (m * n - n * m) == 0) by (nonlinear_arith);
        lemma_minor_offset_unique(n, n, m, m);
        if m == n {
            assert(2 * (k * n - k * m) == 0) by (nonlinear_arith)
                requires
                    m == n,
            ;
            lemma_minor_offset_unique(k, n, m, k);
        }
    }
}

/// A line starts at its first end pixel, ends at its second, and every pixel
/// of it lies in the rectangle that the two span.
pub proof fn lemma_line_point_in_box(a: (int, int), b: (int, int), k: int)
    requires
        0 <= k <= line_steps(a, b),
    ensures
        line_point(a, b, 0) == a,
        line_point(a, b, line_steps(a, b)) == b,
        a.0 <= line_point(a, b, k).0 <= b.0 || b.0 <= line_point(a, b, k).0 <= a.0,
        a.1 <= line_point(a, b, k).1 <= b.1 || b.1 <= line_point(a, b, k).1 <= a.1,
{
    let dx = span(a.0, b.0);
    let dy = span(a.1, b.1);
    if dx >= dy {
        lemma_minor_offset_range(k, dx, dy);
    } else {
        lemma_minor_offset_range(k, dy, dx);
    }
}

/// From one step to the next a line moves one pixel along its longer axis and
/// at most one pixel along the shorter.
pub proof fn law_line_is_connected(a: (int, int), b: (int, int), k: int)
    requires
        0 <= k < line_steps(a, b),
    ensures
        span(line_point(a, b, k).0, line_point(a, b, k + 1).0) <= 1,
        span(line_point(a, b, k).1, line_point(a, b, k + 1).1) <= 1,
        line_point(a, b, k) != line_point(a, b, k + 1),
{
    let dx = span(a.0, b.0);
    let dy = span(a.1, b.1);
    let n = if dx >= dy { dx } else { dy };
    let m = if dx >= dy { dy } else { dx };
    lemma_minor_offset_near(k, n, m);
    lemma_minor_offset_near(k + 1, n, m);
    let p = minor_offset(k, n, m);
    let q = minor_offset(k + 1, n, m);
    assert(p <= q <= p + 1) by (nonlinear_arith)
        requires
            -n <= 2 * (p * n - k * m) < n,
            -n <= 2 * (q * n - (k + 1) * m) < n,
            0 <= m <= n,
            n > 0,
    ;
}


/// Setting the pixel of step `upto` extends what the first `upto` pixels
/// cover by that pixel.
proof fn lemma_stamp_next(
    bitmap: Seq<u8>,
    width: int,
    a: (int, int),
    b: (int, int),
    upto: int,
)
    requires
        0 <= upto,
        0 <= line_index(a, b, width, upto) < bitmap.len(),
    ensures
        stamp_within(bitmap, width, a, b, upto).update(line_index(a, b, width, upto), 255u8)
            == stamp_within(bitmap, width, a, b, upto + 1),
{
    let before = stamp_within(bitmap, width, a, b, upto);
    let after = stamp_within(bitmap, width, a, b, upto + 1);
    let at = line_index(a, b, width, upto);
    assert forall|i: int| 0 <= i < bitmap.len() implies before.update(at, 255u8)[i] == after[i] by {
        if hits_within(a, b, width, upto, i) {
            let k = choose|k: int| 0 <= k < upto && #[trigger] line_index(a, b, width, k) == i;
            assert(0 <= k < upto + 1 && line_index(a, b, width, k) == i);
        }
        if hits_within(a, b, width, upto + 1, i) && i != at {
            let k = choose|k: int| 0 <= k < upto + 1 && #[trigger] line_index(a, b, width, k) == i;
            assert(0 <= k < upto && line_index(a, b, width, k) == i);
        }
    }
    assert(before.update(at, 255u8) =~= after);
}

/// Draws the line between two pixels of a row-major bitmap that is `width`
/// pixels wide and `height` pixels high: every pixel of the line is set to
/// full intensity.
pub fn draw_segment(
    data: &mut Vec<u8>,
    width: usize,
    height: usize,
    x0: usize,
    y0: usize,
    x1: usize,
    y1: usize,
)
    requires
        old(data).len() == width * height,
        x0 < width,
        x1 < width,
        y0 < height,
        y1 < height,
    ensures
        final(data)@ == stamp(
            old(data)@,
            width as int,
            (x0 as int, y0 as int),
            (x1 as int, y1 as int),
        ),
{
    let ghost before = data@;
    let ghost a = (x0 as int, y0 as int);
    let ghost b = (x1 as int, y1 as int);
    let ghost n = line_steps(a, b);
    let ghost m = if span(a.0, b.0) >= span(a.1, b.1) {
        span(a.1, b.1)
    } else {
        span(a.0, b.0)
    };
    let row: i128 = width as i128;
    let end_x: i128 = x1 as i128;
    let end_y: i128 = y1 as i128;
    let dx: i128 = if x1 >= x0 { (x1 - x0) as i128 } else { (x0 - x1) as i128 };
    let dy: i128 = if y1 >= y0 { (y1 - y0) as i128 } else { (y0 - y1) as i128 };
    let sx: i128 = if x1 > x0 { 1 } else if x1 < x0 { -1 } else { 0 };
    let sy: i128 = if y1 > y0 { 1 } else if y1 < y0 { -1 } else { 0 };
    let mut err: i128 = dx - dy;
    let mut x: i128 = x0 as i128;
    let mut y: i128 = y0 as i128;
    let ghost mut k: int = 0;
    proof {
        lemma_minor_offset_range(0, n, m);
        assert(stamp_within(before, width as int, a, b, 0) =~= before);
    }
    loop
        invariant_except_break
            (x as int, y as int) == line_point(a, b, k),
            err == (if dx >= dy {
                dx - dy + (minor_offset(k, n, m) * n - k * m)
            } else {
                dx - dy - (minor_offset(k, n, m) * n - k * m)
            }),
            data@ == stamp_within(before, width as int, a, b, k),
        invariant
            data.len() == width * height,
            before.len() == width * height,
            a == (x0 as int, y0 as int),
            b == (x1 as int, y1 as int),
            x0 < width,
            x1 < width,
            y0 < height,
            y1 < height,
            row == width,
            end_x == x1,
            end_y == y1,
            dx == span(a.0, b.0),
            dy == span(a.1, b.1),
            sx == (if x1 > x0 { 1int } else if x1 < x0 { -1int } else { 0int }),
            sy == (if y1 > y0 { 1int } else if y1 < y0 { -1int } else { 0int }),
            n == line_steps(a, b),
            m == (if dx >= dy { dy } else { dx }),
            0 <= k <= n,
        ensures
            data@ == stamp(before, width as int, a, b),
        decreases n - k,
    {
        proof {
            lemma_line_point_in_box(a, b, k);
            assert(0 <= y * row + x < width * height) by (nonlinear_arith)
                requires
                    0 <= x < width,
                    0 <= y < height,
                    row == width,
            ;
            assert(y * row + x == line_index(a, b, width as int, k));
        }
        let at: usize = (y * row + x) as usize;
        data.set(at, 255u8);
        proof {
            lemma_stamp_next(before, width as int, a, b, k);
        }
        if x == end_x && y == end_y {
            proof {
                assert(k == n);
            }
            break ;
        }
        proof {
            lemma_line_point_in_box(a, b, n);
            assert(k < n);
            lemma_minor_offset_near(k, n, m);
            lemma_minor_offset_range(k, n, m);
            lemma_minor_offset_range(k + 1, n, m);
        }
        let ghost p = minor_offset(k, n, m);
        let ghost e = p * n - k * m;
        proof {
            if m == n {
                assert(p * n - k * m == 0) by (nonlinear_arith)
                    requires
                        p == k,
                        m == n,
                ;
            }
            assert((p + 1) * n - (k + 1) * m == e + n - m) by (nonlinear_arith)
                requires
                    e == p * n - k * m,
            ;
            assert(p * n - (k + 1) * m == e - m) by (nonlinear_arith)
                requires
                    e == p * n - k * m,
            ;
        }
        let e2: i128 = 2 * err;
        let step_x: bool = e2 > -dy;
        let step_y: bool = e2 < dx;
        proof {
            let minor_steps = if dx >= dy { step_y } else { step_x };
            assert(minor_steps == (2 * e < 2 * m - n));
            assert(if dx >= dy { step_x } else { step_y });
            if minor_steps {
                lemma_minor_offset_unique(k + 1, n, m, p + 1);
            } else {
                lemma_minor_offset_unique(k + 1, n, m, p);
            }
        }
        if step_x {
            err -= dy;
            x += sx;
        }
        if step_y {
            err += dx;
            y += sy;
        }
        proof {
            k = k + 1;
        }
    }
}

} // verus!
