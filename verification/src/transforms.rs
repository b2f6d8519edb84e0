//! Affine transforms between geographic space, the view grid and a band's
//! native grid, in exact integer arithmetic.
//!
//! Geographic coordinates are whole numbers of a unit that the caller picks
//! (a fixed fraction of the reference system's unit). A band group's
//! pixel-to-geographic transform has integer coefficients in that unit; its
//! inverse is applied as an exact quotient and rounded outward.
use vstd::prelude::*;
use vstd::arithmetic::div_mod::{lemma_fundamental_div_mod, lemma_fundamental_div_mod_converse};
use crate::bounds::{Bounds, GeoBounds, GeoRect, ViewBounds};
use crate::view::chunking::Resampling;
use crate::errors::RusterioError;
use crate::geometry::{max_int, min_int, Rect};

verus! {

/// Largest magnitude of a geographic coordinate or transform coefficient.
pub const COORD_LIMIT: i64 = 0x2000_0000_0000_0000;

/// `v` can be a geographic coordinate or a transform coefficient.
pub open spec fn in_coord_range(v: int) -> bool {
    -COORD_LIMIT <= v <= COORD_LIMIT
}

pub open spec fn min4(a: int, b: int, c: int, d: int) -> int {
    min_int(min_int(a, b), min_int(c, d))
}

pub open spec fn max4(a: int, b: int, c: int, d: int) -> int {
    max_int(max_int(a, b), max_int(c, d))
}

/// The quotient `n / d` rounded towards minus infinity, for `d > 0`.
pub open spec fn floor_div(n: int, d: int) -> int {
    n / d
}

/// The quotient `n / d` rounded towards plus infinity, for `d > 0`.
pub open spec fn ceil_div(n: int, d: int) -> int {
    -((-n) / d)
}

/// An affine map of the plane with integer coefficients:
/// `(x, y)` goes to `(a x + b y + xoff, d x + e y + yoff)`.
pub ghost struct Affine {
    pub a: int,
    pub b: int,
    pub xoff: int,
    pub d: int,
    pub e: int,
    pub yoff: int,
}

impl Affine {
    pub open spec fn in_range(self) -> bool {
        &&& in_coord_range(self.a)
        &&& in_coord_range(self.b)
        &&& in_coord_range(self.xoff)
        &&& in_coord_range(self.d)
        &&& in_coord_range(self.e)
        &&& in_coord_range(self.yoff)
    }

    /// The image of the point `(x, y)`.
    pub open spec fn apply(self, x: int, y: int) -> (int, int) {
        (self.a * x + self.b * y + self.xoff, self.d * x + self.e * y + self.yoff)
    }

    /// Determinant of the linear part; the map can be inverted when it is
    /// not zero.
    pub open spec fn det(self) -> int {
        self.a * self.e - self.b * self.d
    }

    /// The positive denominator over which the preimage of a point is an
    /// exact quotient.
    pub open spec fn preimage_den(self) -> int {
        if self.det() > 0 {
            self.det()
        } else {
            -self.det()
        }
    }

    /// The numerators of the preimage of `(x, y)` over `preimage_den`.
    pub open spec fn preimage_num(self, x: int, y: int) -> (int, int) {
        let nx = self.e * (x - self.xoff) - self.b * (y - self.yoff);
        let ny = self.a * (y - self.yoff) - self.d * (x - self.xoff);
        if self.det() > 0 {
            (nx, ny)
        } else {
            (-nx, -ny)
        }
    }

    /// The preimage of `(x, y)`, each coordinate rounded down.
    pub open spec fn preimage_floor(self, x: int, y: int) -> (int, int) {
        let n = self.preimage_num(x, y);
        (floor_div(n.0, self.preimage_den()), floor_div(n.1, self.preimage_den()))
    }

    /// The preimage of `(x, y)`, each coordinate rounded up.
    pub open spec fn preimage_ceil(self, x: int, y: int) -> (int, int) {
        let n = self.preimage_num(x, y);
        (ceil_div(n.0, self.preimage_den()), ceil_div(n.1, self.preimage_den()))
    }

    /// The smallest rectangle with integer corners that holds the preimages
    /// of the four corners of `r`, and so the preimage of all of `r`.
    pub open spec fn preimage_cover(self, r: Rect) -> Rect {
        let f00 = self.preimage_floor(r.min_x, r.min_y);
        let f01 = self.preimage_floor(r.min_x, r.max_y);
        let f10 = self.preimage_floor(r.max_x, r.min_y);
        let f11 = self.preimage_floor(r.max_x, r.max_y);
        let c00 = self.preimage_ceil(r.min_x, r.min_y);
        let c01 = self.preimage_ceil(r.min_x, r.max_y);
        let c10 = self.preimage_ceil(r.max_x, r.min_y);
        let c11 = self.preimage_ceil(r.max_x, r.max_y);
        Rect {
            min_x: min4(f00.0, f01.0, f10.0, f11.0),
            min_y: min4(f00.1, f01.1, f10.1, f11.1),
            max_x: max4(c00.0, c01.0, c10.0, c11.0),
            max_y: max4(c00.1, c01.1, c10.1, c11.1),
        }
    }
}

impl Affine {
    /// The linear part has no shear and no rotation: columns run along the
    /// geographic x axis and rows along the y axis, in either sense.
    pub open spec fn axis_aligned(self) -> bool {
        self.b == 0 && self.d == 0
    }

    /// Whether the columns, and the rows, of the pixel grid run against
    /// those of a view, `(x, y)`. The columns of a view run with growing
    /// geographic x and its rows with falling geographic y, as those of a
    /// north-up raster do.
    pub open spec fn mirrored(self) -> (bool, bool) {
        (self.a < 0, self.e > 0)
    }

    /// The images of the four corners of the window of whole pixels that
    /// covers `region`.
    pub open spec fn cover_corners(self, region: Rect) -> (
        (int, int),
        (int, int),
        (int, int),
        (int, int),
    ) {
        let c = self.preimage_cover(region);
        (
            self.apply(c.min_x, c.min_y),
            self.apply(c.max_x, c.min_y),
            self.apply(c.min_x, c.max_y),
            self.apply(c.max_x, c.max_y),
        )
    }

    /// The part of geographic space that the window of whole pixels that
    /// covers `region` spans: the smallest rectangle that holds the images
    /// of its corners.
    pub open spec fn cover_extent(self, region: Rect) -> Rect {
        let e = self.cover_corners(region);
        Rect {
            min_x: min4(e.0.0, e.1.0, e.2.0, e.3.0),
            min_y: min4(e.0.1, e.1.1, e.2.1, e.3.1),
            max_x: max4(e.0.0, e.1.0, e.2.0, e.3.0),
            max_y: max4(e.0.1, e.1.1, e.2.1, e.3.1),
        }
    }

    /// The corners of the covering window and their images are all within
    /// `COORD_LIMIT`.
    pub open spec fn cover_extent_in_range(self, region: Rect) -> bool {
        let c = self.preimage_cover(region);
        let e = self.cover_corners(region);
        &&& in_coord_range(c.min_x)
        &&& in_coord_range(c.min_y)
        &&& in_coord_range(c.max_x)
        &&& in_coord_range(c.max_y)
        &&& in_coord_range(e.0.0) && in_coord_range(e.0.1)
        &&& in_coord_range(e.1.0) && in_coord_range(e.1.1)
        &&& in_coord_range(e.2.0) && in_coord_range(e.2.1)
        &&& in_coord_range(e.3.0) && in_coord_range(e.3.1)
    }

    /// The map that leaves every point where it is.
    pub open spec fn identity() -> Affine {
        Affine { a: 1, b: 0, xoff: 0, d: 0, e: 1, yoff: 0 }
    }

    /// The map that applies `self` first and `other` to what comes out.
    pub open spec fn compose(self, other: Affine) -> Affine {
        Affine {
            a: other.a * self.a + other.b * self.d,
            b: other.a * self.b + other.b * self.e,
            xoff: other.a * self.xoff + other.b * self.yoff + other.xoff,
            d: other.d * self.a + other.e * self.d,
            e: other.d * self.b + other.e * self.e,
            yoff: other.d * self.xoff + other.e * self.yoff + other.yoff,
        }
    }
}

/// `(p + q) x = p x + q x`, and `(k m) x = k (m x)`.
proof fn lemma_mul_basics(p: int, q: int, x: int)
    ensures
        (p + q) * x == p * x + q * x,
        x * (p + q) == x * p + x * q,
        (p * q) * x == p * (q * x),
{
    assert((p + q) * x == p * x + q * x) by (nonlinear_arith);
    assert(x * (p + q) == x * p + x * q) by (nonlinear_arith);
    assert((p * q) * x == p * (q * x)) by (nonlinear_arith);
}

/// One coordinate of the image under a composition: the row `(k, m, off)`
/// of the second map applied to the image under the first.
proof fn lemma_compose_row(
    k: int,
    m: int,
    off: int,
    s: Affine,
    x: int,
    y: int,
)
    ensures
        (k * s.a + m * s.d) * x + (k * s.b + m * s.e) * y + (k * s.xoff + m * s.yoff + off) == k
            * s.apply(x, y).0 + m * s.apply(x, y).1 + off,
{
    lemma_mul_basics(k * s.a, m * s.d, x);
    lemma_mul_basics(k, s.a, x);
    lemma_mul_basics(m, s.d, x);
    lemma_mul_basics(k * s.b, m * s.e, y);
    lemma_mul_basics(k, s.b, y);
    lemma_mul_basics(m, s.e, y);
    lemma_mul_basics(s.a * x, s.b * y, k);
    lemma_mul_basics(s.a * x + s.b * y, s.xoff, k);
    lemma_mul_basics(s.d * x, s.e * y, m);
    lemma_mul_basics(s.d * x + s.e * y, s.yoff, m);
}

/// The composition of two maps sends a point where the second map sends
/// its image under the first.
pub proof fn lemma_compose_applies(s: Affine, o: Affine, x: int, y: int)
    ensures
        s.compose(o).apply(x, y) == o.apply(s.apply(x, y).0, s.apply(x, y).1),
{
    lemma_compose_row(o.a, o.b, o.xoff, s, x, y);
    lemma_compose_row(o.d, o.e, o.yoff, s, x, y);
}

/// Two maps that agree on the origin and on the two unit points are the
/// same map.
pub proof fn lemma_affine_by_three_points(l: Affine, r: Affine)
    requires
        l.apply(0, 0) == r.apply(0, 0),
        l.apply(1, 0) == r.apply(1, 0),
        l.apply(0, 1) == r.apply(0, 1),
    ensures
        l == r,
{
}

/// Composition is associative.
pub proof fn lemma_compose_associative(s: Affine, o: Affine, t: Affine)
    ensures
        s.compose(o).compose(t) == s.compose(o.compose(t)),
{
    let l = s.compose(o).compose(t);
    let r = s.compose(o.compose(t));
    assert forall|x: int, y: int| #[trigger] l.apply(x, y) == r.apply(x, y) by {
        let p = s.apply(x, y);
        let q = o.apply(p.0, p.1);
        lemma_compose_applies(s.compose(o), t, x, y);
        lemma_compose_applies(s, o, x, y);
        lemma_compose_applies(s, o.compose(t), x, y);
        lemma_compose_applies(o, t, p.0, p.1);
    }
    assert(l.apply(0, 0) == r.apply(0, 0));
    assert(l.apply(1, 0) == r.apply(1, 0));
    assert(l.apply(0, 1) == r.apply(0, 1));
    lemma_affine_by_three_points(l, r);
}

/// Composing with the identity, on either side, changes nothing.
pub proof fn lemma_compose_identity(s: Affine)
    ensures
        s.compose(Affine::identity()) == s,
        Affine::identity().compose(s) == s,
{
}

/// The quotient by which a preimage is computed inverts the map exactly:
/// the image of an integer point has that point as its preimage, with
/// nothing to round.
pub proof fn lemma_preimage_of_image(t: Affine, px: int, py: int)
    requires
        t.det() != 0,
    ensures
        ({
            let g = t.apply(px, py);
            &&& t.preimage_num(g.0, g.1) == (px * t.preimage_den(), py * t.preimage_den())
            &&& t.preimage_floor(g.0, g.1) == (px, py)
            &&& t.preimage_ceil(g.0, g.1) == (px, py)
        }),
{
    let g = t.apply(px, py);
    let den = t.preimage_den();
    let nx = t.e * (g.0 - t.xoff) - t.b * (g.1 - t.yoff);
    let ny = t.a * (g.1 - t.yoff) - t.d * (g.0 - t.xoff);
    assert(nx == px * t.det()) by (nonlinear_arith)
        requires
            nx == t.e * (t.a * px + t.b * py) - t.b * (t.d * px + t.e * py),
            t.det() == t.a * t.e - t.b * t.d,
    ;
    assert(ny == py * t.det()) by (nonlinear_arith)
        requires
            ny == t.a * (t.d * px + t.e * py) - t.d * (t.a * px + t.b * py),
            t.det() == t.a * t.e - t.b * t.d,
    ;
    let n = t.preimage_num(g.0, g.1);
    assert(n.0 == px * den && n.1 == py * den) by (nonlinear_arith)
        requires
            nx == px * t.det(),
            ny == py * t.det(),
            n == if t.det() > 0 {
                (nx, ny)
            } else {
                (-nx, -ny)
            },
            den == if t.det() > 0 {
                t.det()
            } else {
                -t.det()
            },
    ;
    lemma_fundamental_div_mod_converse(n.0, den, px, 0);
    lemma_fundamental_div_mod_converse(n.1, den, py, 0);
    assert(-n.0 == (-px) * den && -n.1 == (-py) * den) by (nonlinear_arith)
        requires
            n.0 == px * den,
            n.1 == py * den,
    ;
    lemma_fundamental_div_mod_converse(-n.0, den, -px, 0);
    lemma_fundamental_div_mod_converse(-n.1, den, -py, 0);
}

/// A map `(u, v) -> a u + b v` takes, on a rectangle, no value below the
/// least and none above the greatest of its values at the four corners.
proof fn lemma_linear_between(
    a: int,
    b: int,
    u0: int,
    u1: int,
    v0: int,
    v1: int,
    u: int,
    v: int,
)
    requires
        u0 <= u <= u1,
        v0 <= v <= v1,
    ensures
        min4(a * u0 + b * v0, a * u0 + b * v1, a * u1 + b * v0, a * u1 + b * v1) <= a * u + b
            * v,
        a * u + b * v <= max4(
            a * u0 + b * v0,
            a * u0 + b * v1,
            a * u1 + b * v0,
            a * u1 + b * v1,
        ),
{
    assert(a >= 0 ==> a * u0 <= a * u <= a * u1) by (nonlinear_arith)
        requires
            u0 <= u <= u1,
    ;
    assert(a < 0 ==> a * u1 <= a * u <= a * u0) by (nonlinear_arith)
        requires
            u0 <= u <= u1,
    ;
    assert(b >= 0 ==> b * v0 <= b * v <= b * v1) by (nonlinear_arith)
        requires
            v0 <= v <= v1,
    ;
    assert(b < 0 ==> b * v1 <= b * v <= b * v0) by (nonlinear_arith)
        requires
            v0 <= v <= v1,
    ;
}

/// The window of whole pixels that covers a region holds the preimage of
/// every point of the region: rounding outward loses no part of it.
pub proof fn lemma_cover_holds_region(t: Affine, region: Rect, x: int, y: int)
    requires
        t.det() != 0,
        region.wf(),
        region.contains_point(x, y),
    ensures
        ({
            let cover = t.preimage_cover(region);
            &&& cover.min_x <= t.preimage_floor(x, y).0
            &&& t.preimage_ceil(x, y).0 <= cover.max_x
            &&& cover.min_y <= t.preimage_floor(x, y).1
            &&& t.preimage_ceil(x, y).1 <= cover.max_y
        }),
{
    let den = t.preimage_den();
    let u0 = region.min_x - t.xoff;
    let u1 = region.max_x - t.xoff;
    let v0 = region.min_y - t.yoff;
    let v1 = region.max_y - t.yoff;
    let u = x - t.xoff;
    let v = y - t.yoff;
    let s: int = if t.det() > 0 {
        1
    } else {
        -1
    };
    // the numerators are linear in the point, with these coefficients
    let ax = s * t.e;
    let bx = -s * t.b;
    let ay = -s * t.d;
    let by = s * t.a;
    lemma_numerators(t, region.min_x, region.min_y);
    lemma_numerators(t, region.min_x, region.max_y);
    lemma_numerators(t, region.max_x, region.min_y);
    lemma_numerators(t, region.max_x, region.max_y);
    lemma_numerators(t, x, y);
    lemma_linear_between(ax, bx, u0, u1, v0, v1, u, v);
    lemma_linear_between(ay, by, u0, u1, v0, v1, u, v);
    let n = t.preimage_num(x, y);
    let n00 = t.preimage_num(region.min_x, region.min_y);
    let n01 = t.preimage_num(region.min_x, region.max_y);
    let n10 = t.preimage_num(region.max_x, region.min_y);
    let n11 = t.preimage_num(region.max_x, region.max_y);
    lemma_rounding_between(n.0, n00.0, n01.0, n10.0, n11.0, den);
    lemma_rounding_between(n.1, n00.1, n01.1, n10.1, n11.1, den);
}

/// The numerators of a preimage as a linear map of the point's offsets.
proof fn lemma_numerators(t: Affine, x: int, y: int)
    ensures
        ({
            let s: int = if t.det() > 0 {
                1
            } else {
                -1
            };
            let u = x - t.xoff;
            let v = y - t.yoff;
            &&& t.preimage_num(x, y).0 == (s * t.e) * u + (-s * t.b) * v
            &&& t.preimage_num(x, y).1 == (-s * t.d) * u + (s * t.a) * v
        }),
{
    let u = x - t.xoff;
    let v = y - t.yoff;
    assert((1 * t.e) * u + (-1 * t.b) * v == t.e * u - t.b * v) by (nonlinear_arith);
    assert((-1 * t.e) * u + (-(-1) * t.b) * v == -(t.e * u - t.b * v)) by (nonlinear_arith);
    assert((-1 * t.d) * u + (1 * t.a) * v == t.a * v - t.d * u) by (nonlinear_arith);
    assert((-(-1) * t.d) * u + (-1 * t.a) * v == -(t.a * v - t.d * u)) by (nonlinear_arith);
}

/// A number between the least and the greatest of four numbers is, rounded
/// down and up over `d`, between the least of their quotients rounded down
/// and the greatest of their quotients rounded up.
proof fn lemma_rounding_between(n: int, a: int, b: int, c: int, e: int, d: int)
    requires
        d > 0,
        min4(a, b, c, e) <= n <= max4(a, b, c, e),
    ensures
        min4(floor_div(a, d), floor_div(b, d), floor_div(c, d), floor_div(e, d)) <= floor_div(
            n,
            d,
        ),
        ceil_div(n, d) <= max4(ceil_div(a, d), ceil_div(b, d), ceil_div(c, d), ceil_div(e, d)),
{
    let lo = min4(a, b, c, e);
    let hi = max4(a, b, c, e);
    vstd::arithmetic::div_mod::lemma_div_is_ordered(lo, n, d);
    vstd::arithmetic::div_mod::lemma_div_is_ordered(-hi, -n, d);
}

/// Rounding a quotient down and up brackets it, within less than one.
pub proof fn lemma_floor_ceil(n: int, d: int)
    requires
        d > 0,
    ensures
        floor_div(n, d) * d <= n <= ceil_div(n, d) * d,
        floor_div(n, d) <= ceil_div(n, d) <= floor_div(n, d) + 1,
        n % d == 0 ==> floor_div(n, d) == ceil_div(n, d),
        n % d != 0 ==> ceil_div(n, d) == floor_div(n, d) + 1,
{
    lemma_fundamental_div_mod(n, d);
    lemma_fundamental_div_mod(-n, d);
    let q = n / d;
    let r = n % d;
    let q2 = (-n) / d;
    let r2 = (-n) % d;
    assert(q * d == d * q && q2 * d == d * q2 && (-q2) * d == -(d * q2)) by (nonlinear_arith);
    if r == 0 {
        assert(-n == (-q) * d) by (nonlinear_arith)
            requires
                n == d * q,
        ;
        lemma_fundamental_div_mod_converse(-n, d, -q, 0);
    } else {
        assert(-n == (-q - 1) * d + (d - r)) by (nonlinear_arith)
            requires
                n == d * q + r,
        ;
        lemma_fundamental_div_mod_converse(-n, d, -q - 1, d - r);
    }
}

/// The product of two bounded numbers is bounded by the product of the
/// bounds.
proof fn lemma_product_bound(x: int, y: int, bx: int, by: int)
    requires
        -bx <= x <= bx,
        -by <= y <= by,
    ensures
        -(bx * by) <= x * y <= bx * by,
{
    assert(-(bx * by) <= x * y <= bx * by) by (nonlinear_arith)
        requires
            -bx <= x <= bx,
            -by <= y <= by,
    ;
}

/// `p * q - r * s`, for two coefficients and two coordinate differences.
fn cross(p: i64, q: i128, r: i64, s: i128) -> (c: i128)
    requires
        in_coord_range(p as int),
        in_coord_range(r as int),
        -2 * COORD_LIMIT <= q <= 2 * COORD_LIMIT,
        -2 * COORD_LIMIT <= s <= 2 * COORD_LIMIT,
    ensures
        c == p * q - r * s,
        -4 * (COORD_LIMIT * COORD_LIMIT) <= c <= 4 * (COORD_LIMIT * COORD_LIMIT),
{
    proof {
        lemma_product_bound(p as int, q as int, COORD_LIMIT as int, 2 * COORD_LIMIT);
        lemma_product_bound(r as int, s as int, COORD_LIMIT as int, 2 * COORD_LIMIT);
        assert(COORD_LIMIT * (2 * COORD_LIMIT) == 2 * (COORD_LIMIT * COORD_LIMIT))
            by (nonlinear_arith);
    }
    (p as i128) * q - (r as i128) * s
}

/// `n / d` rounded towards minus infinity.
fn floor_div_exec(n: i128, d: i128) -> (q: i128)
    requires
        d > 0,
        -4 * (COORD_LIMIT * COORD_LIMIT) <= n <= 4 * (COORD_LIMIT * COORD_LIMIT),
    ensures
        q == floor_div(n as int, d as int),
        -4 * (COORD_LIMIT * COORD_LIMIT) <= q <= 4 * (COORD_LIMIT * COORD_LIMIT),
{
    proof {
        lemma_fundamental_div_mod(n as int, d as int);
        let q = n as int / d as int;
        let r = n as int % d as int;
        assert(-4 * (COORD_LIMIT * COORD_LIMIT) <= q <= 4 * (COORD_LIMIT * COORD_LIMIT))
            by (nonlinear_arith)
            requires
                n == d * q + r,
                0 <= r < d,
                d > 0,
                -4 * (COORD_LIMIT * COORD_LIMIT) <= n <= 4 * (COORD_LIMIT * COORD_LIMIT),
        ;
    }
    match n.checked_div_euclid(d) {
        Some(q) => q,
        None => {
            // the divisor is not zero and the quotient fits
            proof {
                assert(false);
            }
            0
        },
    }
}

/// `n / d` rounded towards plus infinity.
fn ceil_div_exec(n: i128, d: i128) -> (q: i128)
    requires
        d > 0,
        -4 * (COORD_LIMIT * COORD_LIMIT) <= n <= 4 * (COORD_LIMIT * COORD_LIMIT),
    ensures
        q == ceil_div(n as int, d as int),
        -4 * (COORD_LIMIT * COORD_LIMIT) <= q <= 4 * (COORD_LIMIT * COORD_LIMIT),
{
    -floor_div_exec(-n, d)
}

fn least(a: i64, b: i64, c: i64, d: i64) -> (m: i64)
    ensures
        m == min4(a as int, b as int, c as int, d as int),
{
    let ab = if a <= b {
        a
    } else {
        b
    };
    let cd = if c <= d {
        c
    } else {
        d
    };
    if ab <= cd {
        ab
    } else {
        cd
    }
}

fn greatest(a: i64, b: i64, c: i64, d: i64) -> (m: i64)
    ensures
        m == max4(a as int, b as int, c as int, d as int),
{
    let ab = if a >= b {
        a
    } else {
        b
    };
    let cd = if c >= d {
        c
    } else {
        d
    };
    if ab >= cd {
        ab
    } else {
        cd
    }
}

fn min4_exec(a: i128, b: i128, c: i128, d: i128) -> (m: i128)
    ensures
        m == min4(a as int, b as int, c as int, d as int),
{
    let ab = if a <= b {
        a
    } else {
        b
    };
    let cd = if c <= d {
        c
    } else {
        d
    };
    if ab <= cd {
        ab
    } else {
        cd
    }
}

fn max4_exec(a: i128, b: i128, c: i128, d: i128) -> (m: i128)
    ensures
        m == max4(a as int, b as int, c as int, d as int),
{
    let ab = if a >= b {
        a
    } else {
        b
    };
    let cd = if c >= d {
        c
    } else {
        d
    };
    if ab >= cd {
        ab
    } else {
        cd
    }
}

/// `p * q + r * s + t`, for coefficients and coordinates.
fn dot(p: i64, q: i64, r: i64, s: i64, t: i64) -> (c: i128)
    requires
        in_coord_range(p as int),
        in_coord_range(q as int),
        in_coord_range(r as int),
        in_coord_range(s as int),
        in_coord_range(t as int),
    ensures
        c == p * q + r * s + t,
{
    proof {
        lemma_product_bound(p as int, q as int, COORD_LIMIT as int, COORD_LIMIT as int);
        lemma_product_bound(r as int, s as int, COORD_LIMIT as int, COORD_LIMIT as int);
    }
    (p as i128) * (q as i128) + (r as i128) * (s as i128) + (t as i128)
}

/// `v` as a coordinate, where it is one.
fn as_coord(v: i128) -> (r: Option<i64>)
    ensures
        r == if in_coord_range(v as int) {
            Some(v as i64)
        } else {
            None
        },
{
    if -(COORD_LIMIT as i128) <= v && v <= COORD_LIMIT as i128 {
        Some(v as i64)
    } else {
        None
    }
}

/// An affine map of the plane with integer coefficients, each within
/// `COORD_LIMIT`: `(x, y)` goes to `(a x + b y + xoff, d x + e y + yoff)`.
#[derive(Debug, Clone, Copy, PartialEq, Eq)]
pub struct AffineTransform {
    a: i64,
    b: i64,
    xoff: i64,
    d: i64,
    e: i64,
    yoff: i64,
}

impl View for AffineTransform {
    type V = Affine;

    closed spec fn view(&self) -> Affine {
        self.affine()
    }
}

impl AffineTransform {
    #[verifier::type_invariant]
    spec fn inv(&self) -> bool {
        self.affine().in_range()
    }

    spec fn affine(&self) -> Affine {
        Affine {
            a: self.a as int,
            b: self.b as int,
            xoff: self.xoff as int,
            d: self.d as int,
            e: self.e as int,
            yoff: self.yoff as int,
        }
    }

    /// The map that sends `(x, y)` to `(a x + b y + xoff, d x + e y + yoff)`.
    pub fn new(a: i64, b: i64, xoff: i64, d: i64, e: i64, yoff: i64) -> (r: Self)
        requires
            (Affine {
                a: a as int,
                b: b as int,
                xoff: xoff as int,
                d: d as int,
                e: e as int,
                yoff: yoff as int,
            }).in_range(),
        ensures
            r@ == (Affine {
                a: a as int,
                b: b as int,
                xoff: xoff as int,
                d: d as int,
                e: e as int,
                yoff: yoff as int,
            }),
    {
        AffineTransform { a, b, xoff, d, e, yoff }
    }

    /// The six coefficients, `(a, b, xoff, d, e, yoff)`.
    pub fn coefficients(&self) -> (r: (i64, i64, i64, i64, i64, i64))
        ensures
            self@ == (Affine {
                a: r.0 as int,
                b: r.1 as int,
                xoff: r.2 as int,
                d: r.3 as int,
                e: r.4 as int,
                yoff: r.5 as int,
            }),
            self@.in_range(),
    {
        proof {
            use_type_invariant(self);
        }
        (self.a, self.b, self.xoff, self.d, self.e, self.yoff)
    }

    /// The image of the point `(x, y)`, or the cast error where it is not
    /// within `COORD_LIMIT`.
    pub fn apply(&self, x: i64, y: i64) -> (r: Result<(i64, i64), RusterioError>)
        requires
            in_coord_range(x as int),
            in_coord_range(y as int),
        ensures
            ({
                let p = self@.apply(x as int, y as int);
                if in_coord_range(p.0) && in_coord_range(p.1) {
                    r == Ok::<(i64, i64), RusterioError>((p.0 as i64, p.1 as i64))
                } else {
                    r == Err::<(i64, i64), RusterioError>(RusterioError::Uncastable)
                }
            }),
    {
        proof {
            use_type_invariant(self);
        }
        let px = as_coord(dot(self.a, x, self.b, y, self.xoff));
        let py = as_coord(dot(self.d, x, self.e, y, self.yoff));
        match (px, py) {
            (Some(px), Some(py)) => Ok((px, py)),
            _ => Err(RusterioError::Uncastable),
        }
    }

    /// The map that applies `self` first and `other` to what comes out, or
    /// the cast error where one of its coefficients is not within
    /// `COORD_LIMIT`.
    pub fn compose(&self, other: &Self) -> (r: Result<Self, RusterioError>)
        ensures
            self@.compose(other@).in_range() ==> r is Ok && r->Ok_0@ == self@.compose(other@),
            !self@.compose(other@).in_range() ==> r == Err::<Self, RusterioError>(
                RusterioError::Uncastable,
            ),
    {
        proof {
            use_type_invariant(self);
            use_type_invariant(other);
        }
        let a = as_coord(dot(other.a, self.a, other.b, self.d, 0));
        let b = as_coord(dot(other.a, self.b, other.b, self.e, 0));
        let xoff = as_coord(dot(other.a, self.xoff, other.b, self.yoff, other.xoff));
        let d = as_coord(dot(other.d, self.a, other.e, self.d, 0));
        let e = as_coord(dot(other.d, self.b, other.e, self.e, 0));
        let yoff = as_coord(dot(other.d, self.xoff, other.e, self.yoff, other.yoff));
        match (a, b, xoff, d, e, yoff) {
            (Some(a), Some(b), Some(xoff), Some(d), Some(e), Some(yoff)) => Ok(
                AffineTransform { a, b, xoff, d, e, yoff },
            ),
            _ => Err(RusterioError::Uncastable),
        }
    }

    fn det(&self) -> (r: i128)
        ensures
            r == self.affine().det(),
            self.affine().in_range(),
            -4 * (COORD_LIMIT * COORD_LIMIT) <= r <= 4 * (COORD_LIMIT * COORD_LIMIT),
    {
        proof {
            use_type_invariant(self);
        }
        cross(self.a, self.e as i128, self.b, self.d as i128)
    }

    /// The preimage of the geographic point `(x, y)`, rounded down and
    /// rounded up.
    fn preimage(&self, x: i64, y: i64) -> (r: ((i128, i128), (i128, i128)))
        requires
            self.affine().det() != 0,
            in_coord_range(x as int),
            in_coord_range(y as int),
        ensures
            (r.0.0 as int, r.0.1 as int) == self.affine().preimage_floor(x as int, y as int),
            (r.1.0 as int, r.1.1 as int) == self.affine().preimage_ceil(x as int, y as int),
    {
        proof {
            use_type_invariant(self);
        }
        let det = self.det();
        let dx = (x as i128) - (self.xoff as i128);
        let dy = (y as i128) - (self.yoff as i128);
        let nx = cross(self.e, dx, self.b, dy);
        let ny = cross(self.a, dy, self.d, dx);
        let (den, nx, ny) = if det > 0 {
            (det, nx, ny)
        } else {
            (-det, -nx, -ny)
        };
        (
            (floor_div_exec(nx, den), floor_div_exec(ny, den)),
            (ceil_div_exec(nx, den), ceil_div_exec(ny, den)),
        )
    }
}

/// Affine transform from a band group's native pixel space to geographic
/// space, with the reference system of the geographic coordinates.
#[derive(Debug)]
pub struct ReadGeoTransform {
    transform: AffineTransform,
    crs: String,
}

impl View for ReadGeoTransform {
    type V = Affine;

    /// The map from pixel to geographic coordinates.
    closed spec fn view(&self) -> Affine {
        self.transform.affine()
    }
}

impl Clone for ReadGeoTransform {
    fn clone(&self) -> (r: Self)
        ensures
            r@ == self@,
            r.spec_crs() == self.spec_crs(),
    {
        ReadGeoTransform { transform: self.transform, crs: self.crs.clone() }
    }
}

impl ReadGeoTransform {
    /// The identifier of the reference system.
    pub closed spec fn spec_crs(&self) -> Seq<char> {
        self.crs@
    }

    /// The transform that sends the pixel `(x, y)` to
    /// `(a x + b y + xoff, d x + e y + yoff)`.
    pub fn new(a: i64, b: i64, xoff: i64, d: i64, e: i64, yoff: i64, crs: String) -> (r: Self)
        requires
            (Affine {
                a: a as int,
                b: b as int,
                xoff: xoff as int,
                d: d as int,
                e: e as int,
                yoff: yoff as int,
            }).in_range(),
        ensures
            r@ == (Affine {
                a: a as int,
                b: b as int,
                xoff: xoff as int,
                d: d as int,
                e: e as int,
                yoff: yoff as int,
            }),
            r.spec_crs() == crs@,
    {
        ReadGeoTransform { transform: AffineTransform { a, b, xoff, d, e, yoff }, crs }
    }

    /// The transform from geographic space back to pixel space, or the
    /// error for a singular transform when the determinant is zero.
    pub fn inverse(&self) -> (r: Result<GeoReadTransform, RusterioError>)
        ensures
            self@.in_range(),
            self@.det() != 0 ==> r is Ok && r->Ok_0@ == self@ && r->Ok_0.spec_crs()
                == self.spec_crs(),
            self@.det() == 0 ==> r == Err::<GeoReadTransform, RusterioError>(
                RusterioError::NonInvertibleTransform,
            ),
    {
        let det = self.transform.det();
        if det == 0 {
            Err(RusterioError::NonInvertibleTransform)
        } else {
            Ok(GeoReadTransform { forward: self.transform, crs: self.crs.clone() })
        }
    }

    pub fn crs(&self) -> (r: &str)
        ensures
            r@ == self.spec_crs(),
    {
        self.crs.as_str()
    }

    /// The affine map from pixel to geographic coordinates.
    pub fn transform(&self) -> (r: &AffineTransform)
        ensures
            r@ == self@,
    {
        &self.transform
    }
}

/// Affine transform from geographic space to a band group's native pixel
/// space: the inverse of an invertible [`ReadGeoTransform`].
///
/// It is kept as the integer transform that it inverts, so that applying it
/// is an exact quotient.
#[derive(Debug)]
pub struct GeoReadTransform {
    forward: AffineTransform,
    crs: String,
}

impl View for GeoReadTransform {
    type V = Affine;

    /// The pixel-to-geographic map of which this transform is the inverse.
    closed spec fn view(&self) -> Affine {
        self.forward.affine()
    }
}

impl Clone for GeoReadTransform {
    fn clone(&self) -> (r: Self)
        ensures
            r@ == self@,
            r.spec_crs() == self.spec_crs(),
    {
        proof {
            use_type_invariant(self);
        }
        GeoReadTransform { forward: self.forward, crs: self.crs.clone() }
    }
}

impl GeoReadTransform {
    #[verifier::type_invariant]
    spec fn inv(&self) -> bool {
        self.forward.affine().det() != 0
    }

    /// The identifier of the reference system.
    pub closed spec fn spec_crs(&self) -> Seq<char> {
        self.crs@
    }

    /// The pixel-to-geographic transform that this one inverts.
    pub fn inverse(&self) -> (r: ReadGeoTransform)
        ensures
            r@ == self@,
            r.spec_crs() == self.spec_crs(),
            self@.det() != 0,
            self@.in_range(),
    {
        proof {
            use_type_invariant(self);
            use_type_invariant(&self.forward);
        }
        ReadGeoTransform { transform: self.forward, crs: self.crs.clone() }
    }

    pub fn crs(&self) -> (r: &str)
        ensures
            r@ == self.spec_crs(),
    {
        self.crs.as_str()
    }

    /// The part of geographic space that the window of whole pixels that
    /// covers `bounds` spans. The cast error is returned where a corner of
    /// the window or its image is not within `COORD_LIMIT`.
    pub fn cover_extent(&self, bounds: &GeoBounds) -> (r: Result<GeoRect, RusterioError>)
        ensures
            r is Ok <==> self@.cover_extent_in_range(bounds@),
            r matches Ok(e) ==> e@ == self@.cover_extent(bounds@),
            r matches Err(e) ==> e == RusterioError::Uncastable,
    {
        let (lo, hi) = self.cover(bounds);
        let (x0, y0, x1, y1) = match (
            as_coord(lo.0),
            as_coord(lo.1),
            as_coord(hi.0),
            as_coord(hi.1),
        ) {
            (Some(x0), Some(y0), Some(x1), Some(y1)) => (x0, y0, x1, y1),
            _ => {
                return Err(RusterioError::Uncastable);
            },
        };
        let top_left = self.forward.apply(x0, y0)?;
        let top_right = self.forward.apply(x1, y0)?;
        let bottom_left = self.forward.apply(x0, y1)?;
        let bottom_right = self.forward.apply(x1, y1)?;
        let min = (
            least(top_left.0, top_right.0, bottom_left.0, bottom_right.0),
            least(top_left.1, top_right.1, bottom_left.1, bottom_right.1),
        );
        let max = (
            greatest(top_left.0, top_right.0, bottom_left.0, bottom_right.0),
            greatest(top_left.1, top_right.1, bottom_left.1, bottom_right.1),
        );
        Ok(GeoRect::new(min, max))
    }

    /// Whether the columns, and the rows, of the pixel grid run against
    /// those of a view, `(x, y)`, or `None` for a transform with shear or
    /// rotation.
    pub fn orientation(&self) -> (r: Option<(bool, bool)>)
        ensures
            r == if self@.axis_aligned() {
                Some(self@.mirrored())
            } else {
                None
            },
    {
        let (a, b, _, d, e, _) = self.forward.coefficients();
        if b == 0 && d == 0 {
            Some((a < 0, e > 0))
        } else {
            None
        }
    }

    /// The smallest rectangle of whole pixels that covers the geographic
    /// rectangle `bounds`: the preimages of its corners, rounded outward.
    /// The corners of the result are returned as `(min, max)`.
    pub(crate) fn cover(&self, bounds: &GeoBounds) -> (r: ((i128, i128), (i128, i128)))
        ensures
            self@.det() != 0,
            ({
                let c = self@.preimage_cover(bounds@);
                &&& r.0.0 == c.min_x
                &&& r.0.1 == c.min_y
                &&& r.1.0 == c.max_x
                &&& r.1.1 == c.max_y
            }),
    {
        proof {
            use_type_invariant(self);
        }
        let lo = bounds.min();
        let hi = bounds.max();
        let p00 = self.forward.preimage(lo.0, lo.1);
        let p01 = self.forward.preimage(lo.0, hi.1);
        let p10 = self.forward.preimage(hi.0, lo.1);
        let p11 = self.forward.preimage(hi.0, hi.1);
        (
            (
                min4_exec(p00.0.0, p01.0.0, p10.0.0, p11.0.0),
                min4_exec(p00.0.1, p01.0.1, p10.0.1, p11.0.1),
            ),
            (
                max4_exec(p00.1.0, p01.1.0, p10.1.0, p11.1.0),
                max4_exec(p00.1.1, p01.1.1, p10.1.1, p11.1.1),
            ),
        )
    }
}

/// `r` can be a window of pixels: no corner is negative or beyond `usize`.
pub open spec fn fits_pixels(r: Rect) -> bool {
    &&& 0 <= r.min_x
    &&& 0 <= r.min_y
    &&& r.max_x <= usize::MAX
    &&& r.max_y <= usize::MAX
}

/// A view extent lies on a native extent in whole blocks: neither is empty
/// and the first is a multiple of the second.
pub open spec fn aligned(view_extent: int, read_extent: int) -> bool {
    read_extent > 0 && view_extent > 0 && view_extent % read_extent == 0
}

/// The map from the view grid to one band's native grid: `ratio` view
/// pixels lie under each native pixel, and the view's corner `(0, 0)` lies
/// on the line `origin` of the native grid along each axis.
///
/// Along an axis that is not mirrored the native pixels run with the view
/// pixels, from the native pixel `origin` on. Along a mirrored axis they run
/// against them, from the native pixel `origin - 1` down.
pub ghost struct PixelScale {
    pub ratio: (int, int),
    pub origin: (int, int),
    pub mirrored: (bool, bool),
}

/// Along one axis: the native pixel under the view pixel `v`.
pub open spec fn native_under(origin: int, ratio: int, mirrored: bool, v: int) -> int {
    if mirrored {
        origin - 1 - v / ratio
    } else {
        origin + v / ratio
    }
}

/// Along one axis: the first native pixel under the view pixels from `lo`
/// up to `hi`.
pub open spec fn window_start(origin: int, ratio: int, mirrored: bool, lo: int, hi: int) -> int {
    if mirrored {
        origin - (hi + ratio - 1) / ratio
    } else {
        origin + lo / ratio
    }
}

/// Along one axis: the end, one past the last, of the native pixels under
/// the view pixels from `lo` up to `hi`.
pub open spec fn window_end(origin: int, ratio: int, mirrored: bool, lo: int, hi: int) -> int {
    if mirrored {
        origin - lo / ratio
    } else {
        origin + (hi + ratio - 1) / ratio
    }
}

impl PixelScale {
    pub open spec fn wf(self) -> bool {
        &&& self.ratio.0 >= 1
        &&& self.ratio.1 >= 1
        &&& self.origin.0 >= 0
        &&& self.origin.1 >= 0
    }

    /// The native pixel under the view pixel `(x, y)`.
    pub open spec fn apply(self, x: int, y: int) -> (int, int) {
        (
            native_under(self.origin.0, self.ratio.0, self.mirrored.0, x),
            native_under(self.origin.1, self.ratio.1, self.mirrored.1, y),
        )
    }

    /// The native pixels under the view window `view`: the images of its
    /// ends, rounded outward.
    pub open spec fn read_window(self, view: Rect) -> Rect {
        Rect {
            min_x: window_start(
                self.origin.0,
                self.ratio.0,
                self.mirrored.0,
                view.min_x,
                view.max_x,
            ),
            min_y: window_start(
                self.origin.1,
                self.ratio.1,
                self.mirrored.1,
                view.min_y,
                view.max_y,
            ),
            max_x: window_end(self.origin.0, self.ratio.0, self.mirrored.0, view.min_x, view.max_x),
            max_y: window_end(self.origin.1, self.ratio.1, self.mirrored.1, view.min_y, view.max_y),
        }
    }

    /// How the view window `view` is resampled from the native window under
    /// it.
    pub open spec fn resampling(self, view: Rect) -> Resampling {
        Resampling::of_window(view, self.ratio).mirror(self.mirrored)
    }

    /// The map that lays the full view `view` over the native grid of a
    /// group with the pixel-to-geographic map `group`, for a view over
    /// `region` whose columns and rows run as `orientation` says.
    ///
    /// An orientation says, as `Affine::mirrored` does of a grid, whether
    /// the columns run towards falling x and whether the rows run towards
    /// growing y. A view's orientation is that of its bands where they
    /// agree, so that a band is read as it is stored; `(false, false)` is
    /// the orientation of a north-up raster.
    ///
    /// The view has to be made of whole blocks of the native pixels of the
    /// window that covers the region, and the group's grid has to run along
    /// the geographic axes. Along an axis on which the grid runs as the
    /// view does, the view's edge 0 lies on the window's first line; along
    /// an axis on which it runs against the view, that axis is mirrored and
    /// the view's edge 0 lies on the window's last line.
    pub open spec fn of_group(
        view: Rect,
        group: Affine,
        region: Rect,
        orientation: (bool, bool),
    ) -> Option<PixelScale> {
        let cover = group.preimage_cover(region);
        let mirrored = (
            group.mirrored().0 != orientation.0,
            group.mirrored().1 != orientation.1,
        );
        if group.axis_aligned() && fits_pixels(cover) && cover.wf() && aligned(
            view.width(),
            cover.width(),
        ) && aligned(view.height(), cover.height()) {
            Some(
                PixelScale {
                    ratio: (view.width() / cover.width(), view.height() / cover.height()),
                    origin: (
                        if mirrored.0 {
                            cover.max_x
                        } else {
                            cover.min_x
                        },
                        if mirrored.1 {
                            cover.max_y
                        } else {
                            cover.min_y
                        },
                    ),
                    mirrored,
                },
            )
        } else {
            None
        }
    }
}

/// Along one axis: a linear numerator, rounded down or up over a positive
/// denominator, grows with its argument where its slope is not negative,
/// and falls with it where its slope is not positive.
proof fn lemma_rounding_runs(slope: int, u0: int, u1: int, den: int)
    requires
        den > 0,
        u0 <= u1,
    ensures
        slope >= 0 ==> floor_div(slope * u0, den) <= floor_div(slope * u1, den) && ceil_div(
            slope * u0,
            den,
        ) <= ceil_div(slope * u1, den),
        slope <= 0 ==> floor_div(slope * u1, den) <= floor_div(slope * u0, den) && ceil_div(
            slope * u1,
            den,
        ) <= ceil_div(slope * u0, den),
{
    assert(slope >= 0 ==> slope * u0 <= slope * u1) by (nonlinear_arith)
        requires
            u0 <= u1,
    ;
    assert(slope <= 0 ==> slope * u1 <= slope * u0) by (nonlinear_arith)
        requires
            u0 <= u1,
    ;
    if slope >= 0 {
        vstd::arithmetic::div_mod::lemma_div_is_ordered(slope * u0, slope * u1, den);
        vstd::arithmetic::div_mod::lemma_div_is_ordered(-(slope * u1), -(slope * u0), den);
    }
    if slope <= 0 {
        vstd::arithmetic::div_mod::lemma_div_is_ordered(slope * u1, slope * u0, den);
        vstd::arithmetic::div_mod::lemma_div_is_ordered(-(slope * u0), -(slope * u1), den);
    }
}

/// The numerators of the preimage under a map without shear or rotation:
/// each depends on one coordinate only, with a slope of the sign of that
/// axis' scale.
proof fn lemma_axis_numerators(t: Affine, x: int, y: int)
    requires
        t.axis_aligned(),
        t.det() != 0,
    ensures
        ({
            let s: int = if t.det() > 0 {
                1
            } else {
                -1
            };
            &&& t.preimage_num(x, y).0 == (s * t.e) * (x - t.xoff)
            &&& t.preimage_num(x, y).1 == (s * t.a) * (y - t.yoff)
            &&& t.a != 0 && t.e != 0
            &&& t.a > 0 <==> s * t.e > 0
            &&& t.e > 0 <==> s * t.a > 0
        }),
{
    lemma_numerators(t, x, y);
    let s: int = if t.det() > 0 {
        1
    } else {
        -1
    };
    assert((-s * 0) * (y - t.yoff) == 0 && (-s * 0) * (x - t.xoff) == 0) by (nonlinear_arith);
    assert(t.det() == t.a * t.e) by (nonlinear_arith)
        requires
            t.det() == t.a * t.e - t.b * t.d,
            t.b == 0,
    ;
    assert(t.a != 0 && t.e != 0 && (t.a * t.e > 0 <==> (t.a > 0 <==> t.e > 0)))
        by (nonlinear_arith)
        requires
            t.a * t.e != 0,
    ;
}

/// Read as a whole, the view of a group reads the window that covers the
/// region, whatever the view's orientation. A view of the group's own
/// orientation is laid on the window as it is stored: nothing is mirrored,
/// and the view's pixel `(0, 0)` lies under the window's first pixel.
pub proof fn lemma_view_reads_cover(
    view: Rect,
    group: Affine,
    region: Rect,
    orientation: (bool, bool),
)
    requires
        view.min_x == 0,
        view.min_y == 0,
        PixelScale::of_group(view, group, region, orientation) is Some,
    ensures
        ({
            let t = PixelScale::of_group(view, group, region, orientation)->Some_0;
            let cover = group.preimage_cover(region);
            &&& t.wf()
            &&& t.read_window(view) == cover
            &&& orientation == group.mirrored() ==> t.mirrored == (false, false) && t.origin == (
                cover.min_x,
                cover.min_y,
            )
        }),
{
    let cover = group.preimage_cover(region);
    lemma_whole_blocks(view.max_x, cover.width());
    lemma_whole_blocks(view.max_y, cover.height());
}

/// The north-up view of a group lies over the region as the region lies in
/// space.
///
/// Read as a whole, the view reads the window that covers the region. Its
/// corner `(0, 0)` lies on the window's corner under the region's top-left
/// corner and its far corner on that under the region's bottom-right
/// corner: along an axis that is not mirrored the window starts at the
/// top-left corner's preimage, rounded down, and ends at the bottom-right
/// corner's, rounded up; along a mirrored axis it is the other way round.
pub proof fn lemma_view_lies_on_region(view: Rect, group: Affine, region: Rect)
    requires
        view.min_x == 0,
        view.min_y == 0,
        region.wf(),
        group.det() != 0,
        PixelScale::of_group(view, group, region, (false, false)) is Some,
    ensures
        ({
            let t = PixelScale::of_group(view, group, region, (false, false))->Some_0;
            let cover = group.preimage_cover(region);
            let top_left_down = group.preimage_floor(region.min_x, region.max_y);
            let top_left_up = group.preimage_ceil(region.min_x, region.max_y);
            let bottom_right_down = group.preimage_floor(region.max_x, region.min_y);
            let bottom_right_up = group.preimage_ceil(region.max_x, region.min_y);
            &&& t.wf()
            &&& t.read_window(view) == cover
            &&& !t.mirrored.0 ==> t.origin.0 == top_left_down.0 && cover.max_x
                == bottom_right_up.0
            &&& t.mirrored.0 ==> t.origin.0 == top_left_up.0 && cover.min_x == bottom_right_down.0
            &&& !t.mirrored.1 ==> t.origin.1 == top_left_down.1 && cover.max_y
                == bottom_right_up.1
            &&& t.mirrored.1 ==> t.origin.1 == top_left_up.1 && cover.min_y == bottom_right_down.1
        }),
{
    let t = PixelScale::of_group(view, group, region, (false, false))->Some_0;
    let cover = group.preimage_cover(region);
    let den = group.preimage_den();
    let s: int = if group.det() > 0 {
        1
    } else {
        -1
    };
    lemma_axis_numerators(group, region.min_x, region.min_y);
    lemma_axis_numerators(group, region.min_x, region.max_y);
    lemma_axis_numerators(group, region.max_x, region.min_y);
    lemma_axis_numerators(group, region.max_x, region.max_y);
    lemma_rounding_runs(s * group.e, region.min_x - group.xoff, region.max_x - group.xoff, den);
    lemma_rounding_runs(s * group.a, region.min_y - group.yoff, region.max_y - group.yoff, den);
    lemma_whole_blocks(view.max_x, cover.width());
    lemma_whole_blocks(view.max_y, cover.height());
}

/// A view extent of whole blocks of a native extent: the ratio is not below
/// one, and the whole view lies under the whole native extent.
proof fn lemma_whole_blocks(view_extent: int, read_extent: int)
    requires
        aligned(view_extent, read_extent),
    ensures
        view_extent / read_extent >= 1,
        0int / (view_extent / read_extent) == 0,
        (view_extent + view_extent / read_extent - 1) / (view_extent / read_extent)
            == read_extent,
{
    lemma_fundamental_div_mod(view_extent, read_extent);
    let k = view_extent / read_extent;
    assert(k >= 1) by (nonlinear_arith)
        requires
            view_extent == read_extent * k,
            view_extent > 0,
            read_extent > 0,
    ;
    assert(view_extent + k - 1 == read_extent * k + (k - 1));
    assert(read_extent * k == k * read_extent) by (nonlinear_arith);
    lemma_fundamental_div_mod_converse(view_extent + k - 1, k, read_extent, k - 1);
    lemma_fundamental_div_mod_converse(0, k, 0, 0);
}

/// At one view pixel per native pixel, and without mirroring, the native
/// window under a view window is the view window itself, moved to the
/// origin.
pub proof fn lemma_unit_ratio_window(t: PixelScale, view: Rect)
    requires
        t.ratio == (1int, 1int),
        t.mirrored == (false, false),
    ensures
        t.read_window(view) == (Rect {
            min_x: t.origin.0 + view.min_x,
            min_y: t.origin.1 + view.min_y,
            max_x: t.origin.0 + view.max_x,
            max_y: t.origin.1 + view.max_y,
        }),
        t.read_window(view).width() == view.width(),
        t.read_window(view).height() == view.height(),
{
}

/// Rounding a quotient up, without negative numbers.
pub proof fn lemma_round_up(v: int, k: int)
    requires
        k >= 1,
    ensures
        (v + k - 1) / k == v / k + if v % k == 0 {
            0int
        } else {
            1int
        },
        (v + k - 1) / k == ceil_div(v, k),
        v / k <= (v + k - 1) / k,
        v >= 0 ==> 0 <= (v + k - 1) / k <= v,
{
    lemma_fundamental_div_mod(v, k);
    let q = v / k;
    let r = v % k;
    if v >= 0 {
        assert(q >= 0 && (r > 0 ==> q + 1 <= v) && q <= v) by (nonlinear_arith)
            requires
                v == k * q + r,
                0 <= r < k,
                k >= 1,
                v >= 0,
        ;
    }
    if r == 0 {
        assert(v + k - 1 == q * k + (k - 1)) by (nonlinear_arith)
            requires
                v == k * q,
        ;
        lemma_fundamental_div_mod_converse(v + k - 1, k, q, k - 1);
    } else {
        assert(v + k - 1 == (q + 1) * k + (r - 1)) by (nonlinear_arith)
            requires
                v == k * q + r,
        ;
        lemma_fundamental_div_mod_converse(v + k - 1, k, q + 1, r - 1);
    }
    lemma_floor_ceil(v, k);
}

/// The native window under a view window has the shape that the window's
/// resampling reads.
pub proof fn lemma_read_window_shape(t: PixelScale, view: Rect)
    requires
        t.wf(),
        view.wf(),
    ensures
        t.read_window(view).wf(),
        t.read_window(view).width() == t.resampling(view).read_shape().0,
        t.read_window(view).height() == t.resampling(view).read_shape().1,
        t.resampling(view).wf(),
        Resampling::of_window(view, t.ratio).wf(),
        Resampling::of_window(view, t.ratio).read_shape() == t.resampling(view).read_shape(),
{
    lemma_extent_of_window(view.min_x, view.max_x, t.ratio.0);
    lemma_extent_of_window(view.min_y, view.max_y, t.ratio.1);
}

/// The native pixel that a window's resampling takes for a view pixel is
/// the native pixel that the view pixel lies in: counted from the corner of
/// the native window, its position is that of the image of the view pixel,
/// also along a mirrored axis.
pub proof fn lemma_source_is_native_pixel(t: PixelScale, view: Rect, x: int, y: int)
    requires
        t.wf(),
        view.wf(),
        view.min_x <= x < view.max_x,
        view.min_y <= y < view.max_y,
    ensures
        ({
            let m = t.resampling(view);
            let window = t.read_window(view);
            let native = t.apply(x, y);
            &&& window.min_x <= native.0 < window.max_x
            &&& window.min_y <= native.1 < window.max_y
            &&& m.source_col(x - view.min_x) == native.0 - window.min_x
            &&& m.source_row(y - view.min_y) == native.1 - window.min_y
            &&& m.source(y - view.min_y, x - view.min_x) == (native.1 - window.min_y)
                * window.width() + (native.0 - window.min_x)
        }),
{
    lemma_read_window_shape(t, view);
    lemma_source_along_axis(view.min_x, view.max_x, t.ratio.0, x);
    lemma_source_along_axis(view.min_y, view.max_y, t.ratio.1, y);
    lemma_extent_of_window(view.min_x, view.max_x, t.ratio.0);
    lemma_extent_of_window(view.min_y, view.max_y, t.ratio.1);
}

/// Along one axis: the quotient of a position of a window is the quotient
/// of the window's start plus the index that the resampling takes.
pub proof fn lemma_source_along_axis(lo: int, hi: int, k: int, x: int)
    requires
        k >= 1,
        lo <= x < hi,
    ensures
        x / k == lo / k + crate::view::chunking::source_index(lo % k, k, x - lo),
        lo / k <= x / k < (hi + k - 1) / k,
{
    lemma_fundamental_div_mod(lo, k);
    let q = lo / k;
    let a = lo % k;
    let y = a + (x - lo);
    lemma_fundamental_div_mod(y, k);
    assert(x == (q + y / k) * k + y % k) by (nonlinear_arith)
        requires
            lo == k * q + a,
            y == a + (x - lo),
            y == k * (y / k) + y % k,
    ;
    lemma_fundamental_div_mod_converse(x, k, q + y / k, y % k);
    assert(y / k >= 0) by (nonlinear_arith)
        requires
            y == k * (y / k) + y % k,
            0 <= y % k < k,
            y >= 0,
            k >= 1,
    ;
    lemma_fundamental_div_mod(hi + k - 1, k);
    lemma_fundamental_div_mod(x, k);
    let qx = x / k;
    let qh = (hi + k - 1) / k;
    assert(qx < qh) by (nonlinear_arith)
        requires
            x == k * qx + x % k,
            0 <= x % k < k,
            hi + k - 1 == k * qh + (hi + k - 1) % k,
            0 <= (hi + k - 1) % k < k,
            x < hi,
            k >= 1,
    ;
}

/// Along one axis: the native pixels between the rounded ends of a window
/// are those that its extent, shifted by its alignment, touches.
pub proof fn lemma_extent_of_window(lo: int, hi: int, k: int)
    requires
        k >= 1,
        lo <= hi,
    ensures
        (hi + k - 1) / k - lo / k == crate::view::chunking::read_extent(lo % k, hi - lo, k),
        lo / k <= (hi + k - 1) / k,
        0 <= lo % k < k,
{
    lemma_fundamental_div_mod(lo, k);
    let q = lo / k;
    let a = lo % k;
    let y = a + (hi - lo) + k - 1;
    lemma_fundamental_div_mod(y, k);
    assert(hi + k - 1 == (q + y / k) * k + y % k) by (nonlinear_arith)
        requires
            lo == k * q + a,
            y == a + (hi - lo) + k - 1,
            y == k * (y / k) + y % k,
    ;
    lemma_fundamental_div_mod_converse(hi + k - 1, k, q + y / k, y % k);
    assert(y / k >= 0) by (nonlinear_arith)
        requires
            y == k * (y / k) + y % k,
            0 <= y % k < k,
            y >= 0,
            k >= 1,
    ;
}

/// Transform from the unified view grid to one band's native pixel grid.
///
/// The view is made of whole blocks of native pixels: `ratio` view pixels
/// per native pixel along each axis, with the view's corner `(0, 0)` on the
/// line `origin` of the native grid. Along a mirrored axis the native
/// pixels run against the view pixels.
#[derive(Debug, Clone, Copy, PartialEq, Eq)]
pub struct ViewReadTransform {
    ratio: (usize, usize),
    origin: (usize, usize),
    mirrored: (bool, bool),
}

impl View for ViewReadTransform {
    type V = PixelScale;

    closed spec fn view(&self) -> PixelScale {
        PixelScale {
            ratio: (self.ratio.0 as int, self.ratio.1 as int),
            origin: (self.origin.0 as int, self.origin.1 as int),
            mirrored: self.mirrored,
        }
    }
}

impl ViewReadTransform {
    #[verifier::type_invariant]
    spec fn inv(&self) -> bool {
        self@.wf()
    }

    /// The transform of a band whose group has the geographic-to-pixel
    /// transform `geo_read_transform`, for the full north-up view
    /// `view_bounds` laid over the region `geo_bounds`: the view's corner
    /// `(0, 0)` lies over the region's top-left corner. See `new_oriented`.
    pub fn new(
        view_bounds: &ViewBounds,
        geo_bounds: &GeoBounds,
        geo_read_transform: &GeoReadTransform,
    ) -> (r: Result<Self, RusterioError>)
        ensures
            r is Ok <==> PixelScale::of_group(
                view_bounds@,
                geo_read_transform@,
                geo_bounds@,
                (false, false),
            ) is Some,
            r matches Ok(t) ==> Some(t@) == PixelScale::of_group(
                view_bounds@,
                geo_read_transform@,
                geo_bounds@,
                (false, false),
            ) && t@.wf(),
            r matches Err(e) ==> e == RusterioError::Uncastable,
    {
        Self::new_oriented(view_bounds, geo_bounds, geo_read_transform, (false, false))
    }

    /// The transform of a band whose group has the geographic-to-pixel
    /// transform `geo_read_transform`, for the full view `view_bounds` laid
    /// over the region `geo_bounds`, with columns and rows that run as
    /// `orientation` says.
    ///
    /// The band's native window is the smallest that covers the region. A
    /// grid that runs against the view along an axis is laid mirrored along
    /// that axis. The cast error is returned when the group's grid does not
    /// run along the geographic axes, when the window does not fit pixel
    /// coordinates, when it or the view is empty, and when the view's shape
    /// is not a whole multiple of the window's.
    pub fn new_oriented(
        view_bounds: &ViewBounds,
        geo_bounds: &GeoBounds,
        geo_read_transform: &GeoReadTransform,
        orientation: (bool, bool),
    ) -> (r: Result<Self, RusterioError>)
        ensures
            r is Ok <==> PixelScale::of_group(
                view_bounds@,
                geo_read_transform@,
                geo_bounds@,
                orientation,
            ) is Some,
            r matches Ok(t) ==> Some(t@) == PixelScale::of_group(
                view_bounds@,
                geo_read_transform@,
                geo_bounds@,
                orientation,
            ) && t@.wf(),
            r matches Err(e) ==> e == RusterioError::Uncastable,
    {
        let mirrored = match geo_read_transform.orientation() {
            Some(grid) => (grid.0 != orientation.0, grid.1 != orientation.1),
            None => {
                return Err(RusterioError::Uncastable);
            },
        };
        let read_bounds = match geo_bounds.as_read_bounds(geo_read_transform) {
            Ok(read_bounds) => read_bounds,
            Err(e) => {
                return Err(e);
            },
        };
        let view_shape = view_bounds.shape();
        let read_shape = read_bounds.shape();
        if read_shape.0 == 0 || read_shape.1 == 0 || view_shape.0 == 0 || view_shape.1 == 0 {
            return Err(RusterioError::Uncastable);
        }
        if view_shape.0 % read_shape.0 != 0 || view_shape.1 % read_shape.1 != 0 {
            return Err(RusterioError::Uncastable);
        }
        let ratio = (view_shape.0 / read_shape.0, view_shape.1 / read_shape.1);
        proof {
            lemma_fundamental_div_mod(view_shape.0 as int, read_shape.0 as int);
            lemma_fundamental_div_mod(view_shape.1 as int, read_shape.1 as int);
            assert(ratio.0 >= 1) by (nonlinear_arith)
                requires
                    view_shape.0 == read_shape.0 * ratio.0,
                    view_shape.0 > 0,
                    read_shape.0 > 0,
            ;
            assert(ratio.1 >= 1) by (nonlinear_arith)
                requires
                    view_shape.1 == read_shape.1 * ratio.1,
                    view_shape.1 > 0,
                    read_shape.1 > 0,
            ;
        }
        let low = read_bounds.min();
        let high = read_bounds.max();
        let origin = (
            if mirrored.0 {
                high.0
            } else {
                low.0
            },
            if mirrored.1 {
                high.1
            } else {
                low.1
            },
        );
        Ok(ViewReadTransform { ratio, origin, mirrored })
    }

    /// The transform with the given ratio and origin, without mirroring.
    pub fn from_ratio(ratio: (usize, usize), origin: (usize, usize)) -> (r: Self)
        requires
            ratio.0 >= 1,
            ratio.1 >= 1,
        ensures
            r@ == (PixelScale {
                ratio: (ratio.0 as int, ratio.1 as int),
                origin: (origin.0 as int, origin.1 as int),
                mirrored: (false, false),
            }),
    {
        ViewReadTransform { ratio, origin, mirrored: (false, false) }
    }

    /// The transform with the given ratio and origin, mirrored along the
    /// axes that `mirrored` names, `(x, y)`.
    pub fn oriented(ratio: (usize, usize), origin: (usize, usize), mirrored: (bool, bool)) -> (r:
        Self)
        requires
            ratio.0 >= 1,
            ratio.1 >= 1,
        ensures
            r@ == (PixelScale {
                ratio: (ratio.0 as int, ratio.1 as int),
                origin: (origin.0 as int, origin.1 as int),
                mirrored,
            }),
    {
        ViewReadTransform { ratio, origin, mirrored }
    }

    /// Whether the band's columns, and its rows, run against those of the
    /// view, `(x, y)`.
    pub fn mirrored(&self) -> (r: (bool, bool))
        ensures
            r == self@.mirrored,
            self@.wf(),
    {
        proof {
            use_type_invariant(self);
        }
        self.mirrored
    }

    /// Ratio of view to read shapes, `(x, y)`: the shape of the block of
    /// view pixels that one native pixel fills.
    pub fn ratio(&self) -> (r: (usize, usize))
        ensures
            r.0 == self@.ratio.0,
            r.1 == self@.ratio.1,
            self@.wf(),
    {
        proof {
            use_type_invariant(self);
        }
        self.ratio
    }

    /// The line of the native grid, along each axis, under the view's
    /// corner `(0, 0)`.
    pub fn origin(&self) -> (r: (usize, usize))
        ensures
            r.0 == self@.origin.0,
            r.1 == self@.origin.1,
            self@.wf(),
    {
        proof {
            use_type_invariant(self);
        }
        self.origin
    }
}

} // verus!
