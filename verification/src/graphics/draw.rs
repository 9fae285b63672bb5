pub mod canvas;

use vstd::prelude::*;

verus! {

/// Bound on the coordinates that line clipping takes.
pub const COORD_LIMIT: i64 = 0x4000_0000;

/// Integer division rounding toward zero, as Rust's `/` on signed values.
pub open spec fn tdiv(a: int, b: int) -> int {
    let q = abs(a) / abs(b);
    if (a >= 0) == (b > 0) || a == 0 {
        q
    } else {
        -q
    }
}

pub open spec fn abs(a: int) -> int {
    if a < 0 {
        -a
    } else {
        a
    }
}

fn div_toward_zero(a: i64, b: i64) -> (res: i64)
    requires
        b != 0,
        -0x4000_0000_0000_0000 <= a <= 0x4000_0000_0000_0000,
        -0x4000_0000_0000_0000 <= b <= 0x4000_0000_0000_0000,
    ensures
        res == tdiv(a as int, b as int),
{
    let ua: u64 = if a < 0 { (-a) as u64 } else { a as u64 };
    let ub: u64 = if b < 0 { (-b) as u64 } else { b as u64 };
    let q = ua / ub;
    proof {
        assert(q <= ua) by (nonlinear_arith)
            requires
                ub >= 1,
                q == ua / ub,
        ;
    }
    if (a >= 0) == (b > 0) || a == 0 {
        q as i64
    } else {
        -(q as i64)
    }
}

/// The point `p`, moved by `tdiv(a * num, den)` along one axis, stays between
/// `p` and `p + a` when `num / den` lies in [0, 1].
proof fn lemma_between(a: int, num: int, den: int)
    requires
        den != 0,
        (num >= 0 && den > 0 && num <= den) || (num <= 0 && den < 0 && num >= den),
    ensures
        a >= 0 ==> 0 <= tdiv(a * num, den) <= a,
        a < 0 ==> a <= tdiv(a * num, den) <= 0,
{
    let an = abs(a * num);
    let ad = abs(den);
    assert(abs(a * num) == abs(a) * abs(num)) by (nonlinear_arith);
    assert(abs(num) <= abs(den));
    assert(an / ad <= abs(a)) by (nonlinear_arith)
        requires
            an == abs(a) * abs(num),
            abs(num) <= ad,
            ad > 0,
            abs(a) >= 0,
            abs(num) >= 0,
    {
        assert(abs(a) * abs(num) <= abs(a) * ad);
        assert((abs(a) * ad) / ad == abs(a));
        vstd::arithmetic::div_mod::lemma_div_is_ordered(an, abs(a) * ad, ad);
    }
    assert(an / ad >= 0) by (nonlinear_arith)
        requires
            an >= 0,
            ad > 0,
    ;
    if a > 0 && num != 0 {
        assert(a * num > 0 <==> num > 0) by (nonlinear_arith)
            requires
                a > 0,
                num != 0,
        ;
    }
    if a < 0 && num != 0 {
        assert(a * num > 0 <==> num < 0) by (nonlinear_arith)
            requires
                a < 0,
                num != 0,
        ;
    }
    if a == 0 || num == 0 {
        assert(a * num == 0) by (nonlinear_arith)
            requires
                a == 0 || num == 0,
        ;
    }
}

/// Which sides of the box `[0, xmax] x [0, ymax]` a point is outside of.
pub open spec fn outside_left(x: int) -> bool {
    x < 0
}

pub open spec fn outside_right(x: int, xmax: int) -> bool {
    x > xmax
}

pub open spec fn outside_top(y: int) -> bool {
    y < 0
}

pub open spec fn outside_bottom(y: int, ymax: int) -> bool {
    y > ymax
}

pub open spec fn inside(x: int, y: int, xmax: int, ymax: int) -> bool {
    0 <= x <= xmax && 0 <= y <= ymax
}

/// Both points are outside the same side.
pub open spec fn share_side(x0: int, y0: int, x1: int, y1: int, xmax: int, ymax: int) -> bool {
    (x0 < 0 && x1 < 0) || (x0 > xmax && x1 > xmax) || (y0 < 0 && y1 < 0) || (y0 > ymax && y1 > ymax)
}

/// A point on the box's boundary or one of the segment's ends.
pub open spec fn on_edge(x: int, y: int, xmax: int, ymax: int) -> bool {
    x == 0 || x == xmax || y == 0 || y == ymax
}

pub open spec fn between(v: int, a: int, b: int) -> bool {
    (a <= v <= b) || (b <= v <= a)
}

/// How many of the four sides the point has been clipped against.
pub open spec fn count4(c: (bool, bool, bool, bool)) -> nat {
    (if c.0 { 1nat } else { 0nat }) + (if c.1 { 1nat } else { 0nat }) + (if c.2 { 1nat } else { 0nat }) + (
    if c.3 { 1nat } else { 0nat })
}

/// Both points are inside every side in `c` (left, right, top, bottom).
pub open spec fn inside_sides(c: (bool, bool, bool, bool), x0: int, y0: int, x1: int, y1: int, xmax: int, ymax: int) -> bool {
    &&& c.0 ==> x0 >= 0 && x1 >= 0
    &&& c.1 ==> x0 <= xmax && x1 <= xmax
    &&& c.2 ==> y0 >= 0 && y1 >= 0
    &&& c.3 ==> y0 <= ymax && y1 <= ymax
}

/// The side a point outside the box is clipped against first: bottom,
/// then top, then right, then left (3, 2, 1, 0).
pub open spec fn clip_side(px: int, py: int, xmax: int, ymax: int) -> int {
    if py > ymax {
        3
    } else if py < 0 {
        2
    } else if px > xmax {
        1
    } else {
        0
    }
}

/// Where the end `(px, py)` of the segment from `(x0, y0)` to `(x1, y1)`
/// lands when it is moved along the segment onto the side `clip_side`
/// gives, dividing toward zero.
pub open spec fn clip_pt(x0: int, y0: int, x1: int, y1: int, xmax: int, ymax: int, px: int, py: int) -> (int, int) {
    let dx = x1 - x0;
    let dy = y1 - y0;
    if py > ymax {
        (x0 + tdiv(dx * (ymax - y0), dy), ymax)
    } else if py < 0 {
        (x0 - tdiv(dx * y0, dy), 0)
    } else if px > xmax {
        (xmax, y0 + tdiv(dy * (xmax - x0), dx))
    } else {
        (0, y0 - tdiv(dy * x0, dx))
    }
}

/// Cohen-Sutherland clipping of the segment from `(x0, y0)` to `(x1, y1)`
/// to the box `[0, xmax] x [0, ymax]`, in at most `fuel` rounds: a segment
/// inside is the result; one outside a side gives `None`; otherwise the
/// first end outside the box (the start if it is) is moved onto a side and
/// the clipping goes on.
pub open spec fn clip_spec(x0: int, y0: int, x1: int, y1: int, xmax: int, ymax: int, fuel: nat) -> Option<(int, int, int, int)>
    decreases fuel,
{
    if fuel == 0 {
        None
    } else if inside(x0, y0, xmax, ymax) && inside(x1, y1, xmax, ymax) {
        Some((x0, y0, x1, y1))
    } else if share_side(x0, y0, x1, y1, xmax, ymax) {
        None
    } else if !inside(x0, y0, xmax, ymax) {
        let p = clip_pt(x0, y0, x1, y1, xmax, ymax, x0, y0);
        clip_spec(p.0, p.1, x1, y1, xmax, ymax, (fuel - 1) as nat)
    } else {
        let p = clip_pt(x0, y0, x1, y1, xmax, ymax, x1, y1);
        clip_spec(x0, y0, p.0, p.1, xmax, ymax, (fuel - 1) as nat)
    }
}

/// One round of the clipping, for a segment neither inside nor outside a
/// side.
proof fn lemma_clip_round(x0: int, y0: int, x1: int, y1: int, xmax: int, ymax: int, fuel: nat)
    requires
        fuel >= 1,
        !(inside(x0, y0, xmax, ymax) && inside(x1, y1, xmax, ymax)),
        !share_side(x0, y0, x1, y1, xmax, ymax),
    ensures
        !inside(x0, y0, xmax, ymax) ==> clip_spec(x0, y0, x1, y1, xmax, ymax, fuel) == clip_spec(
            clip_pt(x0, y0, x1, y1, xmax, ymax, x0, y0).0,
            clip_pt(x0, y0, x1, y1, xmax, ymax, x0, y0).1,
            x1,
            y1,
            xmax,
            ymax,
            (fuel - 1) as nat,
        ),
        inside(x0, y0, xmax, ymax) ==> clip_spec(x0, y0, x1, y1, xmax, ymax, fuel) == clip_spec(
            x0,
            y0,
            clip_pt(x0, y0, x1, y1, xmax, ymax, x1, y1).0,
            clip_pt(x0, y0, x1, y1, xmax, ymax, x1, y1).1,
            xmax,
            ymax,
            (fuel - 1) as nat,
        ),
{
}

proof fn lemma_mul_bound(a: int, b: int)
    requires
        -0x8000_0000 <= a <= 0x8000_0000,
        -0x8000_0000 <= b <= 0x8000_0000,
    ensures
        -0x4000_0000_0000_0000 <= a * b <= 0x4000_0000_0000_0000,
{
    assert(-0x4000_0000_0000_0000 <= a * b <= 0x4000_0000_0000_0000) by (nonlinear_arith)
        requires
            -0x8000_0000 <= a <= 0x8000_0000,
            -0x8000_0000 <= b <= 0x8000_0000,
    ;
}

/// Moves the end (px, py), which is outside the box, along the segment onto
/// the side `clip_side` gives.
fn clip_point(x0: i64, y0: i64, x1: i64, y1: i64, xmax: i64, ymax: i64, px: i64, py: i64) -> (res: (i64, i64))
    requires
        -COORD_LIMIT <= x0 <= COORD_LIMIT,
        -COORD_LIMIT <= y0 <= COORD_LIMIT,
        -COORD_LIMIT <= x1 <= COORD_LIMIT,
        -COORD_LIMIT <= y1 <= COORD_LIMIT,
        0 <= xmax <= COORD_LIMIT,
        0 <= ymax <= COORD_LIMIT,
        (px == x0 && py == y0) || (px == x1 && py == y1),
        !inside(px as int, py as int, xmax as int, ymax as int),
        !share_side(x0 as int, y0 as int, x1 as int, y1 as int, xmax as int, ymax as int),
    ensures
        (res.0 as int, res.1 as int) == clip_pt(
            x0 as int,
            y0 as int,
            x1 as int,
            y1 as int,
            xmax as int,
            ymax as int,
            px as int,
            py as int,
        ),
        clip_side(px as int, py as int, xmax as int, ymax as int) == 3 ==> res.1 == ymax && between(
            res.0 as int,
            x0 as int,
            x1 as int,
        ),
        clip_side(px as int, py as int, xmax as int, ymax as int) == 2 ==> res.1 == 0 && between(
            res.0 as int,
            x0 as int,
            x1 as int,
        ),
        clip_side(px as int, py as int, xmax as int, ymax as int) == 1 ==> res.0 == xmax && between(
            res.1 as int,
            y0 as int,
            y1 as int,
        ),
        clip_side(px as int, py as int, xmax as int, ymax as int) == 0 ==> res.0 == 0 && between(
            res.1 as int,
            y0 as int,
            y1 as int,
        ),
{
    let dx = x1 - x0;
    let dy = y1 - y0;
    if py > ymax {
        proof {
            lemma_between(dx as int, ymax - y0, dy as int);
            lemma_mul_bound(dx as int, ymax - y0);
        }
        (x0 + div_toward_zero(dx * (ymax - y0), dy), ymax)
    } else if py < 0 {
        proof {
            lemma_between(dx as int, -y0, dy as int);
            lemma_mul_bound(dx as int, y0 as int);
            assert(dx * (-y0) == -(dx * y0)) by (nonlinear_arith);
            assert(tdiv(-(dx * y0), dy as int) == -tdiv(dx * y0, dy as int));
        }
        (x0 - div_toward_zero(dx * y0, dy), 0)
    } else if px > xmax {
        proof {
            lemma_between(dy as int, xmax - x0, dx as int);
            lemma_mul_bound(dy as int, xmax - x0);
        }
        (xmax, y0 + div_toward_zero(dy * (xmax - x0), dx))
    } else {
        proof {
            lemma_between(dy as int, -x0, dx as int);
            lemma_mul_bound(dy as int, x0 as int);
            assert(dy * (-x0) == -(dy * x0)) by (nonlinear_arith);
            assert(tdiv(-(dy * x0), dx as int) == -tdiv(dy * x0, dx as int));
        }
        (0, y0 - div_toward_zero(dy * x0, dx))
    }
}

/// Clips the segment from (x0, y0) to (x1, y1) to the box
/// `[0, xmax] x [0, ymax]` (Cohen-Sutherland): the part inside, or nothing
/// when the segment lies outside a side. A segment inside is kept as it is;
/// clipped ends lie on the box's edges and between the segment's ends.
#[verifier::spinoff_prover]
#[verifier::rlimit(50)]
pub fn clip_line(x0: i64, y0: i64, x1: i64, y1: i64, xmax: i64, ymax: i64) -> (res: Option<(usize, usize, usize, usize)>)
    requires
        -COORD_LIMIT <= x0 <= COORD_LIMIT,
        -COORD_LIMIT <= y0 <= COORD_LIMIT,
        -COORD_LIMIT <= x1 <= COORD_LIMIT,
        -COORD_LIMIT <= y1 <= COORD_LIMIT,
        0 <= xmax <= COORD_LIMIT,
        0 <= ymax <= COORD_LIMIT,
    ensures
        inside(x0 as int, y0 as int, xmax as int, ymax as int) && inside(x1 as int, y1 as int, xmax as int, ymax as int)
            ==> res == Some((x0 as usize, y0 as usize, x1 as usize, y1 as usize)),
        share_side(x0 as int, y0 as int, x1 as int, y1 as int, xmax as int, ymax as int) ==> res is None,
        match clip_spec(x0 as int, y0 as int, x1 as int, y1 as int, xmax as int, ymax as int, 9) {
            None => res is None,
            Some(c) => res matches Some(r) && (r.0 as int, r.1 as int, r.2 as int, r.3 as int) == c,
        },
        res matches Some(r) ==> {
            &&& inside(r.0 as int, r.1 as int, xmax as int, ymax as int)
            &&& inside(r.2 as int, r.3 as int, xmax as int, ymax as int)
            &&& (r.0 == x0 && r.1 == y0) || on_edge(r.0 as int, r.1 as int, xmax as int, ymax as int)
            &&& (r.2 == x1 && r.3 == y1) || on_edge(r.2 as int, r.3 as int, xmax as int, ymax as int)
            &&& between(r.0 as int, x0 as int, x1 as int) && between(r.2 as int, x0 as int, x1 as int)
            &&& between(r.1 as int, y0 as int, y1 as int) && between(r.3 as int, y0 as int, y1 as int)
        },
{
    let mut cx0 = x0;
    let mut cy0 = y0;
    let mut cx1 = x1;
    let mut cy1 = y1;
    let ghost mut c0: (bool, bool, bool, bool) = (false, false, false, false);
    let ghost mut c1: (bool, bool, bool, bool) = (false, false, false, false);
    loop
        invariant
            0 <= xmax <= COORD_LIMIT,
            0 <= ymax <= COORD_LIMIT,
            -COORD_LIMIT <= (x0 as int) <= COORD_LIMIT,
            -COORD_LIMIT <= (y0 as int) <= COORD_LIMIT,
            -COORD_LIMIT <= (x1 as int) <= COORD_LIMIT,
            -COORD_LIMIT <= (y1 as int) <= COORD_LIMIT,
            between(cx0 as int, (x0 as int), (x1 as int)) && between(cx1 as int, (x0 as int), (x1 as int)),
            between(cy0 as int, (y0 as int), (y1 as int)) && between(cy1 as int, (y0 as int), (y1 as int)),
            inside_sides(c0, cx0 as int, cy0 as int, cx1 as int, cy1 as int, xmax as int, ymax as int),
            inside_sides(c1, cx0 as int, cy0 as int, cx1 as int, cy1 as int, xmax as int, ymax as int),
            (cx0 == (x0 as int) && cy0 == (y0 as int)) || on_edge(cx0 as int, cy0 as int, xmax as int, ymax as int),
            (cx1 == (x1 as int) && cy1 == (y1 as int)) || on_edge(cx1 as int, cy1 as int, xmax as int, ymax as int),
            (inside(x0 as int, y0 as int, xmax as int, ymax as int) && inside(x1 as int, y1 as int, xmax as int, ymax as int)) ==> cx0 == (x0 as int) && cy0 == (y0 as int) && cx1 == (x1 as int) && cy1 == (y1 as int),
            share_side((x0 as int), (y0 as int), (x1 as int), (y1 as int), xmax as int, ymax as int) ==> cx0 == (x0 as int) && cy0 == (y0 as int) && cx1 == (x1 as int)
                && cy1 == (y1 as int),
            clip_spec(x0 as int, y0 as int, x1 as int, y1 as int, xmax as int, ymax as int, 9) == clip_spec(
                cx0 as int,
                cy0 as int,
                cx1 as int,
                cy1 as int,
                xmax as int,
                ymax as int,
                (9 - count4(c0) - count4(c1)) as nat,
            ),
        decreases 8 - count4(c0) - count4(c1),
    {
        let in0 = 0 <= cx0 && cx0 <= xmax && 0 <= cy0 && cy0 <= ymax;
        let in1 = 0 <= cx1 && cx1 <= xmax && 0 <= cy1 && cy1 <= ymax;
        if in0 && in1 {
            return Some((cx0 as usize, cy0 as usize, cx1 as usize, cy1 as usize));
        }
        if (cx0 < 0 && cx1 < 0) || (cx0 > xmax && cx1 > xmax) || (cy0 < 0 && cy1 < 0) || (cy0 > ymax && cy1 > ymax) {
            return None;
        }
        let clip_first = !in0;
        let (px, py) = if clip_first { (cx0, cy0) } else { (cx1, cy1) };
        let ghost side = clip_side(px as int, py as int, xmax as int, ymax as int);
        let ghost f = (9 - count4(c0) - count4(c1)) as nat;
        proof {
            lemma_clip_round(cx0 as int, cy0 as int, cx1 as int, cy1 as int, xmax as int, ymax as int, f);
        }
        let (nx, ny) = clip_point(cx0, cy0, cx1, cy1, xmax, ymax, px, py);
        if clip_first {
            cx0 = nx;
            cy0 = ny;
            proof {
                c0 = if side == 0 {
                    (true, c0.1, c0.2, c0.3)
                } else if side == 1 {
                    (c0.0, true, c0.2, c0.3)
                } else if side == 2 {
                    (c0.0, c0.1, true, c0.3)
                } else {
                    (c0.0, c0.1, c0.2, true)
                };
            }
        } else {
            cx1 = nx;
            cy1 = ny;
            proof {
                c1 = if side == 0 {
                    (true, c1.1, c1.2, c1.3)
                } else if side == 1 {
                    (c1.0, true, c1.2, c1.3)
                } else if side == 2 {
                    (c1.0, c1.1, true, c1.3)
                } else {
                    (c1.0, c1.1, c1.2, true)
                };
            }
        }
    }
}

} // verus!
