use vstd::prelude::*;
use vstd::arithmetic::div_mod::{
    lemma_fundamental_div_mod, lemma_fundamental_div_mod_converse, lemma_mod_pos_bound,
};

verus! {

/// How straight edges are drawn.
#[derive(Clone, Copy, Debug, PartialEq, Eq, Structural)]
pub enum LineAlgorithm {
    /// The renderer's own anti-aliased segment.
    Default,
    /// Single pixels chosen by [`bresenham_points`].
    Bresenham,
}

impl Default for LineAlgorithm {
    fn default() -> (r: Self)
        ensures
            r == LineAlgorithm::Default,
    {
        LineAlgorithm::Default
    }
}

pub open spec fn iabs(x: int) -> int {
    if x < 0 {
        -x
    } else {
        x
    }
}

/// The line rises or falls more than it runs, so `y` is its major axis.
pub open spec fn steep(x0: int, y0: int, x1: int, y1: int) -> bool {
    iabs(y1 - y0) > iabs(x1 - x0)
}

/// The end points as (major, minor) coordinates, ordered so that the major
/// coordinate grows from the first to the second.
pub open spec fn line_frame(x0: int, y0: int, x1: int, y1: int) -> (int, int, int, int) {
    let (a0, b0, a1, b1) = if steep(x0, y0, x1, y1) {
        (y0, x0, y1, x1)
    } else {
        (x0, y0, x1, y1)
    };
    if a0 > a1 {
        (a1, b1, a0, b0)
    } else {
        (a0, b0, a1, b1)
    }
}

/// Minor-axis steps taken after `k` major-axis steps on a line that runs `da`
/// along its major axis and `db <= da` along its minor one: `k * db / da`
/// rounded to the nearest integer, halves rounded up.
pub open spec fn minor_steps(k: int, da: int, db: int) -> int {
    if da == 0 {
        0
    } else {
        (2 * k * db + da) / (2 * da)
    }
}

/// The `k`-th pixel of the line from `(x0, y0)` to `(x1, y1)`.
pub open spec fn raster_point(x0: int, y0: int, x1: int, y1: int, k: int) -> (int, int) {
    let (a0, b0, a1, b1) = line_frame(x0, y0, x1, y1);
    let m = minor_steps(k, a1 - a0, iabs(b1 - b0));
    let b = if b0 < b1 {
        b0 + m
    } else {
        b0 - m
    };
    if steep(x0, y0, x1, y1) {
        (b, a0 + k)
    } else {
        (a0 + k, b)
    }
}

proof fn lemma_minor_range(k: int, da: int, db: int)
    requires
        0 <= db <= da,
        0 <= k <= da,
    ensures
        0 <= minor_steps(k, da, db) <= db,
        k == da ==> minor_steps(k, da, db) == db,
{
    if da > 0 {
        let n = 2 * k * db + da;
        let d = 2 * da;
        let m = n / d;
        let r = n % d;
        lemma_fundamental_div_mod(n, d);
        assert(n >= 0) by (nonlinear_arith)
            requires
                n == 2 * k * db + da,
                k >= 0,
                db >= 0,
                da > 0,
        ;
        lemma_mod_pos_bound(n, d);
        assert(n < d * (db + 1)) by (nonlinear_arith)
            requires
                n == 2 * k * db + da,
                d == 2 * da,
                0 <= k <= da,
                0 <= db,
                da > 0,
        ;
        assert(0 <= m <= db) by (nonlinear_arith)
            requires
                n == d * m + r,
                0 <= r < d,
                0 <= n < d * (db + 1),
                d > 0,
        ;
        if k == da {
            assert(n == db * d + da) by (nonlinear_arith)
                requires
                    n == 2 * k * db + da,
                    k == da,
                    d == 2 * da,
            ;
            lemma_fundamental_div_mod_converse(n, d, db, da);
        }
    }
}

/// One more major-axis step adds a minor-axis step exactly when the decision
/// value `2 (k + 1) db - da - 2 m da` is not negative; that value stays in
/// `[2 db - 2 da, 2 db)`.
proof fn lemma_minor_step(k: int, da: int, db: int)
    requires
        0 <= db <= da,
        da > 0,
        k >= 0,
    ensures
        ({
            let m = minor_steps(k, da, db);
            let dec = 2 * (k + 1) * db - da - 2 * m * da;
            &&& minor_steps(k + 1, da, db) == if dec >= 0 {
                m + 1
            } else {
                m
            }
            &&& 2 * db - 2 * da <= dec < 2 * db
        }),
{
    let n = 2 * k * db + da;
    let d = 2 * da;
    let m = n / d;
    let r = n % d;
    assert(n >= 0) by (nonlinear_arith)
        requires
            n == 2 * k * db + da,
            k >= 0,
            db >= 0,
            da > 0,
    ;
    lemma_fundamental_div_mod(n, d);
    lemma_mod_pos_bound(n, d);
    let n2 = 2 * (k + 1) * db + da;
    assert(n2 == n + 2 * db) by (nonlinear_arith)
        requires
            n == 2 * k * db + da,
            n2 == 2 * (k + 1) * db + da,
    ;
    assert(2 * (k + 1) * db - da - 2 * m * da == r + 2 * db - d) by (nonlinear_arith)
        requires
            n == d * m + r,
            n == 2 * k * db + da,
            d == 2 * da,
    ;
    if r + 2 * db >= d {
        assert(n2 == (m + 1) * d + (r + 2 * db - d)) by (nonlinear_arith)
            requires
                n == d * m + r,
                n2 == n + 2 * db,
        ;
        lemma_fundamental_div_mod_converse(n2, d, m + 1, r + 2 * db - d);
    } else {
        assert(n2 == m * d + (r + 2 * db)) by (nonlinear_arith)
            requires
                n == d * m + r,
                n2 == n + 2 * db,
        ;
        lemma_fundamental_div_mod_converse(n2, d, m, r + 2 * db);
    }
}

/// The pixels of the segment from `(x0, y0)` to `(x1, y1)` by Bresenham's
/// midpoint rule: one pixel per step along the major axis, taken in the
/// order of growing major coordinate.
pub fn bresenham_points(x0: i32, y0: i32, x1: i32, y1: i32) -> (r: Vec<(i32, i32)>)
    ensures
        r.len() == 1 + if iabs(x1 - x0) >= iabs(y1 - y0) {
            iabs(x1 - x0)
        } else {
            iabs(y1 - y0)
        },
        forall|k: int|
            0 <= k < r.len() ==> (#[trigger] r[k].0 as int, r[k].1 as int) == raster_point(
                x0 as int,
                y0 as int,
                x1 as int,
                y1 as int,
                k,
            ),
{
    let ghost frame = line_frame(x0 as int, y0 as int, x1 as int, y1 as int);
    let (mut a0, mut b0, mut a1, mut b1): (i64, i64, i64, i64) = (
        x0 as i64,
        y0 as i64,
        x1 as i64,
        y1 as i64,
    );
    let run = if a1 >= a0 {
        a1 - a0
    } else {
        a0 - a1
    };
    let rise = if b1 >= b0 {
        b1 - b0
    } else {
        b0 - b1
    };
    let is_steep = rise > run;
    if is_steep {
        let t = a0;
        a0 = b0;
        b0 = t;
        let t = a1;
        a1 = b1;
        b1 = t;
    }
    if a0 > a1 {
        let t = a0;
        a0 = a1;
        a1 = t;
        let t = b0;
        b0 = b1;
        b1 = t;
    }
    assert(frame == (a0 as int, b0 as int, a1 as int, b1 as int));
    let da = a1 - a0;
    let db = if b1 >= b0 {
        b1 - b0
    } else {
        b0 - b1
    };
    let up = b0 < b1;
    let mut d: i64 = 2 * db - da;
    let mut b = b0;
    let mut a = a0;
    let ghost mut m: int = 0;
    let mut points: Vec<(i32, i32)> = Vec::new();
    proof {
        if da > 0 {
            lemma_fundamental_div_mod_converse(da as int, 2 * da, 0, da as int);
        }
        assert(d == 2 * (a - a0 + 1) * db - da - 2 * m * da) by (nonlinear_arith)
            requires
                d == 2 * db - da,
                a == a0,
                m == 0,
        ;
    }
    while a <= a1
        invariant
            frame == line_frame(x0 as int, y0 as int, x1 as int, y1 as int),
            frame == (a0 as int, b0 as int, a1 as int, b1 as int),
            is_steep == steep(x0 as int, y0 as int, x1 as int, y1 as int),
            i32::MIN <= a0 <= a1 <= i32::MAX,
            i32::MIN <= b0 <= i32::MAX,
            i32::MIN <= b1 <= i32::MAX,
            da == a1 - a0,
            db == iabs(b1 - b0),
            0 <= db <= da,
            up == (b0 < b1),
            a0 <= a <= a1 + 1,
            points.len() == a - a0,
            a <= a1 ==> m == minor_steps(a - a0, da as int, db as int),
            a <= a1 ==> b == if up {
                b0 + m
            } else {
                b0 - m
            },
            a <= a1 ==> d == 2 * (a - a0 + 1) * db - da - 2 * m * da,
            a <= a1 ==> 2 * db - 2 * da <= d <= 2 * db,
            forall|k: int|
                0 <= k < points.len() ==> (#[trigger] points[k].0 as int, points[k].1 as int)
                    == raster_point(x0 as int, y0 as int, x1 as int, y1 as int, k),
        decreases a1 + 1 - a,
    {
        proof {
            lemma_minor_range(a - a0, da as int, db as int);
        }
        let p = if is_steep {
            (b as i32, a as i32)
        } else {
            (a as i32, b as i32)
        };
        proof {
            assert((p.0 as int, p.1 as int) == raster_point(
                x0 as int,
                y0 as int,
                x1 as int,
                y1 as int,
                a - a0,
            ));
        }
        points.push(p);
        proof {
            if a < a1 {
                lemma_minor_step(a - a0, da as int, db as int);
                assert(2 * (a + 1 - a0 + 1) * db == 2 * (a - a0 + 1) * db + 2 * db) by (nonlinear_arith);
                assert(2 * (m + 1) * da == 2 * m * da + 2 * da) by (nonlinear_arith);
            }
        }
        if d < 0 {
            d = d + 2 * db;
        } else {
            b = if up {
                b + 1
            } else {
                b - 1
            };
            d = d + 2 * (db - da);
            proof {
                m = m + 1;
            }
        }
        a = a + 1;
    }
    points
}

} // verus!
