use vstd::prelude::*;

verus! {

/// Fixed-point scale: a plane coordinate `v` is stored as the integer
/// `v * SCALE` (28 fractional bits).
pub const SCALE: i64 = 268435456;

/// Divides a product of two fixed-point values by the scale, rounding toward
/// zero, which brings it back to fixed point.
pub open spec fn rescale(p: int) -> int {
    if p >= 0 {
        p / (SCALE as int)
    } else {
        -((-p) / (SCALE as int))
    }
}

/// `|z|² > 4`, the escape test, computed exactly on the fixed-point values.
pub open spec fn escaped(z: (int, int)) -> bool {
    z.0 * z.0 + z.1 * z.1 > 4 * (SCALE as int) * (SCALE as int)
}

/// One step `z ← z² + c` of the recurrence in fixed point.
pub open spec fn step(z: (int, int), c: (int, int)) -> (int, int) {
    (rescale(z.0 * z.0 - z.1 * z.1) + c.0, rescale(2 * z.0 * z.1) + c.1)
}

/// The `n`-th point of the orbit of `0` under `z ← z² + c`.
pub open spec fn orbit(c: (int, int), n: nat) -> (int, int)
    decreases n,
{
    if n == 0 {
        (0, 0)
    } else {
        step(orbit(c, (n - 1) as nat), c)
    }
}

/// The first index in `[i, max_iter)` whose orbit point has escaped, or
/// `max_iter` when there is none.
pub open spec fn escape_from(c: (int, int), i: nat, max_iter: nat) -> nat
    decreases max_iter - i,
{
    if i >= max_iter {
        max_iter
    } else if escaped(orbit(c, i)) {
        i
    } else {
        escape_from(c, i + 1, max_iter)
    }
}

/// The escape time of `c`: the first index whose orbit point has `|z|² > 4`,
/// capped at `max_iter`.
pub open spec fn escape_time(c: (int, int), max_iter: nat) -> nat {
    escape_from(c, 0, max_iter)
}

/// The plane point `c` as mathematical integers.
pub open spec fn point_of(c: (i64, i64)) -> (int, int) {
    (c.0 as int, c.1 as int)
}

proof fn lemma_outside_disc(x: int, y: int)
    requires
        x > 2 * SCALE || x < -2 * SCALE || y > 2 * SCALE || y < -2 * SCALE,
    ensures
        escaped((x, y)),
{
    let s = SCALE as int;
    assert(x * x + y * y > 4 * s * s) by (nonlinear_arith)
        requires
            s > 0,
            x > 2 * s || x < -2 * s || y > 2 * s || y < -2 * s,
    ;
}

proof fn lemma_inside_disc(x: int, y: int)
    requires
        !escaped((x, y)),
    ensures
        -2 * SCALE <= x <= 2 * SCALE,
        -2 * SCALE <= y <= 2 * SCALE,
{
    if x > 2 * SCALE || x < -2 * SCALE || y > 2 * SCALE || y < -2 * SCALE {
        lemma_outside_disc(x, y);
    }
}

fn is_escaped(zr: i64, zi: i64) -> (r: bool)
    ensures
        r == escaped((zr as int, zi as int)),
{
    if zr > 2 * SCALE || zr < -2 * SCALE || zi > 2 * SCALE || zi < -2 * SCALE {
        proof {
            lemma_outside_disc(zr as int, zi as int);
        }
        true
    } else {
        assert(zr * zr <= 4 * SCALE * SCALE) by (nonlinear_arith)
            requires
                -2 * SCALE <= zr <= 2 * SCALE,
        ;
        assert(zi * zi <= 4 * SCALE * SCALE) by (nonlinear_arith)
            requires
                -2 * SCALE <= zi <= 2 * SCALE,
        ;
        assert(zr * zr >= 0 && zi * zi >= 0) by (nonlinear_arith);
        zr * zr + zi * zi > 4 * SCALE * SCALE
    }
}

fn rescale_exec(p: i64) -> (r: i64)
    requires
        p > i64::MIN,
    ensures
        r == rescale(p as int),
{
    if p >= 0 {
        p / SCALE
    } else {
        -((-p) / SCALE)
    }
}

/// Iterates `z ← z² + c` from `z = 0` and returns the index at which
/// `|z|² > 4` first holds, tested before each update, or `max_iter` when it
/// never does within `max_iter` steps.
pub fn mandelbrot_iterations(c: (i64, i64), max_iter: u32) -> (r: u32)
    ensures
        r == escape_time(point_of(c), max_iter as nat),
        r <= max_iter,
{
    proof {
        lemma_escape_from_bounded(point_of(c), 0, max_iter as nat);
    }
    let ghost cc = point_of(c);
    let mut zr: i64 = 0;
    let mut zi: i64 = 0;
    let mut i: u32 = 0;
    while i < max_iter
        invariant
            i <= max_iter,
            cc == point_of(c),
            (zr as int, zi as int) == orbit(cc, i as nat),
            escape_from(cc, 0, max_iter as nat) == escape_from(cc, i as nat, max_iter as nat),
            i >= 2 ==> !escaped(cc),
        decreases max_iter - i,
    {
        if is_escaped(zr, zi) {
            assert(escape_from(cc, i as nat, max_iter as nat) == i);
            return i;
        }
        proof {
            lemma_inside_disc(zr as int, zi as int);
            if i >= 1 {
                if i == 1 {
                    lemma_first_step(cc);
                }
                lemma_inside_disc(cc.0, cc.1);
                assert(-2 * SCALE <= c.0 <= 2 * SCALE);
                assert(-2 * SCALE <= c.1 <= 2 * SCALE);
            }
        }
        let (nr, ni) = if i == 0 {
            proof {
                assert(rescale(0) == 0);
            }
            (c.0, c.1)
        } else {
            assert(zr * zr <= 4 * SCALE * SCALE && zr * zr >= 0) by (nonlinear_arith)
                requires
                    -2 * SCALE <= zr <= 2 * SCALE,
            ;
            assert(zi * zi <= 4 * SCALE * SCALE && zi * zi >= 0) by (nonlinear_arith)
                requires
                    -2 * SCALE <= zi <= 2 * SCALE,
            ;
            assert(-8 * SCALE * SCALE <= 2 * zr * zi <= 8 * SCALE * SCALE) by (nonlinear_arith)
                requires
                    -2 * SCALE <= zr <= 2 * SCALE,
                    -2 * SCALE <= zi <= 2 * SCALE,
            ;
            let re = rescale_exec(zr * zr - zi * zi);
            let im = rescale_exec(2 * zr * zi);
            proof {
                assert(-4 * SCALE <= re <= 4 * SCALE);
                assert(-8 * SCALE <= im <= 8 * SCALE);
            }
            (re + c.0, im + c.1)
        };
        zr = nr;
        zi = ni;
        i = i + 1;
    }
    max_iter
}

proof fn lemma_escape_from_bounded(c: (int, int), i: nat, max_iter: nat)
    ensures
        escape_from(c, i, max_iter) <= max_iter,
    decreases max_iter - i,
{
    if i < max_iter {
        lemma_escape_from_bounded(c, i + 1, max_iter);
    }
}

/// A point at distance more than 2 from the origin escapes at the first
/// test after `z` takes its value, so its escape time stays below any budget
/// of two or more.
pub proof fn lemma_far_point_escapes(c: (int, int), max_iter: nat)
    requires
        escaped(c),
        max_iter >= 2,
    ensures
        escape_time(c, max_iter) == 1,
        escape_time(c, max_iter) < max_iter,
{
    lemma_first_step(c);
    assert(!escaped(orbit(c, 0)));
    assert(escape_from(c, 1, max_iter) == 1);
}

proof fn lemma_step_from_zero(c: (int, int))
    ensures
        step((0, 0), c) == c,
{
    let z: (int, int) = (0, 0);
    assert(z.0 * z.0 - z.1 * z.1 == 0 && 2 * z.0 * z.1 == 0) by (nonlinear_arith)
        requires
            z.0 == 0 && z.1 == 0,
    ;
    assert(rescale(0) == 0);
}

proof fn lemma_first_step(c: (int, int))
    ensures
        orbit(c, 1) == c,
{
    lemma_step_from_zero(c);
    assert(orbit(c, 1) == step(orbit(c, 0), c));
}

proof fn lemma_origin_orbit(n: nat)
    ensures
        orbit((0, 0), n) == (0int, 0int),
    decreases n,
{
    if n > 0 {
        lemma_origin_orbit((n - 1) as nat);
        lemma_step_from_zero((0, 0));
    }
}

proof fn lemma_origin_escape_from(i: nat, max_iter: nat)
    requires
        i <= max_iter,
    ensures
        escape_from((0, 0), i, max_iter) == max_iter,
    decreases max_iter - i,
{
    if i < max_iter {
        lemma_origin_orbit(i);
        lemma_origin_escape_from(i + 1, max_iter);
    }
}

/// The origin never escapes: its escape time is the whole budget.
pub proof fn lemma_origin_never_escapes(max_iter: nat)
    ensures
        escape_time((0, 0), max_iter) == max_iter,
{
    lemma_origin_escape_from(0, max_iter);
}

/// With no iterations allowed, every point has escape time 0.
pub proof fn lemma_zero_budget(c: (int, int))
    ensures
        escape_time(c, 0) == 0,
{
}

} // verus!
