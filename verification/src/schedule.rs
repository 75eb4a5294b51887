//! The timestamps at which candles are due.
//!
//! Candle boundaries are counted from the top of the hour that the window's
//! start lies in, in steps of the resolution.  The grid is anchored once, at the
//! start of the window; a resolution that does not divide the hour therefore
//! drifts against later hours.

use vstd::arithmetic::div_mod::{
    lemma_fundamental_div_mod, lemma_fundamental_div_mod_converse, lemma_mod_bound,
};
use vstd::arithmetic::mul::{
    lemma_mul_inequality, lemma_mul_is_commutative, lemma_mul_is_distributive_add_other_way,
    lemma_mul_strict_inequality,
};
use vstd::prelude::*;

use crate::error::AuditError;
use crate::utc::{
    add_minutes, floor_to_hour, hour_floor, is_representable, lemma_hour_floor_bounds,
    representable,
};

verus! {

/// Seconds between two candles at a resolution of `r` minutes.
pub open spec fn step(r: int) -> int {
    r * 60
}

/// The point `k` steps after `seed`.
pub open spec fn grid_point(seed: int, k: int, r: int) -> int {
    seed + k * step(r)
}

/// The first candle boundary after `t`: the top of `t`'s hour plus the least
/// positive number of steps that passes `t`.
pub open spec fn next_after(t: int, r: int) -> int {
    grid_point(hour_floor(t), (t - hour_floor(t)) / step(r) + 1, r)
}

/// How many of the points `first`, `first + step`, ... lie before `to`.
pub open spec fn count_before(first: int, to: int, r: int) -> nat {
    if first < to {
        ((to - 1 - first) / step(r) + 1) as nat
    } else {
        0
    }
}

/// The points `first`, `first + step`, ... that lie before `to`, in order.
pub open spec fn grid(first: int, to: int, r: int) -> Seq<int> {
    Seq::new(count_before(first, to, r), |i: int| grid_point(first, i, r))
}

/// The timestamps at which a candle is due in the window from `from` to `to`,
/// both ends left out, at a resolution of `r` minutes.
pub open spec fn expected(from: int, to: int, r: int) -> Seq<int> {
    grid(next_after(from, r), to, r)
}

/// A sequence of seconds as mathematical integers.
pub open spec fn as_ints(s: Seq<i64>) -> Seq<int> {
    s.map_values(|t: i64| t as int)
}

proof fn lemma_div_bounds(x: int, s: int)
    requires
        s > 0,
    ensures
        (x / s) * s <= x < (x / s) * s + s,
{
    lemma_fundamental_div_mod(x, s);
    lemma_mod_bound(x, s);
    lemma_mul_is_commutative(s, x / s);
}

proof fn lemma_div_between(x: int, s: int, q: int)
    requires
        s > 0,
        q * s <= x < q * s + s,
    ensures
        x / s == q,
{
    lemma_fundamental_div_mod_converse(x, s, q, x - q * s);
}

proof fn lemma_succ_mul(k: int, s: int)
    ensures
        (k + 1) * s == k * s + s,
        (k - 1) * s == k * s - s,
{
    lemma_mul_is_distributive_add_other_way(s, k, 1);
    lemma_mul_is_distributive_add_other_way(s, k, -1);
}

/// If `a` steps reach less far than `b` steps, then `a < b`.
proof fn lemma_fewer_steps(a: int, b: int, s: int)
    requires
        s > 0,
        a * s < b * s,
    ensures
        a < b,
{
    if a >= b {
        lemma_mul_inequality(b, a, s);
    }
}

/// The next boundary after `t` lies in `(t, t + step]`, at least one whole step
/// after the top of `t`'s hour.
pub proof fn lemma_next_after_bounds(t: int, r: int)
    requires
        r > 0,
    ensures
        t < next_after(t, r) <= t + step(r),
        (t - hour_floor(t)) / step(r) >= 0,
{
    let s = step(r);
    let d = t - hour_floor(t);
    lemma_hour_floor_bounds(t);
    lemma_div_bounds(d, s);
    lemma_succ_mul(d / s, s);
    if d / s < 0 {
        lemma_succ_mul(d / s, s);
        lemma_mul_inequality(d / s + 1, 0, s);
    }
}

/// A grid point anchored at `t`'s hour that lies in `(t, t + step]` is the next
/// boundary after `t`.
pub proof fn lemma_next_after_unique(t: int, r: int, k: int)
    requires
        r > 0,
        grid_point(hour_floor(t), k, r) - step(r) <= t < grid_point(hour_floor(t), k, r),
    ensures
        grid_point(hour_floor(t), k, r) == next_after(t, r),
{
    let s = step(r);
    let d = t - hour_floor(t);
    lemma_succ_mul(k, s);
    lemma_div_between(d, s, k - 1);
}

/// The first candle boundary after `time`, on the grid anchored at the top of
/// `time`'s hour.
///
/// Fails when `time`, or the boundary itself, is no instant that UTC calendar
/// time can hold.
pub fn next_normalized_time_for_resolution(time: i64, resolution_minutes: u32) -> (r: Result<
    i64,
    AuditError,
>)
    requires
        resolution_minutes > 0,
    ensures
        r is Ok <==> representable(time as int) && representable(
            next_after(time as int, resolution_minutes as int),
        ),
        r matches Ok(n) ==> n == next_after(time as int, resolution_minutes as int),
        r matches Err(e) ==> e == AuditError::Arithmetic,
{
    let seed = match floor_to_hour(time) {
        Ok(seed) => seed,
        Err(e) => {
            return Err(e);
        },
    };
    let ghost s = step(resolution_minutes as int);
    let ghost mut k: int = 0;
    let mut final_time = seed;
    proof {
        lemma_hour_floor_bounds(time as int);
    }
    while final_time <= time
        invariant
            resolution_minutes > 0,
            s == step(resolution_minutes as int),
            representable(time as int),
            representable(final_time as int),
            seed == hour_floor(time as int),
            k >= 0,
            final_time == grid_point(seed as int, k, resolution_minutes as int),
            final_time - s <= time,
        decreases time + s - final_time,
    {
        proof {
            lemma_succ_mul(k, s);
        }
        match add_minutes(final_time, resolution_minutes) {
            Ok(moved) => {
                final_time = moved;
                proof {
                    k = k + 1;
                }
            },
            Err(e) => {
                proof {
                    // The boundary is a grid point past `final_time`, so at least one
                    // step further on, which is out of range.
                    let q = (time - seed) / s + 1;
                    lemma_next_after_bounds(time as int, resolution_minutes as int);
                    lemma_fewer_steps(k, q, s);
                    lemma_mul_inequality(k + 1, q, s);
                }
                return Err(e);
            },
        }
    }
    proof {
        lemma_next_after_unique(time as int, resolution_minutes as int, k);
    }
    Ok(final_time)
}

/// A grid is its first point followed by the grid that starts one step later.
proof fn lemma_grid_unfold(first: int, to: int, r: int)
    requires
        r > 0,
    ensures
        first >= to ==> grid(first, to, r).len() == 0,
        first < to ==> grid(first, to, r).len() > 0 && grid(first, to, r)[0] == first && grid(
            first,
            to,
            r,
        ).drop_first() == grid(first + step(r), to, r),
{
    if first < to {
        let s = step(r);
        let x = to - 1 - first;
        let q = x / s;
        lemma_div_bounds(x, s);
        if q < 0 {
            lemma_succ_mul(q, s);
            lemma_mul_inequality(q + 1, 0, s);
        }
        if first + s < to {
            lemma_succ_mul(q, s);
            lemma_div_between(x - s, s, q - 1);
        } else {
            lemma_fewer_steps(q, 1, s);
        }
        assert(count_before(first, to, r) == count_before(first + s, to, r) + 1);
        assert forall|i: int| 0 <= i < count_before(first + s, to, r) implies grid_point(
            first,
            i + 1,
            r,
        ) == #[trigger] grid_point(first + s, i, r) by {
            lemma_succ_mul(i, s);
        }
        assert(grid(first, to, r).drop_first() =~= grid(first + s, to, r));
    }
}

/// Every expected timestamp lies strictly inside the window, so a window that
/// holds no second between its ends expects nothing.
pub proof fn lemma_expected_strict_interior(from: int, to: int, r: int)
    requires
        r > 0,
    ensures
        forall|i: int|
            0 <= i < expected(from, to, r).len() ==> from < #[trigger] expected(from, to, r)[i]
                < to,
        to <= from + 1 ==> expected(from, to, r).len() == 0,
{
    let s = step(r);
    let first = next_after(from, r);
    lemma_next_after_bounds(from, r);
    assert forall|i: int| 0 <= i < expected(from, to, r).len() implies from < #[trigger] expected(
        from,
        to,
        r,
    )[i] < to by {
        let q = (to - 1 - first) / s;
        lemma_div_bounds(to - 1 - first, s);
        lemma_mul_inequality(i, q, s);
        lemma_mul_inequality(0, i, s);
    }
}

/// Consecutive expected timestamps are exactly one step apart, so the
/// timestamps increase strictly.
pub proof fn lemma_expected_uniform(from: int, to: int, r: int)
    requires
        r > 0,
    ensures
        forall|i: int|
            0 <= i && i + 1 < expected(from, to, r).len() ==> #[trigger] expected(from, to, r)[i
                + 1] - expected(from, to, r)[i] == r * 60,
        forall|i: int, j: int|
            0 <= i < j < expected(from, to, r).len() ==> #[trigger] expected(from, to, r)[i]
                < #[trigger] expected(from, to, r)[j],
{
    assert forall|i: int, j: int|
        0 <= i < j < expected(from, to, r).len() implies #[trigger] expected(from, to, r)[i]
        < #[trigger] expected(from, to, r)[j] by {
        lemma_mul_strict_inequality(i, j, step(r));
    }
    assert forall|i: int| 0 <= i && i + 1 < expected(from, to, r).len() implies #[trigger] expected(
        from,
        to,
        r,
    )[i + 1] - expected(from, to, r)[i] == r * 60 by {
        lemma_succ_mul(i, step(r));
    }
}

/// The first expected timestamp lies a positive whole number of steps after the
/// top of the hour of the window's start, and it is the first such point after
/// the start.
pub proof fn lemma_expected_hour_anchored(from: int, to: int, r: int)
    requires
        r > 0,
        expected(from, to, r).len() > 0,
    ensures
        exists|k: int|
            k >= 1 && expected(from, to, r)[0] == #[trigger] grid_point(hour_floor(from), k, r),
        (expected(from, to, r)[0] - hour_floor(from)) % (r * 60) == 0,
        expected(from, to, r)[0] - r * 60 <= from,
{
    let s = step(r);
    let k = (from - hour_floor(from)) / s + 1;
    lemma_next_after_bounds(from, r);
    lemma_grid_unfold(next_after(from, r), to, r);
    assert(expected(from, to, r)[0] == grid_point(hour_floor(from), k, r));
    lemma_fundamental_div_mod_converse(k * s, s, k, 0);
}

/// Every point inside the window that lies a whole number of steps after the
/// top of the hour of the window's start is expected.
pub proof fn lemma_expected_complete(from: int, to: int, r: int, k: int)
    requires
        r > 0,
        from < grid_point(hour_floor(from), k, r) < to,
    ensures
        expected(from, to, r).contains(grid_point(hour_floor(from), k, r)),
{
    let s = step(r);
    let seed = hour_floor(from);
    let first = next_after(from, r);
    let k0 = (from - seed) / s + 1;
    let t = grid_point(seed, k, r);
    lemma_next_after_bounds(from, r);
    lemma_succ_mul(k0, s);
    // `first - s <= from < t`, so `t` is at least `first`.
    lemma_fewer_steps(k0 - 1, k, s);
    let i = k - k0;
    lemma_mul_is_distributive_add_other_way(s, i, k0);
    assert(t == grid_point(first, i, r));
    let q = (to - 1 - first) / s;
    lemma_div_bounds(to - 1 - first, s);
    lemma_succ_mul(q, s);
    lemma_fewer_steps(i, q + 1, s);
    assert(expected(from, to, r)[i] == t);
}

/// An enumerator of the timestamps at which a candle is due in one window.
/// It yields them in increasing order and cannot be restarted.
pub struct ExpectedTimestamps {
    next: Option<i64>,
    to: i64,
    resolution_minutes: u32,
}

impl View for ExpectedTimestamps {
    type V = Seq<int>;

    /// The timestamps still to come, in order.
    closed spec fn view(&self) -> Seq<int> {
        match self.next {
            Some(n) => grid(n as int, self.to as int, self.resolution_minutes as int),
            None => Seq::empty(),
        }
    }
}

impl ExpectedTimestamps {
    #[verifier::type_invariant]
    spec fn well_formed(self) -> bool {
        &&& self.resolution_minutes > 0
        &&& representable(self.to as int)
        &&& self.next matches Some(n) ==> representable(n as int) && n < self.to
    }

    /// The enumerator for the window from `from` to `to` at a resolution of
    /// `resolution_minutes` minutes.
    ///
    /// Fails when an end of the window is no instant that UTC calendar time can
    /// hold.  A window with `from >= to` expects nothing.
    pub fn new(from: i64, to: i64, resolution_minutes: u32) -> (r: Result<Self, AuditError>)
        requires
            resolution_minutes > 0,
        ensures
            r is Ok <==> representable(from as int) && representable(to as int),
            r matches Ok(e) ==> e@ == expected(from as int, to as int, resolution_minutes as int),
            r matches Err(e) ==> e == AuditError::Arithmetic,
    {
        if !is_representable(from) || !is_representable(to) {
            return Err(AuditError::Arithmetic);
        }
        proof {
            lemma_grid_unfold(
                next_after(from as int, resolution_minutes as int),
                to as int,
                resolution_minutes as int,
            );
        }
        let next = match next_normalized_time_for_resolution(from, resolution_minutes) {
            Ok(first) => if first < to {
                Some(first)
            } else {
                None
            },
            Err(_) => None,
        };
        Ok(ExpectedTimestamps { next, to, resolution_minutes })
    }

    /// Yields the next expected timestamp, or `None` when the window is exhausted.
    pub fn next_timestamp(&mut self) -> (r: Option<i64>)
        ensures
            old(self)@.len() == 0 ==> r is None && final(self)@ == old(self)@,
            old(self)@.len() > 0 ==> r is Some && r->0 as int == old(self)@[0] && final(self)@
                == old(self)@.drop_first(),
    {
        proof {
            use_type_invariant(&*self);
        }
        match self.next {
            None => None,
            Some(current) => {
                proof {
                    lemma_grid_unfold(
                        current as int,
                        self.to as int,
                        self.resolution_minutes as int,
                    );
                    lemma_grid_unfold(
                        current + step(self.resolution_minutes as int),
                        self.to as int,
                        self.resolution_minutes as int,
                    );
                }
                let following = match add_minutes(current, self.resolution_minutes) {
                    Ok(moved) => if moved < self.to {
                        Some(moved)
                    } else {
                        None
                    },
                    Err(_) => None,
                };
                self.next = following;
                Some(current)
            },
        }
    }
}

/// The timestamps at which a candle is due in the window from `from` to `to`,
/// both ends left out, in increasing order.
///
/// Fails when an end of the window is no instant that UTC calendar time can
/// hold.  A window with `from >= to` expects nothing.
pub fn expected_timestamps(from: i64, to: i64, resolution_minutes: u32) -> (r: Result<
    Vec<i64>,
    AuditError,
>)
    requires
        resolution_minutes > 0,
    ensures
        r is Ok <==> representable(from as int) && representable(to as int),
        r matches Ok(v) ==> as_ints(v@) == expected(
            from as int,
            to as int,
            resolution_minutes as int,
        ),
        r matches Err(e) ==> e == AuditError::Arithmetic,
{
    let mut rest = match ExpectedTimestamps::new(from, to, resolution_minutes) {
        Ok(rest) => rest,
        Err(e) => {
            return Err(e);
        },
    };
    let ghost all = expected(from as int, to as int, resolution_minutes as int);
    let mut out: Vec<i64> = Vec::new();
    loop
        invariant_except_break
            as_ints(out@) + rest@ == all,
        ensures
            as_ints(out@) == all,
        decreases rest@.len(),
    {
        let ghost before = rest@;
        match rest.next_timestamp() {
            Some(t) => {
                out.push(t);
                assert(as_ints(out@) + rest@ =~= all) by {
                    assert(as_ints(out@) =~= as_ints(out@.drop_last()).push(t as int));
                    assert(before =~= seq![before[0]] + before.drop_first());
                }
            },
            None => {
                assert(as_ints(out@) =~= as_ints(out@) + rest@);
                break ;
            },
        }
    }
    Ok(out)
}

} // verus!
