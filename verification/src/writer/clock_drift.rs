//! How much a clock adjuster corrects over a stretch of frames.

use crate::writer::{adjusted_total, state_after_frames, AdjusterState};
use vstd::prelude::*;

verus! {

proof fn lemma_div_shift(x: int, d: int, e: int)
    by (nonlinear_arith)
    requires
        e > 0,
        x >= 0,
        d >= 0,
    ensures
        (e * d + x) / e == d + x / e,
        (e * d + x) % e == x % e,
        0 <= x % e < e,
        x == e * (x / e) + x % e,
        0 <= x / e,
{
}

/// Over frames of two ticks or more, an adjuster makes every correction
/// that is due: the durations recorded for `n` frames of `val` ticks add up
/// to the `n * val` ticks that came in, less (or, to lengthen, plus) one
/// tick for each `every` ticks that have come in, those that the adjuster
/// held before included.
pub proof fn lemma_adjusted_total(st: AdjusterState, n: nat, val: int)
    requires
        st.wf(),
        0 <= st.cur < st.every,
        2 <= val,
        st.ndir == 0 ==> st.cur + n * val < 0x8000_0000,
    ensures
        adjusted_total(st, n, val) == n * val - st.ndir * ((st.cur + n * val) / st.every),
        state_after_frames(st, n, val) == (AdjusterState {
            cur: (st.cur + n * val) % st.every,
            ..st
        }),
    decreases n,
{
    let e = st.every;
    if n == 0 {
        assert(n * val == 0);
        assert(st.cur / e == 0 && st.cur % e == st.cur) by (nonlinear_arith)
            requires
                0 <= st.cur < e,
        ;
    } else {
        let c1 = st.cur + val;
        let d1 = c1 / e;
        let m = (n - 1) as nat;
        assert(n * val == val + m * val) by (nonlinear_arith)
            requires
                m == n - 1,
        ;
        assert(0 <= m * val) by (nonlinear_arith)
            requires
                0 <= val,
        ;
        lemma_div_shift(c1, 0, e);
        assert(d1 <= val - 1) by (nonlinear_arith)
            requires
                c1 == e * d1 + c1 % e,
                0 <= c1 % e,
                c1 < e + val,
                e >= 2000,
                val >= 2,
                d1 >= 0,
        ;
        if st.ndir == 0 {
            assert(c1 / e == 0) by (nonlinear_arith)
                requires
                    0 <= c1 < e,
            ;
        }
        assert(st.corrections(val) == (if st.ndir == 0 {
            0
        } else {
            d1
        }));
        let k = st.corrections(val);
        let next = st.after(val);
        assert(next.cur == c1 % e) by {
            if st.ndir == 0 {
                assert(c1 % e == c1) by (nonlinear_arith)
                    requires
                        0 <= c1 < e,
                ;
            }
        }
        lemma_adjusted_total(next, m, val);
        let x = next.cur + m * val;
        lemma_div_shift(x, d1, e);
        assert(st.cur + n * val == e * d1 + x);
        let q = x / e;
        assert(st.ndir * (d1 + q) == st.ndir * d1 + st.ndir * q) by (nonlinear_arith);
        if st.ndir == 0 {
            assert(st.ndir * ((st.cur + n * val) / e) == 0) by (nonlinear_arith)
                requires
                    st.ndir == 0,
            ;
            assert(st.ndir * k == 0 && st.ndir * q == 0) by (nonlinear_arith)
                requires
                    st.ndir == 0,
            ;
        }
    }
}

/// Over a minute of video at 30 frames a second, that is over 1800 frames
/// of 3000 ticks, an adjuster makes up for a difference of more than 60
/// and at most 2700 ticks, to within one tick; a difference of at most one
/// tick it leaves alone.
pub proof fn lemma_minute_is_corrected(delta: i64)
    requires
        -2700 <= delta <= 2700,
        delta < -60 || delta > 60 || -1 <= delta <= 1,
    ensures
        -1 <= adjusted_total(AdjusterState::for_delta(Some(delta)), 1800, 3000) - (1800 * 3000
            + delta) <= 1,
{
    let st = AdjusterState::for_delta(Some(delta));
    let size: int = if delta < 0 {
        -delta
    } else {
        delta as int
    };
    if size > 60 {
        let e = 5400000int / size;
        assert(st.every == e) by {
            if size == 2700 {
                assert(5400000int / 2700 == 2000);
            }
        }
        lemma_div_shift(5400000, 0, size);
        let r = 5400000int % size;
        assert(2000 <= e <= 88524 && e * size <= 5400000 && 5400000 < e * size + size)
            by (nonlinear_arith)
            requires
                5400000 == size * e + r,
                0 <= r < size,
                60 < size <= 2700,
        ;
        lemma_adjusted_total(st, 1800, 3000);
        let count = 5400000int / e;
        lemma_div_shift(5400000, 0, e);
        let rest = 5400000int % e;
        assert(size <= count <= size + 1) by (nonlinear_arith)
            requires
                5400000 == e * count + rest,
                0 <= rest < e,
                e * size <= 5400000,
                5400000 < e * size + size,
                2000 <= e,
                60 < size <= 2700,
        ;
        assert(st.ndir * count == (if delta < 0 {
            count
        } else {
            -count
        })) by (nonlinear_arith)
            requires
                st.ndir == (if delta < 0 {
                    1int
                } else {
                    -1int
                }),
        ;
    } else {
        lemma_adjusted_total(st, 1800, 3000);
        assert(5400000int / 0x8000_0000 == 0);
    }
}

/// However large the difference, an adjuster corrects by no more than 500
/// parts per million: over 1800 frames of 3000 ticks, by 2700 ticks.
pub proof fn lemma_correction_is_capped(delta: i64)
    requires
        delta <= -2700 || delta >= 2700,
    ensures
        adjusted_total(AdjusterState::for_delta(Some(delta)), 1800, 3000) == 1800 * 3000 + (
        if delta < 0 {
            -2700int
        } else {
            2700int
        }),
{
    let st = AdjusterState::for_delta(Some(delta));
    lemma_adjusted_total(st, 1800, 3000);
    assert(5400000int / 2000 == 2700);
}

} // verus!
