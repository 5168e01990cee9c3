//! Easing-curve animation of a single fixed-point value.
//!
//! A `ScalarAnim` carries one animated quantity (a coordinate or a scroll
//! offset) from a start value to a destination value.  Progress is the
//! exact rational `elapsed_ms / duration_ms`; it is pushed through an
//! ease-out quadratic curve and used to interpolate, all in integer
//! arithmetic, so that the current value lands on the destination exactly
//! when the elapsed time reaches the duration.

use vstd::prelude::*;

use crate::units::{coord_ok, MAX_DURATION_MS};

verus! {

/// Ease-out quadratic weight, as a fraction of `d * d`: progress `n / d`
/// maps to weight `n * (2d - n) / (d * d)`, which is `0` at `n == 0`,
/// `1` at `n == d`, and increases monotonically in between.
pub open spec fn ease_weight(n: int, d: int) -> int {
    n * (2 * d - n)
}

/// The eased share of a non-negative distance `delta` covered after
/// progress `n / d`.
pub open spec fn scaled_delta(delta: int, n: int, d: int) -> int {
    (delta * ease_weight(n, d)) / (d * d)
}

/// Eased interpolation from `s` to `e` at progress `n / d`.
pub open spec fn lerp_spec(s: int, e: int, n: int, d: int) -> int {
    if e >= s {
        s + scaled_delta(e - s, n, d)
    } else {
        s - scaled_delta(s - e, n, d)
    }
}

/// Bounds on the easing weight: it lies between `0` and the full
/// denominator `d * d`, and hits those endpoints exactly.
pub proof fn lemma_ease_weight_facts(n: int, d: int)
    requires
        0 <= n <= d,
        0 < d,
    ensures
        0 < d * d,
        0 <= ease_weight(n, d) <= d * d,
        n == d ==> ease_weight(n, d) == d * d,
        n == 0 ==> ease_weight(n, d) == 0,
{
    assert(0 < d * d) by (nonlinear_arith)
        requires 0 < d;
    assert(0 <= n * (2 * d - n) <= d * d) by (nonlinear_arith)
        requires 0 <= n <= d, 0 < d;
    assert(d * (2 * d - d) == d * d) by (nonlinear_arith);
}

/// The eased share of a distance never overshoots: it stays between `0`
/// and the whole distance, and hits the endpoints exactly.
pub proof fn lemma_scaled_delta_bounds(delta: int, n: int, d: int)
    requires
        0 <= delta,
        0 <= n <= d,
        0 < d,
    ensures
        0 <= scaled_delta(delta, n, d) <= delta,
        n == d ==> scaled_delta(delta, n, d) == delta,
        n == 0 ==> scaled_delta(delta, n, d) == 0,
{
    lemma_ease_weight_facts(n, d);
    let w = ease_weight(n, d);
    let dd = d * d;
    assert(0 <= delta * w) by (nonlinear_arith)
        requires 0 <= delta, 0 <= w;
    assert(delta * w <= delta * dd) by (nonlinear_arith)
        requires 0 <= delta, w <= dd;
    vstd::arithmetic::div_mod::lemma_div_pos_is_pos(delta * w, dd);
    vstd::arithmetic::div_mod::lemma_div_is_ordered(delta * w, delta * dd, dd);
    assert(delta * dd == dd * delta) by (nonlinear_arith);
    vstd::arithmetic::div_mod::lemma_div_multiples_vanish(delta, dd);
    if n == 0 {
        assert(delta * w == 0) by (nonlinear_arith)
            requires w == 0;
        vstd::arithmetic::div_mod::lemma_div_of0(dd);
    }
}

/// Eased interpolation between two in-range coordinates, exact in
/// fixed-point arithmetic.
pub fn lerp(s: i64, e: i64, n: u64, d: u64) -> (r: i64)
    requires
        coord_ok(s as int),
        coord_ok(e as int),
        1 <= d <= MAX_DURATION_MS,
        n <= d,
    ensures
        r == lerp_spec(s as int, e as int, n as int, d as int),
        s <= e ==> s <= r <= e,
        e <= s ==> e <= r <= s,
{
    proof {
        lemma_ease_weight_facts(n as int, d as int);
        assert((d as int) * (d as int) <= 360_000_000_000) by (nonlinear_arith)
            requires 0 < (d as int) <= 600_000;
        if e >= s {
            lemma_scaled_delta_bounds(e - s, n as int, d as int);
        } else {
            lemma_scaled_delta_bounds(s - e, n as int, d as int);
        }
    }
    let w: u128 = (n as u128) * (2 * (d as u128) - (n as u128));
    let dd: u128 = (d as u128) * (d as u128);
    if e >= s {
        let delta: u128 = (e - s) as u128;
        proof {
            assert(delta * w <= delta * dd) by (nonlinear_arith)
                requires 0 <= delta, w <= dd;
            assert((delta as int) * (dd as int) <= 4_000_000_001 * 360_000_000_000)
                by (nonlinear_arith)
                requires
                    0 <= (delta as int) <= 4_000_000_001,
                    0 <= (dd as int) <= 360_000_000_000,
            ;
        }
        let off: u128 = (delta * w) / dd;
        s + (off as i64)
    } else {
        let delta: u128 = (s - e) as u128;
        proof {
            assert(delta * w <= delta * dd) by (nonlinear_arith)
                requires 0 <= delta, w <= dd;
            assert((delta as int) * (dd as int) <= 4_000_000_001 * 360_000_000_000)
                by (nonlinear_arith)
                requires
                    0 <= (delta as int) <= 4_000_000_001,
                    0 <= (dd as int) <= 360_000_000_000,
            ;
        }
        let off: u128 = (delta * w) / dd;
        s - (off as i64)
    }
}

/// The mathematical state of one animated value.
pub ghost struct AnimView {
    pub start: int,
    pub current: int,
    pub destination: int,
    pub elapsed_ms: int,
    pub animating: bool,
}

/// Well-formedness of an animation state: coordinates are in range, the
/// elapsed time is bounded, and a settled animation sits exactly on its
/// destination.
pub open spec fn anim_wf(a: AnimView) -> bool {
    &&& coord_ok(a.start)
    &&& coord_ok(a.current)
    &&& coord_ok(a.destination)
    &&& 0 <= a.elapsed_ms <= MAX_DURATION_MS as int
    &&& !a.animating ==> a.current == a.destination
}

/// A state from which no further motion happens.
pub open spec fn anim_converged(a: AnimView) -> bool {
    !a.animating && a.current == a.destination
}

/// One `advance` tick: add `dt` to the elapsed time; on reaching the
/// duration, land exactly on the destination and stop.
pub open spec fn anim_step(a: AnimView, dt: int, dur: int) -> AnimView {
    if !a.animating {
        a
    } else if a.elapsed_ms + dt >= dur {
        AnimView {
            start: a.start,
            current: a.destination,
            destination: a.destination,
            elapsed_ms: dur,
            animating: false,
        }
    } else {
        AnimView {
            start: a.start,
            current: lerp_spec(a.start, a.destination, a.elapsed_ms + dt, dur),
            destination: a.destination,
            elapsed_ms: a.elapsed_ms + dt,
            animating: true,
        }
    }
}

/// What `set_destination` does: restart toward a genuinely new
/// destination, and leave the state alone when the destination repeats.
pub open spec fn anim_retarget(a: AnimView, dest: int) -> AnimView {
    if dest == a.destination {
        a
    } else {
        anim_restart(a, dest)
    }
}

/// An unconditional restart: begin a fresh animation from the current
/// value toward `dest`.
pub open spec fn anim_restart(a: AnimView, dest: int) -> AnimView {
    AnimView {
        start: a.current,
        current: a.current,
        destination: dest,
        elapsed_ms: 0,
        animating: true,
    }
}

/// One animated scalar: a coordinate axis or a scroll offset, in
/// fixed-point subunits.
pub struct ScalarAnim {
    start: i64,
    current: i64,
    destination: i64,
    elapsed_ms: u64,
    animating: bool,
}

impl View for ScalarAnim {
    type V = AnimView;

    closed spec fn view(&self) -> AnimView {
        AnimView {
            start: self.start as int,
            current: self.current as int,
            destination: self.destination as int,
            elapsed_ms: self.elapsed_ms as int,
            animating: self.animating,
        }
    }
}

impl ScalarAnim {
    pub open spec fn wf(&self) -> bool {
        anim_wf(self@)
    }

    /// A value that has already arrived: no motion until a new
    /// destination is set.
    pub fn new_settled(v: i64) -> (r: ScalarAnim)
        requires
            coord_ok(v as int),
        ensures
            r.wf(),
            r@ == (AnimView {
                start: v as int,
                current: v as int,
                destination: v as int,
                elapsed_ms: 0,
                animating: false,
            }),
    {
        ScalarAnim { start: v, current: v, destination: v, elapsed_ms: 0, animating: false }
    }

    pub fn current(&self) -> (r: i64)
        ensures
            r == self@.current,
    {
        self.current
    }

    pub fn destination(&self) -> (r: i64)
        ensures
            r == self@.destination,
    {
        self.destination
    }

    pub fn is_animating(&self) -> (r: bool)
        ensures
            r == self@.animating,
    {
        self.animating
    }

    /// Aim at `dest`; a repeated destination leaves the animation alone,
    /// so redundant messages never restart an in-flight motion.
    pub fn set_destination(&mut self, dest: i64)
        requires
            old(self).wf(),
            coord_ok(dest as int),
        ensures
            final(self).wf(),
            final(self)@ == anim_retarget(old(self)@, dest as int),
    {
        if dest != self.destination {
            self.restart_toward(dest);
        }
    }

    /// Begin a fresh animation from the current value toward `dest`,
    /// whether or not the destination changed.
    pub fn restart_toward(&mut self, dest: i64)
        requires
            old(self).wf(),
            coord_ok(dest as int),
        ensures
            final(self).wf(),
            final(self)@ == anim_restart(old(self)@, dest as int),
    {
        self.start = self.current;
        self.destination = dest;
        self.elapsed_ms = 0;
        self.animating = true;
    }

    /// Advance by `dt_ms` of a `duration_ms`-long animation; returns
    /// whether the value is still in flight afterwards.
    pub fn advance(&mut self, dt_ms: u64, duration_ms: u64) -> (in_flight: bool)
        requires
            old(self).wf(),
            1 <= duration_ms <= MAX_DURATION_MS,
        ensures
            final(self).wf(),
            final(self)@ == anim_step(old(self)@, dt_ms as int, duration_ms as int),
            in_flight == final(self)@.animating,
    {
        if !self.animating {
            return false;
        }
        if self.elapsed_ms >= duration_ms || dt_ms >= duration_ms - self.elapsed_ms {
            self.elapsed_ms = duration_ms;
            self.current = self.destination;
            self.animating = false;
            false
        } else {
            self.elapsed_ms = self.elapsed_ms + dt_ms;
            self.current = lerp(self.start, self.destination, self.elapsed_ms, duration_ms);
            true
        }
    }
}

/// What a two-axis `set_destination` does: both axes restart together
/// when either destination coordinate changes, sharing one progress
/// clock; a repeated destination pair leaves both axes alone.
pub open spec fn pair_retarget(ax: AnimView, ay: AnimView, px: int, py: int) -> (AnimView,
    AnimView) {
    if px == ax.destination && py == ay.destination {
        (ax, ay)
    } else {
        (anim_restart(ax, px), anim_restart(ay, py))
    }
}

/// A two-dimensional animated position; the two axes always restart
/// together, so one progress clock drives both.
pub struct PointAnim {
    pub x: ScalarAnim,
    pub y: ScalarAnim,
}

impl PointAnim {
    pub open spec fn wf(&self) -> bool {
        anim_wf(self.x@) && anim_wf(self.y@)
    }

    /// A position that has already arrived.
    pub fn new_settled(px: i64, py: i64) -> (r: PointAnim)
        requires
            coord_ok(px as int),
            coord_ok(py as int),
        ensures
            r.wf(),
            anim_converged(r.x@) && anim_converged(r.y@),
            r.x@.current == px && r.y@.current == py,
            r.x@.destination == px && r.y@.destination == py,
    {
        PointAnim { x: ScalarAnim::new_settled(px), y: ScalarAnim::new_settled(py) }
    }

    /// Aim at `(px, py)`; a repeated destination pair restarts nothing.
    pub fn set_destination(&mut self, px: i64, py: i64)
        requires
            old(self).wf(),
            coord_ok(px as int),
            coord_ok(py as int),
        ensures
            final(self).wf(),
            (final(self).x@, final(self).y@) == pair_retarget(
                old(self).x@,
                old(self).y@,
                px as int,
                py as int,
            ),
    {
        if px != self.x.destination() || py != self.y.destination() {
            self.x.restart_toward(px);
            self.y.restart_toward(py);
        }
    }

    /// Advance both axes by the same tick; returns whether the position
    /// is still in flight.
    pub fn advance(&mut self, dt_ms: u64, duration_ms: u64) -> (in_flight: bool)
        requires
            old(self).wf(),
            1 <= duration_ms <= MAX_DURATION_MS,
        ensures
            final(self).wf(),
            final(self).x@ == anim_step(old(self).x@, dt_ms as int, duration_ms as int),
            final(self).y@ == anim_step(old(self).y@, dt_ms as int, duration_ms as int),
            in_flight == (final(self).x@.animating || final(self).y@.animating),
    {
        let fx = self.x.advance(dt_ms, duration_ms);
        let fy = self.y.advance(dt_ms, duration_ms);
        fx || fy
    }

    pub fn current(&self) -> (r: (i64, i64))
        ensures
            r.0 == self.x@.current,
            r.1 == self.y@.current,
    {
        (self.x.current(), self.y.current())
    }

    pub fn destination(&self) -> (r: (i64, i64))
        ensures
            r.0 == self.x@.destination,
            r.1 == self.y@.destination,
    {
        (self.x.destination(), self.y.destination())
    }
}

/// Total of a sequence of frame times.
pub open spec fn total_ms(dts: Seq<int>) -> int
    decreases dts.len(),
{
    if dts.len() == 0 {
        0
    } else {
        dts[0] + total_ms(dts.drop_first())
    }
}

/// The state after advancing once per entry of `dts`, in order, with a
/// fixed duration.
pub open spec fn anim_run(a: AnimView, dts: Seq<int>, dur: int) -> AnimView
    decreases dts.len(),
{
    if dts.len() == 0 {
        a
    } else {
        anim_run(anim_step(a, dts[0], dur), dts.drop_first(), dur)
    }
}

/// Once an animation is settled, or enough time remains in the frame
/// sequence to finish it, running the sequence settles it on its
/// destination.
proof fn lemma_run_settles(a: AnimView, dts: Seq<int>, dur: int)
    requires
        1 <= dur,
        forall|i: int| 0 <= i < dts.len() ==> #[trigger] dts[i] >= 0,
        anim_converged(a) || (a.animating && total_ms(dts) >= 1 && a.elapsed_ms + total_ms(dts)
            >= dur),
    ensures
        anim_converged(anim_run(a, dts, dur)),
        anim_run(a, dts, dur).destination == a.destination,
    decreases dts.len(),
{
    if dts.len() == 0 {
        assert(total_ms(dts) == 0);
    } else {
        let a2 = anim_step(a, dts[0], dur);
        let rest = dts.drop_first();
        assert(forall|i: int| 0 <= i < rest.len() ==> #[trigger] rest[i] >= 0);
        if anim_converged(a) {
            lemma_run_settles(a2, rest, dur);
        } else if a.elapsed_ms + dts[0] >= dur {
            lemma_run_settles(a2, rest, dur);
        } else {
            assert(a2.animating && a2.elapsed_ms == a.elapsed_ms + dts[0]);
            assert(a2.elapsed_ms + total_ms(rest) >= dur);
            assert(total_ms(rest) >= dur - a2.elapsed_ms >= 1);
            lemma_run_settles(a2, rest, dur);
        }
    }
}

/// Animation convergence: for any destination, advancing with frame
/// times that total at least the animation duration lands the current
/// value exactly on the destination, and the animation reports itself
/// settled from then on.
pub proof fn lemma_animation_convergence(a: AnimView, dts: Seq<int>, dur: int)
    requires
        anim_wf(a),
        1 <= dur <= MAX_DURATION_MS as int,
        forall|i: int| 0 <= i < dts.len() ==> #[trigger] dts[i] >= 0,
        total_ms(dts) >= dur,
    ensures
        anim_converged(anim_run(a, dts, dur)),
        anim_run(a, dts, dur).destination == a.destination,
{
    lemma_run_settles(a, dts, dur);
}

/// Position convergence, both axes at once: frame times totalling at
/// least the duration land a two-axis position exactly on its
/// destination pair, settled.
pub proof fn lemma_position_convergence(ax: AnimView, ay: AnimView, dts: Seq<int>, dur: int)
    requires
        anim_wf(ax),
        anim_wf(ay),
        1 <= dur <= MAX_DURATION_MS as int,
        forall|i: int| 0 <= i < dts.len() ==> #[trigger] dts[i] >= 0,
        total_ms(dts) >= dur,
    ensures
        anim_converged(anim_run(ax, dts, dur)),
        anim_converged(anim_run(ay, dts, dur)),
        anim_run(ax, dts, dur).destination == ax.destination,
        anim_run(ay, dts, dur).destination == ay.destination,
{
    lemma_animation_convergence(ax, dts, dur);
    lemma_animation_convergence(ay, dts, dur);
}

/// The interpolated value stays between its two endpoints.
pub proof fn lemma_lerp_spec_in_range(s: int, e: int, n: int, d: int)
    requires
        0 <= n <= d,
        0 < d,
    ensures
        s <= e ==> s <= lerp_spec(s, e, n, d) <= e,
        e <= s ==> e <= lerp_spec(s, e, n, d) <= s,
{
    if e >= s {
        lemma_scaled_delta_bounds(e - s, n, d);
    } else {
        lemma_scaled_delta_bounds(s - e, n, d);
    }
}

/// No restart on a repeated destination: after aiming at `p` and
/// advancing any amount, aiming at the same `p` again changes nothing —
/// progress resets only when the destination value actually changes.
pub proof fn lemma_no_restart_on_repeat(a: AnimView, p: int, dt: int, dur: int)
    ensures
        anim_retarget(anim_step(anim_retarget(a, p), dt, dur), p)
            == anim_step(anim_retarget(a, p), dt, dur),
{
    let b = anim_step(anim_retarget(a, p), dt, dur);
    assert(b.destination == p);
}

} // verus!
