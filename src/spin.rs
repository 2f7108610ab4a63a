//! The spin sequencer: discrete quarter-turn requests become one eased
//! rotation of the camera's yaw at a time, with further requests queued.
use vstd::prelude::*;

use crate::angle::{
    ease_in_out, ease_in_out_cubic, is_rest_heading, lemma_rest_heading, lemma_snap_rest_heading,
    lerp_angle, lerp_angle_deg, snap_to_quarter_turns, snapped, wrap_degrees, wrapped,
    FRACTION_ONE, FULL_TURN, QUADRANT_OFFSET, QUARTER_TURN,
};

verus! {

/// Orbit parameters of the isometric camera around its look-at target.
#[derive(Clone, Copy, Debug)]
pub struct IsoCamera {
    /// Heading in millidegrees, kept in `[0, FULL_TURN)`.
    pub yaw_deg: i64,
    /// Tilt above the ground plane in millidegrees.
    pub pitch_deg: i64,
    /// Distance from the target, in thousandths of a world unit.
    pub radius: i64,
}

/// Progress of the current quarter-turn spin and the turns still waiting.
#[derive(Clone, Copy, Debug)]
pub struct CameraSpin {
    /// Heading at which the current spin started, in millidegrees.
    pub start_yaw: i64,
    /// Heading at which the current spin ends, in millidegrees.
    pub end_yaw: i64,
    /// Time spent in the current spin, in microseconds.
    pub t: u64,
    /// Length of one spin, in microseconds.
    pub duration: u64,
    /// Net count of further quarter turns requested (positive: to the right).
    pub queued_steps: i64,
}

impl IsoCamera {
    pub open spec fn wf(&self) -> bool {
        0 <= self.yaw_deg < FULL_TURN
    }
}

impl CameraSpin {
    /// A spin is animating exactly while its elapsed time is short of its length.
    pub open spec fn is_spinning(&self) -> bool {
        self.t < self.duration
    }

    pub open spec fn wf(&self) -> bool {
        &&& self.duration > 0
        &&& 0 <= self.start_yaw < FULL_TURN
        &&& self.end_yaw == self.start_yaw || self.end_yaw == self.start_yaw + QUARTER_TURN
            || self.end_yaw == self.start_yaw - QUARTER_TURN
    }

    /// A sequencer at rest at heading `yaw`, whose spins last `duration`.
    pub fn idle(yaw: i64, duration: u64) -> (r: CameraSpin)
        requires
            0 <= yaw < FULL_TURN,
            duration > 0,
        ensures
            r.wf(),
            !r.is_spinning(),
            r.start_yaw == yaw,
            r.end_yaw == yaw,
            r.duration == duration,
            r.queued_steps == 0,
    {
        CameraSpin { start_yaw: yaw, end_yaw: yaw, t: duration, duration, queued_steps: 0 }
    }
}

pub open spec fn sign(x: int) -> int {
    if x > 0 {
        1
    } else if x < 0 {
        -1
    } else {
        0
    }
}

/// Net quarter turns asked for by one frame's rotate keys (right positive).
pub open spec fn net_steps(rotate_left: bool, rotate_right: bool) -> int {
    (if rotate_right { 1int } else { 0int }) - (if rotate_left { 1int } else { 0int })
}

/// A spin of one quarter turn in direction `step` starting at `yaw`.
pub open spec fn started_spin(s: CameraSpin, yaw: int, step: int, queued: int) -> CameraSpin {
    CameraSpin {
        start_yaw: yaw as i64,
        end_yaw: (yaw + step * QUARTER_TURN) as i64,
        t: 0,
        duration: s.duration,
        queued_steps: queued as i64,
    }
}

/// The sequencer after `steps` net quarter turns are requested at heading `yaw`:
/// at rest it starts one turn and queues the rest, while spinning it queues all.
pub open spec fn after_spin_input(yaw: int, s: CameraSpin, steps: int) -> CameraSpin {
    if steps == 0 {
        s
    } else if !s.is_spinning() {
        started_spin(s, yaw, sign(steps), s.queued_steps + steps - sign(steps))
    } else {
        CameraSpin { queued_steps: (s.queued_steps + steps) as i64, ..s }
    }
}

/// The clamped fraction of a spin of length `duration` done after `t`, in millionths.
pub open spec fn spin_fraction(t: int, duration: int) -> int {
    let a = t * (FRACTION_ONE as int) / duration;
    if a > FRACTION_ONE as int {
        FRACTION_ONE as int
    } else {
        a
    }
}

/// What follows a finished spin that came to rest at `yaw`: the next queued
/// turn if there is one, else rest.
pub open spec fn next_spin(s: CameraSpin, yaw: int) -> CameraSpin {
    if s.queued_steps != 0 {
        started_spin(s, yaw, sign(s.queued_steps as int), s.queued_steps - sign(s.queued_steps as int))
    } else {
        s
    }
}

/// Camera and sequencer after a frame of `dt` microseconds.
pub open spec fn advance(iso: IsoCamera, s: CameraSpin, dt: int) -> (IsoCamera, CameraSpin) {
    if !s.is_spinning() {
        (iso, s)
    } else {
        let t = s.t + dt;
        let alpha = spin_fraction(t, s.duration as int);
        let yaw = wrapped(lerp_angle(s.start_yaw as int, s.end_yaw as int, ease_in_out(alpha)));
        let ticked = CameraSpin { t: t as u64, ..s };
        if alpha >= FRACTION_ONE as int {
            let rest = snapped(yaw);
            (IsoCamera { yaw_deg: rest as i64, ..iso }, next_spin(ticked, rest))
        } else {
            (IsoCamera { yaw_deg: yaw as i64, ..iso }, ticked)
        }
    }
}

fn sign_of(x: i64) -> (r: i64)
    ensures
        r as int == sign(x as int),
{
    if x > 0 {
        1
    } else if x < 0 {
        -1
    } else {
        0
    }
}

/// Takes this frame's rotate-left and rotate-right presses: at rest a spin
/// starts at once, while spinning the request is queued.
pub fn handle_spin_input(rotate_left: bool, rotate_right: bool, iso: &IsoCamera, spin: &mut CameraSpin)
    requires
        iso.wf(),
        old(spin).wf(),
        i64::MIN < old(spin).queued_steps < i64::MAX,
    ensures
        *final(spin) == after_spin_input(iso.yaw_deg as int, *old(spin), net_steps(rotate_left, rotate_right)),
        final(spin).wf(),
{
    let mut steps: i64 = 0;
    if rotate_left {
        steps = steps - 1;
    }
    if rotate_right {
        steps = steps + 1;
    }
    if steps == 0 {
        return;
    }
    if spin.t >= spin.duration {
        let step = sign_of(steps);
        spin.start_yaw = iso.yaw_deg;
        spin.end_yaw = iso.yaw_deg + QUARTER_TURN * step;
        spin.t = 0;
        spin.queued_steps = spin.queued_steps + (steps - step);
    } else {
        spin.queued_steps = spin.queued_steps + steps;
    }
}

/// The clamped fraction of the spin done after `t` microseconds, in millionths.
fn spin_fraction_of(t: u64, duration: u64) -> (r: u64)
    requires
        duration > 0,
    ensures
        r as int == spin_fraction(t as int, duration as int),
        r <= FRACTION_ONE,
{
    let a: u128 = (t as u128) * (FRACTION_ONE as u128) / (duration as u128);
    if a > FRACTION_ONE as u128 {
        FRACTION_ONE
    } else {
        a as u64
    }
}

/// Advances a running spin by a frame of `dt` microseconds: eases the yaw
/// along the shorter arc, and on completion snaps it to the rest heading and
/// starts the next queued turn, if any.
pub fn animate_camera_spin(iso: &mut IsoCamera, spin: &mut CameraSpin, dt: u64)
    requires
        old(iso).wf(),
        old(spin).wf(),
        dt <= u64::MAX - old(spin).duration,
    ensures
        (*final(iso), *final(spin)) == advance(*old(iso), *old(spin), dt as int),
        final(iso).wf(),
        final(spin).wf(),
{
    if spin.t < spin.duration {
        spin.t = spin.t + dt;
        let alpha = spin_fraction_of(spin.t, spin.duration);
        let eased = ease_in_out_cubic(alpha);
        let yaw = lerp_angle_deg(spin.start_yaw, spin.end_yaw, eased);
        iso.yaw_deg = wrap_degrees(yaw);
        if alpha >= FRACTION_ONE {
            iso.yaw_deg = snap_to_quarter_turns(iso.yaw_deg);
            if spin.queued_steps != 0 {
                let step = sign_of(spin.queued_steps);
                spin.queued_steps = spin.queued_steps - step;
                spin.start_yaw = iso.yaw_deg;
                spin.end_yaw = iso.yaw_deg + QUARTER_TURN * step;
                spin.t = 0;
            }
        }
    }
}

/// The total length of a sequence of frame times.
pub open spec fn total(dts: Seq<u64>) -> int
    decreases dts.len(),
{
    if dts.len() == 0 {
        0
    } else {
        dts[0] + total(dts.drop_first())
    }
}

/// Camera and sequencer after the frames `dts`, one `advance` each.
pub open spec fn run(iso: IsoCamera, s: CameraSpin, dts: Seq<u64>) -> (IsoCamera, CameraSpin)
    decreases dts.len(),
{
    if dts.len() == 0 {
        (iso, s)
    } else {
        let next = advance(iso, s, dts[0] as int);
        run(next.0, next.1, dts.drop_first())
    }
}

/// The state in which the running spin of `s` comes to rest: the yaw on the
/// rest heading nearest its end, the next queued turn started if there is one.
pub open spec fn finish(iso: IsoCamera, s: CameraSpin) -> (IsoCamera, CameraSpin) {
    let rest = snapped(wrapped(s.end_yaw as int));
    (IsoCamera { yaw_deg: rest as i64, ..iso }, next_spin(CameraSpin { t: s.duration, ..s }, rest))
}

pub open spec fn all_positive(dts: Seq<u64>) -> bool {
    forall|i: int| 0 <= i < dts.len() ==> dts[i] > 0
}

proof fn lemma_total_positive(dts: Seq<u64>)
    requires
        dts.len() > 0,
        all_positive(dts),
    ensures
        total(dts) > 0,
    decreases dts.len(),
{
    assert(dts[0] > 0);
    let rest = dts.drop_first();
    if dts.len() > 1 {
        assert forall|i: int| 0 <= i < rest.len() implies rest[i] > 0 by {
            assert(rest[i] == dts[i + 1]);
        }
        lemma_total_positive(rest);
    } else {
        assert(total(rest) == 0);
    }
}

/// At the full fraction the interpolation of a spin lands on its end heading.
proof fn lemma_lerp_spin_end(s: CameraSpin)
    requires
        s.wf(),
    ensures
        ease_in_out(FRACTION_ONE as int) == FRACTION_ONE as int,
        lerp_angle(s.start_yaw as int, s.end_yaw as int, FRACTION_ONE as int) == s.end_yaw,
{
    let one = FRACTION_ONE as int;
    assert(0int * 0int * 0int == 0);
    assert((0int * 0int * 0int) / (2 * one * one) == 0);
    let d = s.end_yaw - s.start_yaw;
    assert(d * one / one == d) by {
        vstd::arithmetic::div_mod::lemma_div_multiples_vanish(d, one);
    }
    assert(crate::angle::shortest_delta(d) == d);
}

/// A frame that leaves part of a running spin to do only moves time on.
proof fn lemma_advance_midway(iso: IsoCamera, s: CameraSpin, dt: int, later: int)
    requires
        iso.wf(),
        s.wf(),
        s.is_spinning(),
        dt >= 0,
        later > 0,
        s.t + dt + later == s.duration,
    ensures
        advance(iso, s, dt).1 == (CameraSpin { t: (s.t + dt) as u64, ..s }),
        advance(iso, s, dt).0.wf(),
{
    let one = FRACTION_ONE as int;
    let t = s.t + dt;
    assert(t * one < s.duration * one) by (nonlinear_arith)
        requires t < s.duration, one > 0, t >= 0;
    vstd::arithmetic::div_mod::lemma_multiply_divide_lt(t * one, s.duration as int, one);
}

proof fn lemma_positive_rest(dts: Seq<u64>)
    requires
        dts.len() > 0,
        all_positive(dts),
    ensures
        all_positive(dts.drop_first()),
{
    let rest = dts.drop_first();
    assert forall|i: int| 0 <= i < rest.len() implies rest[i] > 0 by {
        assert(rest[i] == dts[i + 1]);
    }
}

/// Frames whose times add up to what is left of a running spin bring it to
/// rest at the end of the last one.
pub proof fn lemma_run_completes_spin(iso: IsoCamera, s: CameraSpin, dts: Seq<u64>)
    requires
        iso.wf(),
        s.wf(),
        s.is_spinning(),
        dts.len() > 0,
        all_positive(dts),
        s.t + total(dts) == s.duration,
    ensures
        run(iso, s, dts) == finish(iso, s),
    decreases dts.len(),
{
    let one = FRACTION_ONE as int;
    let rest = dts.drop_first();
    let t = s.t + dts[0];
    let next = advance(iso, s, dts[0] as int);
    if dts.len() == 1 {
        assert(total(rest) == 0);
        assert(t == s.duration);
        assert(t * one / (s.duration as int) == one) by {
            vstd::arithmetic::div_mod::lemma_div_multiples_vanish(one, s.duration as int);
        }
        lemma_lerp_spin_end(s);
        assert(run(next.0, next.1, rest) == next);
    } else {
        lemma_positive_rest(dts);
        lemma_total_positive(rest);
        lemma_advance_midway(iso, s, dts[0] as int, total(rest));
        lemma_run_completes_spin(next.0, next.1, rest);
    }
}

/// Before the last of those frames the spin is still running, toward the
/// same end heading with the same turns queued: it neither finishes early
/// nor merges with the next turn.
pub proof fn lemma_run_prefix_still_spinning(iso: IsoCamera, s: CameraSpin, dts: Seq<u64>, k: int)
    requires
        iso.wf(),
        s.wf(),
        s.is_spinning(),
        all_positive(dts),
        s.t + total(dts) == s.duration,
        0 <= k < dts.len(),
    ensures
        run(iso, s, dts.take(k)).0.wf(),
        run(iso, s, dts.take(k)).1 == (CameraSpin { t: (s.t + total(dts.take(k))) as u64, ..s }),
        run(iso, s, dts.take(k)).1.is_spinning(),
    decreases k,
{
    let pre = dts.take(k);
    if k == 0 {
        assert(pre.len() == 0);
        assert(total(pre) == 0);
    } else {
        let rest = dts.drop_first();
        let next = advance(iso, s, dts[0] as int);
        lemma_positive_rest(dts);
        lemma_total_positive(rest);
        lemma_advance_midway(iso, s, dts[0] as int, total(rest));
        assert(pre.drop_first() =~= rest.take(k - 1));
        assert(pre[0] == dts[0]);
        lemma_run_prefix_still_spinning(next.0, next.1, rest, k - 1);
    }
}

/// A quarter turn from a rest heading lands on a rest heading.
proof fn lemma_turn_keeps_rest_heading(yaw: int, step: int)
    requires
        is_rest_heading(yaw),
        -1 <= step <= 1,
    ensures
        is_rest_heading(wrapped(yaw + step * QUARTER_TURN)),
        snapped(wrapped(yaw + step * QUARTER_TURN)) == wrapped(yaw + step * QUARTER_TURN),
{
    let q = QUARTER_TURN as int;
    vstd::arithmetic::div_mod::lemma_fundamental_div_mod(yaw, q);
    let k = yaw / q;
    assert(yaw + step * q == (k + step) * q + QUADRANT_OFFSET) by (nonlinear_arith)
        requires yaw == q * k + 45_000, q == 90_000;
    lemma_rest_heading(k + step);
    lemma_snap_rest_heading(wrapped(yaw + step * q));
}

/// From rest on a rest heading with nothing queued, one rotate request
/// followed by frames adding up to one spin's length turns the camera by
/// exactly a quarter turn in the requested direction and leaves the sequencer
/// at rest with nothing queued.
pub proof fn one_request_turns_a_quarter(
    iso: IsoCamera,
    s: CameraSpin,
    rotate_left: bool,
    rotate_right: bool,
    dts: Seq<u64>,
)
    requires
        iso.wf(),
        s.wf(),
        !s.is_spinning(),
        s.queued_steps == 0,
        is_rest_heading(iso.yaw_deg as int),
        rotate_left != rotate_right,
        dts.len() > 0,
        all_positive(dts),
        total(dts) == s.duration,
    ensures
        ({
            let after = run(iso, after_spin_input(iso.yaw_deg as int, s, net_steps(rotate_left, rotate_right)), dts);
            &&& after.0.yaw_deg == wrapped(iso.yaw_deg + net_steps(rotate_left, rotate_right) * QUARTER_TURN)
            &&& !after.1.is_spinning()
            &&& after.1.queued_steps == 0
        }),
{
    let step = net_steps(rotate_left, rotate_right);
    let s1 = after_spin_input(iso.yaw_deg as int, s, step);
    assert(s1.wf());
    lemma_run_completes_spin(iso, s1, dts);
    lemma_turn_keeps_rest_heading(iso.yaw_deg as int, step);
}

/// Two further right-turn requests made while a right turn from a rest
/// heading is running give exactly two more quarter turns, each started only
/// when the one before has come to rest, each lasting a full spin (still
/// running, toward its own end heading, after every earlier frame) and none
/// skipped or merged.
pub proof fn queued_requests_run_in_turn(
    iso: IsoCamera,
    s: CameraSpin,
    dts1: Seq<u64>,
    dts2: Seq<u64>,
    dts3: Seq<u64>,
)
    requires
        iso.wf(),
        s.wf(),
        s.is_spinning(),
        s.queued_steps == 0,
        is_rest_heading(s.start_yaw as int),
        s.end_yaw == s.start_yaw + QUARTER_TURN,
        dts1.len() > 0 && all_positive(dts1) && s.t + total(dts1) == s.duration,
        dts2.len() > 0 && all_positive(dts2) && total(dts2) == s.duration,
        dts3.len() > 0 && all_positive(dts3) && total(dts3) == s.duration,
    ensures
        ({
            let s1 = after_spin_input(iso.yaw_deg as int, after_spin_input(iso.yaw_deg as int, s, 1), 1);
            let y1 = wrapped(s.start_yaw + QUARTER_TURN);
            let y2 = wrapped(y1 + QUARTER_TURN);
            let y3 = wrapped(y2 + QUARTER_TURN);
            let a1 = run(iso, s1, dts1);
            let a2 = run(a1.0, a1.1, dts2);
            let a3 = run(a2.0, a2.1, dts3);
            &&& s1.start_yaw == s.start_yaw && s1.end_yaw == s.end_yaw && s1.t == s.t
            &&& s1.queued_steps == 2
            &&& a1.0.yaw_deg == y1
            &&& a1.1 == started_spin(s, y1, 1, 1)
            &&& a2.0.yaw_deg == y2
            &&& a2.1 == started_spin(s, y2, 1, 0)
            &&& a3.0.yaw_deg == y3
            &&& !a3.1.is_spinning()
            &&& a3.1.queued_steps == 0
            &&& forall|k: int| 0 <= k < dts1.len() ==> {
                let p = run(iso, s1, #[trigger] dts1.take(k)).1;
                p.is_spinning() && p.end_yaw == s.end_yaw && p.queued_steps == 2
            }
            &&& forall|k: int| 0 <= k < dts2.len() ==> {
                let p = run(a1.0, a1.1, #[trigger] dts2.take(k)).1;
                p.is_spinning() && p.end_yaw == y1 + QUARTER_TURN && p.queued_steps == 1
            }
            &&& forall|k: int| 0 <= k < dts3.len() ==> {
                let p = run(a2.0, a2.1, #[trigger] dts3.take(k)).1;
                p.is_spinning() && p.end_yaw == y2 + QUARTER_TURN && p.queued_steps == 0
            }
        }),
{
    let s1 = after_spin_input(iso.yaw_deg as int, after_spin_input(iso.yaw_deg as int, s, 1), 1);
    let y1 = wrapped(s.start_yaw + QUARTER_TURN);
    let y2 = wrapped(y1 + QUARTER_TURN);
    lemma_run_completes_spin(iso, s1, dts1);
    lemma_turn_keeps_rest_heading(s.start_yaw as int, 1);
    let a1 = run(iso, s1, dts1);
    assert(a1.1.wf());
    lemma_run_completes_spin(a1.0, a1.1, dts2);
    lemma_turn_keeps_rest_heading(y1, 1);
    let a2 = run(a1.0, a1.1, dts2);
    lemma_run_completes_spin(a2.0, a2.1, dts3);
    lemma_turn_keeps_rest_heading(y2, 1);
    assert forall|k: int| 0 <= k < dts1.len() implies ({
        let p = run(iso, s1, #[trigger] dts1.take(k)).1;
        p.is_spinning() && p.end_yaw == s.end_yaw && p.queued_steps == 2
    }) by {
        lemma_run_prefix_still_spinning(iso, s1, dts1, k);
    }
    assert forall|k: int| 0 <= k < dts2.len() implies ({
        let p = run(a1.0, a1.1, #[trigger] dts2.take(k)).1;
        p.is_spinning() && p.end_yaw == y1 + QUARTER_TURN && p.queued_steps == 1
    }) by {
        lemma_run_prefix_still_spinning(a1.0, a1.1, dts2, k);
    }
    assert forall|k: int| 0 <= k < dts3.len() implies ({
        let p = run(a2.0, a2.1, #[trigger] dts3.take(k)).1;
        p.is_spinning() && p.end_yaw == y2 + QUARTER_TURN && p.queued_steps == 0
    }) by {
        lemma_run_prefix_still_spinning(a2.0, a2.1, dts3, k);
    }
}

} // verus!
