//! The top-down minimap's orientation, locked to the isometric camera's yaw.
use vstd::prelude::*;

use crate::angle::{is_rest_heading, wrap_degrees, wrapped, FULL_TURN, QUADRANT_OFFSET, QUARTER_TURN};

verus! {

/// The heading, in millidegrees, by which the minimap's "up" direction
/// (world `-z` at heading zero) is turned about the vertical axis for a
/// camera at `yaw`; rest heading `QUADRANT_OFFSET` shows the map unturned.
pub open spec fn up_heading(yaw: int) -> int {
    wrapped(yaw - QUADRANT_OFFSET as int)
}

/// The unit "up" vector `(x, z)` of the minimap at a heading that is a whole
/// number of quarter turns: world `-z` turned about the vertical axis.
pub open spec fn up_axis(heading: int) -> (int, int) {
    let k = heading / (QUARTER_TURN as int);
    if k == 0 {
        (0, -1)
    } else if k == 1 {
        (-1, 0)
    } else if k == 2 {
        (0, 1)
    } else {
        (1, 0)
    }
}

/// The minimap's turn for a camera at `yaw`.
pub fn minimap_up_heading(yaw: i64) -> (r: i64)
    requires
        i64::MIN + QUADRANT_OFFSET <= yaw,
    ensures
        r as int == up_heading(yaw as int),
        0 <= r < FULL_TURN,
{
    wrap_degrees(yaw - QUADRANT_OFFSET)
}

/// The minimap's "up" vector `(x, z)` for a camera resting at `yaw`.
pub fn minimap_up_axis(yaw: i64) -> (r: (i64, i64))
    requires
        is_rest_heading(yaw as int),
    ensures
        (r.0 as int, r.1 as int) == up_axis(up_heading(yaw as int)),
{
    let h = minimap_up_heading(yaw);
    let k = h / QUARTER_TURN;
    if k == 0 {
        (0, -1)
    } else if k == 1 {
        (-1, 0)
    } else if k == 2 {
        (0, 1)
    } else {
        (1, 0)
    }
}

/// Turning the camera by a quarter turn turns the minimap by a quarter turn
/// about the vertical axis: its heading moves by exactly `QUARTER_TURN`, and
/// at rest headings its "up" vector `(x, z)` goes to `(z, -x)`, at right
/// angles to where it was.
pub proof fn minimap_turns_with_camera(yaw: int)
    ensures
        up_heading(yaw + QUARTER_TURN) == wrapped(up_heading(yaw) + QUARTER_TURN),
        is_rest_heading(yaw) ==> ({
            let before = up_axis(up_heading(yaw));
            let after = up_axis(up_heading(wrapped(yaw + QUARTER_TURN)));
            &&& after == (before.1, -before.0)
            &&& before.0 * after.0 + before.1 * after.1 == 0
        }),
{
    let f = FULL_TURN as int;
    let q = QUARTER_TURN as int;
    let d = yaw - QUADRANT_OFFSET as int;
    vstd::arithmetic::div_mod::lemma_fundamental_div_mod(d, f);
    vstd::arithmetic::div_mod::lemma_mod_bound(d, f);
    let m = d % f;
    assert(d + q == f * (d / f) + (m + q));
    vstd::arithmetic::div_mod::lemma_mod_multiples_vanish(d / f, m + q, f);
    if is_rest_heading(yaw) {
        vstd::arithmetic::div_mod::lemma_fundamental_div_mod(yaw, q);
        let k = yaw / q;
        assert(0 <= k < 4) by (nonlinear_arith)
            requires yaw == q * k + 45_000, q == 90_000, 0 <= yaw < 360_000;
        let y2 = wrapped(yaw + q);
        if k == 0 {
            assert(yaw == 45_000);
            assert(y2 == 135_000);
            assert(up_heading(yaw) == 0);
            assert(up_heading(y2) == 90_000);
            assert(up_axis(90_000) == (-1int, 0int));
        } else if k == 1 {
            assert(yaw == 135_000);
            assert(y2 == 225_000);
            assert(up_heading(yaw) == 90_000);
            assert(up_heading(y2) == 180_000);
            assert(up_axis(90_000) == (-1int, 0int));
            assert(up_axis(180_000) == (0int, 1int));
        } else if k == 2 {
            assert(yaw == 225_000);
            assert(y2 == 315_000);
            assert(up_heading(yaw) == 180_000);
            assert(up_heading(y2) == 270_000);
            assert(up_axis(180_000) == (0int, 1int));
            assert(up_axis(270_000) == (1int, 0int));
        } else {
            assert(yaw == 315_000);
            assert(y2 == 45_000);
            assert(up_heading(yaw) == 270_000);
            assert(up_heading(y2) == 0);
            assert(up_axis(270_000) == (1int, 0int));
        }
    }
}

} // verus!
