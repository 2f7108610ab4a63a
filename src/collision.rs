//! Tile movement: one frame's direction keys become a grid step, refused
//! when it would enter a blocked cell.
use vstd::prelude::*;

use crate::world::{iso_world_from_grid, iso_x2, iso_z2, GridPos, WorldPos};

verus! {

/// The cells that movers may not enter.
#[derive(Debug)]
pub struct Blocked {
    pub cells: Vec<(i32, i32)>,
}

impl View for Blocked {
    type V = Set<(i32, i32)>;

    open spec fn view(&self) -> Set<(i32, i32)> {
        Set::new(|c: (i32, i32)| self.cells@.contains(c))
    }
}

impl Blocked {
    /// No cell blocked.
    pub fn new() -> (r: Blocked)
        ensures
            r@ == Set::<(i32, i32)>::empty(),
    {
        let r = Blocked { cells: Vec::new() };
        assert(r@ =~= Set::<(i32, i32)>::empty());
        r
    }

    /// Marks `cell` as blocked.
    pub fn insert(&mut self, cell: (i32, i32))
        ensures
            final(self)@ == old(self)@.insert(cell),
    {
        self.cells.push(cell);
        assert forall|c: (i32, i32)| final(self)@.contains(c) <==> old(self)@.insert(cell).contains(c) by {
            if c == cell {
                assert(self.cells@[self.cells@.len() - 1] == cell);
            }
            if old(self).cells@.contains(c) {
                let j = choose|j: int| 0 <= j < old(self).cells@.len() && old(self).cells@[j] == c;
                assert(self.cells@[j] == c);
            }
        }
        assert(self@ =~= old(self)@.insert(cell));
    }

    /// Whether `cell` is blocked.
    pub fn contains(&self, cell: (i32, i32)) -> (r: bool)
        ensures
            r == self@.contains(cell),
    {
        let mut i: usize = 0;
        while i < self.cells.len()
            invariant
                0 <= i <= self.cells@.len(),
                forall|j: int| 0 <= j < i ==> self.cells@[j] != cell,
            decreases self.cells@.len() - i,
        {
            let c = self.cells[i];
            if c.0 == cell.0 && c.1 == cell.1 {
                assert(self.cells@[i as int] == cell);
                return true;
            }
            i = i + 1;
        }
        assert(!self.cells@.contains(cell));
        false
    }
}

/// One frame's presses of the movement keys: the letter keys and the arrow
/// keys are two bindings of the same four grid directions.
#[derive(Clone, Copy, Debug, Default)]
pub struct MoveKeys {
    pub key_w: bool,
    pub key_a: bool,
    pub key_s: bool,
    pub key_d: bool,
    pub arrow_up: bool,
    pub arrow_left: bool,
    pub arrow_down: bool,
    pub arrow_right: bool,
}

/// A unit step along one axis: `1` for the positive direction alone, `-1`
/// for the negative one alone, `0` for neither or both.
pub open spec fn axis_step(positive: bool, negative: bool) -> int {
    (if positive { 1int } else { 0int }) - (if negative { 1int } else { 0int })
}

/// The grid step that `keys` ask for: at most one cell along each axis, the
/// two bindings of a direction counting as one press.
pub open spec fn move_delta(keys: MoveKeys) -> (int, int) {
    (
        axis_step(keys.key_d || keys.arrow_right, keys.key_a || keys.arrow_left),
        axis_step(keys.key_w || keys.arrow_up, keys.key_s || keys.arrow_down),
    )
}

/// Where a mover at `pos` ends after trying the step `(dx, dy)`: the target
/// cell unless it is blocked, else where it was.
pub open spec fn moved(pos: GridPos, dx: int, dy: int, blocked: Set<(i32, i32)>) -> GridPos {
    let nx = pos.x + dx;
    let ny = pos.y + dy;
    if blocked.contains((nx as i32, ny as i32)) {
        pos
    } else {
        GridPos { x: nx as i32, y: ny as i32 }
    }
}

/// The grid step asked for by one frame's movement keys.
pub fn input_move_grid(keys: &MoveKeys) -> (r: (i32, i32))
    ensures
        r.0 as int == move_delta(*keys).0,
        r.1 as int == move_delta(*keys).1,
{
    let mut dx: i32 = 0;
    let mut dy: i32 = 0;
    if keys.key_w || keys.arrow_up {
        dy = dy + 1;
    }
    if keys.key_s || keys.arrow_down {
        dy = dy - 1;
    }
    if keys.key_a || keys.arrow_left {
        dx = dx - 1;
    }
    if keys.key_d || keys.arrow_right {
        dx = dx + 1;
    }
    (dx, dy)
}

/// Tries the step `(dx, dy)` from `pos`: a blocked target refuses the move
/// and leaves the mover where it is, with no partial move.
pub fn try_move(pos: GridPos, dx: i32, dy: i32, blocked: &Blocked) -> (r: GridPos)
    requires
        i32::MIN <= pos.x + dx <= i32::MAX,
        i32::MIN <= pos.y + dy <= i32::MAX,
    ensures
        r == moved(pos, dx as int, dy as int, blocked@),
{
    let next = (pos.x + dx, pos.y + dy);
    if blocked.contains(next) {
        pos
    } else {
        GridPos { x: next.0, y: next.1 }
    }
}

/// Applies one frame's movement keys to every mover, each refused
/// separately where its target cell is blocked.
pub fn move_with_collision_system(blocked: &Blocked, keys: &MoveKeys, movers: &mut Vec<GridPos>)
    requires
        forall|i: int|
            0 <= i < old(movers)@.len() ==> i32::MIN < #[trigger] old(movers)@[i].x < i32::MAX
                && i32::MIN < old(movers)@[i].y < i32::MAX,
    ensures
        final(movers)@.len() == old(movers)@.len(),
        forall|i: int|
            0 <= i < old(movers)@.len() ==> #[trigger] final(movers)@[i] == moved(
                old(movers)@[i],
                move_delta(*keys).0,
                move_delta(*keys).1,
                blocked@,
            ),
{
    let (dx, dy) = input_move_grid(keys);
    let mut i: usize = 0;
    while i < movers.len()
        invariant
            0 <= i <= movers@.len(),
            movers@.len() == old(movers)@.len(),
            dx as int == move_delta(*keys).0,
            dy as int == move_delta(*keys).1,
            -1 <= dx <= 1,
            -1 <= dy <= 1,
            forall|j: int|
                0 <= j < i ==> #[trigger] movers@[j] == moved(old(movers)@[j], dx as int, dy as int, blocked@),
            forall|j: int| i <= j < movers@.len() ==> #[trigger] movers@[j] == old(movers)@[j],
            forall|j: int|
                0 <= j < old(movers)@.len() ==> i32::MIN < #[trigger] old(movers)@[j].x < i32::MAX
                    && i32::MIN < old(movers)@[j].y < i32::MAX,
        decreases movers@.len() - i,
    {
        let p = movers[i];
        let q = try_move(p, dx, dy, blocked);
        movers.set(i, q);
        i = i + 1;
    }
}

/// The world position of a cell.
pub open spec fn world_of(p: GridPos, tile_w: int, tile_h: int) -> WorldPos {
    WorldPos { x: iso_x2(p.x as int, p.y as int, tile_w) as i64, y: 0, z: iso_z2(p.x as int, p.y as int, tile_h) as i64 }
}

/// The world positions of all cells in `positions`, in order.
pub fn sync_render_from_grid(positions: &Vec<GridPos>, tile_w: i32, tile_h: i32) -> (r: Vec<WorldPos>)
    requires
        tile_w > 0,
        tile_h > 0,
    ensures
        r@.len() == positions@.len(),
        forall|i: int| 0 <= i < positions@.len() ==> #[trigger] r@[i] == world_of(positions@[i], tile_w as int, tile_h as int),
{
    let mut r: Vec<WorldPos> = Vec::new();
    let mut i: usize = 0;
    while i < positions.len()
        invariant
            0 <= i <= positions@.len(),
            r@.len() == i,
            tile_w > 0,
            tile_h > 0,
            forall|j: int| 0 <= j < i ==> #[trigger] r@[j] == world_of(positions@[j], tile_w as int, tile_h as int),
        decreases positions@.len() - i,
    {
        let p = positions[i];
        r.push(iso_world_from_grid(p.x, p.y, tile_w, tile_h));
        i = i + 1;
    }
    r
}

} // verus!
