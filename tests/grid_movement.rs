use iso_camera::collision::{
    input_move_grid, move_with_collision_system, sync_render_from_grid, try_move, Blocked, MoveKeys,
};
use iso_camera::world::{grid_from_iso_world, iso_world_from_grid, GridPos, WorldPos};

fn blocked_one_zero() -> Blocked {
    let mut b = Blocked::new();
    b.insert((1, 0));
    b
}

#[test]
fn blocked_set_membership() {
    let mut b = Blocked::new();
    assert!(!b.contains((1, 0)));
    b.insert((1, 0));
    b.insert((-3, 7));
    assert!(b.contains((1, 0)));
    assert!(b.contains((-3, 7)));
    assert!(!b.contains((0, 1)));
    assert!(!b.contains((7, -3)));
}

#[test]
fn move_into_blocked_cell_is_refused() {
    let b = blocked_one_zero();
    let start = GridPos { x: 0, y: 0 };
    assert_eq!(try_move(start, 1, 0, &b), GridPos { x: 0, y: 0 });
    assert_eq!(try_move(start, 0, 1, &b), GridPos { x: 0, y: 1 });
}

#[test]
fn move_next_to_blocked_cell_is_allowed() {
    let b = blocked_one_zero();
    assert_eq!(try_move(GridPos { x: 1, y: 1 }, 0, 1, &b), GridPos { x: 1, y: 2 });
    assert_eq!(try_move(GridPos { x: 2, y: 0 }, -1, 0, &b), GridPos { x: 2, y: 0 });
    assert_eq!(try_move(GridPos { x: 2, y: 0 }, 1, 0, &b), GridPos { x: 3, y: 0 });
}

#[test]
fn key_bindings_agree_and_do_not_add_up() {
    let w = MoveKeys { key_w: true, ..MoveKeys::default() };
    let up = MoveKeys { arrow_up: true, ..MoveKeys::default() };
    let both = MoveKeys { key_w: true, arrow_up: true, ..MoveKeys::default() };
    assert_eq!(input_move_grid(&w), (0, 1));
    assert_eq!(input_move_grid(&up), (0, 1));
    assert_eq!(input_move_grid(&both), (0, 1));
    let d = MoveKeys { key_d: true, ..MoveKeys::default() };
    let right = MoveKeys { arrow_right: true, ..MoveKeys::default() };
    assert_eq!(input_move_grid(&d), (1, 0));
    assert_eq!(input_move_grid(&right), (1, 0));
    let a = MoveKeys { key_a: true, arrow_left: true, ..MoveKeys::default() };
    assert_eq!(input_move_grid(&a), (-1, 0));
    let s = MoveKeys { key_s: true, arrow_down: true, ..MoveKeys::default() };
    assert_eq!(input_move_grid(&s), (0, -1));
}

#[test]
fn opposite_keys_cancel() {
    let k = MoveKeys { key_w: true, arrow_down: true, key_a: true, key_d: true, ..MoveKeys::default() };
    assert_eq!(input_move_grid(&k), (0, 0));
    assert_eq!(input_move_grid(&MoveKeys::default()), (0, 0));
}

#[test]
fn system_moves_each_mover_separately() {
    let b = blocked_one_zero();
    let keys = MoveKeys { key_d: true, ..MoveKeys::default() };
    let mut movers = vec![GridPos { x: 0, y: 0 }, GridPos { x: 0, y: 1 }, GridPos { x: 5, y: -2 }];
    move_with_collision_system(&b, &keys, &mut movers);
    assert_eq!(movers, vec![GridPos { x: 0, y: 0 }, GridPos { x: 1, y: 1 }, GridPos { x: 6, y: -2 }]);
}

#[test]
fn system_without_keys_leaves_movers() {
    let b = blocked_one_zero();
    let mut movers = vec![GridPos { x: 1, y: 0 }, GridPos { x: 4, y: 4 }];
    move_with_collision_system(&b, &MoveKeys::default(), &mut movers);
    assert_eq!(movers, vec![GridPos { x: 1, y: 0 }, GridPos { x: 4, y: 4 }]);
}

#[test]
fn projection_of_cells() {
    assert_eq!(iso_world_from_grid(0, 0, 2, 1), WorldPos { x: 0, y: 0, z: 0 });
    assert_eq!(iso_world_from_grid(2, 1, 2, 1), WorldPos { x: 2, y: 0, z: 3 });
    assert_eq!(iso_world_from_grid(1, 3, 4, 2), WorldPos { x: -8, y: 0, z: 8 });
    assert_eq!(
        iso_world_from_grid(i32::MIN, i32::MAX, i32::MAX, i32::MAX),
        WorldPos { x: -(u32::MAX as i64) * (i32::MAX as i64), y: 0, z: -(i32::MAX as i64) }
    );
}

#[test]
fn projection_round_trip() {
    for (gx, gy) in [(0, 0), (3, -2), (-7, 11), (100, 100), (i32::MAX, i32::MIN)] {
        for (w, h) in [(1, 1), (2, 1), (3, 5), (64, 32)] {
            let p = iso_world_from_grid(gx, gy, w, h);
            let g = grid_from_iso_world(p.x, p.z, w, h);
            assert!(g.den > 0);
            assert_eq!(g.x_num, gx as i128 * g.den);
            assert_eq!(g.y_num, gy as i128 * g.den);
        }
    }
}

#[test]
fn inverse_of_a_point_between_cells() {
    let g = grid_from_iso_world(1, 0, 2, 1);
    assert_eq!((g.x_num, g.y_num, g.den), (1, -1, 4));
}

#[test]
fn render_positions_follow_cells() {
    let cells = vec![GridPos { x: 0, y: 0 }, GridPos { x: 1, y: 0 }, GridPos { x: 0, y: 1 }];
    let r = sync_render_from_grid(&cells, 2, 2);
    assert_eq!(
        r,
        vec![
            WorldPos { x: 0, y: 0, z: 0 },
            WorldPos { x: 2, y: 0, z: 2 },
            WorldPos { x: -2, y: 0, z: 2 },
        ]
    );
    assert!(sync_render_from_grid(&Vec::new(), 1, 1).is_empty());
}
