use planetkit::{
    adjacent_pos_in_dir, get_triangle, is_pentagon, local_to_world, move_forward, neighbor_offset,
    turn_left_by_one_hex_edge, turn_right_by_one_hex_edge, world_to_local, CellPos, Dir, InvalidDirection,
    TRIANGLE_COUNT,
};

fn cell(root: u8, x: i64, y: i64) -> CellPos {
    CellPos { root, x, y, z: 0 }
}

fn within(pos: &CellPos, res: [i64; 2]) -> bool {
    pos.root < 5 && pos.x >= 0 && pos.y >= 0 && pos.x <= res[0] && pos.y <= res[1]
}

fn canonical(pos: &CellPos, dir: Dir, res: [i64; 2]) -> bool {
    within(pos, res)
        && match adjacent_pos_in_dir(*pos, dir) {
            Ok(next) => within(&next, res),
            Err(_) => false,
        }
}

fn is_pole(pos: &CellPos, res: [i64; 2]) -> bool {
    (pos.x == 0 && pos.y == 0) || (pos.x == res[0] && pos.y == res[1])
}

#[test]
fn six_left_turns_return() {
    for i in 0..12u8 {
        let mut d = Dir::new(i);
        for _ in 0..6 {
            d = d.next_hex_edge_left();
        }
        assert_eq!(d.index, i);
    }
}

#[test]
fn six_right_turns_return() {
    for i in 0..12u8 {
        let mut d = Dir::new(i);
        for _ in 0..6 {
            d = d.next_hex_edge_right();
        }
        assert_eq!(d.index, i);
    }
}

#[test]
fn turns_step_by_two_indices() {
    assert_eq!(Dir::new(0).next_hex_edge_left().index, 10);
    assert_eq!(Dir::new(0).next_hex_edge_right().index, 2);
    assert_eq!(Dir::new(10).next_hex_edge_right().index, 0);
    assert_eq!(Dir::new(11).next_hex_edge_right().index, 1);
    assert_eq!(Dir::new(1).next_hex_edge_left().index, 11);
}

#[test]
fn edge_and_vertex_directions() {
    for i in 0..12u8 {
        assert_eq!(Dir::new(i).points_at_hex_edge(), i % 2 == 0);
    }
}

#[test]
fn neighbor_offsets_table() {
    let expected = [(1, 0), (1, -1), (0, -1), (-1, 0), (-1, 1), (0, 1)];
    for (e, off) in expected.iter().enumerate() {
        assert_eq!(neighbor_offset(e), *off);
    }
}

#[test]
fn adjacent_cells_in_each_edge_direction() {
    let pos = CellPos { root: 3, x: 5, y: 7, z: 9 };
    let expected = [(6, 7), (6, 6), (5, 6), (4, 7), (4, 8), (5, 8)];
    for (e, (x, y)) in expected.iter().enumerate() {
        let next = adjacent_pos_in_dir(pos, Dir::new(2 * e as u8)).unwrap();
        assert_eq!(next, CellPos { root: 3, x: *x, y: *y, z: 9 });
    }
}

#[test]
fn adjacent_rejects_vertex_directions() {
    for i in [1u8, 3, 5, 7, 9, 11] {
        assert_eq!(adjacent_pos_in_dir(cell(0, 2, 2), Dir::new(i)), Err(InvalidDirection));
    }
}

#[test]
fn move_forward_rejects_vertex_directions() {
    let res = [4, 8];
    for i in [1u8, 3, 5, 7, 9, 11] {
        let mut pos = cell(2, 1, 3);
        let mut dir = Dir::new(i);
        assert_eq!(move_forward(&mut pos, &mut dir, res), Err(InvalidDirection));
        assert_eq!(pos, cell(2, 1, 3));
        assert_eq!(dir, Dir::new(i));
    }
}

#[test]
fn turns_reject_vertex_directions() {
    let res = [4, 8];
    for i in [1u8, 3, 5, 7, 9, 11] {
        let mut pos = cell(1, 0, 0);
        let mut dir = Dir::new(i);
        assert_eq!(turn_left_by_one_hex_edge(&mut pos, &mut dir, res), Err(InvalidDirection));
        assert_eq!(turn_right_by_one_hex_edge(&mut pos, &mut dir, res), Err(InvalidDirection));
        assert_eq!(pos, cell(1, 0, 0));
        assert_eq!(dir, Dir::new(i));
    }
}

#[test]
fn pentagons_are_exactly_six_corners() {
    for res in [[4i64, 8i64], [3, 6], [1, 2], [5, 10], [4, 4], [2, 9]] {
        let corners = [(0, 0), (0, res[0]), (0, res[1]), (res[0], 0), (res[0], res[0]), (res[0], res[1])];
        for x in 0..=res[0] {
            for y in 0..=res[1] {
                let expected = corners.contains(&(x, y));
                assert_eq!(is_pentagon(&cell(0, x, y), res), expected, "{:?} at ({}, {})", res, x, y);
            }
        }
    }
}

#[test]
fn step_off_the_north_pole_along_y_edge() {
    let res = [4, 8];
    let mut pos = cell(0, 0, 0);
    let mut dir = Dir::new(10);
    assert!(is_pentagon(&pos, res));
    assert_eq!(move_forward(&mut pos, &mut dir, res), Ok(()));
    assert_eq!(pos, cell(0, 0, 1));
    assert_eq!(dir, Dir::new(10));
}

#[test]
fn turn_on_the_north_pole_wraps_to_neighbour_roots() {
    let res = [4, 8];
    let mut pos = cell(0, 0, 0);
    let mut dir = Dir::new(10);
    assert_eq!(turn_left_by_one_hex_edge(&mut pos, &mut dir, res), Ok(()));
    assert_eq!(pos, cell(1, 0, 0));
    assert_eq!(dir, Dir::new(10));

    let mut pos = cell(0, 0, 0);
    let mut dir = Dir::new(0);
    assert_eq!(turn_right_by_one_hex_edge(&mut pos, &mut dir, res), Ok(()));
    assert_eq!(pos, cell(4, 0, 0));
    assert_eq!(dir, Dir::new(0));

    let mut pos = cell(0, 0, 0);
    let mut dir = Dir::new(0);
    assert_eq!(turn_left_by_one_hex_edge(&mut pos, &mut dir, res), Ok(()));
    assert_eq!(pos, cell(0, 0, 0));
    assert_eq!(dir, Dir::new(10));
}

#[test]
fn five_left_turns_on_the_pole_visit_every_root() {
    let res = [4, 8];
    let mut pos = cell(0, 0, 0);
    let mut dir = Dir::new(10);
    let mut roots = Vec::new();
    for _ in 0..5 {
        turn_left_by_one_hex_edge(&mut pos, &mut dir, res).unwrap();
        roots.push(pos.root);
    }
    assert_eq!(roots, vec![1, 2, 3, 4, 0]);
    assert_eq!(dir, Dir::new(10));
}

#[test]
fn turn_on_the_south_pole() {
    let res = [4, 8];
    let mut pos = cell(0, 4, 8);
    let mut dir = Dir::new(4);
    assert_eq!(turn_left_by_one_hex_edge(&mut pos, &mut dir, res), Ok(()));
    assert_eq!(pos, cell(4, 4, 8));
    assert_eq!(dir, Dir::new(4));
}

#[test]
fn turn_on_a_ring_pentagon() {
    let res = [4, 8];
    let mut pos = cell(0, 4, 0);
    let mut dir = Dir::new(10);
    turn_left_by_one_hex_edge(&mut pos, &mut dir, res).unwrap();
    assert_eq!((pos, dir), (cell(0, 4, 0), Dir::new(8)));

    let mut pos = cell(0, 4, 0);
    let mut dir = Dir::new(10);
    turn_right_by_one_hex_edge(&mut pos, &mut dir, res).unwrap();
    assert_eq!((pos, dir), (cell(4, 0, 4), Dir::new(0)));
}

fn step(root: u8, x: i64, y: i64, d: u8) -> (CellPos, Dir) {
    let mut pos = cell(root, x, y);
    let mut dir = Dir::new(d);
    move_forward(&mut pos, &mut dir, [4, 8]).unwrap();
    (pos, dir)
}

#[test]
fn crossing_each_edge_of_a_quad() {
    // Onto the edge y == 0, facing out: into the previous root.
    assert_eq!(step(0, 3, 1, 4), (cell(4, 0, 3), Dir::new(2)));
    // Onto the edge x == 0 near the north pole: into the next root.
    assert_eq!(step(2, 1, 2, 6), (cell(3, 2, 0), Dir::new(8)));
    // Onto the edge x == 0 near the south pole: into the next root.
    assert_eq!(step(0, 1, 6, 6), (cell(1, 4, 2), Dir::new(6)));
    // Onto the edge x == rx near the north pole: into the previous root.
    assert_eq!(step(0, 3, 2, 0), (cell(4, 0, 6), Dir::new(0)));
    // Onto the edge x == rx near the south pole: into the previous root.
    assert_eq!(step(3, 3, 6, 0), (cell(2, 2, 8), Dir::new(2)));
    // Onto the edge y == ry: into the next root.
    assert_eq!(step(0, 2, 7, 10), (cell(1, 4, 6), Dir::new(8)));
}

#[test]
fn moving_along_an_edge_stays_in_the_quad() {
    assert_eq!(step(0, 0, 2, 10), (cell(0, 0, 3), Dir::new(10)));
    assert_eq!(step(0, 2, 0, 0), (cell(0, 3, 0), Dir::new(0)));
}

#[test]
fn interior_moves_change_nothing_else() {
    let mut pos = CellPos { root: 2, x: 2, y: 3, z: 17 };
    let mut dir = Dir::new(2);
    move_forward(&mut pos, &mut dir, [4, 8]).unwrap();
    assert_eq!(pos, CellPos { root: 2, x: 3, y: 2, z: 17 });
    assert_eq!(dir, Dir::new(2));
}

#[test]
fn transform_round_trip_for_every_triangle() {
    let rx = 5;
    for t in 0..TRIANGLE_COUNT {
        let tri = get_triangle(t);
        for x in -1..=11 {
            for y in -1..=11 {
                for d in 0..12u8 {
                    let pos = CellPos { root: 1, x, y, z: 4 };
                    let (lp, ld) = world_to_local(pos, Dir::new(d), rx, &tri);
                    assert_eq!(local_to_world(lp, ld, rx, &tri), (pos, Dir::new(d)));
                }
            }
        }
    }
}

#[test]
fn triangle_apex_sits_at_local_origin() {
    let rx = 6;
    for t in 0..TRIANGLE_COUNT {
        let tri = get_triangle(t);
        let apex = CellPos { root: 0, x: tri.apex_x * rx, y: tri.apex_y * rx, z: 0 };
        let (lp, ld) = world_to_local(apex, Dir::new(tri.x_dir), rx, &tri);
        assert_eq!((lp.x, lp.y), (0, 0));
        assert_eq!(ld, Dir::new(0));
        assert_eq!(tri.exits[0].triangle_index, t);
        assert_eq!(tri.exits[0].root_offset, 0);
    }
}

#[test]
fn step_and_half_turn_and_step_back_comes_home() {
    let res = [4, 8];
    for root in 0..5u8 {
        for x in 1..4 {
            for y in 1..8 {
                for d in (0..12u8).step_by(2) {
                    let start = CellPos { root, x, y, z: 2 };
                    let next = adjacent_pos_in_dir(start, Dir::new(d)).unwrap();
                    if is_pentagon(&next, res) {
                        continue;
                    }
                    for left in [true, false] {
                        let mut pos = start;
                        let mut dir = Dir::new(d);
                        move_forward(&mut pos, &mut dir, res).unwrap();
                        for _ in 0..3 {
                            if left {
                                turn_left_by_one_hex_edge(&mut pos, &mut dir, res).unwrap();
                            } else {
                                turn_right_by_one_hex_edge(&mut pos, &mut dir, res).unwrap();
                            }
                        }
                        move_forward(&mut pos, &mut dir, res).unwrap();
                        assert_eq!(pos, start);
                    }
                }
            }
        }
    }
}

#[test]
fn step_back_across_a_root_edge() {
    let res = [4, 8];
    let mut pos = cell(0, 1, 1);
    let mut dir = Dir::new(6);
    move_forward(&mut pos, &mut dir, res).unwrap();
    assert_eq!((pos, dir), (cell(1, 1, 0), Dir::new(8)));
    for _ in 0..3 {
        turn_left_by_one_hex_edge(&mut pos, &mut dir, res).unwrap();
    }
    assert_eq!((pos, dir), (cell(0, 0, 1), Dir::new(0)));
    move_forward(&mut pos, &mut dir, res).unwrap();
    assert_eq!((pos, dir), (cell(0, 1, 1), Dir::new(0)));
}

#[test]
fn every_step_and_turn_keeps_canonical_form() {
    for rx in 1..=4i64 {
        let res = [rx, 2 * rx];
        for root in 0..5u8 {
            for x in 0..=rx {
                for y in 0..=2 * rx {
                    for d in (0..12u8).step_by(2) {
                        let pos = cell(root, x, y);
                        let dir = Dir::new(d);
                        if !canonical(&pos, dir, res) {
                            continue;
                        }
                        let lands_on_pole = is_pole(&adjacent_pos_in_dir(pos, dir).unwrap(), res);
                        let (mut p, mut e) = (pos, dir);
                        move_forward(&mut p, &mut e, res).unwrap();
                        assert!(within(&p, res));
                        if !lands_on_pole {
                            assert!(canonical(&p, e, res), "{:?} {:?} -> {:?} {:?}", pos, dir, p, e);
                        }
                        let (mut p, mut e) = (pos, dir);
                        turn_left_by_one_hex_edge(&mut p, &mut e, res).unwrap();
                        assert!(canonical(&p, e, res));
                        let (mut p, mut e) = (pos, dir);
                        turn_right_by_one_hex_edge(&mut p, &mut e, res).unwrap();
                        assert!(canonical(&p, e, res));
                    }
                }
            }
        }
    }
}

#[test]
fn long_walk_stays_within_bounds() {
    let res = [6, 12];
    let mut pos = cell(0, 3, 3);
    let mut dir = Dir::new(0);
    let mut seed: u64 = 12345;
    for _ in 0..5000 {
        seed = seed.wrapping_mul(6364136223846793005).wrapping_add(1442695040888963407);
        match (seed >> 33) % 4 {
            0 => turn_left_by_one_hex_edge(&mut pos, &mut dir, res).unwrap(),
            1 => turn_right_by_one_hex_edge(&mut pos, &mut dir, res).unwrap(),
            _ => {
                let next = adjacent_pos_in_dir(pos, dir).unwrap();
                if is_pole(&next, res) {
                    turn_left_by_one_hex_edge(&mut pos, &mut dir, res).unwrap();
                } else {
                    move_forward(&mut pos, &mut dir, res).unwrap();
                }
            },
        }
        assert!(canonical(&pos, dir, res), "{:?} {:?}", pos, dir);
    }
}

#[test]
fn stepping_onto_a_pole_stays_within_bounds() {
    let res = [4, 8];
    let mut pos = cell(0, 0, 1);
    let mut dir = Dir::new(4);
    move_forward(&mut pos, &mut dir, res).unwrap();
    assert!(within(&pos, res));
    assert_eq!((pos.x, pos.y), (0, 0));
}
