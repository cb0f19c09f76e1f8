use hex_fps::hexgrid::{arena_layout, hex_dist, respawn_cell, respawn_cell_world, Tile};
use hex_fps::lcg::WorldRng;
use hex_fps::rng::Rng;

#[test]
fn hex_dist_examples() {
    assert_eq!(hex_dist(0, 0), 0);
    assert_eq!(hex_dist(1, 0), 1);
    assert_eq!(hex_dist(0, -2), 2);
    assert_eq!(hex_dist(2, -1), 2);
    assert_eq!(hex_dist(-2, 1), 2);
    assert_eq!(hex_dist(3, 3), 6);
    assert_eq!(hex_dist(-3, 3), 3);
    assert_eq!(hex_dist(5, -5), 5);
    assert_eq!(hex_dist(-4, -1), 5);
}

#[test]
fn arena_of_radius_five() {
    let cells = arena_layout(5);
    assert_eq!(cells.len(), 91);
    let walls = cells.iter().filter(|c| c.tile == Tile::Wall).count();
    assert_eq!(walls, 30);
    for c in &cells {
        let d = hex_dist(c.q, c.r);
        assert!(d <= 5);
        let expected = if d == 5 {
            Tile::Wall
        } else if (c.q + c.r).rem_euclid(2) == 0 {
            Tile::FloorA
        } else {
            Tile::FloorB
        };
        assert_eq!(c.tile, expected);
    }
    for w in cells.windows(2) {
        assert!((w[0].q, w[0].r) < (w[1].q, w[1].r));
    }
    assert_eq!((cells[0].q, cells[0].r), (-5, 0));
    assert_eq!((cells[90].q, cells[90].r), (5, 0));
}

#[test]
fn arena_small_and_empty() {
    assert_eq!(arena_layout(0).len(), 1);
    assert_eq!(arena_layout(0)[0].tile, Tile::Wall);
    assert_eq!(arena_layout(1).len(), 7);
    assert_eq!(arena_layout(-1).len(), 0);
    assert_eq!(arena_layout(20).len(), 3 * 20 * 21 + 1);
}

#[test]
fn arena_rows_match_the_nested_loops() {
    let radius = 5;
    let mut expected = Vec::new();
    for q in -radius..=radius {
        let r_min = (-radius).max(-q - radius);
        let r_max = radius.min(-q + radius);
        for r in r_min..=r_max {
            expected.push((q, r));
        }
    }
    let got: Vec<(i32, i32)> = arena_layout(radius).iter().map(|c| (c.q, c.r)).collect();
    assert_eq!(got, expected);
}

#[test]
fn respawn_cells_land_one_to_three_steps_out() {
    let mut rng = Rng::new(0x9E37_79B9_7F4A_7C15);
    let mut reference = Rng::new(0x9E37_79B9_7F4A_7C15);
    for _ in 0..500 {
        let (q, r) = respawn_cell(&mut rng);
        let d = hex_dist(q, r);
        assert!((1..=3).contains(&d));
        let cell = loop {
            let q = reference.range_i32(-3, 4);
            let r = reference.range_i32(-3, 4);
            if (1..=3).contains(&hex_dist(q, r)) {
                break (q, r);
            }
        };
        assert_eq!((q, r), cell);
    }
}

#[test]
fn respawn_cells_are_floor_cells_of_the_arena() {
    let arena = arena_layout(5);
    let mut rng = Rng::new(7);
    let mut world = WorldRng::default();
    for _ in 0..200 {
        for (q, r) in [respawn_cell(&mut rng), respawn_cell_world(&mut world)] {
            let cell = arena.iter().find(|c| c.q == q && c.r == r).expect("cell in arena");
            assert_ne!(cell.tile, Tile::Wall);
            assert!((q, r) != (0, 0));
        }
    }
}

#[test]
fn world_respawn_cells_land_one_to_three_steps_out() {
    let mut rng = WorldRng::default();
    let mut reference = WorldRng::default();
    for _ in 0..500 {
        let (q, r) = respawn_cell_world(&mut rng);
        assert!((1..=3).contains(&hex_dist(q, r)));
        let cell = loop {
            let q = reference.range(0, 7) as i32 - 3;
            let r = reference.range(0, 7) as i32 - 3;
            if (1..=3).contains(&hex_dist(q, r)) {
                break (q, r);
            }
        };
        assert_eq!((q, r), cell);
    }
}
