use rogue_core::grid::GridMap;

fn small_tiles() -> Vec<Vec<u32>> {
    vec![vec![7, 7, 7], vec![7, 8, 7]]
}

fn small_collision() -> Vec<Vec<u32>> {
    vec![vec![1, 1, 1], vec![1, 0, 1]]
}

#[test]
fn new_accepts_matching_rectangles() {
    let m = GridMap::new(small_tiles(), small_collision());
    assert!(m.is_some());
    let m = m.unwrap();
    assert_eq!(m.width(), 3);
    assert_eq!(m.height(), 2);
}

#[test]
fn new_rejects_row_count_mismatch() {
    let m = GridMap::new(vec![vec![7, 7, 7]], small_collision());
    assert!(m.is_none());
}

#[test]
fn new_rejects_ragged_rows() {
    let m = GridMap::new(small_tiles(), vec![vec![1, 1, 1], vec![1, 0]]);
    assert!(m.is_none());
    let m = GridMap::new(vec![vec![7, 7, 7], vec![7, 8]], small_collision());
    assert!(m.is_none());
}

#[test]
fn new_rejects_empty_grids() {
    let m = GridMap::new(vec![], vec![]);
    assert!(m.is_none());
    let m = GridMap::new(vec![vec![]], vec![vec![]]);
    assert!(m.is_none());
}

#[test]
fn walkable_applies_vertical_flip() {
    // Authoring row 1 holds logical y = 0: its open middle tile is (1, 0).
    let m = GridMap::new(small_tiles(), small_collision()).unwrap();
    assert!(m.is_walkable(1, 0));
    assert!(!m.is_walkable(1, 1));
    assert!(!m.is_walkable(0, 0));
}

#[test]
fn out_of_bounds_is_reported_not_walkable() {
    let m = GridMap::new(small_tiles(), small_collision()).unwrap();
    assert!(!m.is_walkable(3, 0));
    assert!(!m.is_walkable(0, 2));
    assert!(!m.is_walkable(u32::MAX, u32::MAX));
}

#[test]
fn repeated_queries_agree() {
    let m = GridMap::rogue_layout();
    let first = m.is_walkable(5, 5);
    for _ in 0..100 {
        assert_eq!(m.is_walkable(5, 5), first);
    }
}

#[test]
fn tile_id_applies_vertical_flip() {
    let m = GridMap::new(small_tiles(), small_collision()).unwrap();
    // Authoring row 1 holds logical y = 0.
    assert_eq!(m.tile_id_at(1, 0), Some(8));
    assert_eq!(m.tile_id_at(1, 1), Some(7));
    assert_eq!(m.tile_id_at(3, 0), None);
}

#[test]
fn rogue_layout_has_a_walled_border_and_open_interior() {
    let m = GridMap::rogue_layout();
    assert_eq!(m.width(), 16);
    assert_eq!(m.height(), 16);
    for x in 0..16u32 {
        for y in 0..16u32 {
            let interior = (2..=13).contains(&x) && (2..=13).contains(&y);
            assert_eq!(m.is_walkable(x, y), interior, "tile ({x}, {y})");
        }
    }
}

#[test]
fn rogue_layout_tile_ids_flip_vertically() {
    let m = GridMap::rogue_layout();
    // Authoring row 0 (all tile id 0) is the top of the map: logical y = 15.
    assert_eq!(m.tile_id_at(0, 15), Some(0));
    // Authoring row 1 starts 0, 1, 2, ...: logical y = 14.
    assert_eq!(m.tile_id_at(1, 14), Some(1));
    assert_eq!(m.tile_id_at(2, 14), Some(2));
    // Authoring row 14 starts 0, 25, 26, ...: logical y = 1.
    assert_eq!(m.tile_id_at(1, 1), Some(25));
}
