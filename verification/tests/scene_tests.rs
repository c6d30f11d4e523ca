use friendly_filer::scene::{
    scene_slot, walled_room, PLACEHOLDER_MAP_SIZE, SCENE_COLUMNS, SCENE_ROWS, TILE_EMPTY, TILE_WALL,
};
use termray::TileMap;

#[test]
fn placeholder_outer_ring_is_solid_interior_is_walkable() {
    let m = walled_room(PLACEHOLDER_MAP_SIZE);
    // NW corner is wall.
    assert!(m.is_solid(0, 0));
    // A middle interior cell is walkable.
    assert!(!m.is_solid(3, 3));
    // East outer wall.
    assert!(m.is_solid(PLACEHOLDER_MAP_SIZE as i32 - 1, 3));
}

#[test]
fn walled_room_has_wall_ring_and_empty_interior() {
    let n = PLACEHOLDER_MAP_SIZE as i32;
    let m = walled_room(PLACEHOLDER_MAP_SIZE);
    assert_eq!(m.width(), 8);
    assert_eq!(m.height(), 8);
    for y in 0..n {
        for x in 0..n {
            let border = x == 0 || y == 0 || x == n - 1 || y == n - 1;
            let expected = if border { TILE_WALL } else { TILE_EMPTY };
            assert_eq!(m.get(x, y), Some(expected));
        }
    }
    assert!(m.is_solid(-1, 3));
    assert!(m.is_solid(3, n));
}

#[test]
fn tiny_rooms_are_all_wall() {
    for size in 1..=2 {
        let m = walled_room(size);
        for y in 0..size as i32 {
            for x in 0..size as i32 {
                assert!(m.is_solid(x, y));
            }
        }
    }
    let m = walled_room(3);
    assert!(!m.is_solid(1, 1));
    assert!(m.is_solid(1, 0));
}

#[test]
fn tile_constants_match_termray() {
    assert_eq!(TILE_EMPTY, termray::TILE_EMPTY);
    assert_eq!(TILE_WALL, termray::TILE_WALL);
}

#[test]
fn scene_slot_is_the_name_hash_on_the_grid() {
    // "" hashes to 0; "a" to 97 (cell 1); "ab" to 97 * 31 + 98 = 3105 (cell 9).
    assert_eq!(scene_slot(""), (0, 0));
    assert_eq!(scene_slot("a"), (1, 0));
    assert_eq!(scene_slot("ab"), (3, 1));
    for name in ["main.rs", "server.log", "README", "\u{e9}t\u{e9}.png", "placeholder.txt"] {
        let (col, row) = scene_slot(name);
        assert!(col < SCENE_COLUMNS && row < SCENE_ROWS);
        // The same name always lands in the same cell.
        assert_eq!(scene_slot(name), (col, row));
    }
}

#[test]
fn scene_slot_hash_wraps_at_32_bits() {
    // A long name whose hash exceeds 32 bits before wrapping.
    let name = "zzzzzzzzzzzzzzzzzzzz";
    let mut h: u64 = 0;
    for c in name.chars() {
        h = (h * 31 + c as u64) % (1u64 << 32);
    }
    let cell = (h % 24) as usize;
    assert_eq!(scene_slot(name), (cell % 6, cell / 6));
}
