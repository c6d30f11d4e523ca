//! The arena's tile grid: a closed square room whose outer ring is wall and
//! whose interior is walkable. The grid is a `termray::GridMap`, which the
//! raycaster and the movement collision both consult.

use vstd::prelude::*;
use termray::GridMap;

verus! {

/// Walkable space (termray's `TILE_EMPTY`).
pub const TILE_EMPTY: u8 = 0;

/// Solid, textured wall (termray's `TILE_WALL`).
pub const TILE_WALL: u8 = 1;

/// Edge length, in cells, of the demo arena.
pub const PLACEHOLDER_MAP_SIZE: usize = 8;

#[verifier::external_type_specification]
#[verifier::external_body]
pub struct ExGridMap(GridMap);

/// The tiles of a `GridMap`, row by row (the tile of cell `(x, y)` at index
/// `y * width + x`).
pub uninterp spec fn grid_tiles(map: GridMap) -> Seq<u8>;

/// The `(width, height)` a `GridMap` was made with.
pub uninterp spec fn grid_size(map: GridMap) -> (nat, nat);

/// The tile of cell `(x, y)` of `map`.
pub open spec fn tile_at(map: GridMap, x: nat, y: nat) -> u8 {
    grid_tiles(map)[(y * grid_size(map).0 + x) as int]
}

/// Calls `termray::GridMap::new`. Trusted: as its source shows, the map
/// has the given size and every tile is `TILE_WALL`.
#[verifier::external_body]
fn new_grid(width: usize, height: usize) -> (map: GridMap)
    requires
        width * height <= usize::MAX,
    ensures
        grid_size(map) == (width as nat, height as nat),
        grid_tiles(map) == Seq::new((width * height) as nat, |i: int| TILE_WALL),
{
    GridMap::new(width, height)
}

/// Calls `termray::GridMap::set` on a map that holds one tile per cell.
/// Trusted: as its source shows, the size is kept, and the tile of `(x, y)`
/// becomes `tile` when the cell lies inside the map; outside it nothing
/// changes.
#[verifier::external_body]
fn set_tile(map: &mut GridMap, x: usize, y: usize, tile: u8)
    requires
        grid_tiles(*old(map)).len() == grid_size(*old(map)).0 * grid_size(*old(map)).1,
    ensures
        grid_size(*final(map)) == grid_size(*old(map)),
        grid_tiles(*final(map)) == if x < grid_size(*old(map)).0 && y < grid_size(*old(map)).1 {
            grid_tiles(*old(map)).update((y * grid_size(*old(map)).0 + x) as int, tile)
        } else {
            grid_tiles(*old(map))
        },
{
    map.set(x, y, tile)
}

/// The tile of cell `(x, y)` of a closed room of edge `size`: wall on the
/// outer ring, empty inside.
pub open spec fn room_tile(size: nat, x: nat, y: nat) -> u8 {
    if x == 0 || y == 0 || x + 1 == size || y + 1 == size {
        TILE_WALL
    } else {
        TILE_EMPTY
    }
}

/// The tile at flat index `k` of a room of edge `size` while it is being
/// carved: rows `1..row` and the first `col` cells of row `row` of the
/// interior are already empty.
spec fn carved_tile(size: nat, k: int, row: int, col: int) -> u8 {
    let x = k % (size as int);
    let y = k / (size as int);
    if 1 <= x < size - 1 && (1 <= y < row || (y == row && x < col)) {
        TILE_EMPTY
    } else {
        TILE_WALL
    }
}

/// Cell `(x, y)` of a `size`-wide grid sits at flat index `y * size + x`,
/// and that index gives the cell back.
proof fn lemma_cell_index(size: nat, x: nat, y: nat)
    requires
        x < size,
        y < size,
    ensures
        y * size + x < size * size,
        ((y * size + x) as int) % (size as int) == x,
        ((y * size + x) as int) / (size as int) == y,
{
    vstd::arithmetic::div_mod::lemma_fundamental_div_mod_converse(
        (y * size + x) as int,
        size as int,
        y as int,
        x as int,
    );
    assert(y * size + x < size * size) by (nonlinear_arith)
        requires
            x < size,
            y < size,
    ;
}

/// A closed square room of edge `size`: the outer ring of cells is
/// `TILE_WALL` and the `(size - 2) x (size - 2)` interior is `TILE_EMPTY`.
pub fn walled_room(size: usize) -> (map: GridMap)
    requires
        1 <= size,
        size * size <= usize::MAX,
    ensures
        grid_size(map) == (size as nat, size as nat),
        grid_tiles(map).len() == size * size,
        forall|x: nat, y: nat|
            x < size && y < size ==> #[trigger] tile_at(map, x, y) == room_tile(size as nat, x, y),
{
    let mut map = new_grid(size, size);
    let ghost n = size as nat;
    let mut y: usize = 1;
    while y < size - 1
        invariant
            1 <= y <= size,
            y <= size - 1 || size == 1,
            n == size,
            size * size <= usize::MAX,
            grid_size(map) == (n, n),
            grid_tiles(map).len() == n * n,
            forall|k: int|
                0 <= k < n * n ==> #[trigger] grid_tiles(map)[k] == carved_tile(n, k, y as int, 0),
        decreases size - y,
    {
        let mut x: usize = 1;
        while x < size - 1
            invariant
                1 <= y < size - 1,
                1 <= x <= size - 1,
                n == size,
                grid_size(map) == (n, n),
                grid_tiles(map).len() == n * n,
                forall|k: int|
                    0 <= k < n * n ==> #[trigger] grid_tiles(map)[k] == carved_tile(
                        n,
                        k,
                        y as int,
                        x as int,
                    ),
            decreases size - x,
        {
            let ghost before = grid_tiles(map);
            set_tile(&mut map, x, y, TILE_EMPTY);
            proof {
                lemma_cell_index(n, x as nat, y as nat);
                let idx = y * n + x;
                assert forall|k: int| 0 <= k < n * n implies #[trigger] grid_tiles(map)[k]
                    == carved_tile(n, k, y as int, x + 1) by {
                    if k != idx {
                        assert(grid_tiles(map)[k] == before[k]);
                        if k % (n as int) == x && k / (n as int) == y {
                            vstd::arithmetic::div_mod::lemma_fundamental_div_mod(k, n as int);
                            assert(false);
                        }
                    }
                }
            }
            x = x + 1;
        }
        proof {
            assert forall|k: int| 0 <= k < n * n implies #[trigger] grid_tiles(map)[k]
                == carved_tile(n, k, y + 1, 0) by {
                assert(grid_tiles(map)[k] == carved_tile(n, k, y as int, x as int));
            }
        }
        y = y + 1;
    }
    proof {
        assert forall|x: nat, y: nat| x < size && y < size implies #[trigger] tile_at(map, x, y)
            == room_tile(size as nat, x, y) by {
            lemma_cell_index(n, x, y);
            let k = (y * n + x) as int;
            assert(grid_tiles(map)[k] == carved_tile(n, k, (n - 1) as int, 0));
        }
    }
    map
}

/// Most files loaded into one scene (the first ones in name order).
pub const MAX_SCENE_FILES: usize = 20;

/// Columns of the scene's placement grid.
pub const SCENE_COLUMNS: usize = 6;

/// Rows of the scene's placement grid.
pub const SCENE_ROWS: usize = 4;

/// A hash of a file name: the polynomial `h * 31 + c` over its characters
/// (as code points), kept to 32 bits.
pub open spec fn name_hash(name: Seq<char>) -> nat
    decreases name.len(),
{
    if name.len() == 0 {
        0
    } else {
        ((name_hash(name.drop_last()) * 31 + (name.last() as u32)) % 0x1_0000_0000) as nat
    }
}

/// The placement cell `(column, row)` of the file called `name`: its name
/// hash taken modulo the 6 x 4 grid, filled row by row.
pub open spec fn spec_scene_slot(name: Seq<char>) -> (usize, usize) {
    let cell = name_hash(name) % (SCENE_COLUMNS * SCENE_ROWS) as nat;
    ((cell % SCENE_COLUMNS as nat) as usize, (cell / SCENE_COLUMNS as nat) as usize)
}

/// The placement cell `(column, row)` of the file called `file_name` on the
/// scene's interior grid: a deterministic function of the name alone, so a
/// file keeps its place whatever its siblings are.
pub fn scene_slot(file_name: &str) -> (slot: (usize, usize))
    ensures
        slot == spec_scene_slot(file_name@),
{
    let ghost chars = file_name@;
    let mut it = file_name.chars();
    let mut h: u32 = 0;
    let ghost mut i: int = 0;
    loop
        invariant
            vstd::std_specs::iter::IteratorSpec::remaining(&it) == chars.skip(i),
            0 <= i <= chars.len(),
            h as nat == name_hash(chars.take(i)),
        ensures
            h as nat == name_hash(chars),
        decreases chars.len() - i,
    {
        match it.next() {
            None => {
                assert(chars.skip(i).len() == 0);
                assert(chars.take(i) =~= chars);
                break;
            },
            Some(c) => {
                assert(chars.skip(i)[0] == chars[i]);
                assert(chars.take(i + 1).drop_last() =~= chars.take(i));
                assert(chars.take(i + 1).last() == c);
                let code: u32 = c as u32;
                let next: u64 = (h as u64) * 31 + (code as u64);
                h = (next % 0x1_0000_0000) as u32;
                assert(chars.skip(i).drop_first() =~= chars.skip(i + 1));
                proof {
                    i = i + 1;
                }
            },
        }
    }
    let cell = (h as usize) % (SCENE_COLUMNS * SCENE_ROWS);
    (cell % SCENE_COLUMNS, cell / SCENE_COLUMNS)
}

/// Every file lands inside the 6 x 4 placement grid, and a file's cell
/// depends on its name alone: the same name gets the same cell in any
/// listing.
pub proof fn lemma_scene_slot_in_grid(name: Seq<char>, other: Seq<char>)
    ensures
        spec_scene_slot(name).0 < SCENE_COLUMNS,
        spec_scene_slot(name).1 < SCENE_ROWS,
        name == other ==> spec_scene_slot(name) == spec_scene_slot(other),
{
}

/// The room is closed and open inside: every cell on its outer ring is a
/// wall (termray's tile 1), every other cell is walkable (tile 0).
pub proof fn lemma_room_ring_walls_interior_empty(size: nat, x: nat, y: nat)
    requires
        x < size,
        y < size,
    ensures
        (x == 0 || y == 0 || x == size - 1 || y == size - 1) ==> room_tile(size, x, y) == 1,
        (0 < x < size - 1 && 0 < y < size - 1) ==> room_tile(size, x, y) == 0,
{
}

} // verus!
