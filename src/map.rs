//! The tile map: a row-major grid of walls and floors, its generation and its
//! walkability rule.

use crate::terminal::roll_dice;
use vstd::prelude::*;

verus! {

/// Columns of the map.
pub const WIDTH: i32 = 80;

/// Rows of the map.
pub const HEIGHT: i32 = 50;

/// Cells of the map.
pub const MAP_CELLS: usize = 4000;

/// Column of the cell where the player starts; generation never walls it.
pub const START_X: i32 = 40;

/// Row of the cell where the player starts.
pub const START_Y: i32 = 25;

/// Random wall placements made by map generation.
pub const WALL_TRIALS: usize = 400;

#[derive(PartialEq, Eq, Structural, Clone, Copy, Debug)]
pub enum TileType {
    Wall,
    Floor,
}

pub open spec fn in_bounds(x: int, y: int) -> bool {
    0 <= x < WIDTH && 0 <= y < HEIGHT
}

pub open spec fn is_border(x: int, y: int) -> bool {
    x == 0 || x == WIDTH - 1 || y == 0 || y == HEIGHT - 1
}

pub open spec fn is_interior(x: int, y: int) -> bool {
    1 <= x <= WIDTH - 2 && 1 <= y <= HEIGHT - 2
}

pub open spec fn is_start(x: int, y: int) -> bool {
    x == START_X && y == START_Y
}

/// Row-major index of a cell.
pub open spec fn idx(x: int, y: int) -> int {
    y * WIDTH + x
}

/// The tile at a cell of a map.
pub open spec fn tile_at(map: Seq<TileType>, x: int, y: int) -> TileType {
    map[idx(x, y)]
}

/// Whether one of the first `n` trials chose cell `(x, y)`.
pub open spec fn rolled(trials: Seq<(i32, i32)>, n: int, x: int, y: int) -> bool
    decreases n,
{
    if n <= 0 {
        false
    } else {
        (trials[n - 1].0 == x && trials[n - 1].1 == y) || rolled(trials, n - 1, x, y)
    }
}

/// The tile that generation leaves at `(x, y)` after the first `n` trials:
/// borders are walls, a chosen cell becomes a wall unless it is the start.
pub open spec fn generated_tile(trials: Seq<(i32, i32)>, n: int, x: int, y: int) -> TileType {
    if is_border(x, y) || (rolled(trials, n, x, y) && !is_start(x, y)) {
        TileType::Wall
    } else {
        TileType::Floor
    }
}

/// The map that generation builds from the chosen cells.
pub open spec fn is_generated_from(map: Seq<TileType>, trials: Seq<(i32, i32)>) -> bool {
    &&& map.len() == MAP_CELLS
    &&& forall|x: int, y: int|
        in_bounds(x, y) ==> #[trigger] tile_at(map, x, y) == generated_tile(
            trials,
            trials.len() as int,
            x,
            y,
        )
}

/// A map whose border is all wall and whose start cell is floor.
pub open spec fn is_well_formed_map(map: Seq<TileType>) -> bool {
    &&& map.len() == MAP_CELLS
    &&& forall|x: int, y: int|
        in_bounds(x, y) && is_border(x, y) ==> #[trigger] tile_at(map, x, y) == TileType::Wall
    &&& tile_at(map, START_X as int, START_Y as int) == TileType::Floor
}

pub open spec fn all_interior(trials: Seq<(i32, i32)>) -> bool {
    forall|k: int| 0 <= k < trials.len() ==> is_interior(#[trigger] trials[k].0 as int, trials[k].1 as int)
}

/// Row-major index of a cell of the map.
pub fn xy_idx(x: i32, y: i32) -> (r: usize)
    requires
        in_bounds(x as int, y as int),
    ensures
        r == idx(x as int, y as int),
        r < MAP_CELLS,
{
    (y as usize) * 80 + (x as usize)
}

/// A cell is walkable unless it is a wall.
pub fn is_walkable(tile: TileType) -> (r: bool)
    ensures
        r == (tile != TileType::Wall),
{
    match tile {
        TileType::Wall => false,
        TileType::Floor => true,
    }
}

proof fn lemma_cell_of_index(x: int, y: int, xx: int, yy: int)
    requires
        0 <= x < WIDTH,
        0 <= xx < WIDTH,
        idx(x, y) == idx(xx, yy),
    ensures
        x == xx,
        y == yy,
{
}

/// Builds the map from the cells chosen by the trials: every border cell is a
/// wall, every chosen cell but the start becomes a wall, the rest is floor.
pub fn map_from_trials(trials: &Vec<(i32, i32)>) -> (map: Vec<TileType>)
    requires
        forall|k: int|
            0 <= k < trials@.len() ==> in_bounds(#[trigger] trials@[k].0 as int, trials@[k].1 as int),
    ensures
        is_generated_from(map@, trials@),
        is_well_formed_map(map@),
{
    let mut map: Vec<TileType> = Vec::new();
    let mut y: i32 = 0;
    while y < HEIGHT
        invariant
            0 <= y <= HEIGHT,
            map@.len() == y * WIDTH,
            forall|xx: int, yy: int|
                0 <= xx < WIDTH && 0 <= yy < y ==> #[trigger] tile_at(map@, xx, yy)
                    == generated_tile(trials@, 0, xx, yy),
        decreases HEIGHT - y,
    {
        let mut x: i32 = 0;
        while x < WIDTH
            invariant
                0 <= y < HEIGHT,
                0 <= x <= WIDTH,
                map@.len() == y * WIDTH + x,
                forall|xx: int, yy: int|
                    0 <= xx < WIDTH && 0 <= yy && idx(xx, yy) < map@.len() ==> #[trigger] tile_at(
                        map@,
                        xx,
                        yy,
                    ) == generated_tile(trials@, 0, xx, yy),
            decreases WIDTH - x,
        {
            let tile = if x == 0 || x == WIDTH - 1 || y == 0 || y == HEIGHT - 1 {
                TileType::Wall
            } else {
                TileType::Floor
            };
            let ghost before = map@;
            map.push(tile);
            proof {
                assert forall|xx: int, yy: int|
                    0 <= xx < WIDTH && 0 <= yy && idx(xx, yy) < map@.len() implies #[trigger] tile_at(
                        map@,
                        xx,
                        yy,
                    ) == generated_tile(trials@, 0, xx, yy) by {
                    if idx(xx, yy) == before.len() {
                        lemma_cell_of_index(x as int, y as int, xx, yy);
                    } else {
                        assert(tile_at(before, xx, yy) == generated_tile(trials@, 0, xx, yy));
                    }
                }
            }
            x = x + 1;
        }
        y = y + 1;
    }
    let mut k: usize = 0;
    while k < trials.len()
        invariant
            k <= trials@.len(),
            map@.len() == MAP_CELLS,
            forall|q: int|
                0 <= q < trials@.len() ==> in_bounds(#[trigger] trials@[q].0 as int, trials@[q].1 as int),
            forall|xx: int, yy: int|
                in_bounds(xx, yy) ==> #[trigger] tile_at(map@, xx, yy) == generated_tile(
                    trials@,
                    k as int,
                    xx,
                    yy,
                ),
        decreases trials@.len() - k,
    {
        let (x, y) = trials[k];
        if !(x == START_X && y == START_Y) {
            let i = xy_idx(x, y);
            let ghost before = map@;
            map.set(i, TileType::Wall);
            proof {
                assert forall|xx: int, yy: int| in_bounds(xx, yy) implies #[trigger] tile_at(
                    map@,
                    xx,
                    yy,
                ) == generated_tile(trials@, k + 1, xx, yy) by {
                    if idx(xx, yy) == i {
                        lemma_cell_of_index(x as int, y as int, xx, yy);
                    } else {
                        assert(tile_at(before, xx, yy) == generated_tile(trials@, k as int, xx, yy));
                    }
                }
            }
        } else {
            proof {
                assert forall|xx: int, yy: int| in_bounds(xx, yy) implies #[trigger] tile_at(
                    map@,
                    xx,
                    yy,
                ) == generated_tile(trials@, k + 1, xx, yy) by {
                    assert(tile_at(map@, xx, yy) == generated_tile(trials@, k as int, xx, yy));
                }
            }
        }
        k = k + 1;
    }
    proof {
        assert(trials@.len() == k);
        assert forall|x: int, y: int|
            in_bounds(x, y) && is_border(x, y) implies #[trigger] tile_at(map@, x, y) == TileType::Wall by {
            assert(tile_at(map@, x, y) == generated_tile(trials@, k as int, x, y));
        }
        assert(tile_at(map@, START_X as int, START_Y as int) == generated_tile(
            trials@,
            k as int,
            START_X as int,
            START_Y as int,
        ));
    }
    map
}

/// Generates a map: borders are walls, then each of a fixed number of trials
/// picks a uniformly random interior cell and walls it, unless it is the
/// start cell.
pub fn new_map(rng: &mut bracket_lib::prelude::RandomNumberGenerator) -> (map: Vec<TileType>)
    ensures
        is_well_formed_map(map@),
        exists|trials: Seq<(i32, i32)>|
            trials.len() == WALL_TRIALS && all_interior(trials) && is_generated_from(map@, trials),
{
    let mut trials: Vec<(i32, i32)> = Vec::new();
    let mut i: usize = 0;
    while i < WALL_TRIALS
        invariant
            i <= WALL_TRIALS,
            trials@.len() == i,
            all_interior(trials@),
        decreases WALL_TRIALS - i,
    {
        let x = roll_dice(rng, 1, WIDTH - 2);
        let y = roll_dice(rng, 1, HEIGHT - 2);
        trials.push((x, y));
        i = i + 1;
    }
    let map = map_from_trials(&trials);
    assert(trials@.len() == WALL_TRIALS && all_interior(trials@) && is_generated_from(map@, trials@));
    map
}

} // verus!
