//! The render pass: the map first, then every entity with a position and a
//! renderable, drawn over it.

use crate::components::{Entity, Position, Renderable, Rgb};
use crate::map::{tile_at, TileType, HEIGHT, MAP_CELLS, WIDTH};
use crate::terminal::{cp437_of, glyph_of};
use crate::world::{drawables, World, WorldView};
use vstd::prelude::*;

verus! {

/// One write to the display surface: a glyph and its colours at a cell.
#[derive(PartialEq, Eq, Structural, Clone, Copy, Debug)]
pub struct Cell {
    pub x: i32,
    pub y: i32,
    pub glyph: u16,
    pub fg: Rgb,
    pub bg: Rgb,
}

pub open spec fn black() -> Rgb {
    Rgb { r: 0, g: 0, b: 0 }
}

pub open spec fn gray() -> Rgb {
    Rgb { r: 128, g: 128, b: 128 }
}

pub open spec fn green() -> Rgb {
    Rgb { r: 0, g: 255, b: 0 }
}

/// How the map draws a tile: floor as a gray '.', wall as a green '#', both
/// on black.
pub open spec fn tile_cell(map: Seq<TileType>, x: int, y: int) -> Cell {
    if tile_at(map, x, y) == TileType::Wall {
        Cell { x: x as i32, y: y as i32, glyph: cp437_of('#'), fg: green(), bg: black() }
    } else {
        Cell { x: x as i32, y: y as i32, glyph: cp437_of('.'), fg: gray(), bg: black() }
    }
}

/// The map pass: every cell in row-major order.
pub open spec fn map_cells(map: Seq<TileType>) -> Seq<Cell> {
    Seq::new(MAP_CELLS as nat, |i: int| tile_cell(map, i % (WIDTH as int), i / (WIDTH as int)))
}

pub open spec fn entity_cell(d: (Entity, Position, Renderable)) -> Cell {
    Cell { x: d.1.x, y: d.1.y, glyph: d.2.glyph, fg: d.2.fg, bg: d.2.bg }
}

/// The entity pass: each drawable entity, in order of identifier.
pub open spec fn entity_cells(es: Seq<crate::components::EntityConfig>) -> Seq<Cell> {
    drawables(es).map_values(|d: (Entity, Position, Renderable)| entity_cell(d))
}

/// All the writes of one render pass, in order.
pub open spec fn rendered(v: WorldView) -> Seq<Cell> {
    map_cells(v.map) + entity_cells(v.entities)
}

fn draw_tile(tile: TileType, x: i32, y: i32, floor: u16, wall: u16) -> (c: Cell)
    requires
        floor == cp437_of('.'),
        wall == cp437_of('#'),
    ensures
        c == (if tile == TileType::Wall {
            Cell { x, y, glyph: cp437_of('#'), fg: green(), bg: black() }
        } else {
            Cell { x, y, glyph: cp437_of('.'), fg: gray(), bg: black() }
        }),
{
    let black = Rgb { r: 0, g: 0, b: 0 };
    match tile {
        TileType::Wall => Cell { x, y, glyph: wall, fg: Rgb { r: 0, g: 255, b: 0 }, bg: black },
        TileType::Floor => Cell { x, y, glyph: floor, fg: Rgb { r: 128, g: 128, b: 128 }, bg: black },
    }
}

proof fn lemma_row_major(x: int, y: int)
    requires
        0 <= x < WIDTH,
        0 <= y,
    ensures
        (y * WIDTH + x) % (WIDTH as int) == x,
        (y * WIDTH + x) / (WIDTH as int) == y,
{
    vstd::arithmetic::div_mod::lemma_fundamental_div_mod_converse(
        y * WIDTH + x,
        WIDTH as int,
        y,
        x,
    );
}

impl World {
    /// The render pass: the map, then every entity holding a position and a
    /// renderable over it. It reads the world and changes nothing.
    pub fn render(&self) -> (r: Vec<Cell>)
        requires
            self.wf(),
        ensures
            r@ == rendered(self@),
    {
        let floor = glyph_of('.');
        let wall = glyph_of('#');
        let ghost map = self@.map;
        let mut out: Vec<Cell> = Vec::new();
        let mut y: i32 = 0;
        while y < HEIGHT
            invariant
                self.wf(),
                map == self@.map,
                floor == cp437_of('.'),
                wall == cp437_of('#'),
                0 <= y <= HEIGHT,
                out@ =~= map_cells(map).take(y * WIDTH),
            decreases HEIGHT - y,
        {
            let mut x: i32 = 0;
            while x < WIDTH
                invariant
                    self.wf(),
                    map == self@.map,
                    floor == cp437_of('.'),
                    wall == cp437_of('#'),
                    0 <= y < HEIGHT,
                    0 <= x <= WIDTH,
                    out@ =~= map_cells(map).take(y * WIDTH + x),
                decreases WIDTH - x,
            {
                let c = draw_tile(self.tile(x, y), x, y, floor, wall);
                proof {
                    lemma_row_major(x as int, y as int);
                }
                out.push(c);
                assert(map_cells(map).take(y * WIDTH + x + 1) =~= map_cells(map).take(
                    y * WIDTH + x,
                ).push(c));
                x = x + 1;
            }
            y = y + 1;
        }
        assert(out@ =~= map_cells(map));
        let ds = self.query_position_renderable();
        let mut k: usize = 0;
        while k < ds.len()
            invariant
                ds@ == drawables(self@.entities),
                k <= ds@.len(),
                out@ =~= map_cells(map) + entity_cells(self@.entities).take(k as int),
            decreases ds@.len() - k,
        {
            let (_e, p, rd) = ds[k];
            let c = Cell { x: p.x, y: p.y, glyph: rd.glyph, fg: rd.fg, bg: rd.bg };
            out.push(c);
            assert(entity_cells(self@.entities).take(k + 1) =~= entity_cells(self@.entities).take(
                k as int,
            ).push(c));
            k = k + 1;
        }
        assert(entity_cells(self@.entities).take(k as int) =~= entity_cells(self@.entities));
        out
    }
}

} // verus!
