//! The input mapper and the two movement rules, stated per entity.

use crate::components::{EntityConfig, Position};
use crate::map::{tile_at, TileType, HEIGHT, WIDTH};
use vstd::prelude::*;

verus! {

/// A polled key, as far as the game tells keys apart.
#[derive(PartialEq, Eq, Structural, Clone, Copy, Debug)]
pub enum Key {
    Left,
    Right,
    Up,
    Down,
    Other,
}

/// The movement that a key asks for; no key, or any other key, asks for none.
pub open spec fn key_delta(key: Option<Key>) -> (int, int) {
    match key {
        Some(Key::Left) => (-1, 0),
        Some(Key::Right) => (1, 0),
        Some(Key::Up) => (0, -1),
        Some(Key::Down) => (0, 1),
        _ => (0, 0),
    }
}

/// Translates one polled key into a movement delta.
pub fn delta_of(key: Option<Key>) -> (d: (i32, i32))
    ensures
        d.0 == key_delta(key).0,
        d.1 == key_delta(key).1,
{
    match key {
        Some(Key::Left) => (-1, 0),
        Some(Key::Right) => (1, 0),
        Some(Key::Up) => (0, -1),
        Some(Key::Down) => (0, 1),
        _ => (0, 0),
    }
}

pub open spec fn clamp(v: int, lo: int, hi: int) -> int {
    if v < lo {
        lo
    } else if v > hi {
        hi
    } else {
        v
    }
}

/// Where a move by `(dx, dy)` leads, held to the map.
pub open spec fn destination(p: Position, dx: int, dy: int) -> Position {
    Position {
        x: clamp(p.x + dx, 0, WIDTH - 1) as i32,
        y: clamp(p.y + dy, 0, HEIGHT - 1) as i32,
    }
}

/// The player's position after a move attempt: the destination unless it is
/// a wall, in which case the player stays.
pub open spec fn moved_player(map: Seq<TileType>, p: Position, dx: int, dy: int) -> Position {
    let d = destination(p, dx, dy);
    if tile_at(map, d.x as int, d.y as int) == TileType::Wall {
        p
    } else {
        d
    }
}

/// An entity after the player rule: only those with a player tag and a
/// position move.
pub open spec fn player_step(map: Seq<TileType>, e: EntityConfig, dx: int, dy: int) -> EntityConfig {
    match e.position {
        Some(p) if e.player => EntityConfig { position: Some(moved_player(map, p, dx, dy)), ..e },
        _ => e,
    }
}

/// One step left, wrapping from the left edge to the right edge.
pub open spec fn walked_left(p: Position) -> Position {
    Position { x: ((p.x - 1) % (WIDTH as int)) as i32, y: p.y }
}

/// An entity after the auto-mover rule: only those with an auto-mover tag and
/// a position move, through walls alike.
pub open spec fn walker_step(e: EntityConfig) -> EntityConfig {
    match e.position {
        Some(p) if e.auto_mover => EntityConfig { position: Some(walked_left(p)), ..e },
        _ => e,
    }
}

/// `v` held to `0..=hi`.
pub fn clamp_coord(v: i64, hi: i32) -> (r: i32)
    requires
        0 <= hi,
    ensures
        r == clamp(v as int, 0, hi as int),
{
    if v < 0 {
        0
    } else if v > hi as i64 {
        hi
    } else {
        v as i32
    }
}

} // verus!
