//! The attribute kinds that an entity can carry, and the configuration that
//! creates an entity with any of them attached.

use crate::map::in_bounds;
use vstd::prelude::*;

verus! {

/// Grid coordinates of an entity.
#[derive(PartialEq, Eq, Structural, Clone, Copy, Debug)]
pub struct Position {
    pub x: i32,
    pub y: i32,
}

/// A colour as red, green and blue components in `0..=255`.
#[derive(PartialEq, Eq, Structural, Clone, Copy, Debug)]
pub struct Rgb {
    pub r: u8,
    pub g: u8,
    pub b: u8,
}

/// A visible glyph with its foreground and background colours.
#[derive(PartialEq, Eq, Structural, Clone, Copy, Debug)]
pub struct Renderable {
    pub glyph: u16,
    pub fg: Rgb,
    pub bg: Rgb,
}

/// An entity: an identifier and nothing more.
#[derive(PartialEq, Eq, Structural, Clone, Copy, Debug)]
pub struct Entity {
    pub id: usize,
}

/// The attributes attached to an entity: each kind is present or absent.
/// The player tag and the auto-mover tag carry no payload.
#[derive(Clone, Copy, Debug)]
pub struct EntityConfig {
    pub position: Option<Position>,
    pub renderable: Option<Renderable>,
    pub player: bool,
    pub auto_mover: bool,
}

impl Position {
    pub open spec fn is_on_map(self) -> bool {
        in_bounds(self.x as int, self.y as int)
    }
}

impl EntityConfig {
    /// A position, where there is one, lies on the map.
    pub open spec fn is_placed(self) -> bool {
        match self.position {
            Some(p) => p.is_on_map(),
            None => true,
        }
    }

    /// A configuration with no attribute.
    pub fn new() -> (c: EntityConfig)
        ensures
            c.position is None,
            c.renderable is None,
            !c.player,
            !c.auto_mover,
    {
        EntityConfig { position: None, renderable: None, player: false, auto_mover: false }
    }

    /// Attaches a position.
    pub fn with_position(self, p: Position) -> (c: EntityConfig)
        ensures
            c == (EntityConfig { position: Some(p), ..self }),
    {
        EntityConfig { position: Some(p), ..self }
    }

    /// Attaches a renderable.
    pub fn with_renderable(self, r: Renderable) -> (c: EntityConfig)
        ensures
            c == (EntityConfig { renderable: Some(r), ..self }),
    {
        EntityConfig { renderable: Some(r), ..self }
    }

    /// Attaches the player tag.
    pub fn with_player(self) -> (c: EntityConfig)
        ensures
            c == (EntityConfig { player: true, ..self }),
    {
        EntityConfig { player: true, ..self }
    }

    /// Attaches the auto-mover tag.
    pub fn with_auto_mover(self) -> (c: EntityConfig)
        ensures
            c == (EntityConfig { auto_mover: true, ..self }),
    {
        EntityConfig { auto_mover: true, ..self }
    }
}

} // verus!
