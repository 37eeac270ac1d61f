//! The game loop's tick, the initial world, and the laws that tie the
//! systems together.

use crate::components::{Entity, EntityConfig, Position, Renderable, Rgb};
use crate::map::{TileType, MAP_CELLS, START_X, START_Y, WIDTH};
use crate::movement::{delta_of, key_delta, walked_left, Key};
use crate::render::{rendered, Cell};
use crate::terminal::{cp437_of, glyph_of};
use crate::world::{drawables, World, WorldView};
use vstd::prelude::*;

verus! {

/// The world after one tick with key `key`: the player rule, then the
/// auto-mover rule, then the pending creations.
pub open spec fn ticked(v: WorldView, key: Option<Key>) -> WorldView {
    v.players_moved(key_delta(key).0, key_delta(key).1).walkers_moved().maintained()
}

/// The player entity of a new game: an '@' in yellow on black at the start
/// cell.
pub open spec fn player_config() -> EntityConfig {
    EntityConfig {
        position: Some(Position { x: START_X, y: START_Y }),
        renderable: Some(
            Renderable {
                glyph: cp437_of('@'),
                fg: Rgb { r: 255, g: 255, b: 0 },
                bg: Rgb { r: 0, g: 0, b: 0 },
            },
        ),
        player: true,
        auto_mover: false,
    }
}

/// Two sequences of entities with the same attribute kinds at each identifier.
pub open spec fn same_shape(a: Seq<EntityConfig>, b: Seq<EntityConfig>) -> bool {
    &&& a.len() == b.len()
    &&& forall|i: int|
        0 <= i < a.len() ==> {
            &&& (#[trigger] a[i]).position is Some == b[i].position is Some
            &&& a[i].renderable is Some == b[i].renderable is Some
        }
}

pub open spec fn drawn_ids(es: Seq<EntityConfig>) -> Seq<Entity> {
    drawables(es).map_values(|d: (Entity, Position, Renderable)| d.0)
}

impl World {
    /// A new game on `map`: a world whose only entity is the player.
    pub fn new_game(map: Vec<TileType>) -> (w: World)
        requires
            map@.len() == MAP_CELLS,
        ensures
            w.wf(),
            w@.map == map@,
            w@.entities == seq![player_config()],
            w@.pending.len() == 0,
    {
        let mut w = World::new(map);
        let player = EntityConfig {
            position: Some(Position { x: START_X, y: START_Y }),
            renderable: Some(
                Renderable {
                    glyph: glyph_of('@'),
                    fg: Rgb { r: 255, g: 255, b: 0 },
                    bg: Rgb { r: 0, g: 0, b: 0 },
                },
            ),
            player: true,
            auto_mover: false,
        };
        w.create_entity(player);
        assert(w@.entities =~= seq![player_config()]);
        w
    }

    /// One tick: the player moves as the key asks, the auto-movers step, the
    /// pending creations are applied, and the world is rendered. The surface
    /// is cleared and the key is read before; the returned cells are written
    /// after, in order.
    pub fn tick(&mut self, key: Option<Key>) -> (cells: Vec<Cell>)
        requires
            old(self).wf(),
        ensures
            final(self).wf(),
            final(self)@ == ticked(old(self)@, key),
            cells@ == rendered(final(self)@),
    {
        let (dx, dy) = delta_of(key);
        self.try_move_player(dx, dy);
        self.run_left_walker();
        self.maintain();
        self.render()
    }
}

/// After one tick, an entity with an auto-mover tag and a position but no
/// player tag is one cell further left, wrapping at the left edge; its row
/// is unchanged.
pub proof fn tick_moves_auto_mover_left(v: WorldView, key: Option<Key>, i: int)
    requires
        v.wf(),
        0 <= i < v.entities.len(),
        v.entities[i].auto_mover,
        !v.entities[i].player,
        v.entities[i].position is Some,
    ensures
        ticked(v, key).entities[i].position == Some(walked_left(v.entities[i].position->0)),
        ticked(v, key).entities[i].position->0.x == (v.entities[i].position->0.x - 1) % (
        WIDTH as int),
        ticked(v, key).entities[i].position->0.y == v.entities[i].position->0.y,
{
    let d = key_delta(key);
    let moved = v.players_moved(d.0, d.1);
    assert(moved.entities[i] == v.entities[i]);
    assert(ticked(v, key).entities[i] == moved.walkers_moved().entities[i]);
}

/// Rendering the same world twice gives the same writes in the same order.
pub proof fn render_is_repeatable(v: WorldView, first: Seq<Cell>, second: Seq<Cell>)
    requires
        first == rendered(v),
        second == rendered(v),
    ensures
        first == second,
{
}

/// The position-and-renderable query yields the same entities in the same
/// order over any two states between which no attribute was attached or
/// removed; values may have changed.
pub proof fn query_is_restartable(a: Seq<EntityConfig>, b: Seq<EntityConfig>)
    requires
        same_shape(a, b),
    ensures
        drawn_ids(a) == drawn_ids(b),
    decreases a.len(),
{
    if a.len() > 0 {
        let (ra, rb) = (a.drop_last(), b.drop_last());
        assert(same_shape(ra, rb)) by {
            assert forall|i: int| 0 <= i < ra.len() implies {
                &&& (#[trigger] ra[i]).position is Some == rb[i].position is Some
                &&& ra[i].renderable is Some == rb[i].renderable is Some
            } by {
                assert(ra[i] == a[i] && rb[i] == b[i]);
            }
        }
        query_is_restartable(ra, rb);
        lemma_drawn_ids_step(a);
        lemma_drawn_ids_step(b);
        assert(a.last() == a[a.len() - 1]);
        assert(b.last() == b[b.len() - 1]);
    } else {
        assert(drawn_ids(a) =~= drawn_ids(b));
    }
}

proof fn lemma_drawn_ids_step(es: Seq<EntityConfig>)
    requires
        es.len() > 0,
    ensures
        drawn_ids(es) == if es.last().position is Some && es.last().renderable is Some {
            drawn_ids(es.drop_last()).push(Entity { id: (es.len() - 1) as usize })
        } else {
            drawn_ids(es.drop_last())
        },
{
    let last = es.last();
    match (last.position, last.renderable) {
        (Some(p), Some(r)) => {
            assert(drawn_ids(es) =~= drawn_ids(es.drop_last()).push(
                Entity { id: (es.len() - 1) as usize },
            ));
        },
        _ => {
            assert(drawn_ids(es) =~= drawn_ids(es.drop_last()));
        },
    }
}

/// Neither movement rule attaches or removes an attribute, so a query yields
/// the same entities in the same order before and after them.
pub proof fn movement_keeps_query_order(v: WorldView, dx: int, dy: int)
    ensures
        drawn_ids(v.players_moved(dx, dy).entities) == drawn_ids(v.entities),
        drawn_ids(v.walkers_moved().entities) == drawn_ids(v.entities),
{
    query_is_restartable(v.players_moved(dx, dy).entities, v.entities);
    query_is_restartable(v.walkers_moved().entities, v.entities);
}

} // verus!
