//! The world: the tile map and the entity store. Each attribute kind has a
//! table indexed by entity identifier; creations requested while systems run
//! wait in a pending queue until `maintain`.

use crate::components::{Entity, EntityConfig, Position, Renderable};
use crate::map::{in_bounds, is_walkable, tile_at, xy_idx, TileType, HEIGHT, MAP_CELLS, WIDTH};
use crate::movement::{clamp_coord, destination, player_step, walker_step};
use vstd::prelude::*;

verus! {

/// What a world holds: the map, the attributes of each live entity in order
/// of identifier, and the creations that wait for `maintain`.
pub struct WorldView {
    pub map: Seq<TileType>,
    pub entities: Seq<EntityConfig>,
    pub pending: Seq<EntityConfig>,
}

impl WorldView {
    pub open spec fn wf(self) -> bool {
        &&& self.map.len() == MAP_CELLS
        &&& forall|i: int| 0 <= i < self.entities.len() ==> (#[trigger] self.entities[i]).is_placed()
        &&& forall|i: int| 0 <= i < self.pending.len() ==> (#[trigger] self.pending[i]).is_placed()
    }

    /// The world after the pending creations have been applied, in the order
    /// in which they were requested.
    pub open spec fn maintained(self) -> WorldView {
        WorldView { map: self.map, entities: self.entities + self.pending, pending: Seq::empty() }
    }

    /// The world after the player rule with delta `(dx, dy)`.
    pub open spec fn players_moved(self, dx: int, dy: int) -> WorldView {
        WorldView {
            entities: Seq::new(
                self.entities.len(),
                |i: int| player_step(self.map, self.entities[i], dx, dy),
            ),
            ..self
        }
    }

    /// The world after the auto-mover rule.
    pub open spec fn walkers_moved(self) -> WorldView {
        WorldView {
            entities: Seq::new(self.entities.len(), |i: int| walker_step(self.entities[i])),
            ..self
        }
    }
}

/// The entities holding both a position and a renderable, in order of
/// identifier, with those two attributes.
pub open spec fn drawables(es: Seq<EntityConfig>) -> Seq<(Entity, Position, Renderable)>
    decreases es.len(),
{
    if es.len() == 0 {
        Seq::empty()
    } else {
        let last = es.last();
        let rest = drawables(es.drop_last());
        match (last.position, last.renderable) {
            (Some(p), Some(r)) => rest.push((Entity { id: (es.len() - 1) as usize }, p, r)),
            _ => rest,
        }
    }
}

pub struct World {
    map: Vec<TileType>,
    positions: Vec<Option<Position>>,
    renderables: Vec<Option<Renderable>>,
    players: Vec<bool>,
    auto_movers: Vec<bool>,
    pending: Vec<EntityConfig>,
}

impl View for World {
    type V = WorldView;

    closed spec fn view(&self) -> WorldView {
        WorldView {
            map: self.map@,
            entities: Seq::new(
                self.positions@.len(),
                |i: int|
                    EntityConfig {
                        position: self.positions@[i],
                        renderable: self.renderables@[i],
                        player: self.players@[i],
                        auto_mover: self.auto_movers@[i],
                    },
            ),
            pending: self.pending@,
        }
    }
}

impl World {
    /// The tables agree in length and the view is well formed.
    pub closed spec fn wf(&self) -> bool {
        &&& self.renderables@.len() == self.positions@.len()
        &&& self.players@.len() == self.positions@.len()
        &&& self.auto_movers@.len() == self.positions@.len()
        &&& self@.wf()
    }

    /// A world on the given map, with no entity.
    pub fn new(map: Vec<TileType>) -> (w: World)
        requires
            map@.len() == MAP_CELLS,
        ensures
            w.wf(),
            w@.map == map@,
            w@.entities.len() == 0,
            w@.pending.len() == 0,
    {
        let w = World {
            map,
            positions: Vec::new(),
            renderables: Vec::new(),
            players: Vec::new(),
            auto_movers: Vec::new(),
            pending: Vec::new(),
        };
        assert(w@.entities =~= Seq::empty());
        w
    }

    /// Number of live entities.
    pub fn entity_count(&self) -> (n: usize)
        requires
            self.wf(),
        ensures
            n == self@.entities.len(),
    {
        self.positions.len()
    }

    /// Number of creations waiting for `maintain`.
    pub fn pending_count(&self) -> (n: usize)
        ensures
            n == self@.pending.len(),
    {
        self.pending.len()
    }

    /// The tile at a cell of the map.
    pub fn tile(&self, x: i32, y: i32) -> (t: TileType)
        requires
            self.wf(),
            in_bounds(x as int, y as int),
        ensures
            t == crate::map::tile_at(self@.map, x as int, y as int),
    {
        self.map[xy_idx(x, y)]
    }

    /// The attributes of one live entity.
    pub fn get(&self, e: Entity) -> (c: EntityConfig)
        requires
            self.wf(),
            e.id < self@.entities.len(),
        ensures
            c == self@.entities[e.id as int],
    {
        EntityConfig {
            position: self.positions[e.id],
            renderable: self.renderables[e.id],
            player: self.players[e.id],
            auto_mover: self.auto_movers[e.id],
        }
    }

    fn attach(&mut self, config: EntityConfig)
        requires
            old(self).wf(),
            config.is_placed(),
        ensures
            final(self).wf(),
            final(self)@ == (WorldView { entities: old(self)@.entities.push(config), ..old(self)@ }),
    {
        self.positions.push(config.position);
        self.renderables.push(config.renderable);
        self.players.push(config.player);
        self.auto_movers.push(config.auto_mover);
        assert(self@.entities =~= old(self)@.entities.push(config));
    }

    /// Creates an entity at once with all the attributes of `config`, under a
    /// fresh identifier: the next one in order.
    pub fn create_entity(&mut self, config: EntityConfig) -> (e: Entity)
        requires
            old(self).wf(),
            config.is_placed(),
        ensures
            final(self).wf(),
            e.id == old(self)@.entities.len(),
            final(self)@ == (WorldView { entities: old(self)@.entities.push(config), ..old(self)@ }),
    {
        let id = self.positions.len();
        self.attach(config);
        Entity { id }
    }

    /// Requests the creation of an entity; it becomes live, with all its
    /// attributes at once, at the next `maintain`.
    pub fn create_entity_later(&mut self, config: EntityConfig)
        requires
            old(self).wf(),
            config.is_placed(),
        ensures
            final(self).wf(),
            final(self)@ == (WorldView { pending: old(self)@.pending.push(config), ..old(self)@ }),
    {
        self.pending.push(config);
        assert(self@.entities =~= old(self)@.entities);
    }

    /// Applies the pending creations, in the order they were requested.
    pub fn maintain(&mut self)
        requires
            old(self).wf(),
        ensures
            final(self).wf(),
            final(self)@ == old(self)@.maintained(),
    {
        let mut k: usize = 0;
        while k < self.pending.len()
            invariant
                self.wf(),
                k <= self.pending@.len(),
                self.pending@ == old(self)@.pending,
                self@.map == old(self)@.map,
                self@.entities == old(self)@.entities + old(self)@.pending.take(k as int),
            decreases self.pending@.len() - k,
        {
            let config = self.pending[k];
            assert(self@.pending[k as int].is_placed());
            self.attach(config);
            assert(old(self)@.pending.take(k + 1) =~= old(self)@.pending.take(k as int).push(config));
            assert(self@.entities =~= old(self)@.entities + old(self)@.pending.take(k + 1));
            k = k + 1;
        }
        self.pending = Vec::new();
        assert(old(self)@.pending.take(k as int) =~= old(self)@.pending);
        assert(self@.pending =~= Seq::empty());
    }

    /// The entities holding both a position and a renderable, in order of
    /// identifier.
    pub fn query_position_renderable(&self) -> (r: Vec<(Entity, Position, Renderable)>)
        requires
            self.wf(),
        ensures
            r@ == drawables(self@.entities),
    {
        let mut r: Vec<(Entity, Position, Renderable)> = Vec::new();
        let mut i: usize = 0;
        while i < self.positions.len()
            invariant
                self.wf(),
                i <= self@.entities.len(),
                r@ == drawables(self@.entities.take(i as int)),
            decreases self@.entities.len() - i,
        {
            let ghost es = self@.entities;
            assert(es.take(i + 1).drop_last() =~= es.take(i as int));
            match (self.positions[i], self.renderables[i]) {
                (Some(p), Some(rd)) => {
                    r.push((Entity { id: i }, p, rd));
                },
                _ => {},
            }
            i = i + 1;
        }
        assert(self@.entities.take(i as int) =~= self@.entities);
        r
    }

    /// The player rule: every entity with a player tag and a position moves
    /// to its destination, clamped to the map, unless that cell is a wall.
    pub fn try_move_player(&mut self, dx: i32, dy: i32)
        requires
            old(self).wf(),
        ensures
            final(self).wf(),
            final(self)@ == old(self)@.players_moved(dx as int, dy as int),
            forall|i: int|
                #![trigger final(self)@.entities[i]]
                0 <= i < old(self)@.entities.len() && old(self)@.entities[i].player
                    && old(self)@.entities[i].position is Some ==> {
                    let p = old(self)@.entities[i].position->0;
                    let d = destination(p, dx as int, dy as int);
                    final(self)@.entities[i].position == if tile_at(old(self)@.map, d.x as int, d.y as int)
                        == TileType::Wall {
                        Some(p)
                    } else {
                        Some(d)
                    }
                },
    {
        let n = self.positions.len();
        let mut i: usize = 0;
        while i < n
            invariant
                self.wf(),
                i <= n,
                n == self@.entities.len(),
                self@.map == old(self)@.map,
                self@.pending == old(self)@.pending,
                n == old(self)@.entities.len(),
                forall|j: int|
                    0 <= j < i ==> #[trigger] self@.entities[j] == player_step(
                        old(self)@.map,
                        old(self)@.entities[j],
                        dx as int,
                        dy as int,
                    ),
                forall|j: int| i <= j < n ==> #[trigger] self@.entities[j] == old(self)@.entities[j],
            decreases n - i,
        {
            let ghost before = self@;
            let ghost e = old(self)@.entities[i as int];
            assert(before.entities[i as int] == e);
            if self.players[i] {
                if let Some(p) = self.positions[i] {
                    let nx = clamp_coord(p.x as i64 + dx as i64, WIDTH - 1);
                    let ny = clamp_coord(p.y as i64 + dy as i64, HEIGHT - 1);
                    let ghost d = destination(p, dx as int, dy as int);
                    assert(d == Position { x: nx, y: ny });
                    if is_walkable(self.tile(nx, ny)) {
                        self.positions.set(i, Some(Position { x: nx, y: ny }));
                        assert(self@.entities[i as int] == EntityConfig { position: Some(d), ..e });
                    } else {
                        assert(self@.entities[i as int] == e);
                    }
                } else {
                    assert(self@.entities[i as int] == e);
                }
            } else {
                assert(self@.entities[i as int] == e);
            }
            assert forall|j: int| 0 <= j < n && j != i implies #[trigger] self@.entities[j]
                == before.entities[j] by {}
            assert(self@.entities[i as int] == player_step(
                old(self)@.map,
                old(self)@.entities[i as int],
                dx as int,
                dy as int,
            ));
            assert(self@.wf()) by {
                assert forall|j: int| 0 <= j < self@.entities.len() implies (
                #[trigger] self@.entities[j]).is_placed() by {
                    assert(before.entities[j].is_placed());
                }
            }
            i = i + 1;
        }
        assert(self@.entities =~= old(self)@.players_moved(dx as int, dy as int).entities);
    }

    /// The auto-mover rule: every entity with an auto-mover tag and a
    /// position steps one cell left, wrapping to the right edge.
    pub fn run_left_walker(&mut self)
        requires
            old(self).wf(),
        ensures
            final(self).wf(),
            final(self)@ == old(self)@.walkers_moved(),
            forall|i: int|
                #![trigger final(self)@.entities[i]]
                0 <= i < old(self)@.entities.len() && old(self)@.entities[i].auto_mover
                    && old(self)@.entities[i].position is Some ==> {
                    let p = old(self)@.entities[i].position->0;
                    let q = final(self)@.entities[i].position->0;
                    &&& final(self)@.entities[i].position is Some
                    &&& q.x == (p.x - 1) % (WIDTH as int)
                    &&& q.y == p.y
                },
    {
        let n = self.positions.len();
        let mut i: usize = 0;
        while i < n
            invariant
                self.wf(),
                i <= n,
                n == self@.entities.len(),
                self@.map == old(self)@.map,
                self@.pending == old(self)@.pending,
                n == old(self)@.entities.len(),
                forall|j: int|
                    0 <= j < i ==> #[trigger] self@.entities[j] == walker_step(old(self)@.entities[j]),
                forall|j: int| i <= j < n ==> #[trigger] self@.entities[j] == old(self)@.entities[j],
            decreases n - i,
        {
            let ghost before = self@;
            assert(before.entities[i as int].is_placed());
            if self.auto_movers[i] {
                if let Some(p) = self.positions[i] {
                    let x = if p.x == 0 {
                        WIDTH - 1
                    } else {
                        p.x - 1
                    };
                    assert(x == (p.x - 1) % (WIDTH as int));
                    self.positions.set(i, Some(Position { x, y: p.y }));
                }
            }
            assert forall|j: int| 0 <= j < n && j != i implies #[trigger] self@.entities[j]
                == before.entities[j] by {}
            assert(self@.entities[i as int] == walker_step(old(self)@.entities[i as int]));
            assert(self@.wf()) by {
                assert forall|j: int| 0 <= j < self@.entities.len() implies (
                #[trigger] self@.entities[j]).is_placed() by {
                    assert(before.entities[j].is_placed());
                }
            }
            i = i + 1;
        }
        assert(self@.entities =~= old(self)@.walkers_moved().entities);
    }
}

} // verus!
