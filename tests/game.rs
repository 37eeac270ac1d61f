use bracket_lib::prelude::RandomNumberGenerator;
use roguelike::map::{HEIGHT, MAP_CELLS, WIDTH};
use roguelike::{
    delta_of, map_from_trials, new_map, xy_idx, Cell, Entity, EntityConfig, Key, Position,
    Renderable, Rgb, TileType, World,
};

fn black() -> Rgb {
    Rgb { r: 0, g: 0, b: 0 }
}

fn glyph(g: u16) -> Renderable {
    Renderable { glyph: g, fg: Rgb { r: 255, g: 0, b: 0 }, bg: black() }
}

fn open_map() -> Vec<TileType> {
    vec![TileType::Floor; MAP_CELLS]
}

fn player_at(w: &World, e: Entity) -> Position {
    w.get(e).position.unwrap()
}

#[test]
fn xy_idx_is_row_major() {
    assert_eq!(xy_idx(0, 0), 0);
    assert_eq!(xy_idx(3, 2), 163);
    assert_eq!(xy_idx(79, 49), 3999);
    assert_eq!(xy_idx(40, 25), 2040);
}

#[test]
fn trials_map_walls_border_and_chosen_cells() {
    let map = map_from_trials(&vec![(41, 25), (10, 10), (40, 25)]);
    assert_eq!(map.len(), MAP_CELLS);
    assert_eq!(map[xy_idx(41, 25)], TileType::Wall);
    assert_eq!(map[xy_idx(10, 10)], TileType::Wall);
    assert_eq!(map[xy_idx(40, 25)], TileType::Floor);
    assert_eq!(map[xy_idx(39, 25)], TileType::Floor);
    assert_eq!(map[xy_idx(11, 10)], TileType::Floor);
    let walls = map.iter().filter(|t| **t == TileType::Wall).count();
    assert_eq!(walls, 2 * 80 + 2 * 48 + 2);
}

#[test]
fn generated_maps_have_wall_border_and_floor_start() {
    for seed in 0..20u64 {
        let mut rng = RandomNumberGenerator::seeded(seed);
        let map = new_map(&mut rng);
        assert_eq!(map.len(), MAP_CELLS);
        for x in 0..WIDTH {
            assert_eq!(map[xy_idx(x, 0)], TileType::Wall);
            assert_eq!(map[xy_idx(x, HEIGHT - 1)], TileType::Wall);
        }
        for y in 0..HEIGHT {
            assert_eq!(map[xy_idx(0, y)], TileType::Wall);
            assert_eq!(map[xy_idx(WIDTH - 1, y)], TileType::Wall);
        }
        assert_eq!(map[xy_idx(40, 25)], TileType::Floor);
        let walls = map.iter().filter(|t| **t == TileType::Wall).count();
        assert!(walls > 2 * 80 + 2 * 48 && walls <= 2 * 80 + 2 * 48 + 400);
    }
}

#[test]
fn same_seed_gives_same_map() {
    let a = new_map(&mut RandomNumberGenerator::seeded(7));
    let b = new_map(&mut RandomNumberGenerator::seeded(7));
    assert_eq!(a, b);
}

#[test]
fn keys_map_to_deltas() {
    assert_eq!(delta_of(Some(Key::Left)), (-1, 0));
    assert_eq!(delta_of(Some(Key::Right)), (1, 0));
    assert_eq!(delta_of(Some(Key::Up)), (0, -1));
    assert_eq!(delta_of(Some(Key::Down)), (0, 1));
    assert_eq!(delta_of(Some(Key::Other)), (0, 0));
    assert_eq!(delta_of(None), (0, 0));
}

#[test]
fn player_blocked_by_wall_then_moves_onto_floor() {
    let map = map_from_trials(&vec![(41, 25)]);
    assert_eq!(map[xy_idx(41, 25)], TileType::Wall);
    assert_eq!(map[xy_idx(39, 25)], TileType::Floor);
    let mut w = World::new_game(map);
    let player = Entity { id: 0 };
    assert_eq!(player_at(&w, player), Position { x: 40, y: 25 });
    w.tick(Some(Key::Right));
    assert_eq!(player_at(&w, player), Position { x: 40, y: 25 });
    w.tick(Some(Key::Left));
    assert_eq!(player_at(&w, player), Position { x: 39, y: 25 });
}

#[test]
fn player_move_is_clamped_to_the_map() {
    let mut w = World::new(open_map());
    let p = w.create_entity(EntityConfig::new().with_position(Position { x: 0, y: 0 }).with_player());
    w.try_move_player(-1, -1);
    assert_eq!(player_at(&w, p), Position { x: 0, y: 0 });
    w.try_move_player(5, 3);
    assert_eq!(player_at(&w, p), Position { x: 5, y: 3 });
    w.try_move_player(1000, 1000);
    assert_eq!(player_at(&w, p), Position { x: 79, y: 49 });
}

#[test]
fn every_player_tagged_entity_moves() {
    let mut w = World::new(open_map());
    let a = w.create_entity(EntityConfig::new().with_position(Position { x: 3, y: 3 }).with_player());
    let b = w.create_entity(EntityConfig::new().with_position(Position { x: 7, y: 9 }).with_player());
    let c = w.create_entity(EntityConfig::new().with_position(Position { x: 5, y: 5 }));
    let d = w.create_entity(EntityConfig::new().with_player());
    w.try_move_player(0, 1);
    assert_eq!(player_at(&w, a), Position { x: 3, y: 4 });
    assert_eq!(player_at(&w, b), Position { x: 7, y: 10 });
    assert_eq!(player_at(&w, c), Position { x: 5, y: 5 });
    assert_eq!(w.get(d).position, None);
}

#[test]
fn auto_mover_wraps_from_left_edge() {
    let mut w = World::new(open_map());
    let m = w.create_entity(
        EntityConfig::new().with_position(Position { x: 0, y: 25 }).with_auto_mover(),
    );
    w.tick(None);
    assert_eq!(player_at(&w, m), Position { x: 79, y: 25 });
    w.tick(None);
    assert_eq!(player_at(&w, m), Position { x: 78, y: 25 });
}

#[test]
fn auto_mover_passes_through_walls() {
    let map = map_from_trials(&vec![(9, 5)]);
    let mut w = World::new(map);
    let m = w.create_entity(
        EntityConfig::new().with_position(Position { x: 10, y: 5 }).with_auto_mover(),
    );
    w.run_left_walker();
    assert_eq!(player_at(&w, m), Position { x: 9, y: 5 });
    w.run_left_walker();
    assert_eq!(player_at(&w, m), Position { x: 8, y: 5 });
}

#[test]
fn auto_movers_move_whatever_the_key() {
    let mut w = World::new_game(map_from_trials(&vec![]));
    let m = w.create_entity(
        EntityConfig::new().with_position(Position { x: 30, y: 7 }).with_auto_mover(),
    );
    w.tick(Some(Key::Down));
    assert_eq!(player_at(&w, m), Position { x: 29, y: 7 });
    assert_eq!(player_at(&w, Entity { id: 0 }), Position { x: 40, y: 26 });
}

#[test]
fn creation_later_waits_for_maintain() {
    let mut w = World::new(open_map());
    w.create_entity_later(EntityConfig::new().with_position(Position { x: 1, y: 1 }));
    assert_eq!(w.entity_count(), 0);
    assert_eq!(w.pending_count(), 1);
    w.maintain();
    assert_eq!(w.entity_count(), 1);
    assert_eq!(w.pending_count(), 0);
    assert_eq!(w.get(Entity { id: 0 }).position, Some(Position { x: 1, y: 1 }));
}

#[test]
fn tick_applies_pending_creations_after_movement() {
    let mut w = World::new(open_map());
    w.create_entity_later(
        EntityConfig::new().with_position(Position { x: 10, y: 1 }).with_auto_mover(),
    );
    let cells = w.tick(None);
    assert_eq!(w.entity_count(), 1);
    assert_eq!(w.get(Entity { id: 0 }).position, Some(Position { x: 10, y: 1 }));
    assert_eq!(cells.len(), MAP_CELLS);
}

#[test]
fn created_entities_get_consecutive_ids() {
    let mut w = World::new(open_map());
    assert_eq!(w.create_entity(EntityConfig::new()), Entity { id: 0 });
    assert_eq!(w.create_entity(EntityConfig::new().with_player()), Entity { id: 1 });
    assert_eq!(w.entity_count(), 2);
    assert!(w.get(Entity { id: 1 }).player);
    assert!(!w.get(Entity { id: 0 }).player);
}

#[test]
fn query_yields_entities_with_both_attributes_in_order() {
    let mut w = World::new(open_map());
    w.create_entity(EntityConfig::new().with_position(Position { x: 1, y: 1 }).with_renderable(glyph(1)));
    w.create_entity(EntityConfig::new().with_position(Position { x: 2, y: 2 }));
    w.create_entity(EntityConfig::new().with_renderable(glyph(3)));
    w.create_entity(EntityConfig::new().with_position(Position { x: 4, y: 4 }).with_renderable(glyph(4)));
    let q = w.query_position_renderable();
    assert_eq!(q.len(), 2);
    assert_eq!(q[0], (Entity { id: 0 }, Position { x: 1, y: 1 }, glyph(1)));
    assert_eq!(q[1], (Entity { id: 3 }, Position { x: 4, y: 4 }, glyph(4)));
}

#[test]
fn query_twice_yields_same_entities_in_same_order() {
    let mut w = World::new(open_map());
    for i in 0..5 {
        w.create_entity(
            EntityConfig::new()
                .with_position(Position { x: i * 3, y: i })
                .with_renderable(glyph(i as u16))
                .with_auto_mover(),
        );
    }
    let first = w.query_position_renderable();
    let second = w.query_position_renderable();
    assert_eq!(first, second);
    w.run_left_walker();
    let third = w.query_position_renderable();
    let ids = |q: &Vec<(Entity, Position, Renderable)>| q.iter().map(|d| d.0).collect::<Vec<_>>();
    assert_eq!(ids(&first), ids(&third));
    assert_eq!(third[1].1, Position { x: 2, y: 1 });
}

#[test]
fn render_draws_map_then_entities() {
    let map = map_from_trials(&vec![]);
    let w = World::new_game(map);
    let cells = w.render();
    assert_eq!(cells.len(), MAP_CELLS + 1);
    let green = Rgb { r: 0, g: 255, b: 0 };
    let gray = Rgb { r: 128, g: 128, b: 128 };
    assert_eq!(cells[0], Cell { x: 0, y: 0, glyph: 35, fg: green, bg: black() });
    assert_eq!(cells[xy_idx(1, 1)], Cell { x: 1, y: 1, glyph: 46, fg: gray, bg: black() });
    assert_eq!(cells[xy_idx(40, 25)], Cell { x: 40, y: 25, glyph: 46, fg: gray, bg: black() });
    assert_eq!(cells[MAP_CELLS - 1], Cell { x: 79, y: 49, glyph: 35, fg: green, bg: black() });
    let yellow = Rgb { r: 255, g: 255, b: 0 };
    assert_eq!(cells[MAP_CELLS], Cell { x: 40, y: 25, glyph: 64, fg: yellow, bg: black() });
}

#[test]
fn render_twice_gives_identical_writes() {
    let mut w = World::new_game(new_map(&mut RandomNumberGenerator::seeded(3)));
    w.create_entity(
        EntityConfig::new()
            .with_position(Position { x: 12, y: 30 })
            .with_renderable(glyph(2))
            .with_auto_mover(),
    );
    let first = w.render();
    let second = w.render();
    assert_eq!(first, second);
    assert_eq!(first.len(), MAP_CELLS + 2);
}

#[test]
fn tick_returns_render_of_new_state() {
    let mut w = World::new_game(map_from_trials(&vec![]));
    let cells = w.tick(Some(Key::Up));
    assert_eq!(player_at(&w, Entity { id: 0 }), Position { x: 40, y: 24 });
    assert_eq!(cells, w.render());
    assert_eq!(cells[MAP_CELLS].x, 40);
    assert_eq!(cells[MAP_CELLS].y, 24);
}

#[test]
fn tile_reads_the_map() {
    let w = World::new(map_from_trials(&vec![(5, 6)]));
    assert_eq!(w.tile(5, 6), TileType::Wall);
    assert_eq!(w.tile(6, 5), TileType::Floor);
    assert_eq!(w.tile(0, 30), TileType::Wall);
}
