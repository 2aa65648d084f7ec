use rogue_core::direction::{Direction, InputDirections};
use rogue_core::grid::GridMap;
use rogue_core::movement::{step, MoveEvent, Moveable, TilePosition};
use rogue_core::world::{
    advance_animations, move_entities, player_can_move, player_input, tick, EntityKind,
    EntityState, World,
};

fn pos(x: u32, y: u32) -> TilePosition {
    TilePosition { x, y }
}

fn entity(id: u64, kind: EntityKind, x: u32, y: u32) -> EntityState {
    EntityState { id, kind, moveable: Moveable { tile_pos: pos(x, y) }, animation: None }
}

fn world_with(entities: Vec<EntityState>) -> World {
    World { map: GridMap::rogue_layout(), entities, events: Vec::new() }
}

fn press(north: bool, south: bool, east: bool, west: bool) -> InputDirections {
    InputDirections { north, south, east, west }
}

const EAST: InputDirections = InputDirections { north: false, south: false, east: true, west: false };
const NORTH: InputDirections = InputDirections { north: true, south: false, east: false, west: false };
const WEST: InputDirections = InputDirections { north: false, south: false, east: false, west: true };

#[test]
fn blocked_wall_move_is_rejected_silently() {
    // Entity at (2, 2) tries to move west into the wall tile (1, 2):
    // no event, no animation, the tile stays (2, 2).
    let mut w = world_with(vec![entity(1, EntityKind::Player, 2, 2)]);
    assert!(!player_can_move(pos(2, 2), Direction::West, &w.map));
    player_input(&mut w, WEST);
    assert!(w.events.is_empty());
    move_entities(&mut w);
    assert_eq!(w.entities[0].moveable.tile_pos, pos(2, 2));
    assert!(w.entities[0].animation.is_none());
}

#[test]
fn walking_east_stops_at_the_wall_column() {
    // From (2, 2), heading east through the open interior: eleven moves
    // reach (13, 2); the twelfth attempt aims at the walled column 14
    // and is rejected.
    let mut w = world_with(vec![entity(1, EntityKind::Player, 2, 2)]);
    for i in 1..=11u32 {
        tick(&mut w, EAST, 200);
        assert_eq!(w.entities[0].moveable.tile_pos, pos(2 + i, 2));
        assert!(w.entities[0].animation.is_none(), "animation finished within the tick");
    }
    assert_eq!(w.entities[0].moveable.tile_pos, pos(13, 2));
    tick(&mut w, EAST, 200);
    assert_eq!(w.entities[0].moveable.tile_pos, pos(13, 2));
}

#[test]
fn accepted_move_updates_tile_and_starts_animation() {
    // A north move from (5, 5) lands on walkable (5, 6) immediately and
    // eases the visible position from (80, 80) to (80, 96) over 200 ms.
    let mut w = world_with(vec![entity(7, EntityKind::Player, 5, 5)]);
    player_input(&mut w, NORTH);
    assert_eq!(w.events.len(), 1);
    assert_eq!(w.events[0], MoveEvent { target: 7, direction: Direction::North });
    move_entities(&mut w);
    assert_eq!(w.entities[0].moveable.tile_pos, pos(5, 6));
    let anim = w.entities[0].animation.expect("a move starts an animation");
    assert_eq!((anim.from_x, anim.from_y), (80, 80));
    assert_eq!((anim.to_x, anim.to_y), (80, 96));
    assert_eq!(anim.elapsed_ms, 0);
    assert_eq!(anim.duration_ms, 200);
}

#[test]
fn two_events_in_one_tick_apply_in_emission_order() {
    // North then east, pushed for the same entity within one tick: the
    // second event observes the tile the first already advanced, leaving
    // the entity offset by (+1, +1).
    let mut w = world_with(vec![entity(3, EntityKind::Player, 5, 5)]);
    w.events.push(MoveEvent { target: 3, direction: Direction::North });
    w.events.push(MoveEvent { target: 3, direction: Direction::East });
    move_entities(&mut w);
    assert_eq!(w.entities[0].moveable.tile_pos, pos(6, 6));
    assert!(w.events.is_empty());
}

#[test]
fn round_trip_returns_to_the_start_exactly() {
    // North then south from (5, 5), each animation run to completion:
    // the logical tile is back at (5, 5) with no drift, and the visible
    // position snapped back onto the tile.
    let mut w = world_with(vec![entity(1, EntityKind::Player, 5, 5)]);
    tick(&mut w, NORTH, 200);
    assert_eq!(w.entities[0].moveable.tile_pos, pos(5, 6));
    tick(&mut w, press(false, true, false, false), 200);
    assert_eq!(w.entities[0].moveable.tile_pos, pos(5, 5));
    assert!(w.entities[0].animation.is_none());
    assert_eq!(w.entities[0].visible_position(), (80, 80));
}

#[test]
fn step_round_trip_on_raw_positions() {
    let p = pos(9, 4);
    assert_eq!(step(step(p, Direction::North), Direction::South), p);
    assert_eq!(step(step(p, Direction::East), Direction::West), p);
}

#[test]
fn step_clamps_at_the_grid_origin() {
    assert_eq!(step(pos(0, 0), Direction::West), pos(0, 0));
    assert_eq!(step(pos(0, 0), Direction::South), pos(0, 0));
    assert_eq!(step(pos(0, 0), Direction::SouthWest), pos(0, 0));
    assert_eq!(step(pos(0, 0), Direction::NorthEast), pos(1, 1));
}

#[test]
fn no_intent_is_a_no_op() {
    let mut w = world_with(vec![entity(1, EntityKind::Player, 5, 5)]);
    tick(&mut w, press(false, false, false, false), 200);
    assert_eq!(w.entities[0].moveable.tile_pos, pos(5, 5));
    // Opposing inputs cancel to the same silent outcome.
    tick(&mut w, press(true, true, false, false), 200);
    assert_eq!(w.entities[0].moveable.tile_pos, pos(5, 5));
}

#[test]
fn a_world_without_a_player_ignores_input() {
    let mut w = world_with(vec![entity(4, EntityKind::Monster, 5, 5)]);
    player_input(&mut w, NORTH);
    assert!(w.events.is_empty());
}

#[test]
fn an_animating_player_produces_no_new_intent() {
    let mut w = world_with(vec![entity(1, EntityKind::Player, 5, 5)]);
    // The first move's animation only reaches 100 of its 200 ms.
    tick(&mut w, EAST, 100);
    assert_eq!(w.entities[0].moveable.tile_pos, pos(6, 5));
    assert!(w.entities[0].animation.is_some());
    // Mid-animation, new input is excluded at the dispatcher.
    tick(&mut w, EAST, 50);
    assert_eq!(w.entities[0].moveable.tile_pos, pos(6, 5));
    let anim = w.entities[0].animation.expect("still easing");
    assert_eq!(anim.elapsed_ms, 150);
    // Once the animation completes, input moves the entity again.
    tick(&mut w, EAST, 200);
    assert_eq!(w.entities[0].moveable.tile_pos, pos(6, 5));
    assert!(w.entities[0].animation.is_none());
    tick(&mut w, EAST, 200);
    assert_eq!(w.entities[0].moveable.tile_pos, pos(7, 5));
}

#[test]
fn dangling_target_is_a_no_op() {
    let mut w = world_with(vec![entity(1, EntityKind::Player, 5, 5)]);
    w.events.push(MoveEvent { target: 99, direction: Direction::North });
    move_entities(&mut w);
    assert_eq!(w.entities[0].moveable.tile_pos, pos(5, 5));
    assert!(w.entities[0].animation.is_none());
    assert!(w.events.is_empty());
}

#[test]
fn monsters_mirror_the_players_direction() {
    let mut w = world_with(vec![
        entity(1, EntityKind::Player, 5, 5),
        entity(2, EntityKind::Monster, 8, 8),
        entity(3, EntityKind::Monster, 10, 4),
    ]);
    tick(&mut w, NORTH, 200);
    assert_eq!(w.entities[0].moveable.tile_pos, pos(5, 6));
    assert_eq!(w.entities[1].moveable.tile_pos, pos(8, 9));
    assert_eq!(w.entities[2].moveable.tile_pos, pos(10, 5));
}

#[test]
fn a_blocked_monster_stays_while_others_move() {
    let mut w = world_with(vec![
        entity(1, EntityKind::Player, 5, 5),
        // This monster stands at the interior's western edge: a west
        // move would enter the wall column 1 and is rejected for it.
        entity(2, EntityKind::Monster, 2, 8),
        entity(3, EntityKind::Monster, 9, 9),
    ]);
    tick(&mut w, WEST, 200);
    assert_eq!(w.entities[0].moveable.tile_pos, pos(4, 5));
    assert_eq!(w.entities[1].moveable.tile_pos, pos(2, 8));
    assert_eq!(w.entities[2].moveable.tile_pos, pos(8, 9));
}

#[test]
fn events_drain_even_without_targets_present() {
    let mut w = world_with(vec![]);
    w.events.push(MoveEvent { target: 5, direction: Direction::South });
    move_entities(&mut w);
    assert!(w.events.is_empty());
    assert!(w.entities.is_empty());
}

#[test]
fn animation_clock_advances_and_completes() {
    let mut w = world_with(vec![entity(1, EntityKind::Player, 5, 5)]);
    player_input(&mut w, NORTH);
    move_entities(&mut w);
    advance_animations(&mut w, 80);
    assert_eq!(w.entities[0].animation.unwrap().elapsed_ms, 80);
    advance_animations(&mut w, 80);
    assert_eq!(w.entities[0].animation.unwrap().elapsed_ms, 160);
    // Reaching the duration removes the animation: the visible position
    // snaps onto the tile.
    advance_animations(&mut w, 80);
    assert!(w.entities[0].animation.is_none());
    assert_eq!(w.entities[0].visible_position(), (80, 96));
}
