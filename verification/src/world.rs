//! The world the movement core acts on: a grid map, the entities living
//! on it, and the shared move-event channel connecting the dispatchers
//! to the mover.
//!
//! Everything is tick-driven and synchronous: dispatchers push events,
//! the mover drains them once per tick in push order, then every running
//! animation advances by the frame's elapsed time.

use vstd::prelude::*;

verus! {

use crate::direction::{Direction, InputDirections, spec_resolve, resolve_direction};
use crate::grid::GridMap;
use crate::movement::{
    TilePosition, Moveable, MoveEvent, MoveAnimation, spec_step, step, spec_tile_to_screen_x,
    spec_tile_to_screen_y, tile_to_screen, lemma_sample_bounds, MAX_SCREEN,
};
use crate::MOVE_ANIMATION_MS;

/// Whether an entity is the single controlled player or one of the
/// monsters that mirror the player's resolved direction.
#[derive(Clone, Copy, PartialEq, Eq, Structural, Debug)]
pub enum EntityKind {
    Player,
    Monster,
}

/// One entity of the world: a stable identifier joining input, intent
/// and movement, its kind, its logical tile, and the easing animation
/// that is present exactly while its visible position is in flight.
#[derive(Clone, Copy, PartialEq, Eq, Debug)]
pub struct EntityState {
    pub id: u64,
    pub kind: EntityKind,
    pub moveable: Moveable,
    pub animation: Option<MoveAnimation>,
}

impl EntityState {
    /// Well-formedness: a present animation is itself well-formed and
    /// eases toward exactly the entity's current tile, so that removing
    /// a finished animation snaps the visible position onto the tile.
    pub open spec fn wf(self) -> bool {
        match self.animation {
            Some(a) => a.wf() && a.to_x == spec_tile_to_screen_x(self.moveable.tile_pos)
                && a.to_y == spec_tile_to_screen_y(self.moveable.tile_pos),
            None => true,
        }
    }

    /// The visible horizontal screen position: the animation's sample
    /// while easing, the exact tile position while idle.
    pub open spec fn spec_visible_x(self) -> int {
        match self.animation {
            Some(a) => a.spec_sample_x(),
            None => spec_tile_to_screen_x(self.moveable.tile_pos),
        }
    }

    /// The visible vertical screen position.
    pub open spec fn spec_visible_y(self) -> int {
        match self.animation {
            Some(a) => a.spec_sample_y(),
            None => spec_tile_to_screen_y(self.moveable.tile_pos),
        }
    }

    /// Samples the entity's visible screen position for this frame.
    pub fn visible_position(&self) -> (p: (u64, u64))
        requires
            self.wf(),
        ensures
            p.0 == self.spec_visible_x(),
            p.1 == self.spec_visible_y(),
            p.0 < MAX_SCREEN,
            p.1 < MAX_SCREEN,
    {
        match &self.animation {
            Some(a) => a.sample(),
            None => tile_to_screen(self.moveable.tile_pos),
        }
    }
}

/// A well-formed entity's visible position stays within the screen bound.
pub proof fn lemma_visible_bounds(e: EntityState)
    requires
        e.wf(),
    ensures
        0 <= e.spec_visible_x() < MAX_SCREEN,
        0 <= e.spec_visible_y() < MAX_SCREEN,
{
    match e.animation {
        Some(a) => lemma_sample_bounds(a),
        None => {},
    }
}

/// No two entities share an identifier.
pub open spec fn unique_ids(entities: Seq<EntityState>) -> bool {
    forall|i: int, j: int|
        0 <= i < j < entities.len() ==> entities[i].id != entities[j].id
}

/// At most one controlled (player) entity exists.
pub open spec fn at_most_one_player(entities: Seq<EntityState>) -> bool {
    forall|i: int, j: int|
        0 <= i < entities.len() && 0 <= j < entities.len()
            && entities[i].kind is Player && entities[j].kind is Player ==> i == j
}

/// The whole movement world: the immutable grid map, the entities, and
/// the move-event channel drained once per tick in push order.
pub struct World {
    pub map: GridMap,
    pub entities: Vec<EntityState>,
    pub events: Vec<MoveEvent>,
}

impl World {
    /// Well-formedness: the map is rectangular, identifiers are unique,
    /// at most one player exists, and every entity is well-formed.
    pub open spec fn wf(self) -> bool {
        &&& self.map.wf()
        &&& unique_ids(self.entities@)
        &&& at_most_one_player(self.entities@)
        &&& forall|i: int| 0 <= i < self.entities@.len() ==> (#[trigger] self.entities@[i]).wf()
    }
}

/// Whether the tile one step along `dir` from `pos` can be entered: the
/// legality test every dispatcher applies before emitting a move event.
pub open spec fn spec_can_move(map: GridMap, pos: TilePosition, dir: Direction) -> bool {
    map.spec_walkable(spec_step(pos, dir).x as int, spec_step(pos, dir).y as int)
}

/// Checks whether the entity at `tile_pos` may move one tile along
/// `direction`: the candidate tile is computed on the integer grid and
/// looked up in the collision mask, off-grid candidates are rejected by
/// the bounds check inside the walkability query.
pub fn player_can_move(tile_pos: TilePosition, direction: Direction, rogue_map: &GridMap) -> (r:
    bool)
    requires
        rogue_map.wf(),
    ensures
        r == spec_can_move(*rogue_map, tile_pos, direction),
{
    let target = step(tile_pos, direction);
    rogue_map.is_walkable(target.x, target.y)
}

/// A legal move's target tile lies on the grid: a dispatcher that tests
/// `spec_can_move` before emitting never moves an entity off the map.
pub proof fn lemma_can_move_in_bounds(map: GridMap, pos: TilePosition, dir: Direction)
    ensures
        spec_can_move(map, pos, dir) ==> map.spec_in_bounds(
            spec_step(pos, dir).x as int,
            spec_step(pos, dir).y as int,
        ),
{
}

/// Effect of one accepted move event on its entity: the logical tile
/// advances immediately by the direction's unit step, and a fresh
/// animation starts at the current visible position — replacing any
/// animation still in flight — and eases toward the new tile's screen
/// position over the fixed duration.
pub open spec fn spec_moved(e: EntityState, dir: Direction) -> EntityState {
    let np = spec_step(e.moveable.tile_pos, dir);
    EntityState {
        id: e.id,
        kind: e.kind,
        moveable: Moveable { tile_pos: np },
        animation: Some(
            MoveAnimation {
                from_x: e.spec_visible_x() as u64,
                from_y: e.spec_visible_y() as u64,
                to_x: spec_tile_to_screen_x(np) as u64,
                to_y: spec_tile_to_screen_y(np) as u64,
                elapsed_ms: 0,
                duration_ms: MOVE_ANIMATION_MS,
            },
        ),
    }
}

/// Moving a well-formed entity yields a well-formed entity with the same
/// identity and kind, standing on the stepped tile.
pub proof fn lemma_moved_wf(e: EntityState, dir: Direction)
    requires
        e.wf(),
    ensures
        spec_moved(e, dir).wf(),
        spec_moved(e, dir).id == e.id,
        spec_moved(e, dir).kind == e.kind,
        spec_moved(e, dir).moveable.tile_pos == spec_step(e.moveable.tile_pos, dir),
{
    lemma_visible_bounds(e);
}

/// Index of the controlled entity: the single player, if one exists.
pub open spec fn spec_player_index(entities: Seq<EntityState>) -> Option<int> {
    if exists|i: int| 0 <= i < entities.len() && (#[trigger] entities[i]).kind is Player {
        Some(choose|i: int| 0 <= i < entities.len() && (#[trigger] entities[i]).kind is Player)
    } else {
        None
    }
}

/// The events the player dispatcher emits for one tick's inputs: exactly
/// one move event when a net direction resolves, the controlled entity
/// exists, it is idle, and the candidate tile is walkable; none
/// otherwise.
pub open spec fn spec_player_event(
    map: GridMap,
    entities: Seq<EntityState>,
    inputs: InputDirections,
) -> Seq<MoveEvent> {
    match spec_resolve(inputs) {
        None => Seq::empty(),
        Some(dir) => match spec_player_index(entities) {
            None => Seq::empty(),
            Some(i) => {
                let e = entities[i];
                if e.animation is None && spec_can_move(map, e.moveable.tile_pos, dir) {
                    seq![MoveEvent { target: e.id, direction: dir }]
                } else {
                    Seq::empty()
                }
            },
        },
    }
}

/// Once per tick: resolves the just-activated input directions into a
/// net direction and, when the single controlled entity exists, is idle
/// (an entity mid-animation is excluded from producing new intents), and
/// the candidate tile is walkable, emits exactly one move event onto the
/// channel. A degenerate or illegal intent is dropped silently: no
/// event, no error.
pub fn player_input(world: &mut World, inputs: InputDirections)
    requires
        old(world).wf(),
    ensures
        final(world).wf(),
        final(world).map == old(world).map,
        final(world).entities == old(world).entities,
        final(world).events@ == old(world).events@ + spec_player_event(
            old(world).map,
            old(world).entities@,
            inputs,
        ),
{
    let ghost evs = spec_player_event(world.map, world.entities@, inputs);
    let dir_opt = resolve_direction(inputs);
    match dir_opt {
        None => {
            proof {
                assert(world.events@ =~= old(world).events@ + evs);
            }
        },
        Some(direction) => {
            let n: usize = world.entities.len();
            let mut k: usize = 0;
            let mut player_idx: Option<usize> = None;
            while k < n
                invariant
                    world.map == old(world).map,
                    world.entities == old(world).entities,
                    world.events == old(world).events,
                    n == world.entities@.len(),
                    k <= n,
                    match player_idx {
                        None => forall|j: int|
                            0 <= j < k ==> !((#[trigger] world.entities@[j]).kind is Player),
                        Some(i) => i < k && world.entities@[i as int].kind is Player,
                    },
                decreases n - k,
            {
                if player_idx.is_none() {
                    if world.entities[k].kind == EntityKind::Player {
                        player_idx = Some(k);
                    }
                }
                k = k + 1;
            }
            match player_idx {
                None => {
                    proof {
                        assert(spec_player_index(world.entities@) is None);
                        assert(world.events@ =~= old(world).events@ + evs);
                    }
                },
                Some(i) => {
                    proof {
                        assert(0 <= i < world.entities@.len()
                            && world.entities@[i as int].kind is Player);
                        let c = choose|j: int|
                            0 <= j < world.entities@.len()
                                && (#[trigger] world.entities@[j]).kind is Player;
                        assert(c == i as int);
                        assert(spec_player_index(world.entities@) == Some(i as int));
                    }
                    let e = world.entities[i];
                    if e.animation.is_none() && player_can_move(
                        e.moveable.tile_pos,
                        direction,
                        &world.map,
                    ) {
                        world.events.push(MoveEvent { target: e.id, direction });
                        proof {
                            assert(world.events@ =~= old(world).events@ + evs);
                        }
                    } else {
                        proof {
                            assert(world.events@ =~= old(world).events@ + evs);
                        }
                    }
                },
            }
        },
    }
}

/// A move event is justified by the world it was emitted in: it targets
/// an entity that exists there, and that entity's step along the event's
/// direction lands on a walkable tile.
pub open spec fn event_justified(map: GridMap, entities: Seq<EntityState>, ev: MoveEvent) -> bool {
    exists|i: int|
        0 <= i < entities.len() && (#[trigger] entities[i]).id == ev.target && spec_can_move(
            map,
            entities[i].moveable.tile_pos,
            ev.direction,
        )
}

/// Whatever the inputs, every event the player dispatcher emits is
/// justified: its target tile is walkable, hence on the grid — the
/// dispatcher never attempts to move the player off the map, and its
/// walkability lookup sits behind the grid's own bounds check.
pub proof fn lemma_player_event_justified(
    map: GridMap,
    entities: Seq<EntityState>,
    inputs: InputDirections,
)
    ensures
        forall|k: int|
            0 <= k < spec_player_event(map, entities, inputs).len() ==> event_justified(
                map,
                entities,
                #[trigger] spec_player_event(map, entities, inputs)[k],
            ),
{
}

/// Effect of one move event on the whole entity list: the entity whose
/// identifier matches the target moves; everyone else, and the list
/// order, stay untouched. A dangling target (the entity despawned) makes
/// the event a no-op.
pub open spec fn spec_apply_event(entities: Seq<EntityState>, ev: MoveEvent) -> Seq<EntityState> {
    entities.map(
        |i: int, e: EntityState|
            if e.id == ev.target {
                spec_moved(e, ev.direction)
            } else {
                e
            },
    )
}

/// Effect of draining a queue of move events in emission order: each
/// event is applied to the list left by the events before it, so a later
/// event for the same entity observes the tile already advanced by an
/// earlier one in the same tick.
pub open spec fn spec_apply_events(
    entities: Seq<EntityState>,
    events: Seq<MoveEvent>,
) -> Seq<EntityState>
    decreases events.len(),
{
    if events.len() == 0 {
        entities
    } else {
        spec_apply_events(spec_apply_event(entities, events[0]), events.drop_first())
    }
}

/// Applying one event keeps the list's length and every entity's
/// identity, kind and well-formedness.
pub proof fn lemma_apply_event_preserves(entities: Seq<EntityState>, ev: MoveEvent)
    requires
        forall|i: int| 0 <= i < entities.len() ==> (#[trigger] entities[i]).wf(),
    ensures
        spec_apply_event(entities, ev).len() == entities.len(),
        forall|i: int|
            0 <= i < entities.len() ==> (#[trigger] spec_apply_event(entities, ev)[i]).id
                == entities[i].id && spec_apply_event(entities, ev)[i].kind == entities[i].kind
                && spec_apply_event(entities, ev)[i].wf(),
{
    assert forall|i: int| 0 <= i < entities.len() implies (#[trigger] spec_apply_event(
        entities,
        ev,
    )[i]).id == entities[i].id && spec_apply_event(entities, ev)[i].kind == entities[i].kind
        && spec_apply_event(entities, ev)[i].wf() by {
        if entities[i].id == ev.target {
            lemma_moved_wf(entities[i], ev.direction);
        }
    }
}

/// Draining a queue and then one more event is the same as draining the
/// queue with that event appended.
pub proof fn lemma_apply_events_snoc(
    entities: Seq<EntityState>,
    events: Seq<MoveEvent>,
    ev: MoveEvent,
)
    ensures
        spec_apply_events(entities, events.push(ev)) == spec_apply_event(
            spec_apply_events(entities, events),
            ev,
        ),
    decreases events.len(),
{
    reveal_with_fuel(spec_apply_events, 3);
    if events.len() == 0 {
        assert(events.push(ev).drop_first() =~= Seq::<MoveEvent>::empty());
        assert(events.push(ev)[0] == ev);
    } else {
        assert(events.push(ev)[0] == events[0]);
        assert(events.push(ev).drop_first() =~= events.drop_first().push(ev));
        lemma_apply_events_snoc(spec_apply_event(entities, events[0]), events.drop_first(), ev);
    }
}

/// Finds the entity a move event targets, scanning in entity order.
fn find_entity(entities: &Vec<EntityState>, id: u64) -> (r: Option<usize>)
    ensures
        match r {
            Some(i) => i < entities@.len() && entities@[i as int].id == id && forall|j: int|
                0 <= j < i ==> (#[trigger] entities@[j]).id != id,
            None => forall|j: int|
                0 <= j < entities@.len() ==> (#[trigger] entities@[j]).id != id,
        },
{
    let n: usize = entities.len();
    let mut j: usize = 0;
    while j < n
        invariant
            n == entities@.len(),
            j <= n,
            forall|t: int| 0 <= t < j ==> (#[trigger] entities@[t]).id != id,
        decreases n - j,
    {
        if entities[j].id == id {
            return Some(j);
        }
        j = j + 1;
    }
    None
}

/// The mover: consumes the whole event channel in emission order. For
/// each event whose target still exists, the logical tile advances
/// immediately and a fresh easing animation starts from the entity's
/// current visible position toward the new tile's screen position,
/// replacing any animation still in flight; a dangling target is a
/// silent no-op. A later event for the same entity observes the tile
/// already mutated by an earlier event of the same tick.
pub fn move_entities(world: &mut World)
    requires
        old(world).wf(),
    ensures
        final(world).wf(),
        final(world).map == old(world).map,
        final(world).events@.len() == 0,
        final(world).entities@ == spec_apply_events(old(world).entities@, old(world).events@),
{
    let n_events: usize = world.events.len();
    let mut k: usize = 0;
    proof {
        assert(old(world).events@.subrange(0, 0) =~= Seq::<MoveEvent>::empty());
    }
    while k < n_events
        invariant
            old(world).wf(),
            world.map == old(world).map,
            world.events == old(world).events,
            n_events == world.events@.len(),
            k <= n_events,
            world.entities@ == spec_apply_events(
                old(world).entities@,
                old(world).events@.subrange(0, k as int),
            ),
            world.entities@.len() == old(world).entities@.len(),
            forall|i: int|
                0 <= i < world.entities@.len() ==> (#[trigger] world.entities@[i]).id
                    == old(world).entities@[i].id && world.entities@[i].kind
                    == old(world).entities@[i].kind && world.entities@[i].wf(),
        decreases n_events - k,
    {
        let ghost prev = world.entities@;
        let ev: MoveEvent = world.events[k];
        proof {
            assert(unique_ids(prev));
        }
        match find_entity(&world.entities, ev.target) {
            None => {
                proof {
                    assert(spec_apply_event(prev, ev) =~= prev);
                }
            },
            Some(i) => {
                let e = world.entities[i];
                let cur = e.visible_position();
                let np = step(e.moveable.tile_pos, ev.direction);
                let to_px = tile_to_screen(np);
                let anim = MoveAnimation::begin(cur, to_px);
                let ne = EntityState {
                    id: e.id,
                    kind: e.kind,
                    moveable: Moveable { tile_pos: np },
                    animation: Some(anim),
                };
                world.entities[i] = ne;
                proof {
                    lemma_visible_bounds(e);
                    assert(ne == spec_moved(e, ev.direction));
                    assert forall|t: int| 0 <= t < prev.len() implies world.entities@[t]
                        == spec_apply_event(prev, ev)[t] by {
                        if t != i as int {
                            assert(prev[t].id != ev.target);
                        }
                    }
                    assert(world.entities@ =~= spec_apply_event(prev, ev));
                }
            },
        }
        proof {
            lemma_apply_events_snoc(
                old(world).entities@,
                old(world).events@.subrange(0, k as int),
                ev,
            );
            assert(old(world).events@.subrange(0, k as int).push(ev) =~= old(
                world,
            ).events@.subrange(0, k as int + 1));
            lemma_apply_event_preserves(prev, ev);
        }
        k = k + 1;
    }
    proof {
        assert(old(world).events@.subrange(0, n_events as int) =~= old(world).events@);
    }
    world.events.clear();
}

/// The animation advanced by `dt` milliseconds: still easing while time
/// remains, gone once the elapsed time reaches the duration — removal
/// snaps the visible position exactly onto the entity's tile, since a
/// well-formed animation eases toward it.
pub open spec fn spec_advanced_animation(a: MoveAnimation, dt: int) -> Option<MoveAnimation> {
    if a.elapsed_ms + dt >= a.duration_ms {
        None
    } else {
        Some(
            MoveAnimation {
                from_x: a.from_x,
                from_y: a.from_y,
                to_x: a.to_x,
                to_y: a.to_y,
                elapsed_ms: (a.elapsed_ms + dt) as u32,
                duration_ms: a.duration_ms,
            },
        )
    }
}

/// One entity after the animation clock advances by `dt` milliseconds:
/// identity, kind and logical tile never change here.
pub open spec fn spec_advance_entity(e: EntityState, dt: int) -> EntityState {
    match e.animation {
        None => e,
        Some(a) => EntityState {
            id: e.id,
            kind: e.kind,
            moveable: e.moveable,
            animation: spec_advanced_animation(a, dt),
        },
    }
}

/// Advances every running animation by the frame's elapsed time; an
/// animation whose time is up is removed, which snaps the visible
/// position onto the entity's tile.
pub fn advance_animations(world: &mut World, dt_ms: u32)
    requires
        old(world).wf(),
    ensures
        final(world).wf(),
        final(world).map == old(world).map,
        final(world).events == old(world).events,
        final(world).entities@ == old(world).entities@.map(
            |i: int, e: EntityState| spec_advance_entity(e, dt_ms as int),
        ),
{
    let n: usize = world.entities.len();
    let mut k: usize = 0;
    while k < n
        invariant
            old(world).wf(),
            world.map == old(world).map,
            world.events == old(world).events,
            n == world.entities@.len(),
            world.entities@.len() == old(world).entities@.len(),
            k <= n,
            forall|i: int|
                0 <= i < k ==> #[trigger] world.entities@[i] == spec_advance_entity(
                    old(world).entities@[i],
                    dt_ms as int,
                ),
            forall|i: int|
                k <= i < n ==> #[trigger] world.entities@[i] == old(world).entities@[i],
        decreases n - k,
    {
        let e = world.entities[k];
        match e.animation {
            None => {},
            Some(a) => {
                if (a.elapsed_ms as u64) + (dt_ms as u64) >= (a.duration_ms as u64) {
                    world.entities[k] = EntityState {
                        id: e.id,
                        kind: e.kind,
                        moveable: e.moveable,
                        animation: None,
                    };
                } else {
                    let na = MoveAnimation {
                        from_x: a.from_x,
                        from_y: a.from_y,
                        to_x: a.to_x,
                        to_y: a.to_y,
                        elapsed_ms: a.elapsed_ms + dt_ms,
                        duration_ms: a.duration_ms,
                    };
                    world.entities[k] = EntityState {
                        id: e.id,
                        kind: e.kind,
                        moveable: e.moveable,
                        animation: Some(na),
                    };
                }
            },
        }
        k = k + 1;
    }
    proof {
        assert(world.entities@ =~= old(world).entities@.map(
            |i: int, e: EntityState| spec_advance_entity(e, dt_ms as int),
        ));
        assert forall|i: int| 0 <= i < world.entities@.len() implies (#[trigger] world.entities@[
            i
        ]).wf() by {
            assert(old(world).entities@[i].wf());
        }
    }
}

/// Everything the two dispatchers emit in one tick, in emission order:
/// the player's event, if any, then one per willing monster.
pub open spec fn spec_dispatched_events(
    map: GridMap,
    entities: Seq<EntityState>,
    inputs: InputDirections,
) -> Seq<MoveEvent> {
    spec_player_event(map, entities, inputs) + crate::monster::spec_monster_events(
        map,
        entities,
        inputs,
    )
}

/// In a world with unique identifiers and a single player, everything
/// the dispatchers emit in one tick is justified — each event's target
/// tile is walkable, hence on the grid — and no two of the tick's events
/// share a target: each entity is asked to move at most once per tick.
pub proof fn lemma_dispatched_events_safe(
    map: GridMap,
    entities: Seq<EntityState>,
    inputs: InputDirections,
)
    requires
        unique_ids(entities),
        at_most_one_player(entities),
    ensures
        forall|k: int|
            0 <= k < spec_dispatched_events(map, entities, inputs).len() ==> event_justified(
                map,
                entities,
                #[trigger] spec_dispatched_events(map, entities, inputs)[k],
            ),
        forall|k1: int, k2: int|
            0 <= k1 < k2 < spec_dispatched_events(map, entities, inputs).len()
                ==> spec_dispatched_events(map, entities, inputs)[k1].target
                != spec_dispatched_events(map, entities, inputs)[k2].target,
{
    lemma_player_event_justified(map, entities, inputs);
    crate::monster::lemma_monster_events_justified(map, entities, inputs);
    crate::monster::lemma_monster_events_targets(map, entities, inputs);
    let pl = spec_player_event(map, entities, inputs);
    let mo = crate::monster::spec_monster_events(map, entities, inputs);
    let evs = spec_dispatched_events(map, entities, inputs);
    assert forall|k: int| 0 <= k < evs.len() implies event_justified(
        map,
        entities,
        #[trigger] evs[k],
    ) by {
        if k < pl.len() {
            assert(evs[k] == pl[k]);
        } else {
            assert(evs[k] == mo[k - pl.len()]);
        }
    }
    assert forall|k1: int, k2: int| 0 <= k1 < k2 < evs.len() implies evs[k1].target
        != evs[k2].target by {
        if k2 < pl.len() {
            // the player dispatcher emits at most one event
            assert(false);
        } else if k1 < pl.len() {
            // a player event and a monster event: their targets are a
            // player's and a monster's identifier, distinct entities
            let pi = spec_player_index(entities)->Some_0;
            assert(entities[pi].kind is Player && pl[k1].target == entities[pi].id);
            let dir = spec_resolve(inputs)->Some_0;
            assert(crate::monster::monster_event_witness(
                map,
                entities,
                dir,
                entities.len() as int,
                mo[k2 - pl.len()],
            ));
            let mi = choose|i: int|
                0 <= i < entities.len() && (#[trigger] entities[i]).id == mo[k2 - pl.len()].target
                    && crate::monster::spec_monster_wants(map, entities[i], dir);
            assert(entities[mi].kind is Monster);
            if entities[pi].id == entities[mi].id {
                assert(pi == mi);
            }
        } else {
            assert(evs[k1] == mo[k1 - pl.len()] && evs[k2] == mo[k2 - pl.len()]);
        }
    }
}

/// Every entity stands on the grid.
pub open spec fn all_in_bounds(map: GridMap, entities: Seq<EntityState>) -> bool {
    forall|i: int|
        0 <= i < entities.len() ==> map.spec_in_bounds(
            (#[trigger] entities[i]).moveable.tile_pos.x as int,
            entities[i].moveable.tile_pos.y as int,
        )
}

/// Draining a queue of justified events with pairwise distinct targets
/// keeps every entity on the grid: each targeted entity moves exactly
/// once, from the tile its event was validated at, onto a walkable tile.
pub proof fn lemma_apply_justified_events_in_bounds(
    map: GridMap,
    entities: Seq<EntityState>,
    events: Seq<MoveEvent>,
)
    requires
        forall|i: int| 0 <= i < entities.len() ==> (#[trigger] entities[i]).wf(),
        unique_ids(entities),
        forall|k: int|
            0 <= k < events.len() ==> event_justified(map, entities, #[trigger] events[k]),
        forall|k1: int, k2: int|
            0 <= k1 < k2 < events.len() ==> events[k1].target != events[k2].target,
        all_in_bounds(map, entities),
    ensures
        all_in_bounds(map, spec_apply_events(entities, events)),
    decreases events.len(),
{
    if events.len() > 0 {
        let ev0 = events[0];
        let rest = events.drop_first();
        let entities2 = spec_apply_event(entities, ev0);
        lemma_apply_event_preserves(entities, ev0);
        let w = choose|i: int|
            0 <= i < entities.len() && (#[trigger] entities[i]).id == ev0.target && spec_can_move(
                map,
                entities[i].moveable.tile_pos,
                ev0.direction,
            );
        assert forall|i: int| 0 <= i < entities2.len() implies map.spec_in_bounds(
            (#[trigger] entities2[i]).moveable.tile_pos.x as int,
            entities2[i].moveable.tile_pos.y as int,
        ) by {
            if entities[i].id == ev0.target {
                assert(i == w);
                assert(entities2[i] == spec_moved(entities[i], ev0.direction));
                lemma_can_move_in_bounds(map, entities[i].moveable.tile_pos, ev0.direction);
            } else {
                assert(entities2[i] == entities[i]);
            }
        }
        assert forall|k: int| 0 <= k < rest.len() implies event_justified(
            map,
            entities2,
            #[trigger] rest[k],
        ) by {
            assert(rest[k] == events[k + 1]);
            assert(event_justified(map, entities, events[k + 1]));
            let j = choose|i: int|
                0 <= i < entities.len() && (#[trigger] entities[i]).id == events[k + 1].target
                    && spec_can_move(map, entities[i].moveable.tile_pos, events[k + 1].direction);
            assert(events[k + 1].target != ev0.target);
            assert(entities2[j] == entities[j]);
            assert(0 <= j < entities2.len() && entities2[j].id == rest[k].target && spec_can_move(
                map,
                entities2[j].moveable.tile_pos,
                rest[k].direction,
            ));
        }
        assert forall|k1: int, k2: int| 0 <= k1 < k2 < rest.len() implies rest[k1].target
            != rest[k2].target by {
            assert(rest[k1] == events[k1 + 1] && rest[k2] == events[k2 + 1]);
        }
        lemma_apply_justified_events_in_bounds(map, entities2, rest);
    }
}

/// The tile-position invariant: a tick never moves an entity off the
/// grid. In a well-formed world whose entities all stand on the grid,
/// everything a tick's dispatchers emit is collision-checked, so after
/// draining those events and advancing the animation clock every entity
/// still stands on the grid.
pub proof fn lemma_tick_stays_on_grid(
    map: GridMap,
    entities: Seq<EntityState>,
    inputs: InputDirections,
    dt: int,
)
    requires
        forall|i: int| 0 <= i < entities.len() ==> (#[trigger] entities[i]).wf(),
        unique_ids(entities),
        at_most_one_player(entities),
        all_in_bounds(map, entities),
    ensures
        all_in_bounds(
            map,
            spec_apply_events(entities, spec_dispatched_events(map, entities, inputs)).map(
                |i: int, e: EntityState| spec_advance_entity(e, dt),
            ),
        ),
{
    lemma_dispatched_events_safe(map, entities, inputs);
    lemma_apply_justified_events_in_bounds(
        map,
        entities,
        spec_dispatched_events(map, entities, inputs),
    );
    let moved = spec_apply_events(entities, spec_dispatched_events(map, entities, inputs));
    let advanced = moved.map(|i: int, e: EntityState| spec_advance_entity(e, dt));
    assert forall|i: int| 0 <= i < advanced.len() implies map.spec_in_bounds(
        (#[trigger] advanced[i]).moveable.tile_pos.x as int,
        advanced[i].moveable.tile_pos.y as int,
    ) by {
        assert(advanced[i] == spec_advance_entity(moved[i], dt));
        assert(advanced[i].moveable == moved[i].moveable);
    }
}

/// Events apply in emission order, read-after-write within the tick: two
/// events for the same entity compose, the second stepping from the tile
/// the first already advanced — north then east ends one tile up and one
/// tile east of the start.
pub proof fn lemma_same_entity_events_compose(
    entities: Seq<EntityState>,
    id: u64,
    d1: Direction,
    d2: Direction,
    i: int,
)
    requires
        0 <= i < entities.len(),
        entities[i].id == id,
    ensures
        spec_apply_events(
            entities,
            seq![
                MoveEvent { target: id, direction: d1 },
                MoveEvent { target: id, direction: d2 },
            ],
        )[i].moveable.tile_pos == spec_step(spec_step(entities[i].moveable.tile_pos, d1), d2),
{
    reveal_with_fuel(spec_apply_events, 3);
    let ev1 = MoveEvent { target: id, direction: d1 };
    let ev2 = MoveEvent { target: id, direction: d2 };
    let s = seq![ev1, ev2];
    let mid = spec_apply_event(entities, ev1);
    assert(s[0] == ev1);
    assert(s.drop_first() =~= seq![ev2]);
    assert(mid[i] == spec_moved(entities[i], d1));
    let done = spec_apply_event(mid, ev2);
    assert(seq![ev2].drop_first() =~= Seq::<MoveEvent>::empty());
    assert(spec_apply_events(entities, s) == done);
    assert(done[i] == spec_moved(mid[i], d2));
}

/// One scheduler tick, synchronous and in a fixed order: the player
/// dispatcher, the monster intent source mirroring the same resolved
/// direction, the mover draining the whole channel in emission order,
/// and finally the animation clock advancing by the frame's elapsed
/// milliseconds.
pub fn tick(world: &mut World, inputs: InputDirections, dt_ms: u32)
    requires
        old(world).wf(),
    ensures
        final(world).wf(),
        final(world).map == old(world).map,
        final(world).events@.len() == 0,
        final(world).entities@ == spec_apply_events(
            old(world).entities@,
            old(world).events@ + spec_dispatched_events(
                old(world).map,
                old(world).entities@,
                inputs,
            ),
        ).map(|i: int, e: EntityState| spec_advance_entity(e, dt_ms as int)),
{
    player_input(world, inputs);
    crate::monster::monster_intents(world, inputs);
    proof {
        assert(world.events@ =~= old(world).events@ + spec_dispatched_events(
            old(world).map,
            old(world).entities@,
            inputs,
        ));
    }
    move_entities(world);
    advance_animations(world, dt_ms);
}

/// Moving north and then south (or any step and its opposite) returns
/// the logical tile position to its starting value exactly, with no
/// drift, whatever the map contents.
pub proof fn lemma_north_south_round_trip(pos: TilePosition)
    requires
        pos.y < u32::MAX,
    ensures
        spec_step(spec_step(pos, Direction::North), Direction::South) == pos,
{
}

/// The same round trip seen through the mover: after a north move and a
/// south move the entity's logical tile is back where it started.
pub proof fn lemma_moved_round_trip(e: EntityState)
    requires
        e.moveable.tile_pos.y < u32::MAX,
    ensures
        spec_moved(spec_moved(e, Direction::North), Direction::South).moveable.tile_pos
            == e.moveable.tile_pos,
{
    lemma_north_south_round_trip(e.moveable.tile_pos);
}

} // verus!
