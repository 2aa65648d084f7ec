//! The monster intent source: a trivial producer that, once per tick,
//! asks the same directional move for every monster as the player chose,
//! through the same event channel.
//!
//! Monsters here claim no strategy: each idle monster mirrors the
//! player's resolved direction verbatim, gated by the same collision
//! check as the player, so a monster is never sent into a wall or off
//! the grid.

use vstd::prelude::*;

verus! {

use crate::direction::{Direction, InputDirections, spec_resolve, resolve_direction};
use crate::grid::GridMap;
use crate::movement::MoveEvent;
use crate::world::{
    World, EntityState, EntityKind, spec_can_move, player_can_move, event_justified, unique_ids,
};

/// Whether one entity gets a monster move event this tick: it is a
/// monster, it is idle, and the mirrored step is legal.
pub open spec fn spec_monster_wants(map: GridMap, e: EntityState, dir: Direction) -> bool {
    e.kind is Monster && e.animation is None && spec_can_move(map, e.moveable.tile_pos, dir)
}

/// The monster events emitted for the first `n` entities, in entity
/// order.
pub open spec fn spec_monster_events_prefix(
    map: GridMap,
    entities: Seq<EntityState>,
    dir: Direction,
    n: int,
) -> Seq<MoveEvent>
    decreases n,
{
    if n <= 0 {
        Seq::empty()
    } else {
        spec_monster_events_prefix(map, entities, dir, n - 1) + (
        if spec_monster_wants(map, entities[n - 1], dir) {
            seq![MoveEvent { target: entities[n - 1].id, direction: dir }]
        } else {
            Seq::empty()
        })
    }
}

/// The events the monster intent source emits for one tick's inputs:
/// one per idle monster with a legal mirrored step, in entity order, and
/// none at all when no net direction resolves.
pub open spec fn spec_monster_events(
    map: GridMap,
    entities: Seq<EntityState>,
    inputs: InputDirections,
) -> Seq<MoveEvent> {
    match spec_resolve(inputs) {
        None => Seq::empty(),
        Some(dir) => spec_monster_events_prefix(map, entities, dir, entities.len() as int),
    }
}

/// Once per tick: emits a move event mirroring the player's resolved
/// direction for every idle monster whose mirrored step is legal.
pub fn monster_intents(world: &mut World, inputs: InputDirections)
    requires
        old(world).wf(),
    ensures
        final(world).wf(),
        final(world).map == old(world).map,
        final(world).entities == old(world).entities,
        final(world).events@ == old(world).events@ + spec_monster_events(
            old(world).map,
            old(world).entities@,
            inputs,
        ),
{
    let ghost evs = spec_monster_events(world.map, world.entities@, inputs);
    let dir_opt = resolve_direction(inputs);
    match dir_opt {
        None => {
            proof {
                assert(world.events@ =~= old(world).events@ + evs);
            }
        },
        Some(direction) => {
            let n: usize = world.entities.len();
            let mut k: usize = 0;
            proof {
                assert(world.events@ =~= old(world).events@ + spec_monster_events_prefix(
                    world.map,
                    world.entities@,
                    direction,
                    0,
                ));
            }
            while k < n
                invariant
                    old(world).wf(),
                    world.map == old(world).map,
                    world.entities == old(world).entities,
                    n == world.entities@.len(),
                    k <= n,
                    world.events@ == old(world).events@ + spec_monster_events_prefix(
                        world.map,
                        world.entities@,
                        direction,
                        k as int,
                    ),
                decreases n - k,
            {
                let e = world.entities[k];
                if e.kind == EntityKind::Monster && e.animation.is_none() && player_can_move(
                    e.moveable.tile_pos,
                    direction,
                    &world.map,
                ) {
                    world.events.push(MoveEvent { target: e.id, direction });
                }
                proof {
                    assert(world.events@ =~= old(world).events@ + spec_monster_events_prefix(
                        world.map,
                        world.entities@,
                        direction,
                        k as int + 1,
                    ));
                }
                k = k + 1;
            }
        },
    }
}

/// A monster event witnessed among the first `n` entities: some monster
/// there carries the event's target identifier, is idle, may legally
/// make the move, and the event mirrors the resolved direction.
pub open spec fn monster_event_witness(
    map: GridMap,
    entities: Seq<EntityState>,
    dir: Direction,
    n: int,
    ev: MoveEvent,
) -> bool {
    ev.direction == dir && exists|i: int|
        0 <= i < n && (#[trigger] entities[i]).id == ev.target && spec_monster_wants(
            map,
            entities[i],
            dir,
        )
}

/// Every event the monster intent source emits up to `n` is witnessed by
/// a monster among the first `n` entities, and, with unique identifiers,
/// no two of those events share a target.
proof fn lemma_monster_prefix_targets(
    map: GridMap,
    entities: Seq<EntityState>,
    dir: Direction,
    n: int,
)
    requires
        0 <= n <= entities.len(),
        unique_ids(entities),
    ensures
        forall|k: int|
            0 <= k < spec_monster_events_prefix(map, entities, dir, n).len()
                ==> monster_event_witness(
                map,
                entities,
                dir,
                n,
                #[trigger] spec_monster_events_prefix(map, entities, dir, n)[k],
            ),
        forall|k1: int, k2: int|
            0 <= k1 < k2 < spec_monster_events_prefix(map, entities, dir, n).len()
                ==> spec_monster_events_prefix(map, entities, dir, n)[k1].target
                != spec_monster_events_prefix(map, entities, dir, n)[k2].target,
    decreases n,
{
    if n > 0 {
        lemma_monster_prefix_targets(map, entities, dir, n - 1);
        let evs = spec_monster_events_prefix(map, entities, dir, n);
        let head = spec_monster_events_prefix(map, entities, dir, n - 1);
        assert forall|k: int| 0 <= k < evs.len() implies monster_event_witness(
            map,
            entities,
            dir,
            n,
            #[trigger] evs[k],
        ) by {
            if k < head.len() {
                assert(monster_event_witness(map, entities, dir, n - 1, head[k]));
                let i = choose|i: int|
                    0 <= i < n - 1 && (#[trigger] entities[i]).id == head[k].target
                        && spec_monster_wants(map, entities[i], dir);
                assert(0 <= i < n && entities[i].id == evs[k].target && spec_monster_wants(
                    map,
                    entities[i],
                    dir,
                ));
            } else {
                assert(spec_monster_wants(map, entities[n - 1], dir));
                assert(0 <= n - 1 < n && entities[n - 1].id == evs[k].target
                    && spec_monster_wants(map, entities[n - 1], dir));
            }
        }
        assert forall|k1: int, k2: int| 0 <= k1 < k2 < evs.len() implies evs[k1].target
            != evs[k2].target by {
            if k2 < head.len() {
                assert(evs[k1] == head[k1] && evs[k2] == head[k2]);
            } else {
                assert(evs[k1] == head[k1]);
                assert(monster_event_witness(map, entities, dir, n - 1, head[k1]));
                let i = choose|i: int|
                    0 <= i < n - 1 && (#[trigger] entities[i]).id == head[k1].target
                        && spec_monster_wants(map, entities[i], dir);
                assert(entities[i].id != entities[n - 1].id);
                assert(evs[k2].target == entities[n - 1].id);
            }
        }
    }
}

/// With unique identifiers, every event the monster intent source emits
/// is witnessed by a monster entity, and no two of its events share a
/// target.
pub proof fn lemma_monster_events_targets(
    map: GridMap,
    entities: Seq<EntityState>,
    inputs: InputDirections,
)
    requires
        unique_ids(entities),
    ensures
        forall|k: int|
            0 <= k < spec_monster_events(map, entities, inputs).len() ==> {
                let ev = #[trigger] spec_monster_events(map, entities, inputs)[k];
                spec_resolve(inputs) matches Some(dir) && monster_event_witness(
                    map,
                    entities,
                    dir,
                    entities.len() as int,
                    ev,
                )
            },
        forall|k1: int, k2: int|
            0 <= k1 < k2 < spec_monster_events(map, entities, inputs).len()
                ==> spec_monster_events(map, entities, inputs)[k1].target != spec_monster_events(
                map,
                entities,
                inputs,
            )[k2].target,
{
    match spec_resolve(inputs) {
        None => {},
        Some(dir) => {
            lemma_monster_prefix_targets(map, entities, dir, entities.len() as int);
        },
    }
}

/// Whatever the inputs, every event the monster intent source emits is
/// justified by the world it was emitted in.
pub proof fn lemma_monster_events_justified(
    map: GridMap,
    entities: Seq<EntityState>,
    inputs: InputDirections,
)
    requires
        unique_ids(entities),
    ensures
        forall|k: int|
            0 <= k < spec_monster_events(map, entities, inputs).len() ==> event_justified(
                map,
                entities,
                #[trigger] spec_monster_events(map, entities, inputs)[k],
            ),
{
    lemma_monster_events_targets(map, entities, inputs);
    let evs = spec_monster_events(map, entities, inputs);
    assert forall|k: int| 0 <= k < evs.len() implies event_justified(
        map,
        entities,
        #[trigger] evs[k],
    ) by {
        let dir = spec_resolve(inputs)->Some_0;
        assert(monster_event_witness(map, entities, dir, entities.len() as int, evs[k]));
        let i = choose|i: int|
            0 <= i < entities.len() && (#[trigger] entities[i]).id == evs[k].target
                && spec_monster_wants(map, entities[i], dir);
        assert(0 <= i < entities.len() && entities[i].id == evs[k].target && spec_can_move(
            map,
            entities[i].moveable.tile_pos,
            evs[k].direction,
        ));
    }
}

} // verus!
