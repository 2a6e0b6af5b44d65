use vstd::prelude::*;
use std::collections::HashMap;
use bevy_math::Vec2;
use tokio::time::Instant;
use crate::constants::MAX_HP;
use crate::defs::{
    health_change_spec, inc_shots_spec, is_spawn_state, started_with, update_mouse_spec, update_pos_spec,
    InterpolaterView, Player, PlayerInterpolater, TimeStampedPlayer,
};
use crate::network::ServerMessage;
use crate::vector::zero_vector;

verus! {

broadcast use vstd::std_specs::hash::group_hash_axioms;

/// The models of the trackers in a table.
pub open spec fn views(m: Map<u32, PlayerInterpolater>) -> Map<u32, InterpolaterView> {
    m.map_values(|e: PlayerInterpolater| e@)
}

/// The tracker of player `id`, or a new one started from `first` if there is
/// none.
pub open spec fn tracked_or(enemies: Map<u32, InterpolaterView>, id: u32, first: TimeStampedPlayer) -> InterpolaterView {
    if enemies.contains_key(id) {
        enemies[id]
    } else {
        started_with(first)
    }
}

/// A player known only from one message: `health`, `pos` and `mouse` as
/// given, no velocity (`zero` is the zero vector).
pub open spec fn first_sample(health: u32, pos: Vec2, mouse: Vec2, zero: Vec2, t: Instant) -> TimeStampedPlayer {
    TimeStampedPlayer { player: Player { health, pos, vel: zero, mouse }, time: t }
}

/// The client's own id and its trackers of the other players after one
/// server message. A tracker missing for the player a message is about is
/// started (stamped `t`) before the message is applied to it; `fresh` is
/// the sample an update would start on a tracker without one.
pub open spec fn handle_msg_spec(
    my_id: Option<u32>,
    enemies: Map<u32, InterpolaterView>,
    msg: ServerMessage,
    zero: Vec2,
    t: Instant,
    fresh: TimeStampedPlayer,
) -> (Option<u32>, Map<u32, InterpolaterView>) {
    match msg {
        ServerMessage::PlayerShot { id } => (
            my_id,
            enemies.insert(
                id,
                inc_shots_spec(tracked_or(enemies, id, first_sample(MAX_HP, zero, zero, zero, t))),
            ),
        ),
        ServerMessage::NotifyId { id } => (Some(id), enemies),
        ServerMessage::PlayerHealthChange { id, health } => if health == 0 {
            (my_id, enemies.remove(id))
        } else {
            (
                my_id,
                enemies.insert(
                    id,
                    health_change_spec(
                        tracked_or(enemies, id, first_sample(health, zero, zero, zero, t)),
                        health,
                    ),
                ),
            )
        },
        ServerMessage::PlayerMoved { id, position } => (
            my_id,
            enemies.insert(
                id,
                update_pos_spec(
                    tracked_or(enemies, id, first_sample(MAX_HP, position, zero, zero, t)),
                    position,
                    fresh,
                ),
            ),
        ),
        ServerMessage::PlayerMouseMoved { id, position } => (
            my_id,
            enemies.insert(
                id,
                update_mouse_spec(
                    tracked_or(enemies, id, first_sample(MAX_HP, zero, position, zero, t)),
                    position,
                    fresh,
                ),
            ),
        ),
        ServerMessage::PlayerLeft { id } => (my_id, enemies.remove(id)),
        ServerMessage::PlayerJoined { id: _ } => (my_id, enemies),
    }
}

/// The player that is tracked once the message is applied, for the messages
/// that start or update a tracker.
pub open spec fn tracked_after(msg: ServerMessage) -> Option<u32> {
    match msg {
        ServerMessage::PlayerShot { id } => Some(id),
        ServerMessage::PlayerHealthChange { id, health } => if health != 0 {
            Some(id)
        } else {
            None
        },
        ServerMessage::PlayerMoved { id, position: _ } => Some(id),
        ServerMessage::PlayerMouseMoved { id, position: _ } => Some(id),
        _ => None,
    }
}

/// Whether the message can be applied without overflowing a counter: a shot
/// of a player whose tracker already holds the most pending shots cannot.
pub open spec fn can_handle(enemies: Map<u32, InterpolaterView>, msg: ServerMessage) -> bool {
    msg matches ServerMessage::PlayerShot { id } ==> (enemies.contains_key(id) ==> enemies[id].to_shoot
        < u32::MAX)
}

proof fn lemma_views_insert(m: Map<u32, PlayerInterpolater>, id: u32, e: PlayerInterpolater)
    ensures
        views(m.insert(id, e)) == views(m).insert(id, e@),
{
    assert(views(m.insert(id, e)) =~= views(m).insert(id, e@));
}

proof fn lemma_views_remove(m: Map<u32, PlayerInterpolater>, id: u32)
    ensures
        views(m.remove(id)) == views(m).remove(id),
        m.contains_key(id) ==> views(m)[id] == m[id]@,
{
    assert(views(m.remove(id)) =~= views(m).remove(id));
}

/// Takes the tracker of `id` out of the table, or starts one from `first`.
fn take_or_start(enemies: &mut HashMap<u32, PlayerInterpolater>, id: u32, first: Player) -> (e: PlayerInterpolater)
    ensures
        final(enemies)@ == old(enemies)@.remove(id),
        old(enemies)@.contains_key(id) ==> e == old(enemies)@[id],
        !old(enemies)@.contains_key(id) ==> e@ == started_with(e@.new->0) && e@.new->0.player == first,
{
    match enemies.remove(&id) {
        Some(e) => e,
        None => PlayerInterpolater::from(first),
    }
}

/// Applies one message from the server to the client's own id and to its
/// trackers of the other players.
pub fn handle_msg(my_id: &mut Option<u32>, enemies: &mut HashMap<u32, PlayerInterpolater>, msg: ServerMessage)
    requires
        can_handle(views(old(enemies)@), msg),
    ensures
        exists|zero: Vec2, t: Instant, fresh: TimeStampedPlayer|
            {
                &&& is_spawn_state(fresh.player)
                &&& (*final(my_id), views(final(enemies)@)) == handle_msg_spec(
                    *old(my_id),
                    views(old(enemies)@),
                    msg,
                    zero,
                    t,
                    fresh,
                )
            },
        tracked_after(msg) matches Some(id) ==> final(enemies)@.contains_key(id)
            && final(enemies)@[id]@.new is Some,
        msg matches ServerMessage::PlayerHealthChange { id, health } ==> (health != 0 ==> final(
            enemies)@[id]@.new->0.player.health == health),
        msg matches ServerMessage::PlayerMoved { id, position } ==> final(enemies)@[id]@.new->0.player.pos
            == position,
        msg matches ServerMessage::PlayerMoved { id, position } ==> (old(enemies)@.contains_key(id)
            ==> final(enemies)@[id]@.new->0.player == (Player {
            pos: position,
            ..old(enemies)@[id]@.new->0.player
        })),
        msg matches ServerMessage::PlayerMouseMoved { id, position } ==> (old(enemies)@.contains_key(id)
            ==> final(enemies)@[id]@.new->0.player == (Player {
            mouse: position,
            ..old(enemies)@[id]@.new->0.player
        })),
        msg matches ServerMessage::PlayerMouseMoved { id, position } ==> final(enemies)@[id]@.new->0.player.mouse == position,
{
    let ghost m = enemies@;
    let ghost mut zero: Vec2 = arbitrary();
    let ghost mut t: Instant = arbitrary();
    let ghost mut fresh: TimeStampedPlayer = TimeStampedPlayer {
        player: Player { health: MAX_HP, pos: zero, vel: zero, mouse: zero },
        time: t,
    };
    match msg {
        ServerMessage::PlayerShot { id } => {
            let z = zero_vector();
            let mut enemy = take_or_start(enemies, id, Player { health: MAX_HP, pos: z, vel: z, mouse: z });
            proof {
                use_type_invariant(&enemy);
                lemma_views_remove(m, id);
                zero = z;
                if !m.contains_key(id) {
                    t = enemy@.new->0.time;
                }
            }
            enemy.inc_shots();
            proof {
                lemma_views_insert(m.remove(id), id, enemy);
            }
            proof {
                use_type_invariant(&enemy);
            }
            enemies.insert(id, enemy);
        },
        ServerMessage::NotifyId { id } => {
            *my_id = Some(id);
        },
        ServerMessage::PlayerHealthChange { id, health } => {
            let z = zero_vector();
            let mut enemy = take_or_start(enemies, id, Player { health, pos: z, vel: z, mouse: z });
            proof {
                use_type_invariant(&enemy);
                lemma_views_remove(m, id);
                zero = z;
                if !m.contains_key(id) {
                    t = enemy@.new->0.time;
                }
            }
            enemy.health_change(health);
            if health == 0 {
                assert(views(enemies@) == views(m).remove(id));
            } else {
                proof {
                    lemma_views_insert(m.remove(id), id, enemy);
                }
                proof {
                use_type_invariant(&enemy);
            }
            enemies.insert(id, enemy);
            }
        },
        ServerMessage::PlayerMoved { id, position } => {
            let z = zero_vector();
            let mut enemy = take_or_start(enemies, id, Player { health: MAX_HP, pos: position, vel: z, mouse: z });
            proof {
                use_type_invariant(&enemy);
                lemma_views_remove(m, id);
                zero = z;
                if !m.contains_key(id) {
                    t = enemy@.new->0.time;
                }
            }
            let ghost before = enemy@;
            enemy.update_pos(position);
            proof {
                fresh = choose|f: TimeStampedPlayer|
                    is_spawn_state(f.player) && enemy@ == update_pos_spec(before, position, f);
                lemma_views_insert(m.remove(id), id, enemy);
            }
            proof {
                use_type_invariant(&enemy);
            }
            enemies.insert(id, enemy);
        },
        ServerMessage::PlayerMouseMoved { id, position } => {
            let z = zero_vector();
            let mut enemy = take_or_start(enemies, id, Player { health: MAX_HP, pos: z, vel: z, mouse: position });
            proof {
                use_type_invariant(&enemy);
                lemma_views_remove(m, id);
                zero = z;
                if !m.contains_key(id) {
                    t = enemy@.new->0.time;
                }
            }
            let ghost before = enemy@;
            enemy.update_mouse(position);
            proof {
                fresh = choose|f: TimeStampedPlayer|
                    is_spawn_state(f.player) && enemy@ == update_mouse_spec(before, position, f);
                lemma_views_insert(m.remove(id), id, enemy);
            }
            proof {
                use_type_invariant(&enemy);
            }
            enemies.insert(id, enemy);
        },
        ServerMessage::PlayerLeft { id } => {
            enemies.remove(&id);
            proof {
                lemma_views_remove(m, id);
            }
        },
        ServerMessage::PlayerJoined { id: _ } => {},
    }
    assert((*my_id, views(enemies@)) == handle_msg_spec(*old(my_id), views(m), msg, zero, t, fresh));
}

/// A player announced as gone, or as dead, is no longer tracked; the client's
/// own id is the last one the server notified.
pub proof fn law_departed_players_untracked(
    my_id: Option<u32>,
    enemies: Map<u32, InterpolaterView>,
    id: u32,
    zero: Vec2,
    t: Instant,
    fresh: TimeStampedPlayer,
)
    ensures
        !handle_msg_spec(my_id, enemies, ServerMessage::PlayerLeft { id }, zero, t, fresh).1.contains_key(
            id,
        ),
        !handle_msg_spec(
            my_id,
            enemies,
            ServerMessage::PlayerHealthChange { id, health: 0 },
            zero,
            t,
            fresh,
        ).1.contains_key(id),
        handle_msg_spec(my_id, enemies, ServerMessage::NotifyId { id }, zero, t, fresh).0 == Some(id),
{
}

/// A move or an aim of a tracked player changes only its position or cursor:
/// the newest sample keeps its health, velocity and time (and the other
/// field), pending shots stay, the other trackers and the client's own id
/// are untouched.
pub proof fn law_move_changes_only_position(
    my_id: Option<u32>,
    enemies: Map<u32, InterpolaterView>,
    id: u32,
    at: Vec2,
    zero: Vec2,
    t: Instant,
    fresh: TimeStampedPlayer,
)
    requires
        enemies.contains_key(id),
        enemies[id].new is Some,
    ensures
        ({
            let r = handle_msg_spec(my_id, enemies, ServerMessage::PlayerMoved { id, position: at }, zero, t, fresh);
            let n = enemies[id].new->0;
            &&& r.0 == my_id
            &&& r.1.remove(id) == enemies.remove(id)
            &&& r.1[id].new == Some(TimeStampedPlayer { player: Player { pos: at, ..n.player }, ..n })
            &&& r.1[id].to_shoot == enemies[id].to_shoot
        }),
        ({
            let r = handle_msg_spec(my_id, enemies, ServerMessage::PlayerMouseMoved { id, position: at }, zero, t, fresh);
            let n = enemies[id].new->0;
            &&& r.0 == my_id
            &&& r.1.remove(id) == enemies.remove(id)
            &&& r.1[id].new == Some(TimeStampedPlayer { player: Player { mouse: at, ..n.player }, ..n })
            &&& r.1[id].to_shoot == enemies[id].to_shoot
        }),
{
    assert(handle_msg_spec(my_id, enemies, ServerMessage::PlayerMoved { id, position: at }, zero, t, fresh).1.remove(id)
        =~= enemies.remove(id));
    assert(handle_msg_spec(my_id, enemies, ServerMessage::PlayerMouseMoved { id, position: at }, zero, t, fresh).1.remove(id)
        =~= enemies.remove(id));
}

} // verus!
