use vstd::prelude::*;
use std::collections::HashMap;
use bevy_math::Vec2;
use tokio::time::Instant;
use vstd::std_specs::hash::spec_keys_iter;
use vstd::std_specs::iter::IteratorSpec;
use crate::clock::{now, seconds_since};
use crate::constants::{DAMAGE_PER_SHOT, MAX_HP, PLAYER_TIMEOUT_SECS};
use crate::network::{ClientMessage, ClientObject, ServerMessage};
use crate::vector::zero_vector;

verus! {

broadcast use {vstd::std_specs::hash::group_hash_axioms, vstd::seq_lib::group_seq_properties};

/// What the server knows of one player.
#[derive(Clone, Copy)]
pub struct PlayerState {
    pub position: Vec2,
    pub cursor: Vec2,
    pub health: u32,
    pub last_seen: Instant,
}

/// The server's table of players, keyed by the id it handed out, and the
/// point where new players appear.
pub struct GlobalState {
    players: HashMap<u32, PlayerState>,
    origin: Vec2,
}

/// The model of a [`GlobalState`].
pub struct GlobalView {
    pub players: Map<u32, PlayerState>,
    pub origin: Vec2,
}

impl View for GlobalState {
    type V = GlobalView;

    closed spec fn view(&self) -> GlobalView {
        GlobalView { players: self.players@, origin: self.origin }
    }
}

/// Every player's health is at most the starting health.
pub open spec fn health_bounded(players: Map<u32, PlayerState>) -> bool {
    forall|id: u32| #[trigger] players.contains_key(id) ==> players[id].health <= MAX_HP
}

/// A player as it first appears: at the origin, aiming at the origin, at
/// full health, seen at `now`.
pub open spec fn spawned(origin: Vec2, now: Instant) -> PlayerState {
    PlayerState { position: origin, cursor: origin, health: MAX_HP, last_seen: now }
}

/// The table once player `id` has been heard from at `now`: registered if it
/// was unknown, and its last-seen time refreshed.
pub open spec fn heard_from(players: Map<u32, PlayerState>, origin: Vec2, id: u32, now: Instant) -> Map<
    u32,
    PlayerState,
> {
    let p = if players.contains_key(id) {
        players[id]
    } else {
        spawned(origin, now)
    };
    players.insert(id, PlayerState { last_seen: now, ..p })
}

/// The players a shot from `shooter` can hit: every other player still alive.
pub open spec fn is_shot_candidate(players: Map<u32, PlayerState>, shooter: u32, id: u32) -> bool {
    &&& players.contains_key(id)
    &&& id != shooter
    &&& players[id].health > 0
}

/// Health after one hit; it stops at zero.
pub open spec fn damaged(health: u32) -> u32 {
    if health >= DAMAGE_PER_SHOT {
        (health - DAMAGE_PER_SHOT) as u32
    } else {
        0
    }
}

/// The hits of a shot from `shooter`, applied in order: each target that is
/// still a candidate loses health, and its new health is announced.
pub open spec fn apply_hits(players: Map<u32, PlayerState>, shooter: u32, hits: Seq<u32>) -> (Map<
    u32,
    PlayerState,
>, Seq<ServerMessage>)
    decreases hits.len(),
{
    if hits.len() == 0 {
        (players, Seq::empty())
    } else {
        let (m, events) = apply_hits(players, shooter, hits.drop_last());
        let t = hits.last();
        if is_shot_candidate(m, shooter, t) {
            let h = damaged(m[t].health);
            (
                m.insert(t, PlayerState { health: h, ..m[t] }),
                events.push(ServerMessage::PlayerHealthChange { id: t, health: h }),
            )
        } else {
            (m, events)
        }
    }
}

/// The table and the events after the server applies `obj` at `now`, `hits`
/// being the players that the sender's shot, if it is one, passes through.
pub open spec fn apply_spec(
    players: Map<u32, PlayerState>,
    origin: Vec2,
    obj: ClientObject,
    hits: Seq<u32>,
    now: Instant,
) -> (Map<u32, PlayerState>, Seq<ServerMessage>) {
    let id = obj.id;
    let m = heard_from(players, origin, id, now);
    let p = m[id];
    if p.health == 0 {
        (m, Seq::empty())
    } else {
        match obj.client_message {
            ClientMessage::PositionUpdate { position } => (
                m.insert(id, PlayerState { position, ..p }),
                Seq::empty(),
            ),
            ClientMessage::MouseUpdate { position } => (
                m.insert(id, PlayerState { cursor: position, ..p }),
                Seq::empty(),
            ),
            ClientMessage::Shoot => {
                let (m2, events) = apply_hits(m, id, hits);
                (m2, seq![ServerMessage::PlayerShot { id }] + events)
            },
        }
    }
}

/// Whether `ages` reports player `id` silent for longer than the timeout.
pub open spec fn timed_out(ages: Seq<(u32, u64)>, id: u32) -> bool {
    exists|i: int| 0 <= i < ages.len() && ages[i].0 == id && ages[i].1 > PLAYER_TIMEOUT_SECS
}

/// What one tick announces of player `id`: that it left if it timed out,
/// else where it and its cursor are if it is alive, else nothing.
pub open spec fn tick_events_for(players: Map<u32, PlayerState>, ages: Seq<(u32, u64)>, id: u32) -> Seq<
    ServerMessage,
> {
    if timed_out(ages, id) {
        seq![ServerMessage::PlayerLeft { id }]
    } else if players[id].health > 0 {
        seq![
            ServerMessage::PlayerMoved { id, position: players[id].position },
            ServerMessage::PlayerMouseMoved { id, position: players[id].cursor },
        ]
    } else {
        Seq::empty()
    }
}

/// The announcements of one tick for the players in `order`, in that order.
pub open spec fn tick_events(players: Map<u32, PlayerState>, ages: Seq<(u32, u64)>, order: Seq<u32>) -> Seq<
    ServerMessage,
>
    decreases order.len(),
{
    if order.len() == 0 {
        Seq::empty()
    } else {
        tick_events(players, ages, order.drop_last()) + tick_events_for(players, ages, order.last())
    }
}

/// The ids that `ages` reports as timed out.
pub open spec fn timed_out_ids(ages: Seq<(u32, u64)>) -> Set<u32> {
    Set::new(|id: u32| timed_out(ages, id))
}

impl GlobalState {
    /// An empty table whose players appear at the zero vector.
    pub fn new() -> (s: Self)
        ensures
            s@.players == Map::<u32, PlayerState>::empty(),
    {
        GlobalState { players: HashMap::new(), origin: zero_vector() }
    }

    /// What the table holds of player `id`.
    pub fn player(&self, id: u32) -> (p: Option<PlayerState>)
        ensures
            p == (if self@.players.contains_key(id) {
                Some(self@.players[id])
            } else {
                None
            }),
    {
        match self.players.get(&id) {
            Some(p) => Some(*p),
            None => None,
        }
    }

    /// Where a shot from `shooter` starts and where it aims: the shooter's
    /// position and cursor, or the origin for a shooter not yet in the table
    /// (it is registered there before its shot is applied).
    pub fn shot_origin(&self, shooter: u32) -> (r: (Vec2, Vec2))
        ensures
            r == (if self@.players.contains_key(shooter) {
                (self@.players[shooter].position, self@.players[shooter].cursor)
            } else {
                (self@.origin, self@.origin)
            }),
    {
        match self.players.get(&shooter) {
            Some(p) => (p.position, p.cursor),
            None => (self.origin, self.origin),
        }
    }

    /// The ids of the players a shot from `shooter` can hit, each once.
    pub fn shot_candidates(&self, shooter: u32) -> (ids: Vec<u32>)
        ensures
            ids@.no_duplicates(),
            forall|id: u32| ids@.contains(id) <==> is_shot_candidate(self@.players, shooter, id),
    {
        let ghost keys = spec_keys_iter(&self.players).remaining().unref();
        let mut ids: Vec<u32> = Vec::new();
        for id in it: self.players.keys()
            invariant
                it.seq().unref() == keys,
                keys.to_set() == self.players@.dom(),
                keys.no_duplicates(),
                ids@.no_duplicates(),
                forall|x: u32|
                    ids@.contains(x) <==> (keys.take(it.index()).contains(x) && is_shot_candidate(
                        self.players@,
                        shooter,
                        x,
                    )),
        {
            let ghost i = it.index();
            let ghost before = ids@;
            proof {
                lemma_fresh_key(keys, i);
            }
            let p = self.players.get(id).unwrap();
            if *id != shooter && p.health > 0 {
                ids.push(*id);
                proof {
                    lemma_push_fresh(before, *id);
                }
            }
            assert forall|x: u32|
                ids@.contains(x) <==> (keys.take(i + 1).contains(x) && is_shot_candidate(
                    self.players@,
                    shooter,
                    x,
                )) by {
                if x == *id {
                    assert(keys.take(i + 1)[i] == x);
                }
            }
        }
        proof {
            lemma_keys_cover(keys, self.players@.dom());
        }
        ids
    }

    /// Whole seconds since each player was last heard from, read from the
    /// clock, one entry per player.
    pub fn player_ages(&self) -> (ages: Vec<(u32, u64)>)
        ensures
            forall|a: int, b: int| 0 <= a < b < ages@.len() ==> ages@[a].0 != ages@[b].0,
            forall|id: u32|
                self@.players.contains_key(id) <==> exists|i: int|
                    0 <= i < ages@.len() && #[trigger] ages@[i].0 == id,
    {
        let ghost keys = spec_keys_iter(&self.players).remaining().unref();
        let mut ages: Vec<(u32, u64)> = Vec::new();
        for id in it: self.players.keys()
            invariant
                it.seq().unref() == keys,
                keys.to_set() == self.players@.dom(),
                keys.no_duplicates(),
                ages@.len() == it.index(),
                forall|i: int| 0 <= i < ages@.len() ==> #[trigger] ages@[i].0 == keys[i],
        {
            let ghost i = it.index();
            let p = self.players.get(id).unwrap();
            ages.push((*id, seconds_since(&p.last_seen)));
        }
        proof {
            lemma_keys_cover(keys, self.players@.dom());
            assert forall|id: u32|
                self.players@.contains_key(id) implies exists|i: int|
                    0 <= i < ages@.len() && #[trigger] ages@[i].0 == id by {
                assert(keys.contains(id));
                let i = choose|i: int| 0 <= i < keys.len() && keys[i] == id;
                assert(ages@[i].0 == id);
            }
        }
        ages
    }
}

/// Applies one client message received at `now`: registers an unknown
/// sender, refreshes when it was last seen, and, unless it is dead, moves its
/// player or cursor, or fires its shot. For a shot, `hits` lists the players
/// the shot's line passes through (the geometry is a float computation done
/// by the caller over [`GlobalState::shot_candidates`]), each at most once;
/// only those still candidates when reached are damaged.
pub fn apply_client_obj_at(state: &mut GlobalState, obj: ClientObject, hits: &Vec<u32>, now: Instant) -> (events:
    Vec<ServerMessage>)
    requires
        hits@.no_duplicates(),
    ensures
        final(state)@.origin == old(state)@.origin,
        final(state)@.players == apply_spec(old(state)@.players, old(state)@.origin, obj, hits@, now).0,
        events@ == apply_spec(old(state)@.players, old(state)@.origin, obj, hits@, now).1,
{
    let id = obj.id;
    let mut events: Vec<ServerMessage> = Vec::new();
    let mut p = match state.players.get(&id) {
        Some(existing) => *existing,
        None => PlayerState {
            position: state.origin,
            cursor: state.origin,
            health: MAX_HP,
            last_seen: now,
        },
    };
    p.last_seen = now;
    state.players.insert(id, p);
    let ghost m = state.players@;
    assert(m == heard_from(old(state)@.players, old(state)@.origin, id, now));
    if p.health == 0 {
        return events;
    }
    match obj.client_message {
        ClientMessage::PositionUpdate { position } => {
            p.position = position;
            state.players.insert(id, p);
        },
        ClientMessage::MouseUpdate { position } => {
            p.cursor = position;
            state.players.insert(id, p);
        },
        ClientMessage::Shoot => {
            events.push(ServerMessage::PlayerShot { id });
            let n = hits.len();
            for k in 0..n
                invariant
                    n == hits@.len(),
                    state.origin == old(state)@.origin,
                    state.players@ == apply_hits(m, id, hits@.take(k as int)).0,
                    events@ == seq![ServerMessage::PlayerShot { id }] + apply_hits(
                        m,
                        id,
                        hits@.take(k as int),
                    ).1,
            {
                let t = hits[k];
                assert(hits@.take(k + 1).drop_last() == hits@.take(k as int));
                if t != id {
                    match state.players.get(&t) {
                        Some(target) => {
                            if target.health > 0 {
                                let mut q = *target;
                                q.health = q.health.saturating_sub(DAMAGE_PER_SHOT);
                                state.players.insert(t, q);
                                events.push(ServerMessage::PlayerHealthChange { id: t, health: q.health });
                            }
                        },
                        None => {},
                    }
                }
            }
            assert(hits@.take(n as int) == hits@);
        },
    }
    events
}

/// [`apply_client_obj_at`] at the time read from the clock.
pub fn apply_client_obj(state: &mut GlobalState, obj: ClientObject, hits: &Vec<u32>) -> (events: Vec<
    ServerMessage,
>)
    requires
        hits@.no_duplicates(),
    ensures
        final(state)@.origin == old(state)@.origin,
        exists|t: Instant|
            {
                &&& final(state)@.players == apply_spec(
                    old(state)@.players,
                    old(state)@.origin,
                    obj,
                    hits@,
                    t,
                ).0
                &&& events@ == apply_spec(old(state)@.players, old(state)@.origin, obj, hits@, t).1
            },
{
    let t = now();
    apply_client_obj_at(state, obj, hits, t)
}

/// Whether `ages` reports player `id` silent for longer than the timeout.
fn is_timed_out(ages: &Vec<(u32, u64)>, id: u32) -> (b: bool)
    ensures
        b == timed_out(ages@, id),
{
    let n = ages.len();
    for i in 0..n
        invariant
            n == ages@.len(),
            forall|j: int| 0 <= j < i ==> !(ages@[j].0 == id && ages@[j].1 > PLAYER_TIMEOUT_SECS),
    {
        if ages[i].0 == id && ages[i].1 > PLAYER_TIMEOUT_SECS {
            return true;
        }
    }
    false
}

/// One server tick, given how long each player has been silent: players
/// silent for too long are announced as gone and dropped; every other player
/// still alive has its position and cursor announced. The announcements
/// follow the table's own order, which is unspecified.
pub fn tick(state: &mut GlobalState, ages: &Vec<(u32, u64)>) -> (events: Vec<ServerMessage>)
    ensures
        final(state)@.origin == old(state)@.origin,
        final(state)@.players == old(state)@.players.remove_keys(timed_out_ids(ages@)),
        exists|order: Seq<u32>|
            {
                &&& order.no_duplicates()
                &&& order.to_set() == old(state)@.players.dom()
                &&& events@ == tick_events(old(state)@.players, ages@, order)
            },
{
    let ghost players = state.players@;
    let ghost keys = spec_keys_iter(&state.players).remaining().unref();
    let mut events: Vec<ServerMessage> = Vec::new();
    let mut to_remove: Vec<u32> = Vec::new();
    for id in it: state.players.keys()
        invariant
            it.seq().unref() == keys,
            keys.to_set() == players.dom(),
            keys.no_duplicates(),
            players == state.players@,
            events@ == tick_events(players, ages@, keys.take(it.index())),
            forall|x: u32|
                to_remove@.contains(x) <==> (keys.take(it.index()).contains(x) && timed_out(ages@, x)),
    {
        let ghost i = it.index();
        proof {
            lemma_fresh_key(keys, i);
        }
        let p = state.players.get(id).unwrap();
        let gone = is_timed_out(ages, *id);
        if gone {
            events.push(ServerMessage::PlayerLeft { id: *id });
            to_remove.push(*id);
        } else if p.health > 0 {
            events.push(ServerMessage::PlayerMoved { id: *id, position: p.position });
            events.push(ServerMessage::PlayerMouseMoved { id: *id, position: p.cursor });
        }
        assert(keys.take(i + 1).drop_last() == keys.take(i));
        assert(events@ == tick_events(players, ages@, keys.take(i + 1)));
        assert forall|x: u32|
            to_remove@.contains(x) <==> (keys.take(i + 1).contains(x) && timed_out(ages@, x)) by {
            if x == *id {
                assert(keys.take(i + 1)[i] == x);
            }
        }
    }
    proof {
        lemma_keys_cover(keys, players.dom());
    }
    let n = to_remove.len();
    for k in 0..n
        invariant
            n == to_remove@.len(),
            state.origin == old(state)@.origin,
            forall|x: u32| to_remove@.contains(x) ==> players.contains_key(x) && timed_out(ages@, x),
            forall|x: u32|
                players.contains_key(x) && timed_out(ages@, x) ==> to_remove@.contains(x),
            state.players@ == players.remove_keys(to_remove@.take(k as int).to_set()),
    {
        let ghost before = state.players@;
        state.players.remove(&to_remove[k]);
        assert(to_remove@.take(k + 1).to_set() == to_remove@.take(k as int).to_set().insert(
            to_remove@[k as int],
        )) by {
            assert(to_remove@.take(k + 1) == to_remove@.take(k as int).push(to_remove@[k as int]));
        }
        assert(state.players@ =~= players.remove_keys(to_remove@.take(k + 1).to_set()));
    }
    proof {
        assert(to_remove@.take(n as int) == to_remove@);
        assert(state.players@ =~= players.remove_keys(timed_out_ids(ages@))) by {
            assert forall|x: u32| to_remove@.to_set().contains(x) && players.contains_key(x) <==> 
                timed_out_ids(ages@).contains(x) && players.contains_key(x) by {
                assert(to_remove@.to_set().contains(x) <==> to_remove@.contains(x));
            }
        }
        assert(keys.take(keys.len() as int) == keys);
    }
    events
}

/// A shot changes nothing but health: the table keeps its players, no
/// player's health rises, and the shooter and the dead are left untouched.
pub proof fn law_shot_only_lowers_health(m: Map<u32, PlayerState>, shooter: u32, hits: Seq<u32>)
    ensures
        apply_hits(m, shooter, hits).0.dom() == m.dom(),
        forall|id: u32| #[trigger]
            m.contains_key(id) ==> {
                let r = apply_hits(m, shooter, hits).0[id];
                &&& r.health <= m[id].health
                &&& r == PlayerState { health: r.health, ..m[id] }
                &&& (id == shooter || m[id].health == 0) ==> r == m[id]
            },
    decreases hits.len(),
{
    if hits.len() > 0 {
        law_shot_only_lowers_health(m, shooter, hits.drop_last());
        let m1 = apply_hits(m, shooter, hits.drop_last()).0;
        assert(apply_hits(m, shooter, hits).0.dom() =~= m.dom());
        assert forall|id: u32| #[trigger] m.contains_key(id) implies {
            let r = apply_hits(m, shooter, hits).0[id];
            &&& r.health <= m[id].health
            &&& r == PlayerState { health: r.health, ..m[id] }
            &&& (id == shooter || m[id].health == 0) ==> r == m[id]
        } by {
            assert(m1.contains_key(id));
        }
    }
}

/// The players of `hits` that a shot from `shooter` reaches while they are
/// still candidates, in the order of `hits`.
pub open spec fn shot_targets(m: Map<u32, PlayerState>, shooter: u32, hits: Seq<u32>) -> Seq<u32> {
    hits.filter(|t: u32| is_shot_candidate(m, shooter, t))
}

/// A shot's outcome, stated without the step-by-step fold: when no player is
/// listed twice, every listed player that is alive and not the shooter loses
/// `DAMAGE_PER_SHOT` hit points (stopping at zero) and gets exactly one health
/// announcement, in the order of `hits`, reporting its new health; every other
/// player is left as it was.
pub proof fn law_shot_damages_each_target_once(m: Map<u32, PlayerState>, shooter: u32, hits: Seq<u32>)
    requires
        hits.no_duplicates(),
    ensures
        apply_hits(m, shooter, hits).0.dom() == m.dom(),
        apply_hits(m, shooter, hits).1.len() == shot_targets(m, shooter, hits).len(),
        forall|i: int|
            0 <= i < shot_targets(m, shooter, hits).len() ==> {
                let t = #[trigger] shot_targets(m, shooter, hits)[i];
                apply_hits(m, shooter, hits).1[i] == ServerMessage::PlayerHealthChange {
                    id: t,
                    health: if m[t].health >= DAMAGE_PER_SHOT {
                        (m[t].health - DAMAGE_PER_SHOT) as u32
                    } else {
                        0
                    },
                }
            },
        forall|t: u32| #[trigger]
            m.contains_key(t) ==> apply_hits(m, shooter, hits).0[t] == if hits.contains(t)
                && is_shot_candidate(m, shooter, t) {
                PlayerState {
                    health: if m[t].health >= DAMAGE_PER_SHOT {
                        (m[t].health - DAMAGE_PER_SHOT) as u32
                    } else {
                        0
                    },
                    ..m[t]
                }
            } else {
                m[t]
            },
    decreases hits.len(),
{
    broadcast use vstd::seq_lib::group_filter_ensures;

    if hits.len() == 0 {
        reveal(Seq::filter);
    } else {
        let p = hits.drop_last();
        let t = hits.last();
        assert(p.no_duplicates());
        assert(!p.contains(t)) by {
            if p.contains(t) {
                let j = choose|j: int| 0 <= j < p.len() && p[j] == t;
                assert(hits[j] == hits[hits.len() - 1]);
            }
        }
        law_shot_damages_each_target_once(m, shooter, p);
        assert(hits == p.push(t));
        p.lemma_filter_push(t, |x: u32| is_shot_candidate(m, shooter, x));
        let m1 = apply_hits(m, shooter, p).0;
        if m.contains_key(t) {
            assert(m1[t] == m[t]);
        }
        assert(is_shot_candidate(m1, shooter, t) == is_shot_candidate(m, shooter, t));
        assert forall|x: u32| #[trigger] m.contains_key(x) implies apply_hits(m, shooter, hits).0[x] == if hits.contains(x)
            && is_shot_candidate(m, shooter, x) {
            PlayerState {
                health: if m[x].health >= DAMAGE_PER_SHOT {
                    (m[x].health - DAMAGE_PER_SHOT) as u32
                } else {
                    0
                },
                ..m[x]
            }
        } else {
            m[x]
        } by {
            assert(hits.contains(x) <==> p.contains(x) || x == t);
        }
    }
}

/// A dead player's messages are ignored: the server only notes that it heard
/// from the player.
pub proof fn law_dead_player_input_ignored(
    players: Map<u32, PlayerState>,
    origin: Vec2,
    obj: ClientObject,
    hits: Seq<u32>,
    now: Instant,
)
    requires
        players.contains_key(obj.id),
        players[obj.id].health == 0,
    ensures
        apply_spec(players, origin, obj, hits, now) == (
            players.insert(obj.id, PlayerState { last_seen: now, ..players[obj.id] }),
            Seq::<ServerMessage>::empty(),
        ),
{
}

/// Applying a message keeps every known player, adds its sender, never
/// raises anyone's health, and keeps every health within the starting
/// health.
pub proof fn law_health_never_rises(
    players: Map<u32, PlayerState>,
    origin: Vec2,
    obj: ClientObject,
    hits: Seq<u32>,
    now: Instant,
)
    ensures
        apply_spec(players, origin, obj, hits, now).0.dom() == players.dom().insert(obj.id),
        forall|id: u32| #[trigger]
            players.contains_key(id) ==> apply_spec(players, origin, obj, hits, now).0[id].health
                <= players[id].health,
        health_bounded(players) ==> health_bounded(apply_spec(players, origin, obj, hits, now).0),
{
    let m = heard_from(players, origin, obj.id, now);
    law_shot_only_lowers_health(m, obj.id, hits);
    assert(m.dom() =~= players.dom().insert(obj.id));
    let r = apply_spec(players, origin, obj, hits, now).0;
    assert(r.dom() =~= players.dom().insert(obj.id));
    assert forall|id: u32| #[trigger] players.contains_key(id) implies r[id].health
        <= players[id].health by {
        assert(m.contains_key(id));
    }
    if health_bounded(players) {
        assert forall|id: u32| #[trigger] r.contains_key(id) implies r[id].health <= MAX_HP by {
            assert(m.contains_key(id));
        }
    }
}

/// A player's own shot never hurts it.
pub proof fn law_shooter_unharmed(
    players: Map<u32, PlayerState>,
    origin: Vec2,
    obj: ClientObject,
    hits: Seq<u32>,
    now: Instant,
)
    ensures
        apply_spec(players, origin, obj, hits, now).0[obj.id].health == heard_from(
            players,
            origin,
            obj.id,
            now,
        )[obj.id].health,
{
    let m = heard_from(players, origin, obj.id, now);
    law_shot_only_lowers_health(m, obj.id, hits);
    assert(m.contains_key(obj.id));
}

/// Every event of a shot names a player it hit.
proof fn lemma_hit_events_name_hits(m: Map<u32, PlayerState>, shooter: u32, hits: Seq<u32>)
    ensures
        forall|i: int|
            0 <= i < apply_hits(m, shooter, hits).1.len() ==> {
                let e = #[trigger] apply_hits(m, shooter, hits).1[i];
                &&& e is PlayerHealthChange
                &&& hits.contains(e->PlayerHealthChange_id)
            },
    decreases hits.len(),
{
    if hits.len() > 0 {
        lemma_hit_events_name_hits(m, shooter, hits.drop_last());
        let ev = apply_hits(m, shooter, hits.drop_last()).1;
        assert forall|i: int| 0 <= i < apply_hits(m, shooter, hits).1.len() implies {
            let e = #[trigger] apply_hits(m, shooter, hits).1[i];
            &&& e is PlayerHealthChange
            &&& hits.contains(e->PlayerHealthChange_id)
        } by {
            if i < ev.len() {
                let e = ev[i];
                assert(hits.drop_last().contains(e->PlayerHealthChange_id));
            } else {
                assert(hits[hits.len() - 1] == hits.last());
            }
        }
    }
}

/// When every player is hit at most once, each health change announced for
/// a shot reports the target's health once the shot is applied.
pub proof fn law_health_events_report_health(m: Map<u32, PlayerState>, shooter: u32, hits: Seq<u32>)
    requires
        hits.no_duplicates(),
    ensures
        forall|i: int|
            0 <= i < apply_hits(m, shooter, hits).1.len() ==> {
                let e = #[trigger] apply_hits(m, shooter, hits).1[i];
                &&& apply_hits(m, shooter, hits).0.contains_key(e->PlayerHealthChange_id)
                &&& apply_hits(m, shooter, hits).0[e->PlayerHealthChange_id].health
                    == e->PlayerHealthChange_health
            },
    decreases hits.len(),
{
    if hits.len() > 0 {
        let prefix = hits.drop_last();
        assert(prefix.no_duplicates());
        law_health_events_report_health(m, shooter, prefix);
        lemma_hit_events_name_hits(m, shooter, prefix);
        law_shot_only_lowers_health(m, shooter, prefix);
        let (m1, ev) = apply_hits(m, shooter, prefix);
        let t = hits.last();
        assert forall|i: int| 0 <= i < apply_hits(m, shooter, hits).1.len() implies {
            let e = #[trigger] apply_hits(m, shooter, hits).1[i];
            &&& apply_hits(m, shooter, hits).0.contains_key(e->PlayerHealthChange_id)
            &&& apply_hits(m, shooter, hits).0[e->PlayerHealthChange_id].health
                == e->PlayerHealthChange_health
        } by {
            if i < ev.len() {
                let e = ev[i];
                assert(prefix.contains(e->PlayerHealthChange_id));
                if e->PlayerHealthChange_id == t {
                    let j = choose|j: int| 0 <= j < prefix.len() && prefix[j] == t;
                    assert(hits[j] == hits[hits.len() - 1]);
                }
            }
        }
    }
}

/// Over the announcements of a tick: only players alive and not timed out
/// have their position and cursor announced, and only timed-out players are
/// announced as gone.
pub proof fn law_only_alive_players_broadcast(
    players: Map<u32, PlayerState>,
    ages: Seq<(u32, u64)>,
    order: Seq<u32>,
)
    ensures
        forall|i: int|
            0 <= i < tick_events(players, ages, order).len() ==> match #[trigger] tick_events(
                players,
                ages,
                order,
            )[i] {
                ServerMessage::PlayerMoved { id, position: _ } => players[id].health > 0 && !timed_out(
                    ages,
                    id,
                ),
                ServerMessage::PlayerMouseMoved { id, position: _ } => players[id].health > 0
                    && !timed_out(ages, id),
                ServerMessage::PlayerLeft { id } => timed_out(ages, id),
                _ => false,
            },
    decreases order.len(),
{
    if order.len() > 0 {
        law_only_alive_players_broadcast(players, ages, order.drop_last());
    }
}

/// Every player in `order` gets its announcements in a tick.
proof fn lemma_tick_covers(players: Map<u32, PlayerState>, ages: Seq<(u32, u64)>, order: Seq<u32>, id: u32)
    requires
        order.contains(id),
    ensures
        forall|e: ServerMessage|
            tick_events_for(players, ages, id).contains(e) ==> #[trigger] tick_events(
                players,
                ages,
                order,
            ).contains(e),
    decreases order.len(),
{
    let prefix = order.drop_last();
    let head = tick_events(players, ages, prefix);
    if order.last() != id {
        let j = choose|j: int| 0 <= j < order.len() && order[j] == id;
        assert(prefix[j] == id);
        lemma_tick_covers(players, ages, prefix, id);
    }
    assert forall|e: ServerMessage| tick_events_for(players, ages, id).contains(e) implies #[trigger] tick_events(
        players,
        ages,
        order,
    ).contains(e) by {
        let all = tick_events(players, ages, order);
        assert(all == head + tick_events_for(players, ages, order.last()));
        if order.last() == id {
            let k = choose|k: int|
                0 <= k < tick_events_for(players, ages, id).len() && tick_events_for(players, ages, id)[k]
                    == e;
            assert(all[head.len() + k] == e);
        } else {
            assert(head.contains(e));
            let k = choose|k: int| 0 <= k < head.len() && head[k] == e;
            assert(all[k] == e);
        }
    }
}

/// In a tick over every player, each timed-out player is announced as gone
/// and each other live player has its position and cursor announced.
pub proof fn law_tick_announces_every_player(
    players: Map<u32, PlayerState>,
    ages: Seq<(u32, u64)>,
    order: Seq<u32>,
    id: u32,
)
    requires
        order.to_set() == players.dom(),
        players.contains_key(id),
    ensures
        timed_out(ages, id) ==> tick_events(players, ages, order).contains(
            ServerMessage::PlayerLeft { id },
        ),
        !timed_out(ages, id) && players[id].health > 0 ==> {
            &&& tick_events(players, ages, order).contains(
                ServerMessage::PlayerMoved { id, position: players[id].position },
            )
            &&& tick_events(players, ages, order).contains(
                ServerMessage::PlayerMouseMoved { id, position: players[id].cursor },
            )
        },
{
    assert(order.to_set().contains(id));
    lemma_tick_covers(players, ages, order, id);
    let own = tick_events_for(players, ages, id);
    if timed_out(ages, id) {
        assert(own[0] == ServerMessage::PlayerLeft { id });
        assert(own.contains(ServerMessage::PlayerLeft { id }));
    } else if players[id].health > 0 {
        assert(own[0] == ServerMessage::PlayerMoved { id, position: players[id].position });
        assert(own[1] == ServerMessage::PlayerMouseMoved { id, position: players[id].cursor });
        assert(own.contains(ServerMessage::PlayerMoved { id, position: players[id].position }));
        assert(own.contains(ServerMessage::PlayerMouseMoved { id, position: players[id].cursor }));
    }
}

/// A tick only drops players, so every health stays within the starting
/// health.
pub proof fn law_tick_keeps_health_bounded(players: Map<u32, PlayerState>, ages: Seq<(u32, u64)>)
    requires
        health_bounded(players),
    ensures
        health_bounded(players.remove_keys(timed_out_ids(ages))),
{
}

proof fn lemma_fresh_key(keys: Seq<u32>, i: int)
    requires
        keys.no_duplicates(),
        0 <= i < keys.len(),
    ensures
        !keys.take(i).contains(keys[i]),
        keys.take(i + 1) == keys.take(i).push(keys[i]),
{
    if keys.take(i).contains(keys[i]) {
        let j = choose|j: int| 0 <= j < i && keys.take(i)[j] == keys[i];
        assert(keys[j] == keys[i]);
    }
    assert(keys.take(i + 1) =~= keys.take(i).push(keys[i]));
}

proof fn lemma_push_fresh(s: Seq<u32>, x: u32)
    requires
        s.no_duplicates(),
        !s.contains(x),
    ensures
        s.push(x).no_duplicates(),
{
    assert forall|a: int, b: int| 0 <= a < b < s.push(x).len() implies s.push(x)[a] != s.push(x)[b] by {
        if b == s.len() {
            assert(s.contains(s[a]));
        }
    }
}

proof fn lemma_keys_cover(keys: Seq<u32>, dom: Set<u32>)
    requires
        keys.to_set() == dom,
    ensures
        keys.take(keys.len() as int) == keys,
        forall|x: u32| keys.contains(x) <==> dom.contains(x),
{
    assert(keys.take(keys.len() as int) =~= keys);
    assert forall|x: u32| keys.contains(x) <==> dom.contains(x) by {
        assert(keys.to_set().contains(x) <==> keys.contains(x));
    }
}

} // verus!
