use bevy_math::Vec2;
use platformer::connections::IdAllocator;
use platformer::constants::{DAMAGE_PER_SHOT, MAX_HP};
use platformer::network::{ClientMessage, ClientObject, ServerMessage};
use platformer::server::{apply_client_obj, apply_client_obj_at, tick, GlobalState};
use tokio::time::Instant;

fn msg(id: u32, client_message: ClientMessage) -> ClientObject {
    ClientObject { id, client_message }
}

fn moved(state: &mut GlobalState, id: u32, x: f32, y: f32) {
    let events = apply_client_obj(state, msg(id, ClientMessage::PositionUpdate { position: Vec2::new(x, y) }), &vec![]);
    assert!(events.is_empty());
}

#[test]
fn unknown_sender_is_registered_at_origin() {
    let mut state = GlobalState::new();
    assert!(state.player(7).is_none());
    let events = apply_client_obj(&mut state, msg(7, ClientMessage::MouseUpdate { position: Vec2::new(3.0, 4.0) }), &vec![]);
    assert!(events.is_empty());
    let p = state.player(7).unwrap();
    assert_eq!(p.health, MAX_HP);
    assert_eq!(p.position, Vec2::ZERO);
    assert_eq!(p.cursor, Vec2::new(3.0, 4.0));
}

#[test]
fn position_update_moves_player() {
    let mut state = GlobalState::new();
    moved(&mut state, 1, 10.0, -5.0);
    let p = state.player(1).unwrap();
    assert_eq!(p.position, Vec2::new(10.0, -5.0));
    assert_eq!(p.cursor, Vec2::ZERO);
}

#[test]
fn last_seen_is_the_given_time() {
    let mut state = GlobalState::new();
    let t = Instant::now();
    apply_client_obj_at(&mut state, msg(2, ClientMessage::Shoot), &vec![], t);
    assert_eq!(state.player(2).unwrap().last_seen, t);
}

#[test]
fn shot_damages_hit_targets_and_reports_health() {
    let mut state = GlobalState::new();
    moved(&mut state, 1, 0.0, 0.0);
    moved(&mut state, 2, 100.0, 0.0);
    let events = apply_client_obj(&mut state, msg(1, ClientMessage::Shoot), &vec![2]);
    assert_eq!(events.len(), 2);
    assert!(matches!(events[0], ServerMessage::PlayerShot { id: 1 }));
    assert!(matches!(events[1], ServerMessage::PlayerHealthChange { id: 2, health } if health == MAX_HP - DAMAGE_PER_SHOT));
    assert_eq!(state.player(2).unwrap().health, MAX_HP - DAMAGE_PER_SHOT);
    assert_eq!(state.player(1).unwrap().health, MAX_HP);
}

#[test]
fn shooter_and_unknown_ids_are_never_damaged() {
    let mut state = GlobalState::new();
    moved(&mut state, 1, 0.0, 0.0);
    let events = apply_client_obj(&mut state, msg(1, ClientMessage::Shoot), &vec![1, 99]);
    assert_eq!(events.len(), 1);
    assert!(matches!(events[0], ServerMessage::PlayerShot { id: 1 }));
    assert_eq!(state.player(1).unwrap().health, MAX_HP);
    assert!(state.player(99).is_none());
}

fn kill(state: &mut GlobalState, shooter: u32, target: u32) {
    let mut health = state.player(target).unwrap().health;
    while health > 0 {
        apply_client_obj(state, msg(shooter, ClientMessage::Shoot), &vec![target]);
        let next = state.player(target).unwrap().health;
        assert_eq!(next, health.saturating_sub(DAMAGE_PER_SHOT));
        health = next;
    }
}

#[test]
fn health_stops_at_zero_and_dead_players_are_not_hit() {
    let mut state = GlobalState::new();
    moved(&mut state, 1, 0.0, 0.0);
    moved(&mut state, 2, 50.0, 0.0);
    kill(&mut state, 1, 2);
    assert_eq!(state.player(2).unwrap().health, 0);
    let events = apply_client_obj(&mut state, msg(1, ClientMessage::Shoot), &vec![2]);
    assert_eq!(events.len(), 1);
    assert_eq!(state.player(2).unwrap().health, 0);
}

#[test]
fn dead_player_input_is_ignored() {
    let mut state = GlobalState::new();
    moved(&mut state, 1, 0.0, 0.0);
    moved(&mut state, 2, 50.0, 0.0);
    kill(&mut state, 1, 2);
    let t = Instant::now();
    let events = apply_client_obj_at(&mut state, msg(2, ClientMessage::PositionUpdate { position: Vec2::new(9.0, 9.0) }), &vec![], t);
    assert!(events.is_empty());
    let p = state.player(2).unwrap();
    assert_eq!(p.position, Vec2::new(50.0, 0.0));
    assert_eq!(p.last_seen, t);
    let events = apply_client_obj(&mut state, msg(2, ClientMessage::Shoot), &vec![1]);
    assert!(events.is_empty());
    assert_eq!(state.player(1).unwrap().health, MAX_HP);
}

#[test]
fn shot_candidates_are_the_other_live_players() {
    let mut state = GlobalState::new();
    moved(&mut state, 1, 0.0, 0.0);
    moved(&mut state, 2, 1.0, 0.0);
    moved(&mut state, 3, 2.0, 0.0);
    kill(&mut state, 1, 3);
    let mut ids = state.shot_candidates(1);
    ids.sort();
    assert_eq!(ids, vec![2]);
    let mut ids = state.shot_candidates(2);
    ids.sort();
    assert_eq!(ids, vec![1]);
}

#[test]
fn shot_origin_of_unknown_shooter_is_the_origin() {
    let mut state = GlobalState::new();
    assert_eq!(state.shot_origin(5), (Vec2::ZERO, Vec2::ZERO));
    moved(&mut state, 5, 1.0, 2.0);
    apply_client_obj(&mut state, msg(5, ClientMessage::MouseUpdate { position: Vec2::new(3.0, 4.0) }), &vec![]);
    assert_eq!(state.shot_origin(5), (Vec2::new(1.0, 2.0), Vec2::new(3.0, 4.0)));
}

#[test]
fn player_ages_list_every_player_once() {
    let mut state = GlobalState::new();
    moved(&mut state, 1, 0.0, 0.0);
    moved(&mut state, 4, 0.0, 0.0);
    let ages = state.player_ages();
    let mut ids: Vec<u32> = ages.iter().map(|a| a.0).collect();
    ids.sort();
    assert_eq!(ids, vec![1, 4]);
    assert!(ages.iter().all(|a| a.1 <= 1));
}

#[test]
fn tick_drops_silent_players_and_announces_live_ones() {
    let mut state = GlobalState::new();
    moved(&mut state, 1, 1.0, 1.0);
    moved(&mut state, 2, 2.0, 2.0);
    moved(&mut state, 3, 3.0, 3.0);
    kill(&mut state, 1, 3);
    let events = tick(&mut state, &vec![(1, 0), (2, 6), (3, 5)]);
    assert!(state.player(2).is_none());
    assert!(state.player(1).is_some());
    assert!(state.player(3).is_some());
    assert_eq!(events.len(), 3);
    assert!(events.iter().any(|e| matches!(e, ServerMessage::PlayerLeft { id: 2 })));
    assert!(events.iter().any(|e| matches!(e, ServerMessage::PlayerMoved { id: 1, position } if *position == Vec2::new(1.0, 1.0))));
    assert!(events.iter().any(|e| matches!(e, ServerMessage::PlayerMouseMoved { id: 1, position } if *position == Vec2::ZERO)));
    assert!(!events.iter().any(|e| matches!(e, ServerMessage::PlayerMoved { id: 3, .. })));
}

#[test]
fn tick_with_fresh_players_keeps_everyone() {
    let mut state = GlobalState::new();
    moved(&mut state, 1, 1.0, 1.0);
    let ages = state.player_ages();
    let events = tick(&mut state, &ages);
    assert_eq!(events.len(), 2);
    assert!(state.player(1).is_some());
}

#[test]
fn ids_are_handed_out_in_order() {
    let mut ids = IdAllocator::new();
    assert!(ids.can_allocate());
    assert_eq!(ids.allocate(), 0);
    assert_eq!(ids.allocate(), 1);
    assert_eq!(ids.allocate(), 2);
}

#[test]
fn only_player_left_names_a_departure() {
    assert_eq!(ServerMessage::PlayerLeft { id: 4 }.departed(), Some(4));
    assert_eq!(ServerMessage::PlayerJoined { id: 4 }.departed(), None);
    assert_eq!(ServerMessage::PlayerHealthChange { id: 4, health: 0 }.departed(), None);
}
