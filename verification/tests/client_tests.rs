use std::collections::HashMap;
use bevy_math::Vec2;
use platformer::constants::MAX_HP;
use platformer::defs::{Player, PlayerInterpolater, TimeStampedPlayer};
use platformer::messages::handle_msg;
use platformer::network::ServerMessage;

#[test]
fn new_player_has_full_health_at_origin() {
    let p = Player::new();
    assert_eq!(p.health, MAX_HP);
    assert_eq!(p.pos, Vec2::ZERO);
    assert_eq!(p.vel, Vec2::ZERO);
    assert_eq!(p.mouse, Vec2::ZERO);
    let s = TimeStampedPlayer::new();
    assert_eq!(s.player.health, MAX_HP);
}

#[test]
fn tracker_starts_from_one_sample() {
    let p = Player { health: 40, pos: Vec2::new(1.0, 2.0), vel: Vec2::ZERO, mouse: Vec2::ZERO };
    let e = PlayerInterpolater::from(p);
    assert!(e.previous().is_none());
    let n = e.newest().unwrap();
    assert_eq!(n.player.health, 40);
    assert_eq!(n.player.pos, Vec2::new(1.0, 2.0));
    assert_eq!(e.pending_shots(), 0);
}

#[test]
fn shoot_undoes_inc_shots() {
    let mut e = PlayerInterpolater::from(Player::new());
    assert!(!e.shoot());
    e.inc_shots();
    e.inc_shots();
    assert_eq!(e.pending_shots(), 2);
    assert!(e.shoot());
    assert!(e.shoot());
    assert!(!e.shoot());
    assert_eq!(e.pending_shots(), 0);
}

#[test]
fn position_and_cursor_share_a_sample() {
    let mut e = PlayerInterpolater::from(Player::new());
    e.update_pos(Vec2::new(1.0, 1.0));
    e.update_mouse(Vec2::new(2.0, 2.0));
    assert!(e.previous().is_none());
    let n = e.newest().unwrap();
    assert_eq!(n.player.pos, Vec2::new(1.0, 1.0));
    assert_eq!(n.player.mouse, Vec2::new(2.0, 2.0));
}

#[test]
fn second_position_starts_a_sample() {
    let mut e = PlayerInterpolater::from(Player::new());
    e.update_pos(Vec2::new(1.0, 0.0));
    e.update_pos(Vec2::new(2.0, 0.0));
    assert_eq!(e.previous().unwrap().player.pos, Vec2::new(1.0, 0.0));
    assert_eq!(e.newest().unwrap().player.pos, Vec2::new(2.0, 0.0));
    e.update_mouse(Vec2::new(5.0, 5.0));
    assert_eq!(e.previous().unwrap().player.pos, Vec2::new(1.0, 0.0));
    assert_eq!(e.newest().unwrap().player.mouse, Vec2::new(5.0, 5.0));
    e.update_mouse(Vec2::new(6.0, 6.0));
    assert_eq!(e.previous().unwrap().player.mouse, Vec2::new(5.0, 5.0));
    assert_eq!(e.newest().unwrap().player.mouse, Vec2::new(6.0, 6.0));
    assert_eq!(e.newest().unwrap().player.pos, Vec2::new(2.0, 0.0));
}

#[test]
fn update_time_pushes_newest_back() {
    let mut e = PlayerInterpolater::from(Player::new());
    let mut s = TimeStampedPlayer::new();
    s.player.health = 3;
    e.update_time(s);
    assert_eq!(e.previous().unwrap().player.health, MAX_HP);
    assert_eq!(e.newest().unwrap().player.health, 3);
}

#[test]
fn health_change_sets_newest_health_only() {
    let mut e = PlayerInterpolater::from(Player::new());
    e.update_pos(Vec2::new(1.0, 0.0));
    e.update_pos(Vec2::new(2.0, 0.0));
    e.health_change(10);
    assert_eq!(e.newest().unwrap().player.health, 10);
    assert_eq!(e.previous().unwrap().player.health, MAX_HP);
}

#[test]
fn notify_id_sets_own_id() {
    let mut my_id = None;
    let mut enemies = HashMap::new();
    handle_msg(&mut my_id, &mut enemies, ServerMessage::NotifyId { id: 9 });
    assert_eq!(my_id, Some(9));
    assert!(enemies.is_empty());
}

#[test]
fn messages_start_trackers() {
    let mut my_id = None;
    let mut enemies = HashMap::new();
    handle_msg(&mut my_id, &mut enemies, ServerMessage::PlayerShot { id: 1 });
    handle_msg(&mut my_id, &mut enemies, ServerMessage::PlayerMoved { id: 2, position: Vec2::new(3.0, 3.0) });
    handle_msg(&mut my_id, &mut enemies, ServerMessage::PlayerMouseMoved { id: 3, position: Vec2::new(4.0, 4.0) });
    handle_msg(&mut my_id, &mut enemies, ServerMessage::PlayerHealthChange { id: 4, health: 30 });
    assert_eq!(enemies.len(), 4);
    assert_eq!(enemies[&1].pending_shots(), 1);
    assert_eq!(enemies[&1].newest().unwrap().player.health, MAX_HP);
    assert_eq!(enemies[&2].newest().unwrap().player.pos, Vec2::new(3.0, 3.0));
    assert_eq!(enemies[&3].newest().unwrap().player.mouse, Vec2::new(4.0, 4.0));
    assert_eq!(enemies[&4].newest().unwrap().player.health, 30);
    assert_eq!(my_id, None);
}

#[test]
fn departed_and_dead_players_are_untracked() {
    let mut my_id = Some(0);
    let mut enemies = HashMap::new();
    handle_msg(&mut my_id, &mut enemies, ServerMessage::PlayerMoved { id: 2, position: Vec2::ZERO });
    handle_msg(&mut my_id, &mut enemies, ServerMessage::PlayerMoved { id: 3, position: Vec2::ZERO });
    handle_msg(&mut my_id, &mut enemies, ServerMessage::PlayerLeft { id: 2 });
    handle_msg(&mut my_id, &mut enemies, ServerMessage::PlayerHealthChange { id: 3, health: 0 });
    handle_msg(&mut my_id, &mut enemies, ServerMessage::PlayerHealthChange { id: 5, health: 0 });
    handle_msg(&mut my_id, &mut enemies, ServerMessage::PlayerJoined { id: 6 });
    assert!(enemies.is_empty());
    assert_eq!(my_id, Some(0));
}

#[test]
fn repeated_moves_rotate_samples_of_known_player() {
    let mut my_id = None;
    let mut enemies = HashMap::new();
    handle_msg(&mut my_id, &mut enemies, ServerMessage::PlayerMoved { id: 2, position: Vec2::new(1.0, 0.0) });
    handle_msg(&mut my_id, &mut enemies, ServerMessage::PlayerMoved { id: 2, position: Vec2::new(2.0, 0.0) });
    assert_eq!(enemies[&2].previous().unwrap().player.pos, Vec2::new(1.0, 0.0));
    assert_eq!(enemies[&2].newest().unwrap().player.pos, Vec2::new(2.0, 0.0));
}

#[test]
fn health_change_reaches_a_tracked_player() {
    let mut my_id = None;
    let mut enemies = HashMap::new();
    handle_msg(&mut my_id, &mut enemies, ServerMessage::PlayerMoved { id: 2, position: Vec2::new(1.0, 0.0) });
    handle_msg(&mut my_id, &mut enemies, ServerMessage::PlayerHealthChange { id: 2, health: 45 });
    assert_eq!(enemies[&2].newest().unwrap().player.health, 45);
    assert_eq!(enemies[&2].newest().unwrap().player.pos, Vec2::new(1.0, 0.0));
}

#[test]
fn recorded_shots_are_drawn_in_order() {
    let mut e = PlayerInterpolater::from(Player::new());
    for _ in 0..3 {
        e.inc_shots();
    }
    let fired: Vec<bool> = (0..5).map(|_| e.shoot()).collect();
    assert_eq!(fired, vec![true, true, true, false, false]);
    assert_eq!(e.pending_shots(), 0);
    assert!(e.newest().is_some());
}
