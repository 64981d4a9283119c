//! Session lifecycle: state machine transitions, the grace timer, and
//! entity teardown.

use flappy_core::entity::{Entity, EntityKind};
use flappy_core::state::{AppState, Backdrop, GameState, MenuButtonAction, SpawnTimer};
use flappy_core::world::World;

fn count_kind(w: &World, kind: EntityKind) -> usize {
    w.entities.iter().filter(|e| e.kind == kind).count()
}

fn start_session() -> World {
    let mut w = World::new();
    let exited = w.menu_action(MenuButtonAction::Play);
    assert!(!exited);
    w
}

#[test]
fn fresh_world_starts_on_menu() {
    let w = World::new();
    assert_eq!(w.app_state, AppState::MainMenu);
    assert_eq!(w.game_state, GameState::Playing);
    assert_eq!(w.score.0, 0);
    assert_eq!(w.backdrop, Backdrop::Grey);
    assert_eq!(w.entities.len(), 1);
    assert_eq!(w.entities[0].kind, EntityKind::MenuUi);
    assert!(!w.entities[0].session);
    assert_eq!(w.pipe_timer.elapsed, 3000);
    assert_eq!(w.pipe_timer.threshold, 2500);
    assert_eq!(w.cloud_timer.threshold, 600);
    assert_eq!(w.gameover_timer.threshold, 5000);
}

#[test]
fn entering_play_spawns_actor_and_score_display() {
    let w = start_session();
    assert_eq!(w.app_state, AppState::Playing);
    assert_eq!(w.game_state, GameState::Playing);
    assert_eq!(w.backdrop, Backdrop::Sky);
    assert_eq!(w.score.0, 0);
    assert_eq!(count_kind(&w, EntityKind::MenuUi), 0);
    assert_eq!(count_kind(&w, EntityKind::Bird), 1);
    assert_eq!(count_kind(&w, EntityKind::ScoreText), 1);
    let bird = w.entities.iter().find(|e| e.kind == EntityKind::Bird).unwrap();
    assert_eq!(bird.x, -400);
    assert_eq!(bird.y, 0);
    assert_eq!(bird.vy, 0);
    assert!(bird.session);
}

#[test]
fn menu_exit_requests_termination_and_changes_nothing() {
    let mut w = World::new();
    let before = w.entities.len();
    let exited = w.menu_action(MenuButtonAction::Exit);
    assert!(exited);
    assert_eq!(w.app_state, AppState::MainMenu);
    assert_eq!(w.entities.len(), before);
}

#[test]
fn collision_kills_exactly_once_and_death_latches() {
    let mut w = start_session();
    w.tick(false, 0, &vec![], &vec![]);
    let barrier = w
        .entities
        .iter()
        .find(|e| e.kind == EntityKind::Pipe)
        .map(|e| e.id)
        .unwrap();
    assert_eq!(w.game_state, GameState::Playing);
    w.bird_pipe_collide(&vec![barrier], &vec![]);
    assert_eq!(w.game_state, GameState::Dead);
    // Further ticks never revive the session on their own.
    w.tick(true, 100, &vec![], &vec![]);
    assert_eq!(w.game_state, GameState::Dead);
    w.tick(false, 100, &vec![], &vec![]);
    assert_eq!(w.game_state, GameState::Dead);
}

#[test]
fn revive_restores_play_sub_mode_only() {
    let mut w = start_session();
    w.kill();
    assert_eq!(w.game_state, GameState::Dead);
    let entities_before = w.entities.len();
    w.revive();
    assert_eq!(w.game_state, GameState::Playing);
    assert_eq!(w.entities.len(), entities_before);
}

#[test]
fn grace_timer_returns_to_menu_after_threshold() {
    let mut w = start_session();
    w.kill();
    w.gameover(3000);
    assert_eq!(w.app_state, AppState::Playing);
    assert_eq!(w.gameover_timer.elapsed, 3000);
    w.gameover(3000);
    // 3000 is not strictly above 5000 yet, so it only accumulates.
    assert_eq!(w.app_state, AppState::Playing);
    assert_eq!(w.gameover_timer.elapsed, 6000);
    w.gameover(0);
    // 6000 exceeds the 5000 grace threshold: back to the menu, timer zero.
    assert_eq!(w.app_state, AppState::MainMenu);
    assert_eq!(w.gameover_timer.elapsed, 0);
    assert_eq!(w.backdrop, Backdrop::Grey);
    assert_eq!(w.entities.iter().filter(|e| e.session).count(), 0);
}

#[test]
fn session_exit_removes_session_entities_and_keeps_menu_ones() {
    let mut w = start_session();
    w.tick(false, 0, &vec![], &vec![]);
    assert!(w.entities.iter().any(|e| e.session));
    // A persistent menu element sits in the arena alongside the session.
    let marker_id = w.next_id;
    let mut marker = w.entities[0];
    marker.id = marker_id;
    marker.kind = EntityKind::MenuUi;
    marker.parent = None;
    marker.session = false;
    marker.x = 77;
    w.entities.push(marker);
    w.next_id += 1;
    w.exit_playing();
    assert_eq!(w.app_state, AppState::MainMenu);
    assert_eq!(w.entities.iter().filter(|e| e.session).count(), 0);
    assert_eq!(count_kind(&w, EntityKind::Bird), 0);
    assert_eq!(count_kind(&w, EntityKind::ScoreText), 0);
    // The marker survived untouched, and a fresh menu element was spawned.
    assert!(w.entities.iter().any(|e| e.id == marker_id && e.x == 77));
    assert_eq!(count_kind(&w, EntityKind::MenuUi), 2);
}

#[test]
fn replay_after_death_revives_and_resets_score() {
    let mut w = start_session();
    w.tick(false, 0, &vec![], &vec![]);
    let gap = w
        .entities
        .iter()
        .find(|e| e.kind == EntityKind::PipeGap)
        .map(|e| e.id)
        .unwrap();
    w.bird_pipe_collide(&vec![], &vec![gap]);
    assert_eq!(w.score.0, 1);
    w.kill();
    w.gameover(6000);
    w.gameover(0);
    assert_eq!(w.app_state, AppState::MainMenu);
    assert_eq!(w.game_state, GameState::Dead);
    let exited = w.menu_action(MenuButtonAction::Play);
    assert!(!exited);
    assert_eq!(w.game_state, GameState::Playing);
    assert_eq!(w.score.0, 0);
}

#[test]
fn spawn_timer_fires_strictly_above_threshold_and_resets() {
    let mut t = SpawnTimer { elapsed: 2500, threshold: 2500 };
    assert!(!t.advance(10));
    assert_eq!(t.elapsed, 2510);
    assert!(t.advance(0));
    assert_eq!(t.elapsed, 0);
    assert!(!t.advance(2501));
    assert!(t.advance(7));
    assert_eq!(t.elapsed, 0);
}

#[test]
fn menu_tick_changes_nothing() {
    let mut w = World::new();
    let entities_before = w.entities.len();
    let score_before = w.score.0;
    w.tick(true, 5000, &vec![], &vec![]);
    assert_eq!(w.app_state, AppState::MainMenu);
    assert_eq!(w.entities.len(), entities_before);
    assert_eq!(w.score.0, score_before);
    assert_eq!(w.pipe_timer.elapsed, 3000);
}

#[test]
fn menu_marker_entity_shape() {
    let w = World::new();
    let menu: &Entity = &w.entities[0];
    assert_eq!(menu.id, 0);
    assert!(menu.parent.is_none());
    assert_eq!(menu.vx, 0);
}
