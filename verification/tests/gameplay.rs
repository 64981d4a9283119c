//! Gameplay systems: jumping, orientation, spawning, scoring, drift,
//! reaping, and the post-death slow-downs.

use flappy_core::entity::{Entity, EntityKind};
use flappy_core::state::MenuButtonAction;
use flappy_core::world::World;

fn start_session() -> World {
    let mut w = World::new();
    let exited = w.menu_action(MenuButtonAction::Play);
    assert!(!exited);
    w
}

fn bird(w: &World) -> &Entity {
    w.entities.iter().find(|e| e.kind == EntityKind::Bird).unwrap()
}

#[test]
fn jump_hard_resets_vertical_velocity() {
    let mut w = start_session();
    w.sync_bird(12, -300);
    w.jump(true);
    assert_eq!(bird(&w).vy, 425);
    // The impulse is a hard reset, not additive: a fast rise is reset too.
    w.sync_bird(12, 9000);
    w.jump(true);
    assert_eq!(bird(&w).vy, 425);
}

#[test]
fn jump_without_press_changes_nothing() {
    let mut w = start_session();
    w.sync_bird(0, -300);
    w.jump(false);
    assert_eq!(bird(&w).vy, -300);
}

#[test]
fn jump_is_ignored_while_dead() {
    let mut w = start_session();
    w.sync_bird(0, -300);
    w.kill();
    w.jump(true);
    assert_eq!(bird(&w).vy, -300);
}

#[test]
fn held_reset_key_recentres_the_actor() {
    let mut w = start_session();
    w.sync_bird(333, -500);
    w.reset_on_esc(false);
    assert_eq!((bird(&w).y, bird(&w).vy), (333, -500));
    w.reset_on_esc(true);
    assert_eq!((bird(&w).y, bird(&w).vy), (0, 0));
}

#[test]
fn orientation_is_tenth_of_velocity_clamped() {
    let mut w = start_session();
    let cases: [(i64, i64); 9] = [
        (0, 0),
        (100, 10),
        (449, 44),
        (450, 45),
        (i64::MAX, 45),
        (-449, -44),
        (-899, -89),
        (-900, -90),
        (i64::MIN, -90),
    ];
    for (vy, expected) in cases {
        w.sync_bird(0, vy);
        w.rotate_based_on_velocity();
        assert_eq!(bird(&w).angle, expected, "vy {vy}");
    }
}

#[test]
fn preloaded_pipe_timer_spawns_on_first_tick() {
    let mut w = start_session();
    // Threshold 2.5 time-units, accumulator pre-loaded to 3.0: the very
    // first evaluated tick spawns, and the accumulator resets to zero.
    assert_eq!(w.pipe_timer.elapsed, 3000);
    assert_eq!(w.pipe_timer.threshold, 2500);
    w.tick(false, 0, &vec![], &vec![]);
    assert_eq!(w.pipe_timer.elapsed, 0);
    let gaps: Vec<&Entity> =
        w.entities.iter().filter(|e| e.kind == EntityKind::PipeGap).collect();
    let barriers: Vec<&Entity> =
        w.entities.iter().filter(|e| e.kind == EntityKind::Pipe).collect();
    assert_eq!(gaps.len(), 1);
    assert_eq!(barriers.len(), 2);
    let gap = gaps[0];
    assert_eq!(gap.x, 1200);
    assert_eq!(gap.vx, -200);
    assert!(gap.y >= -375 && gap.y < 375);
    assert!(!gap.interacted);
    for b in &barriers {
        assert_eq!(b.parent, Some(gap.id));
        assert_eq!(b.x, 1200);
        assert_eq!(b.vx, -200);
    }
    let mut offsets: Vec<i64> = barriers.iter().map(|b| b.y - gap.y).collect();
    offsets.sort();
    assert_eq!(offsets, vec![-588, 588]);
}

#[test]
fn pipe_spawner_waits_below_threshold() {
    let mut w = start_session();
    w.tick(false, 0, &vec![], &vec![]);
    let count = w.entities.len();
    // 2400 accumulated: not strictly above 2500, so no second pair yet.
    w.tick(false, 2400, &vec![], &vec![]);
    assert_eq!(
        w.entities.iter().filter(|e| e.kind == EntityKind::PipeGap).count(),
        1
    );
    assert!(w.entities.len() <= count + 1); // at most a cloud appeared
    // Now 2501 accumulated: the next evaluated tick spawns a second pair.
    w.tick(false, 101, &vec![], &vec![]);
    w.tick(false, 0, &vec![], &vec![]);
    assert_eq!(
        w.entities.iter().filter(|e| e.kind == EntityKind::PipeGap).count(),
        2
    );
}

#[test]
fn gap_passage_scores_exactly_once() {
    let mut w = start_session();
    w.tick(false, 0, &vec![], &vec![]);
    let gap = w
        .entities
        .iter()
        .find(|e| e.kind == EntityKind::PipeGap)
        .map(|e| e.id)
        .unwrap();
    w.bird_pipe_collide(&vec![], &vec![gap]);
    assert_eq!(w.score.0, 1);
    let flagged = w.entities.iter().find(|e| e.id == gap).unwrap();
    assert!(flagged.interacted);
    // The same sensor overlapping again never scores again.
    w.bird_pipe_collide(&vec![], &vec![gap]);
    assert_eq!(w.score.0, 1);
    w.bird_pipe_collide(&vec![], &vec![gap, gap]);
    assert_eq!(w.score.0, 1);
}

#[test]
fn score_display_follows_score() {
    let mut w = start_session();
    w.tick(false, 0, &vec![], &vec![]);
    let gap = w
        .entities
        .iter()
        .find(|e| e.kind == EntityKind::PipeGap)
        .map(|e| e.id)
        .unwrap();
    w.tick(false, 0, &vec![], &vec![gap]);
    assert_eq!(w.score.0, 1);
    let text = w.entities.iter().find(|e| e.kind == EntityKind::ScoreText).unwrap();
    assert_eq!(text.shown_score, 1);
}

#[test]
fn score_is_monotone_over_ticks() {
    let mut w = start_session();
    let mut last = w.score.0;
    for i in 0..40u64 {
        let overlaps: Vec<u64> =
            w.entities.iter().filter(|e| e.kind == EntityKind::PipeGap).map(|e| e.id).collect();
        let contacts: Vec<u64> = if i == 25 {
            w.entities.iter().filter(|e| e.kind == EntityKind::Pipe).map(|e| e.id).collect()
        } else {
            vec![]
        };
        w.tick(i % 3 == 0, 400, &contacts, &overlaps);
        assert!(w.score.0 >= last);
        last = w.score.0;
    }
}

#[test]
fn drift_moves_entities_left_and_reaper_uses_strict_bound() {
    let mut w = start_session();
    w.tick(false, 0, &vec![], &vec![]);
    // 11995 ms at -200 units per second moves the pair from 1200 to -1199.
    w.drift(11995);
    let gap = w.entities.iter().find(|e| e.kind == EntityKind::PipeGap).unwrap();
    assert_eq!(gap.x, -1199);
    w.delete_offscreen_entities();
    assert_eq!(w.entities.iter().filter(|e| e.kind == EntityKind::PipeGap).count(), 1);
    // Two more units, to -1201, is strictly past -1200: reaped, with both
    // barriers leaving together with their sensor.
    w.drift(10);
    let gap = w.entities.iter().find(|e| e.kind == EntityKind::PipeGap).unwrap();
    assert_eq!(gap.x, -1201);
    w.delete_offscreen_entities();
    assert_eq!(w.entities.iter().filter(|e| e.kind == EntityKind::PipeGap).count(), 0);
    assert_eq!(w.entities.iter().filter(|e| e.kind == EntityKind::Pipe).count(), 0);
    // The actor is exempt from reaping wherever it stands.
    assert_eq!(w.entities.iter().filter(|e| e.kind == EntityKind::Bird).count(), 1);
}

#[test]
fn cloud_spawner_draws_a_category() {
    let mut w = start_session();
    for _ in 0..30 {
        let before = w.entities.len();
        w.tick(false, 601, &vec![], &vec![]);
        let clouds: Vec<&Entity> =
            w.entities.iter().filter(|e| e.kind == EntityKind::Cloud).collect();
        for c in &clouds {
            // Spawned at the shared off-screen position, clouds only ever
            // drift left from there.
            assert!(c.x <= 1200);
            assert!(c.y >= -540 && c.y < 540);
            assert!(c.parent.is_none());
            if c.vx == -150 {
                assert_eq!((c.depth, c.scale_pct, c.alpha_pct), (-10, 20, 50));
            } else {
                assert_eq!(c.vx, -125);
                assert_eq!((c.depth, c.scale_pct, c.alpha_pct), (-15, 40, 30));
            }
        }
        assert!(w.entities.len() <= before + 4);
    }
}

#[test]
fn slow_down_decays_to_asymmetric_floors() {
    let mut w = start_session();
    w.tick(false, 0, &vec![], &vec![]);
    // A decorative cloud placed by hand, so the decay is deterministic.
    let cloud_id = w.next_id;
    let mut cloud = w.entities[0];
    cloud.id = cloud_id;
    cloud.kind = EntityKind::Cloud;
    cloud.parent = None;
    cloud.session = true;
    cloud.x = 600;
    cloud.vx = -150;
    w.entities.push(cloud);
    w.next_id += 1;
    w.kill();
    for _ in 0..200 {
        w.pipe_slow_down();
        w.cloud_slow_down();
    }
    // Obstacle pairs coast to a stop; clouds keep a residual drift.
    for e in &w.entities {
        match e.kind {
            EntityKind::PipeGap | EntityKind::Pipe => assert_eq!(e.vx, 0),
            EntityKind::Cloud => assert_eq!(e.vx, -25),
            _ => {}
        }
    }
    // One step of the decay is exactly the fixed increment.
    let mut w2 = start_session();
    w2.tick(false, 0, &vec![], &vec![]);
    w2.kill();
    w2.pipe_slow_down();
    let gap = w2.entities.iter().find(|e| e.kind == EntityKind::PipeGap).unwrap();
    assert_eq!(gap.vx, -197);
}

#[test]
fn slow_down_is_inactive_while_alive() {
    let mut w = start_session();
    w.tick(false, 0, &vec![], &vec![]);
    w.pipe_slow_down();
    let gap = w.entities.iter().find(|e| e.kind == EntityKind::PipeGap).unwrap();
    assert_eq!(gap.vx, -200);
}

#[test]
fn dead_session_spawns_no_pipes() {
    let mut w = start_session();
    w.tick(false, 0, &vec![], &vec![]);
    w.kill();
    let pipes_before = w.entities.iter().filter(|e| e.kind == EntityKind::PipeGap).count();
    for _ in 0..8 {
        w.tick(false, 700, &vec![], &vec![]);
    }
    let pipes_after = w.entities.iter().filter(|e| e.kind == EntityKind::PipeGap).count();
    assert_eq!(pipes_before, pipes_after);
}
