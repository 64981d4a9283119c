//! The executable game world and its per-tick systems. Every system's
//! contract equates the world's view with the matching model transformer
//! from `crate::model`.

use vstd::prelude::*;

use crate::entity::{
    angle_deg, barrier_entity, bird_entity, cloud_entity, drift_e, gap_hit, gap_sensor_entity,
    jump_e, linked, menu_entity, reap_keep, resolve_e, rotate_e, score_text_entity, show_score_e,
    ANGLE_MAX_DEG, ANGLE_MIN_DEG,
    slow_e, sync_bird_e, wf_entity, Entity, EntityKind, BIRD_X, CLOUD_FAR_SPEED,
    CLOUD_FLOOR_SPEED, CLOUD_MAXHEIGHT, CLOUD_NEAR_SPEED, DESPAWN_X, DRIFT_X_GUARD, JUMPHEIGHT,
    MAXHEIGHT, PIPE_HALF_SPAN, PIPE_SPEED, SLOWDOWN_STEP, SPAWNPOS_X,
};
use crate::model::{
    barrier_hit, cloud_slowdown_m, cloud_spawn_m, drift_m, enter_playing_m, gameover_m,
    hits_count, init_m, jump_m, lemma_append_trio, lemma_hits_count_bounds, lemma_map_arena,
    lemma_menu_exit_arena, lemma_push_fresh, lemma_reap_arena, lemma_teardown_arena,
    menu_exit_seq, pipe_slowdown_m, pipe_spawn_m, pipe_trio, reap_m, reap_seq, resolve_m,
    rotate_m, sync_bird_m, teardown_seq, tick_model, to_menu_m, update_score_m, WorldM,
};
use crate::rng::rand_range;
use crate::state::{
    AppState, Backdrop, GameState, MenuButtonAction, Score, SpawnTimer, CLOUD_SPAWN_THRESHOLD_MS,
    GAMEOVER_THRESHOLD_MS, MAX_TICK_MS, PIPE_SPAWN_INITIAL_MS, PIPE_SPAWN_THRESHOLD_MS,
};

verus! {

/// The game world: modes, score, timers, the id allocator, and the
/// entity arena, threaded through the frame loop as one context.
pub struct World {
    pub app_state: AppState,
    pub game_state: GameState,
    pub backdrop: Backdrop,
    pub score: Score,
    /// Obstacle spawn timer.
    pub pipe_timer: SpawnTimer,
    /// Decorative spawn timer.
    pub cloud_timer: SpawnTimer,
    /// Post-death grace timer.
    pub gameover_timer: SpawnTimer,
    /// Next arena id to hand out.
    pub next_id: u64,
    /// The entity arena.
    pub entities: Vec<Entity>,
}

impl View for World {
    type V = WorldM;

    open spec fn view(&self) -> WorldM {
        WorldM {
            app_state: self.app_state,
            game_state: self.game_state,
            backdrop: self.backdrop,
            score: self.score.0,
            pipe_timer: self.pipe_timer,
            cloud_timer: self.cloud_timer,
            gameover_timer: self.gameover_timer,
            next_id: self.next_id,
            entities: self.entities@,
        }
    }
}

impl World {
    /// Well-formedness of the whole world; see `WorldM::wf`.
    pub open spec fn wf(self) -> bool {
        self@.wf()
    }

    /// Jump input: on a pressed edge while the actor lives, hard-reset
    /// its vertical velocity to the jump constant, whatever its prior
    /// sign or magnitude.
    pub fn jump(&mut self, pressed: bool)
        requires
            old(self).wf(),
        ensures
            final(self)@ == jump_m(old(self)@, pressed),
            final(self).wf(),
            pressed && old(self).game_state is Playing ==> forall|i: int|
                0 <= i < final(self)@.entities.len()
                    && (#[trigger] final(self)@.entities[i]).kind is Bird
                    ==> final(self)@.entities[i].vy == JUMPHEIGHT,
    {
        let ghost orig = self@;
        if self.game_state == GameState::Playing && pressed {
            let n = self.entities.len();
            let mut i: usize = 0;
            while i < n
                invariant
                    i <= n,
                    self.entities@.len() == n,
                    orig.entities.len() == n,
                    self@ == (WorldM { entities: self@.entities, ..orig }),
                    forall|j: int| 0 <= j < i ==> self.entities@[j] == jump_e(orig.entities[j]),
                    forall|j: int| i <= j < n ==> self.entities@[j] == orig.entities[j],
                decreases n - i,
            {
                if self.entities[i].kind == EntityKind::Bird {
                    let mut e = self.entities[i];
                    e.vy = JUMPHEIGHT;
                    self.entities.set(i, e);
                }
                i += 1;
            }
            proof {
                let m = jump_m(orig, pressed);
                assert forall|j: int| 0 <= j < n implies self.entities@[j] == m.entities[j] by {
                    assert(m.entities[j] == jump_e(orig.entities[j]));
                }
                assert(self@.entities =~= m.entities);
                assert(self@ =~= m);
            }
        }
        proof {
            lemma_map_arena(orig.entities, |e: Entity| jump_e(e), orig.next_id);
            if !(self@ == orig) {
                assert(self@.entities =~= orig.entities.map_values(|e: Entity| jump_e(e)));
            }
        }
    }

    /// Orientation pass: the actor's angle tracks a tenth of its
    /// vertical velocity, clamped to the nose-down/nose-up band.
    pub fn rotate_based_on_velocity(&mut self)
        requires
            old(self).wf(),
        ensures
            final(self)@ == rotate_m(old(self)@),
            final(self).wf(),
            forall|i: int|
                0 <= i < final(self)@.entities.len()
                    && (#[trigger] final(self)@.entities[i]).kind is Bird
                    ==> ANGLE_MIN_DEG <= final(self)@.entities[i].angle <= ANGLE_MAX_DEG,
    {
        let ghost orig = self@;
        let n = self.entities.len();
        let mut i: usize = 0;
        while i < n
            invariant
                i <= n,
                self.entities@.len() == n,
                orig.entities.len() == n,
                self@ == (WorldM { entities: self@.entities, ..orig }),
                forall|j: int| 0 <= j < i ==> self.entities@[j] == rotate_e(orig.entities[j]),
                forall|j: int| i <= j < n ==> self.entities@[j] == orig.entities[j],
            decreases n - i,
        {
            if self.entities[i].kind == EntityKind::Bird {
                let mut e = self.entities[i];
                let vy = e.vy;
                let angle: i64 = if vy >= 450 {
                    45
                } else if vy <= -900 {
                    -90
                } else if vy >= 0 {
                    proof {
                        assert((vy as u64) / 10 <= 44) by (nonlinear_arith)
                            requires 0 <= vy < 450;
                    }
                    ((vy as u64) / 10) as i64
                } else {
                    proof {
                        assert(((-vy) as u64) / 10 <= 89) by (nonlinear_arith)
                            requires 0 < -vy < 900;
                    }
                    -((((0 - vy) as u64) / 10) as i64)
                };
                proof {
                    assert(angle == angle_deg(e.vy as int) as i64);
                }
                e.angle = angle;
                self.entities.set(i, e);
            }
            i += 1;
        }
        proof {
            let m = rotate_m(orig);
            assert forall|j: int| 0 <= j < n implies self.entities@[j] == m.entities[j] by {
                assert(m.entities[j] == rotate_e(orig.entities[j]));
            }
            assert(self@.entities =~= m.entities);
            assert(self@ =~= m);
            lemma_map_arena(orig.entities, |e: Entity| rotate_e(e), orig.next_id);
            assert(self@.entities =~= orig.entities.map_values(|e: Entity| rotate_e(e)));
        }
    }

    /// Actor motion report: write back the vertical position and
    /// velocity that the physics collaborator integrated this tick.
    pub fn sync_bird(&mut self, y: i64, vy: i64)
        requires
            old(self).wf(),
        ensures
            final(self)@ == sync_bird_m(old(self)@, y, vy),
            final(self).wf(),
    {
        let ghost orig = self@;
        let n = self.entities.len();
        let mut i: usize = 0;
        while i < n
            invariant
                i <= n,
                self.entities@.len() == n,
                orig.entities.len() == n,
                self@ == (WorldM { entities: self@.entities, ..orig }),
                forall|j: int|
                    0 <= j < i ==> self.entities@[j] == sync_bird_e(orig.entities[j], y, vy),
                forall|j: int| i <= j < n ==> self.entities@[j] == orig.entities[j],
            decreases n - i,
        {
            if self.entities[i].kind == EntityKind::Bird {
                let mut e = self.entities[i];
                e.y = y;
                e.vy = vy;
                self.entities.set(i, e);
            }
            i += 1;
        }
        proof {
            let m = sync_bird_m(orig, y, vy);
            assert forall|j: int| 0 <= j < n implies self.entities@[j] == m.entities[j] by {
                assert(m.entities[j] == sync_bird_e(orig.entities[j], y, vy));
            }
            assert(self@.entities =~= m.entities);
            assert(self@ =~= m);
            lemma_map_arena(orig.entities, |e: Entity| sync_bird_e(e, y, vy), orig.next_id);
            assert(self@.entities =~= orig.entities.map_values(|e: Entity| sync_bird_e(e, y, vy)));
        }
    }

    /// Debug reset, active while the reset key is held: the actor is
    /// put back at the vertical origin with no vertical speed.
    pub fn reset_on_esc(&mut self, pressed: bool)
        requires
            old(self).wf(),
        ensures
            final(self)@ == (if pressed {
                sync_bird_m(old(self)@, 0, 0)
            } else {
                old(self)@
            }),
            final(self).wf(),
    {
        if pressed {
            self.sync_bird(0, 0);
        }
    }

    /// Constant-velocity drift: every entity advances by its horizontal
    /// velocity over the tick's `dt_ms` milliseconds.
    pub fn drift(&mut self, dt_ms: u64)
        requires
            old(self).wf(),
            dt_ms <= MAX_TICK_MS,
        ensures
            final(self)@ == drift_m(old(self)@, dt_ms),
            final(self).wf(),
    {
        let ghost orig = self@;
        let n = self.entities.len();
        let mut i: usize = 0;
        while i < n
            invariant
                i <= n,
                dt_ms <= MAX_TICK_MS,
                self.entities@.len() == n,
                orig.entities.len() == n,
                orig.wf(),
                self@ == (WorldM { entities: self@.entities, ..orig }),
                forall|j: int|
                    0 <= j < i ==> self.entities@[j] == drift_e(orig.entities[j], dt_ms),
                forall|j: int| i <= j < n ==> self.entities@[j] == orig.entities[j],
            decreases n - i,
        {
            let mut e = self.entities[i];
            proof {
                assert(wf_entity(orig.entities[i as int]));
            }
            let neg: i64 = 0 - e.vx;
            proof {
                assert((neg as u64) * dt_ms <= 200_000_000_000) by (nonlinear_arith)
                    requires 0 <= neg <= 200 && dt_ms <= 1_000_000_000;
                assert(((neg as u64) * dt_ms) as u64 / 1000 <= 200_000_000) by (nonlinear_arith)
                    requires (neg as u64) * dt_ms <= 200_000_000_000;
            }
            let shift: i64 = (((neg as u64) * dt_ms) / 1000) as i64;
            if e.x >= DRIFT_X_GUARD {
                e.x = e.x - shift;
            }
            proof {
                assert(e == drift_e(orig.entities[i as int], dt_ms));
            }
            self.entities.set(i, e);
            i += 1;
        }
        proof {
            let m = drift_m(orig, dt_ms);
            assert forall|j: int| 0 <= j < n implies self.entities@[j] == m.entities[j] by {
                assert(m.entities[j] == drift_e(orig.entities[j], dt_ms));
            }
            assert(self@.entities =~= m.entities);
            assert(self@ =~= m);
            lemma_map_arena(orig.entities, |e: Entity| drift_e(e, dt_ms), orig.next_id);
            assert(self@.entities =~= orig.entities.map_values(|e: Entity| drift_e(e, dt_ms)));
        }
    }
    /// Obstacle slow-down: while the actor is dead, every obstacle pair
    /// coasts toward a stop by a fixed step per tick.
    pub fn pipe_slow_down(&mut self)
        requires
            old(self).wf(),
        ensures
            final(self)@ == pipe_slowdown_m(old(self)@),
            final(self).wf(),
    {
        let ghost orig = self@;
        if self.game_state == GameState::Dead {
            let n = self.entities.len();
            let mut i: usize = 0;
            while i < n
                invariant
                    i <= n,
                    self.entities@.len() == n,
                    orig.entities.len() == n,
                    orig.wf(),
                    self@ == (WorldM { entities: self@.entities, ..orig }),
                    forall|j: int|
                        0 <= j < i ==> self.entities@[j] == (if orig.entities[j].kind is PipeGap
                            || orig.entities[j].kind is Pipe {
                            slow_e(orig.entities[j])
                        } else {
                            orig.entities[j]
                        }),
                    forall|j: int| i <= j < n ==> self.entities@[j] == orig.entities[j],
                decreases n - i,
            {
                let mut e = self.entities[i];
                proof {
                    assert(wf_entity(orig.entities[i as int]));
                }
                if e.kind == EntityKind::PipeGap || e.kind == EntityKind::Pipe {
                    e.vx = if e.vx + SLOWDOWN_STEP < 0 {
                        e.vx + SLOWDOWN_STEP
                    } else {
                        0
                    };
                    self.entities.set(i, e);
                }
                i += 1;
            }
            proof {
                let m = pipe_slowdown_m(orig);
                assert forall|j: int| 0 <= j < n implies self.entities@[j] == m.entities[j] by {}
                assert(self@.entities =~= m.entities);
                assert(self@ =~= m);
            }
        }
        proof {
            let f = |e: Entity| if e.kind is PipeGap || e.kind is Pipe { slow_e(e) } else { e };
            assert forall|c: Entity, p: Entity|
                c.kind is Pipe && wf_entity(c) && wf_entity(p) && linked(c, p) implies #[trigger]
                linked(f(c), f(p)) by {
                assert(f(c).vx == f(p).vx);
            }
            lemma_map_arena(orig.entities, f, orig.next_id);
            if !(self@ == orig) {
                assert(self@.entities =~= orig.entities.map_values(f));
            }
        }
    }

    /// Cloud slow-down: while the actor is dead, every cloud settles
    /// toward its residual drift by a fixed step per tick.
    pub fn cloud_slow_down(&mut self)
        requires
            old(self).wf(),
        ensures
            final(self)@ == cloud_slowdown_m(old(self)@),
            final(self).wf(),
    {
        let ghost orig = self@;
        if self.game_state == GameState::Dead {
            let n = self.entities.len();
            let mut i: usize = 0;
            while i < n
                invariant
                    i <= n,
                    self.entities@.len() == n,
                    orig.entities.len() == n,
                    orig.wf(),
                    self@ == (WorldM { entities: self@.entities, ..orig }),
                    forall|j: int|
                        0 <= j < i ==> self.entities@[j] == (if orig.entities[j].kind is Cloud {
                            slow_e(orig.entities[j])
                        } else {
                            orig.entities[j]
                        }),
                    forall|j: int| i <= j < n ==> self.entities@[j] == orig.entities[j],
                decreases n - i,
            {
                let mut e = self.entities[i];
                proof {
                    assert(wf_entity(orig.entities[i as int]));
                }
                if e.kind == EntityKind::Cloud {
                    e.vx = if e.vx + SLOWDOWN_STEP < CLOUD_FLOOR_SPEED {
                        e.vx + SLOWDOWN_STEP
                    } else {
                        CLOUD_FLOOR_SPEED
                    };
                    self.entities.set(i, e);
                }
                i += 1;
            }
            proof {
                let m = cloud_slowdown_m(orig);
                assert forall|j: int| 0 <= j < n implies self.entities@[j] == m.entities[j] by {}
                assert(self@.entities =~= m.entities);
                assert(self@ =~= m);
            }
        }
        proof {
            let f = |e: Entity| if e.kind is Cloud { slow_e(e) } else { e };
            assert forall|c: Entity, p: Entity|
                c.kind is Pipe && wf_entity(c) && wf_entity(p) && linked(c, p) implies #[trigger]
                linked(f(c), f(p)) by {
                assert(f(c).vx == f(p).vx);
            }
            lemma_map_arena(orig.entities, f, orig.next_id);
            if !(self@ == orig) {
                assert(self@.entities =~= orig.entities.map_values(f));
            }
        }
    }

    /// Collision and scoring pass, fed the physics collaborator's
    /// reports: `contacts` holds the ids of solid bodies in active
    /// contact with the actor and `overlaps` the ids of sensors the
    /// actor intersects. Any barrier contact is immediately fatal; each
    /// gap sensor first overlapped latches its flag and scores exactly
    /// once, however often it is reported again.
    pub fn bird_pipe_collide(&mut self, contacts: &Vec<u64>, overlaps: &Vec<u64>)
        requires
            old(self).wf(),
            old(self).score.0 + old(self).entities@.len() <= u32::MAX,
        ensures
            final(self)@ == resolve_m(old(self)@, contacts@, overlaps@),
            final(self).wf(),
            final(self).game_state is Dead <==> old(self).game_state is Dead || barrier_hit(
                old(self)@.entities,
                contacts@,
            ),
            final(self).score.0 >= old(self).score.0,
    {
        let ghost orig = self@;
        let n = self.entities.len();

        let mut hit = false;
        let mut i: usize = 0;
        while i < n
            invariant
                i <= n,
                self@ == orig,
                self.entities@.len() == n,
                hit <==> exists|j: int|
                    0 <= j < i && (#[trigger] self.entities@[j]).kind is Pipe
                        && contacts@.contains(self.entities@[j].id),
            decreases n - i,
        {
            let e = self.entities[i];
            if e.kind == EntityKind::Pipe && contains_id(contacts, e.id) {
                hit = true;
            }
            i += 1;
        }
        proof {
            assert(hit == barrier_hit(orig.entities, contacts@));
        }
        if hit {
            self.game_state = GameState::Dead;
        }
        let ghost mid = self@;

        let mut i: usize = 0;
        while i < n
            invariant
                i <= n,
                self.entities@.len() == n,
                orig.entities.len() == n,
                orig.score + n <= u32::MAX,
                self@ == (WorldM { score: self@.score, entities: self@.entities, ..mid }),
                mid.entities == orig.entities,
                mid.score == orig.score,
                self.score.0 == orig.score + hits_count(orig.entities.take(i as int), overlaps@),
                hits_count(orig.entities.take(i as int), overlaps@) <= i,
                forall|j: int|
                    0 <= j < i ==> self.entities@[j] == resolve_e(orig.entities[j], overlaps@),
                forall|j: int| i <= j < n ==> self.entities@[j] == orig.entities[j],
            decreases n - i,
        {
            let e = self.entities[i];
            let scored = e.kind == EntityKind::PipeGap && !e.interacted
                && contains_id(overlaps, e.id);
            if scored {
                let mut e2 = e;
                e2.interacted = true;
                self.entities.set(i, e2);
                self.score.0 = self.score.0 + 1;
            }
            proof {
                let pre = orig.entities.take(i as int);
                let post = orig.entities.take(i as int + 1);
                assert(post.drop_last() =~= pre);
                assert(post.last() == orig.entities[i as int]);
                assert(scored == gap_hit(orig.entities[i as int], overlaps@));
            }
            i += 1;
        }
        proof {
            assert(orig.entities.take(n as int) =~= orig.entities);
            lemma_hits_count_bounds(orig.entities, overlaps@);
            let m = resolve_m(orig, contacts@, overlaps@);
            assert forall|j: int| 0 <= j < n implies self.entities@[j] == m.entities[j] by {
                assert(m.entities[j] == resolve_e(orig.entities[j], overlaps@));
            }
            assert(self@.entities =~= m.entities);
            assert(self@ =~= m);
            lemma_map_arena(orig.entities, |e: Entity| resolve_e(e, overlaps@), orig.next_id);
            assert(self@.entities =~= orig.entities.map_values(
                |e: Entity| resolve_e(e, overlaps@),
            ));
        }
    }

    /// Obstacle spawner: while the actor lives, accumulate the tick's
    /// elapsed time; on firing, spawn one obstacle pair at the off-screen
    /// spawn position with its gap centre drawn uniformly from the
    /// vertical band, and reset the timer.
    pub fn spawn_pipe(&mut self, dt_ms: u64)
        requires
            old(self).wf(),
            dt_ms <= MAX_TICK_MS,
            old(self).next_id + 3 <= u64::MAX,
        ensures
            final(self).wf(),
            exists|y: i64|
                #![auto]
                -MAXHEIGHT <= y < MAXHEIGHT && final(self)@ == pipe_spawn_m(old(self)@, dt_ms, y),
    {
        let ghost orig = self@;
        if self.game_state == GameState::Playing {
            let fired = self.pipe_timer.advance(dt_ms);
            if fired {
                let y = rand_range(0 - MAXHEIGHT, MAXHEIGHT);
                let id = self.next_id;
                let gap = Entity {
                    id,
                    kind: EntityKind::PipeGap,
                    parent: None,
                    session: true,
                    x: SPAWNPOS_X,
                    y,
                    vx: PIPE_SPEED,
                    vy: 0,
                    angle: 0,
                    interacted: false,
                    depth: 0,
                    scale_pct: 100,
                    alpha_pct: 100,
                    shown_score: 0,
                };
                let top = Entity {
                    id: id + 1,
                    kind: EntityKind::Pipe,
                    parent: Some(id),
                    y: y + PIPE_HALF_SPAN,
                    scale_pct: 40,
                    ..gap
                };
                let bottom = Entity { id: id + 2, y: y - PIPE_HALF_SPAN, ..top };
                self.entities.push(gap);
                self.entities.push(top);
                self.entities.push(bottom);
                self.next_id = id + 3;
                proof {
                    assert(gap == gap_sensor_entity(id, y));
                    assert(top == barrier_entity((id + 1) as u64, id, (y + PIPE_HALF_SPAN) as i64));
                    assert(bottom == barrier_entity(
                        (id + 2) as u64,
                        id,
                        (y - PIPE_HALF_SPAN) as i64,
                    ));
                    assert(self@.entities =~= orig.entities + pipe_trio(id, y));
                    assert(self@ =~= pipe_spawn_m(orig, dt_ms, y));
                    lemma_append_trio(orig.entities, id, y);
                }
            } else {
                proof {
                    assert(self@ =~= pipe_spawn_m(orig, dt_ms, 0));
                }
            }
        } else {
            proof {
                assert(self@ =~= pipe_spawn_m(orig, dt_ms, 0));
            }
        }
    }

    /// Decorative spawner: accumulate the tick's elapsed time in every
    /// play sub-mode; on firing, draw a category, spawning a near cloud
    /// on 1 and a far cloud on 2 at a uniformly drawn height, and spawn
    /// nothing otherwise.
    pub fn cloud_spawn(&mut self, dt_ms: u64)
        requires
            old(self).wf(),
            dt_ms <= MAX_TICK_MS,
            old(self).next_id < u64::MAX,
        ensures
            final(self).wf(),
            exists|category: i64, y: i64|
                #![auto]
                1 <= category < 4 && -CLOUD_MAXHEIGHT <= y < CLOUD_MAXHEIGHT && final(self)@
                    == cloud_spawn_m(old(self)@, dt_ms, category, y),
    {
        let ghost orig = self@;
        let fired = self.cloud_timer.advance(dt_ms);
        if fired {
            let category = rand_range(1, 4);
            if category == 1 || category == 2 {
                let y = rand_range(0 - CLOUD_MAXHEIGHT, CLOUD_MAXHEIGHT);
                let near = category == 1;
                let id = self.next_id;
                let cloud = Entity {
                    id,
                    kind: EntityKind::Cloud,
                    parent: None,
                    session: true,
                    x: SPAWNPOS_X,
                    y,
                    vx: if near {
                        CLOUD_NEAR_SPEED
                    } else {
                        CLOUD_FAR_SPEED
                    },
                    vy: 0,
                    angle: 0,
                    interacted: false,
                    depth: if near {
                        -10
                    } else {
                        -15
                    },
                    scale_pct: if near {
                        20
                    } else {
                        40
                    },
                    alpha_pct: if near {
                        50
                    } else {
                        30
                    },
                    shown_score: 0,
                };
                self.entities.push(cloud);
                self.next_id = id + 1;
                proof {
                    assert(cloud == cloud_entity(id, y, near));
                    assert(self@.entities =~= orig.entities.push(cloud_entity(id, y, near)));
                    assert(self@ =~= cloud_spawn_m(orig, dt_ms, category, y));
                    lemma_push_fresh(orig.entities, id, cloud);
                }
            } else {
                proof {
                    assert(self@ =~= cloud_spawn_m(orig, dt_ms, category, 0));
                }
            }
        } else {
            proof {
                assert(self@ =~= cloud_spawn_m(orig, dt_ms, 3, 0));
            }
        }
    }

    /// Score display sync: every score display entity shows the current
    /// score.
    pub fn update_score(&mut self)
        requires
            old(self).wf(),
        ensures
            final(self)@ == update_score_m(old(self)@),
            final(self).wf(),
    {
        let ghost orig = self@;
        let n = self.entities.len();
        let mut i: usize = 0;
        while i < n
            invariant
                i <= n,
                self.entities@.len() == n,
                orig.entities.len() == n,
                self@ == (WorldM { entities: self@.entities, ..orig }),
                forall|j: int|
                    0 <= j < i ==> self.entities@[j] == show_score_e(
                        orig.entities[j],
                        orig.score,
                    ),
                forall|j: int| i <= j < n ==> self.entities@[j] == orig.entities[j],
            decreases n - i,
        {
            if self.entities[i].kind == EntityKind::ScoreText {
                let mut e = self.entities[i];
                e.shown_score = self.score.0;
                self.entities.set(i, e);
            }
            i += 1;
        }
        proof {
            let m = update_score_m(orig);
            assert forall|j: int| 0 <= j < n implies self.entities@[j] == m.entities[j] by {
                assert(m.entities[j] == show_score_e(orig.entities[j], orig.score));
            }
            assert(self@.entities =~= m.entities);
            assert(self@ =~= m);
            lemma_map_arena(
                orig.entities,
                |e: Entity| show_score_e(e, orig.score),
                orig.next_id,
            );
            assert(self@.entities =~= orig.entities.map_values(
                |e: Entity| show_score_e(e, orig.score),
            ));
        }
    }
    /// Lifecycle reaper: while play is live, destroy every session
    /// entity other than the actor that has scrolled strictly past the
    /// despawn bound; a pair's barriers share their sensor's position
    /// and leave together with it.
    pub fn delete_offscreen_entities(&mut self)
        requires
            old(self).wf(),
        ensures
            final(self)@ == reap_m(old(self)@),
            final(self).wf(),
    {
        let ghost orig = self@;
        let n = self.entities.len();
        let mut kept: Vec<Entity> = Vec::new();
        let mut i: usize = 0;
        while i < n
            invariant
                i <= n,
                self@ == orig,
                orig.entities.len() == n,
                kept@ == reap_seq(orig.entities.take(i as int)),
            decreases n - i,
        {
            let e = self.entities[i];
            let keep = !(e.session && !(e.kind == EntityKind::Bird) && e.x < DESPAWN_X);
            proof {
                assert(keep == reap_keep(e));
                let pre = orig.entities.take(i as int);
                let post = orig.entities.take(i as int + 1);
                assert(post.drop_last() =~= pre);
                assert(post.last() == e);
            }
            if keep {
                kept.push(e);
            }
            i += 1;
        }
        self.entities = kept;
        proof {
            assert(orig.entities.take(n as int) =~= orig.entities);
            assert(self@ =~= reap_m(orig));
            lemma_reap_arena(orig.entities, orig.next_id);
        }
    }

    /// Session teardown: destroy every session-tagged entity in one
    /// pass, whatever its position, leave persistent menu elements
    /// untouched, spawn a fresh menu element, and return to the menu
    /// with a grey backdrop.
    pub fn exit_playing(&mut self)
        requires
            old(self).wf(),
            old(self).next_id < u64::MAX,
        ensures
            final(self)@ == to_menu_m(old(self)@),
            final(self).wf(),
    {
        let ghost orig = self@;
        let n = self.entities.len();
        let mut kept: Vec<Entity> = Vec::new();
        let mut i: usize = 0;
        while i < n
            invariant
                i <= n,
                self@ == orig,
                orig.entities.len() == n,
                kept@ == teardown_seq(orig.entities.take(i as int)),
            decreases n - i,
        {
            let e = self.entities[i];
            proof {
                let pre = orig.entities.take(i as int);
                let post = orig.entities.take(i as int + 1);
                assert(post.drop_last() =~= pre);
                assert(post.last() == e);
            }
            if !e.session {
                kept.push(e);
            }
            i += 1;
        }
        self.entities = kept;
        let id = self.next_id;
        let menu = Entity {
            id,
            kind: EntityKind::MenuUi,
            parent: None,
            session: false,
            x: 0,
            y: 0,
            vx: 0,
            vy: 0,
            angle: 0,
            interacted: false,
            depth: 0,
            scale_pct: 100,
            alpha_pct: 100,
            shown_score: 0,
        };
        self.entities.push(menu);
        self.next_id = id + 1;
        self.app_state = AppState::MainMenu;
        self.backdrop = Backdrop::Grey;
        proof {
            assert(orig.entities.take(n as int) =~= orig.entities);
            assert(menu == menu_entity(id));
            assert(self@.entities =~= teardown_seq(orig.entities).push(menu_entity(id)));
            assert(self@ =~= to_menu_m(orig));
            lemma_teardown_arena(orig.entities, id);
            lemma_push_fresh(teardown_seq(orig.entities), id, menu);
        }
    }

    /// Session entry: remove the menu's own elements, spawn the actor
    /// at its origin and a score display showing zero, reset the score,
    /// set the sky backdrop, and revive a session that last ended dead.
    pub fn enter_playing(&mut self)
        requires
            old(self).wf(),
            old(self).app_state is MainMenu,
            old(self).next_id + 2 <= u64::MAX,
        ensures
            final(self)@ == enter_playing_m(old(self)@),
            final(self).wf(),
    {
        let ghost orig = self@;
        let n = self.entities.len();
        let mut kept: Vec<Entity> = Vec::new();
        let mut i: usize = 0;
        while i < n
            invariant
                i <= n,
                self@ == orig,
                orig.entities.len() == n,
                kept@ == menu_exit_seq(orig.entities.take(i as int)),
            decreases n - i,
        {
            let e = self.entities[i];
            proof {
                let pre = orig.entities.take(i as int);
                let post = orig.entities.take(i as int + 1);
                assert(post.drop_last() =~= pre);
                assert(post.last() == e);
            }
            if !(e.kind == EntityKind::MenuUi) {
                kept.push(e);
            }
            i += 1;
        }
        self.entities = kept;
        let id = self.next_id;
        let bird = Entity {
            id,
            kind: EntityKind::Bird,
            parent: None,
            session: true,
            x: BIRD_X,
            y: 0,
            vx: 0,
            vy: 0,
            angle: 0,
            interacted: false,
            depth: 0,
            scale_pct: 100,
            alpha_pct: 100,
            shown_score: 0,
        };
        let text = Entity { id: id + 1, kind: EntityKind::ScoreText, x: 0, ..bird };
        self.entities.push(bird);
        self.entities.push(text);
        self.next_id = id + 2;
        self.app_state = AppState::Playing;
        self.game_state = GameState::Playing;
        self.backdrop = Backdrop::Sky;
        self.score = Score(0);
        proof {
            assert(orig.entities.take(n as int) =~= orig.entities);
            assert(bird == bird_entity(id));
            assert(text == score_text_entity((id + 1) as u64, 0));
            assert(self@.entities =~= menu_exit_seq(orig.entities)
                .push(bird_entity(id))
                .push(score_text_entity((id + 1) as u64, 0)));
            assert(self@ =~= enter_playing_m(orig));
            lemma_menu_exit_arena(orig.entities, id);
            lemma_push_fresh(menu_exit_seq(orig.entities), id, bird);
            lemma_push_fresh(menu_exit_seq(orig.entities).push(bird), (id + 1) as u64, text);
        }
    }

    /// Kill the session: the actor has collided, so the play sub-mode
    /// latches to dead; nothing else changes.
    pub fn kill(&mut self)
        requires
            old(self).wf(),
            old(self).game_state is Playing,
        ensures
            final(self)@ == (WorldM { game_state: GameState::Dead, ..old(self)@ }),
            final(self).wf(),
    {
        self.game_state = GameState::Dead;
    }

    /// Revive a session that last ended dead, done only on session
    /// re-entry; nothing else changes.
    pub fn revive(&mut self)
        requires
            old(self).wf(),
            old(self).game_state is Dead,
        ensures
            final(self)@ == (WorldM { game_state: GameState::Playing, ..old(self)@ }),
            final(self).wf(),
    {
        self.game_state = GameState::Playing;
    }

    /// Post-death grace: while the actor is dead, accumulate the tick's
    /// elapsed time; once the grace threshold is exceeded, reset the
    /// timer to zero and end the session, tearing every session entity
    /// down and returning to the menu.
    pub fn gameover(&mut self, dt_ms: u64)
        requires
            old(self).wf(),
            dt_ms <= MAX_TICK_MS,
            old(self).next_id < u64::MAX,
        ensures
            final(self)@ == gameover_m(old(self)@, dt_ms),
            final(self).wf(),
            old(self).game_state is Dead && old(self).gameover_timer.elapsed
                > GAMEOVER_THRESHOLD_MS ==> final(self).app_state is MainMenu
                && final(self).gameover_timer.elapsed == 0,
    {
        let ghost orig = self@;
        if self.game_state == GameState::Dead {
            let fired = self.gameover_timer.advance(dt_ms);
            if fired {
                self.exit_playing();
                proof {
                    assert(self@ =~= gameover_m(orig, dt_ms));
                }
            } else {
                proof {
                    assert(self@ =~= gameover_m(orig, dt_ms));
                }
            }
        }
    }

    /// Menu action dispatch: a play press starts a session; an exit
    /// press changes nothing and asks the surrounding application to
    /// terminate.
    pub fn menu_action(&mut self, action: MenuButtonAction) -> (exit_requested: bool)
        requires
            old(self).wf(),
            old(self).app_state is MainMenu,
            old(self).next_id + 2 <= u64::MAX,
        ensures
            final(self).wf(),
            action is Play ==> final(self)@ == enter_playing_m(old(self)@) && !exit_requested,
            action is Exit ==> final(self)@ == old(self)@ && exit_requested,
    {
        match action {
            MenuButtonAction::Play => {
                self.enter_playing();
                false
            },
            MenuButtonAction::Exit => true,
        }
    }

    /// One full tick of a running session, in frame order: jump input,
    /// orientation, drift, the two spawners, the post-death slow-downs,
    /// collision and scoring, score display sync, reaping, then the
    /// grace check; on the menu a tick changes nothing. `contacts` and
    /// `overlaps` are the physics collaborator's reports for this tick.
    /// The score never decreases, and a dead session never comes back
    /// to life within a tick.
    #[verifier::rlimit(80)]
    pub fn tick(&mut self, pressed: bool, dt_ms: u64, contacts: &Vec<u64>, overlaps: &Vec<u64>)
        requires
            old(self).wf(),
            dt_ms <= MAX_TICK_MS,
            old(self).next_id + 5 <= u64::MAX,
            old(self).score.0 + old(self).entities@.len() + 4 <= u32::MAX,
        ensures
            final(self).wf(),
            exists|pipe_y: i64, cloud_category: i64, cloud_y: i64|
                #![auto]
                -MAXHEIGHT <= pipe_y < MAXHEIGHT && 1 <= cloud_category < 4 && -CLOUD_MAXHEIGHT
                    <= cloud_y < CLOUD_MAXHEIGHT && final(self)@ == tick_model(
                    old(self)@,
                    pressed,
                    dt_ms,
                    contacts@,
                    overlaps@,
                    pipe_y,
                    cloud_category,
                    cloud_y,
                ),
            final(self).score.0 >= old(self).score.0,
            old(self).game_state is Dead ==> final(self).game_state is Dead,
    {
        let ghost w0 = self@;
        if !(self.app_state == AppState::Playing) {
            proof {
                assert(self@ == tick_model(w0, pressed, dt_ms, contacts@, overlaps@, 0, 1, 0));
            }
            return ;
        }
        self.jump(pressed);
        self.rotate_based_on_velocity();
        self.drift(dt_ms);
        let ghost w3 = self@;
        self.spawn_pipe(dt_ms);
        let ghost w4 = self@;
        self.cloud_spawn(dt_ms);
        let ghost w5 = self@;
        self.pipe_slow_down();
        self.cloud_slow_down();
        let ghost w6 = self@;
        proof {
            assert(w6.score == w0.score);
            assert(w6.entities.len() <= w0.entities.len() + 4);
        }
        if self.game_state == GameState::Playing {
            self.bird_pipe_collide(contacts, overlaps);
            proof {
                lemma_hits_count_bounds(w6.entities, overlaps@);
            }
            self.update_score();
        }
        if self.game_state == GameState::Playing {
            self.delete_offscreen_entities();
        }
        self.gameover(dt_ms);
        proof {
            let py = choose|py: i64|
                -MAXHEIGHT <= py < MAXHEIGHT && w4 == pipe_spawn_m(w3, dt_ms, py);
            let (ck, cy): (i64, i64) = choose|ck: i64, cy: i64|
                1 <= ck < 4 && -CLOUD_MAXHEIGHT <= cy < CLOUD_MAXHEIGHT && w5 == cloud_spawn_m(
                    w4,
                    dt_ms,
                    ck,
                    cy,
                );
            assert(self@ == tick_model(
                w0,
                pressed,
                dt_ms,
                contacts@,
                overlaps@,
                py,
                ck,
                cy,
            ));
        }
    }

    /// A fresh world: on the menu with one menu element, score zero,
    /// and the obstacle timer pre-loaded so a session's first spawn
    /// fires at once.
    pub fn new() -> (w: World)
        ensures
            w@ == init_m(),
            w.wf(),
    {
        let mut entities: Vec<Entity> = Vec::new();
        entities.push(
            Entity {
                id: 0,
                kind: EntityKind::MenuUi,
                parent: None,
                session: false,
                x: 0,
                y: 0,
                vx: 0,
                vy: 0,
                angle: 0,
                interacted: false,
                depth: 0,
                scale_pct: 100,
                alpha_pct: 100,
                shown_score: 0,
            },
        );
        let w = World {
            app_state: AppState::MainMenu,
            game_state: GameState::Playing,
            backdrop: Backdrop::Grey,
            score: Score(0),
            pipe_timer: SpawnTimer {
                elapsed: PIPE_SPAWN_INITIAL_MS,
                threshold: PIPE_SPAWN_THRESHOLD_MS,
            },
            cloud_timer: SpawnTimer { elapsed: 0, threshold: CLOUD_SPAWN_THRESHOLD_MS },
            gameover_timer: SpawnTimer { elapsed: 0, threshold: GAMEOVER_THRESHOLD_MS },
            next_id: 1,
            entities,
        };
        proof {
            assert(w@.entities =~= seq![menu_entity(0)]);
            assert(w@ =~= init_m());
        }
        w
    }
}

/// Linear scan for an id among the physics collaborator's reports.
fn contains_id(ids: &Vec<u64>, id: u64) -> (b: bool)
    ensures
        b == ids@.contains(id),
{
    let n = ids.len();
    let mut i: usize = 0;
    while i < n
        invariant
            i <= n,
            n == ids@.len(),
            forall|j: int| 0 <= j < i ==> ids@[j] != id,
        decreases n - i,
    {
        if ids[i] == id {
            return true;
        }
        i += 1;
    }
    false
}

} // verus!
