//! The mathematical model of the game world and of each per-tick system.
//! Every executable system's contract equates the world's view with one of
//! these transformers, and the tick contract with their composition.

use vstd::prelude::*;

use crate::entity::{
    drift_e, gap_hit, gap_sensor_entity, barrier_entity, bird_entity, cloud_entity, jump_e,
    linked, menu_entity, menu_exit_keep, reap_keep, resolve_e, rotate_e, score_text_entity,
    show_score_e, slow_e, sync_bird_e, teardown_keep, wf_entity, Entity, PIPE_HALF_SPAN,
};
use crate::state::{
    timer_after, timer_fires, AppState, Backdrop, GameState, SpawnTimer,
    CLOUD_SPAWN_THRESHOLD_MS, GAMEOVER_THRESHOLD_MS, PIPE_SPAWN_INITIAL_MS,
    PIPE_SPAWN_THRESHOLD_MS,
};

verus! {

/// Ghost mirror of the game world: the entity arena as a sequence, beside
/// the modes, the score, the timers and the id allocator.
#[verifier::ext_equal]
pub struct WorldM {
    pub app_state: AppState,
    pub game_state: GameState,
    pub backdrop: Backdrop,
    pub score: u32,
    pub pipe_timer: SpawnTimer,
    pub cloud_timer: SpawnTimer,
    pub gameover_timer: SpawnTimer,
    pub next_id: u64,
    pub entities: Seq<Entity>,
}

/// The entities of `s` that satisfy `keep`, in order.
pub open spec fn retained(s: Seq<Entity>, keep: spec_fn(Entity) -> bool) -> Seq<Entity>
    decreases s.len(),
{
    if s.len() == 0 {
        s
    } else {
        let rest = retained(s.drop_last(), keep);
        if keep(s.last()) {
            rest.push(s.last())
        } else {
            rest
        }
    }
}

/// The entities that survive a reaper pass, in order.
pub open spec fn reap_seq(s: Seq<Entity>) -> Seq<Entity>
    decreases s.len(),
{
    if s.len() == 0 {
        s
    } else {
        let rest = reap_seq(s.drop_last());
        if reap_keep(s.last()) {
            rest.push(s.last())
        } else {
            rest
        }
    }
}

/// The entities that survive session teardown, in order.
pub open spec fn teardown_seq(s: Seq<Entity>) -> Seq<Entity>
    decreases s.len(),
{
    if s.len() == 0 {
        s
    } else {
        let rest = teardown_seq(s.drop_last());
        if teardown_keep(s.last()) {
            rest.push(s.last())
        } else {
            rest
        }
    }
}

/// The entities that survive leaving the menu, in order.
pub open spec fn menu_exit_seq(s: Seq<Entity>) -> Seq<Entity>
    decreases s.len(),
{
    if s.len() == 0 {
        s
    } else {
        let rest = menu_exit_seq(s.drop_last());
        if menu_exit_keep(s.last()) {
            rest.push(s.last())
        } else {
            rest
        }
    }
}

/// How many entities of `s` the actor's overlap report scores against.
pub open spec fn hits_count(s: Seq<Entity>, overlaps: Seq<u64>) -> int
    decreases s.len(),
{
    if s.len() == 0 {
        0
    } else {
        hits_count(s.drop_last(), overlaps) + if gap_hit(s.last(), overlaps) {
            1int
        } else {
            0int
        }
    }
}

/// Whether the contact report names any solid barrier: any such contact
/// is immediately fatal.
pub open spec fn barrier_hit(s: Seq<Entity>, contacts: Seq<u64>) -> bool {
    exists|i: int|
        0 <= i < s.len() && (#[trigger] s[i]).kind is Pipe && contacts.contains(s[i].id)
}

/// Ids are pairwise distinct.
pub open spec fn ids_unique(s: Seq<Entity>) -> bool {
    forall|i: int, j: int|
        0 <= i < j < s.len() ==> (#[trigger] s[i]).id != (#[trigger] s[j]).id
}

/// Every id lies below the allocator's next value.
pub open spec fn ids_below(s: Seq<Entity>, n: u64) -> bool {
    forall|i: int| 0 <= i < s.len() ==> (#[trigger] s[i]).id < n
}

/// Every barrier hangs off a live gap sensor in the same arena: the
/// reaper may never orphan a barrier.
pub open spec fn parents_ok(s: Seq<Entity>) -> bool {
    forall|i: int|
        0 <= i < s.len() && (#[trigger] s[i]).kind is Pipe ==> exists|j: int|
            0 <= j < s.len() && #[trigger] linked(s[i], s[j])
}

impl WorldM {
    /// World well-formedness: entity-local invariants, id discipline, the
    /// parent links, and the fixed timer thresholds.
    pub open spec fn wf(self) -> bool {
        &&& forall|i: int| 0 <= i < self.entities.len() ==> wf_entity(#[trigger] self.entities[i])
        &&& ids_unique(self.entities)
        &&& ids_below(self.entities, self.next_id)
        &&& parents_ok(self.entities)
        &&& self.pipe_timer.threshold == PIPE_SPAWN_THRESHOLD_MS
        &&& self.cloud_timer.threshold == CLOUD_SPAWN_THRESHOLD_MS
        &&& self.gameover_timer.threshold == GAMEOVER_THRESHOLD_MS
    }
}

/// The world as the application starts: on the menu with one menu
/// element, score zero, and the obstacle timer pre-loaded past its
/// threshold so the first session's first spawn fires at once.
pub open spec fn init_m() -> WorldM {
    WorldM {
        app_state: AppState::MainMenu,
        game_state: GameState::Playing,
        backdrop: Backdrop::Grey,
        score: 0,
        pipe_timer: SpawnTimer {
            elapsed: PIPE_SPAWN_INITIAL_MS,
            threshold: PIPE_SPAWN_THRESHOLD_MS,
        },
        cloud_timer: SpawnTimer { elapsed: 0, threshold: CLOUD_SPAWN_THRESHOLD_MS },
        gameover_timer: SpawnTimer { elapsed: 0, threshold: GAMEOVER_THRESHOLD_MS },
        next_id: 1,
        entities: seq![menu_entity(0)],
    }
}

/// Jump pass: on a pressed edge while the actor lives, its vertical
/// velocity is hard-reset to the jump constant.
pub open spec fn jump_m(w: WorldM, pressed: bool) -> WorldM {
    if w.game_state is Playing && pressed {
        WorldM { entities: w.entities.map_values(|e: Entity| jump_e(e)), ..w }
    } else {
        w
    }
}

/// Orientation pass: the actor's angle tracks its clamped vertical
/// velocity, in every play sub-mode.
pub open spec fn rotate_m(w: WorldM) -> WorldM {
    WorldM { entities: w.entities.map_values(|e: Entity| rotate_e(e)), ..w }
}

/// Drift pass: every entity advances by its horizontal velocity.
pub open spec fn drift_m(w: WorldM, dt_ms: u64) -> WorldM {
    WorldM { entities: w.entities.map_values(|e: Entity| drift_e(e, dt_ms)), ..w }
}

/// Actor motion report: the physics collaborator owns the actor's
/// vertical position and velocity and writes them back each tick.
pub open spec fn sync_bird_m(w: WorldM, y: i64, vy: i64) -> WorldM {
    WorldM { entities: w.entities.map_values(|e: Entity| sync_bird_e(e, y, vy)), ..w }
}

/// The three entities of one obstacle pair: the gap sensor and its two
/// barriers, spanned symmetrically about the gap centre `y`.
pub open spec fn pipe_trio(id: u64, y: i64) -> Seq<Entity> {
    seq![
        gap_sensor_entity(id, y),
        barrier_entity((id + 1) as u64, id, (y + PIPE_HALF_SPAN) as i64),
        barrier_entity((id + 2) as u64, id, (y - PIPE_HALF_SPAN) as i64),
    ]
}

/// Obstacle spawner: while the actor lives, its timer accumulates, and a
/// firing appends one obstacle pair with gap centre `y`.
pub open spec fn pipe_spawn_m(w: WorldM, dt_ms: u64, y: i64) -> WorldM {
    if !(w.game_state is Playing) {
        w
    } else if timer_fires(w.pipe_timer) {
        WorldM {
            pipe_timer: SpawnTimer { elapsed: 0, threshold: w.pipe_timer.threshold },
            entities: w.entities + pipe_trio(w.next_id, y),
            next_id: (w.next_id + 3) as u64,
            ..w
        }
    } else {
        WorldM { pipe_timer: timer_after(w.pipe_timer, dt_ms), ..w }
    }
}

/// Decorative spawner: its timer runs in every play sub-mode; a firing
/// draws a category, spawning a near cloud on 1, a far cloud on 2, and
/// nothing otherwise, giving a sparser, irregular density.
pub open spec fn cloud_spawn_m(w: WorldM, dt_ms: u64, category: i64, y: i64) -> WorldM {
    if timer_fires(w.cloud_timer) {
        let reset = SpawnTimer { elapsed: 0, threshold: w.cloud_timer.threshold };
        if category == 1 || category == 2 {
            WorldM {
                cloud_timer: reset,
                entities: w.entities.push(cloud_entity(w.next_id, y, category == 1)),
                next_id: (w.next_id + 1) as u64,
                ..w
            }
        } else {
            WorldM { cloud_timer: reset, ..w }
        }
    } else {
        WorldM { cloud_timer: timer_after(w.cloud_timer, dt_ms), ..w }
    }
}

/// Obstacle slow-down: while the actor is dead, obstacle pairs coast
/// toward a stop.
pub open spec fn pipe_slowdown_m(w: WorldM) -> WorldM {
    if w.game_state is Dead {
        WorldM {
            entities: w.entities.map_values(
                |e: Entity| if e.kind is PipeGap || e.kind is Pipe { slow_e(e) } else { e },
            ),
            ..w
        }
    } else {
        w
    }
}

/// Cloud slow-down: while the actor is dead, clouds settle at their
/// residual drift.
pub open spec fn cloud_slowdown_m(w: WorldM) -> WorldM {
    if w.game_state is Dead {
        WorldM {
            entities: w.entities.map_values(
                |e: Entity| if e.kind is Cloud { slow_e(e) } else { e },
            ),
            ..w
        }
    } else {
        w
    }
}

/// Collision and scoring pass: any reported barrier contact is
/// immediately fatal; each gap sensor first overlapped latches its flag
/// and scores exactly once.
pub open spec fn resolve_m(w: WorldM, contacts: Seq<u64>, overlaps: Seq<u64>) -> WorldM {
    WorldM {
        game_state: if barrier_hit(w.entities, contacts) {
            GameState::Dead
        } else {
            w.game_state
        },
        score: (w.score + hits_count(w.entities, overlaps)) as u32,
        entities: w.entities.map_values(|e: Entity| resolve_e(e, overlaps)),
        ..w
    }
}

/// Score display sync: every score display shows the current score.
pub open spec fn update_score_m(w: WorldM) -> WorldM {
    WorldM { entities: w.entities.map_values(|e: Entity| show_score_e(e, w.score)), ..w }
}

/// Reaper pass: session entities other than the actor that scrolled
/// strictly past the despawn bound are destroyed; a gap sensor's barriers
/// share its position, so a pair leaves together.
pub open spec fn reap_m(w: WorldM) -> WorldM {
    WorldM { entities: reap_seq(w.entities), ..w }
}

/// Session teardown and return to the menu: every session-tagged entity
/// is destroyed in one pass, a fresh menu element appears, and the
/// backdrop returns to grey.
pub open spec fn to_menu_m(w: WorldM) -> WorldM {
    WorldM {
        app_state: AppState::MainMenu,
        backdrop: Backdrop::Grey,
        entities: teardown_seq(w.entities).push(menu_entity(w.next_id)),
        next_id: (w.next_id + 1) as u64,
        ..w
    }
}

/// Grace pass: while the actor is dead its timer accumulates, and once
/// the grace threshold is exceeded the session ends: back to the menu
/// with the timer reset to zero.
pub open spec fn gameover_m(w: WorldM, dt_ms: u64) -> WorldM {
    if !(w.game_state is Dead) {
        w
    } else if timer_fires(w.gameover_timer) {
        WorldM {
            gameover_timer: SpawnTimer { elapsed: 0, threshold: w.gameover_timer.threshold },
            ..to_menu_m(w)
        }
    } else {
        WorldM { gameover_timer: timer_after(w.gameover_timer, dt_ms), ..w }
    }
}

/// Session entry: menu elements leave, the actor and the score display
/// spawn fresh, the score resets, the backdrop turns to sky, and a
/// session that previously ended dead is revived.
pub open spec fn enter_playing_m(w: WorldM) -> WorldM {
    WorldM {
        app_state: AppState::Playing,
        game_state: GameState::Playing,
        backdrop: Backdrop::Sky,
        score: 0,
        entities: menu_exit_seq(w.entities)
            .push(bird_entity(w.next_id))
            .push(score_text_entity((w.next_id + 1) as u64, 0)),
        next_id: (w.next_id + 2) as u64,
        ..w
    }
}

/// One full tick while a session runs, with the systems in frame order:
/// input, orientation, motion, spawners, slow-down, collision and
/// scoring, display sync, reaping, then the grace check. `pipe_y`,
/// `cloud_category` and `cloud_y` stand for the tick's random draws; on
/// the menu a tick changes nothing.
pub open spec fn tick_model(
    w: WorldM,
    pressed: bool,
    dt_ms: u64,
    contacts: Seq<u64>,
    overlaps: Seq<u64>,
    pipe_y: i64,
    cloud_category: i64,
    cloud_y: i64,
) -> WorldM {
    if !(w.app_state is Playing) {
        w
    } else {
        let w1 = jump_m(w, pressed);
        let w2 = rotate_m(w1);
        let w3 = drift_m(w2, dt_ms);
        let w4 = pipe_spawn_m(w3, dt_ms, pipe_y);
        let w5 = cloud_spawn_m(w4, dt_ms, cloud_category, cloud_y);
        let w6 = cloud_slowdown_m(pipe_slowdown_m(w5));
        let w7 = if w6.game_state is Playing {
            update_score_m(resolve_m(w6, contacts, overlaps))
        } else {
            w6
        };
        let w8 = if w7.game_state is Playing {
            reap_m(w7)
        } else {
            w7
        };
        gameover_m(w8, dt_ms)
    }
}

/// `retained` holds exactly the kept entities of `s`.
pub proof fn lemma_retained_contains(s: Seq<Entity>, keep: spec_fn(Entity) -> bool)
    ensures
        forall|e: Entity| #[trigger]
            retained(s, keep).contains(e) <==> s.contains(e) && keep(e),
    decreases s.len(),
{
    if s.len() > 0 {
        lemma_retained_contains(s.drop_last(), keep);
        assert forall|e: Entity| s.contains(e) && keep(e) implies #[trigger]
            retained(s, keep).contains(e) by {
            let i = choose|i: int| 0 <= i < s.len() && s[i] == e;
            if i < s.len() - 1 {
                assert(s.drop_last()[i] == e);
                assert(retained(s.drop_last(), keep).contains(e));
                let j = choose|j: int|
                    0 <= j < retained(s.drop_last(), keep).len() && retained(
                        s.drop_last(),
                        keep,
                    )[j] == e;
                assert(retained(s, keep)[j] == e);
            } else {
                assert(s.last() == e);
                assert(retained(s, keep).last() == e);
            }
        }
        assert forall|e: Entity| #[trigger] retained(s, keep).contains(e) implies s.contains(e)
            && keep(e) by {
            let r = retained(s, keep);
            let i = choose|i: int| 0 <= i < r.len() && r[i] == e;
            let rr = retained(s.drop_last(), keep);
            if keep(s.last()) && i == r.len() - 1 {
                assert(s[s.len() - 1] == e);
            } else {
                assert(rr[i] == e);
                assert(rr.contains(e));
                let j = choose|j: int| 0 <= j < s.drop_last().len() && s.drop_last()[j] == e;
                assert(s[j] == e);
            }
        }
    }
}

/// Keeping a subset of an arena with pairwise-distinct ids leaves the
/// ids pairwise distinct.
pub proof fn lemma_retained_unique(s: Seq<Entity>, keep: spec_fn(Entity) -> bool)
    requires
        ids_unique(s),
    ensures
        ids_unique(retained(s, keep)),
        retained(s, keep).len() <= s.len(),
    decreases s.len(),
{
    if s.len() > 0 {
        let d = s.drop_last();
        lemma_retained_unique(d, keep);
        lemma_retained_contains(d, keep);
        let m = retained(s, keep);
        let rr = retained(d, keep);
        assert forall|i: int, j: int|
            0 <= i < j < m.len() implies (#[trigger] m[i]).id != (#[trigger] m[j]).id by {
            if keep(s.last()) && j == m.len() - 1 {
                assert(m[i] == rr[i]);
                assert(rr.contains(rr[i]));
                assert(d.contains(m[i]));
                let k = choose|k: int| 0 <= k < d.len() && d[k] == m[i];
                assert(s[k] == m[i]);
                assert(s[k].id != s[s.len() - 1].id);
            } else {
                assert(m[i] == rr[i] && m[j] == rr[j]);
            }
        }
    }
}

/// A kept arena keeps the arena invariants, provided `keep` never drops
/// a barrier's parent while keeping the barrier.
pub proof fn lemma_retained_arena(s: Seq<Entity>, keep: spec_fn(Entity) -> bool, n: u64)
    requires
        forall|i: int| 0 <= i < s.len() ==> wf_entity(#[trigger] s[i]),
        ids_unique(s),
        ids_below(s, n),
        parents_ok(s),
        forall|i: int, j: int|
            0 <= i < s.len() && 0 <= j < s.len() && #[trigger] linked(s[i], s[j]) && keep(s[i])
                ==> keep(s[j]),
    ensures
        ({
            let m = retained(s, keep);
            &&& forall|i: int| 0 <= i < m.len() ==> wf_entity(#[trigger] m[i])
            &&& ids_unique(m)
            &&& ids_below(m, n)
            &&& parents_ok(m)
            &&& m.len() <= s.len()
        }),
{
    lemma_retained_contains(s, keep);
    lemma_retained_unique(s, keep);
    let m = retained(s, keep);
    assert forall|i: int| 0 <= i < m.len() implies wf_entity(#[trigger] m[i]) && m[i].id < n by {
        assert(m.contains(m[i]));
        assert(s.contains(m[i]));
        let k = choose|k: int| 0 <= k < s.len() && s[k] == m[i];
    }
    assert forall|i: int|
        0 <= i < m.len() && (#[trigger] m[i]).kind is Pipe implies exists|j: int|
            0 <= j < m.len() && #[trigger] linked(m[i], m[j]) by {
        assert(m.contains(m[i]));
        assert(s.contains(m[i]) && keep(m[i]));
        let k = choose|k: int| 0 <= k < s.len() && s[k] == m[i];
        let p = choose|p: int| 0 <= p < s.len() && #[trigger] linked(s[k], s[p]);
        assert(keep(s[p]));
        assert(m.contains(s[p]));
        let q = choose|q: int| 0 <= q < m.len() && m[q] == s[p];
        assert(linked(m[i], m[q]));
    }
}

/// A pointwise-mapped arena keeps the arena invariants, provided the map
/// leaves ids, kinds and parent links alone and preserves entity
/// well-formedness and barrier links.
pub proof fn lemma_map_arena(s: Seq<Entity>, f: spec_fn(Entity) -> Entity, n: u64)
    requires
        forall|e: Entity|
            (#[trigger] f(e)).id == e.id && f(e).kind == e.kind && f(e).parent == e.parent,
        forall|e: Entity| wf_entity(e) ==> wf_entity(#[trigger] f(e)),
        forall|c: Entity, p: Entity|
            c.kind is Pipe && wf_entity(c) && wf_entity(p) && linked(c, p) ==> #[trigger] linked(
                f(c),
                f(p),
            ),
        forall|i: int| 0 <= i < s.len() ==> wf_entity(#[trigger] s[i]),
        ids_unique(s),
        ids_below(s, n),
        parents_ok(s),
    ensures
        ({
            let m = s.map_values(f);
            &&& forall|i: int| 0 <= i < m.len() ==> wf_entity(#[trigger] m[i])
            &&& ids_unique(m)
            &&& ids_below(m, n)
            &&& parents_ok(m)
        }),
{
    let m = s.map_values(f);
    assert forall|i: int|
        0 <= i < m.len() && (#[trigger] m[i]).kind is Pipe implies exists|j: int|
            0 <= j < m.len() && #[trigger] linked(m[i], m[j]) by {
        assert(m[i] == f(s[i]));
        let j = choose|j: int| 0 <= j < s.len() && #[trigger] linked(s[i], s[j]);
        assert(linked(f(s[i]), f(s[j])));
        assert(linked(m[i], m[j]));
    }
}

proof fn lemma_retained_reap(s: Seq<Entity>, c: spec_fn(Entity) -> bool)
    requires
        forall|e: Entity| #[trigger] c(e) == reap_keep(e),
    ensures
        retained(s, c) == reap_seq(s),
    decreases s.len(),
{
    if s.len() > 0 {
        lemma_retained_reap(s.drop_last(), c);
    }
}

proof fn lemma_retained_teardown(s: Seq<Entity>, c: spec_fn(Entity) -> bool)
    requires
        forall|e: Entity| #[trigger] c(e) == teardown_keep(e),
    ensures
        retained(s, c) == teardown_seq(s),
    decreases s.len(),
{
    if s.len() > 0 {
        lemma_retained_teardown(s.drop_last(), c);
    }
}

proof fn lemma_retained_menu_exit(s: Seq<Entity>, c: spec_fn(Entity) -> bool)
    requires
        forall|e: Entity| #[trigger] c(e) == menu_exit_keep(e),
    ensures
        retained(s, c) == menu_exit_seq(s),
    decreases s.len(),
{
    if s.len() > 0 {
        lemma_retained_menu_exit(s.drop_last(), c);
    }
}

/// A reaper pass keeps the arena invariants: in particular, barriers
/// share their gap sensor's position, so a kept barrier's parent is
/// kept with it.
pub proof fn lemma_reap_arena(s: Seq<Entity>, n: u64)
    requires
        forall|i: int| 0 <= i < s.len() ==> wf_entity(#[trigger] s[i]),
        ids_unique(s),
        ids_below(s, n),
        parents_ok(s),
    ensures
        ({
            let m = reap_seq(s);
            &&& forall|i: int| 0 <= i < m.len() ==> wf_entity(#[trigger] m[i])
            &&& ids_unique(m)
            &&& ids_below(m, n)
            &&& parents_ok(m)
            &&& m.len() <= s.len()
        }),
{
    let c = |e: Entity| reap_keep(e);
    assert forall|i: int, j: int|
        0 <= i < s.len() && 0 <= j < s.len() && #[trigger] linked(s[i], s[j]) && c(s[i]) implies c(
        s[j],
    ) by {
        assert(wf_entity(s[i]) && wf_entity(s[j]));
        assert(s[i].kind is Pipe);
        assert(s[j].session && s[i].session);
        assert(s[j].x == s[i].x);
    }
    lemma_retained_arena(s, c, n);
    lemma_retained_reap(s, c);
}

/// Session teardown keeps the arena invariants; no surviving entity is
/// session-tagged, so no barrier survives at all.
pub proof fn lemma_teardown_arena(s: Seq<Entity>, n: u64)
    requires
        forall|i: int| 0 <= i < s.len() ==> wf_entity(#[trigger] s[i]),
        ids_unique(s),
        ids_below(s, n),
        parents_ok(s),
    ensures
        ({
            let m = teardown_seq(s);
            &&& forall|i: int| 0 <= i < m.len() ==> wf_entity(#[trigger] m[i])
            &&& ids_unique(m)
            &&& ids_below(m, n)
            &&& parents_ok(m)
            &&& m.len() <= s.len()
        }),
{
    let c = |e: Entity| teardown_keep(e);
    assert forall|i: int, j: int|
        0 <= i < s.len() && 0 <= j < s.len() && #[trigger] linked(s[i], s[j]) && c(s[i]) implies c(
        s[j],
    ) by {
        assert(wf_entity(s[i]));
        assert(s[i].kind is Pipe && s[i].session);
    }
    lemma_retained_arena(s, c, n);
    lemma_retained_teardown(s, c);
}

/// Leaving the menu keeps the arena invariants; gap sensors are not
/// menu elements, so no barrier is orphaned.
pub proof fn lemma_menu_exit_arena(s: Seq<Entity>, n: u64)
    requires
        forall|i: int| 0 <= i < s.len() ==> wf_entity(#[trigger] s[i]),
        ids_unique(s),
        ids_below(s, n),
        parents_ok(s),
    ensures
        ({
            let m = menu_exit_seq(s);
            &&& forall|i: int| 0 <= i < m.len() ==> wf_entity(#[trigger] m[i])
            &&& ids_unique(m)
            &&& ids_below(m, n)
            &&& parents_ok(m)
            &&& m.len() <= s.len()
        }),
{
    let c = |e: Entity| menu_exit_keep(e);
    lemma_retained_arena(s, c, n);
    lemma_retained_menu_exit(s, c);
}

/// Appending one obstacle pair with fresh ids keeps the arena
/// invariants.
pub proof fn lemma_append_trio(s: Seq<Entity>, n: u64, y: i64)
    requires
        forall|i: int| 0 <= i < s.len() ==> wf_entity(#[trigger] s[i]),
        ids_unique(s),
        ids_below(s, n),
        parents_ok(s),
        n + 3 <= u64::MAX,
    ensures
        ({
            let m = s + pipe_trio(n, y);
            &&& forall|i: int| 0 <= i < m.len() ==> wf_entity(#[trigger] m[i])
            &&& ids_unique(m)
            &&& ids_below(m, (n + 3) as u64)
            &&& parents_ok(m)
        }),
{
    let m = s + pipe_trio(n, y);
    let len = s.len() as int;
    assert forall|i: int, j: int|
        0 <= i < j < m.len() implies (#[trigger] m[i]).id != (#[trigger] m[j]).id by {
        if i < len && j < len {
            assert(m[i] == s[i] && m[j] == s[j]);
        } else if i < len {
            assert(m[i] == s[i] && m[i].id < n && m[j].id >= n);
        }
    }
    assert forall|i: int|
        0 <= i < m.len() && (#[trigger] m[i]).kind is Pipe implies exists|j: int|
            0 <= j < m.len() && #[trigger] linked(m[i], m[j]) by {
        if i < len {
            let j = choose|j: int| 0 <= j < s.len() && #[trigger] linked(s[i], s[j]);
            assert(linked(m[i], m[j]));
        } else {
            assert(linked(m[i], m[len]));
        }
    }
}

/// Pushing one fresh, parentless, well-formed entity keeps the arena
/// invariants.
pub proof fn lemma_push_fresh(s: Seq<Entity>, n: u64, e: Entity)
    requires
        forall|i: int| 0 <= i < s.len() ==> wf_entity(#[trigger] s[i]),
        ids_unique(s),
        ids_below(s, n),
        parents_ok(s),
        n < u64::MAX,
        e.id == n,
        wf_entity(e),
        !(e.kind is Pipe),
    ensures
        ({
            let m = s.push(e);
            &&& forall|i: int| 0 <= i < m.len() ==> wf_entity(#[trigger] m[i])
            &&& ids_unique(m)
            &&& ids_below(m, (n + 1) as u64)
            &&& parents_ok(m)
        }),
{
    let m = s.push(e);
    let len = s.len() as int;
    assert forall|i: int, j: int|
        0 <= i < j < m.len() implies (#[trigger] m[i]).id != (#[trigger] m[j]).id by {
        if j < len {
            assert(m[i] == s[i] && m[j] == s[j]);
        } else {
            assert(m[i] == s[i] && m[i].id < n);
        }
    }
    assert forall|i: int|
        0 <= i < m.len() && (#[trigger] m[i]).kind is Pipe implies exists|j: int|
            0 <= j < m.len() && #[trigger] linked(m[i], m[j]) by {
        let j = choose|j: int| 0 <= j < s.len() && #[trigger] linked(s[i], s[j]);
        assert(linked(m[i], m[j]));
    }
}

/// The scoring count is bounded by the arena's size.
pub proof fn lemma_hits_count_bounds(s: Seq<Entity>, overlaps: Seq<u64>)
    ensures
        0 <= hits_count(s, overlaps) <= s.len(),
    decreases s.len(),
{
    if s.len() > 0 {
        lemma_hits_count_bounds(s.drop_last(), overlaps);
    }
}

/// An arena with nothing left to score against contributes no points.
pub proof fn lemma_no_hits(s: Seq<Entity>, overlaps: Seq<u64>)
    requires
        forall|i: int| 0 <= i < s.len() ==> !gap_hit(#[trigger] s[i], overlaps),
    ensures
        hits_count(s, overlaps) == 0,
    decreases s.len(),
{
    if s.len() > 0 {
        assert(!gap_hit(s[s.len() - 1], overlaps));
        lemma_no_hits(s.drop_last(), overlaps);
    }
}

} // verus!
