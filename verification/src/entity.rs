//! The entity arena's element type and the per-entity rules: spawn shapes,
//! constant-velocity drift, the orientation clamp, and the slow-down rules
//! applied while the actor is dead.

use vstd::prelude::*;

verus! {

/// Horizontal position at which obstacle pairs and clouds appear, just
/// off-screen to the right.
pub const SPAWNPOS_X: i64 = 1200;

/// Entities that have scrolled strictly past this horizontal bound are
/// reaped while play is live.
pub const DESPAWN_X: i64 = -1200;

/// Vertical band (exclusive upper end) for an obstacle pair's gap centre.
pub const MAXHEIGHT: i64 = 375;

/// Vertical band (exclusive upper end) for a cloud's spawn height.
pub const CLOUD_MAXHEIGHT: i64 = 540;

/// Vertical velocity set by a jump impulse, overriding any prior velocity.
pub const JUMPHEIGHT: i64 = 425;

/// Horizontal velocity of an obstacle pair while play is live.
pub const PIPE_SPEED: i64 = -200;

/// Horizontal velocity of a near-layer cloud.
pub const CLOUD_NEAR_SPEED: i64 = -150;

/// Horizontal velocity of a far-layer cloud.
pub const CLOUD_FAR_SPEED: i64 = -125;

/// Speed floor a coasting cloud settles at after death.
pub const CLOUD_FLOOR_SPEED: i64 = -25;

/// Per-tick deceleration step applied while the actor is dead.
pub const SLOWDOWN_STEP: i64 = 3;

/// Vertical offset of each barrier from its pair's gap centre.
pub const PIPE_HALF_SPAN: i64 = 588;

/// The actor's fixed horizontal position.
pub const BIRD_X: i64 = -400;

/// The actor's collision radius: sprite width minus a forgiveness margin.
pub const BIRD_RADIUS: i64 = 25;

/// Downward acceleration scale the physics collaborator applies to the actor.
pub const BIRD_GRAVITY_SCALE: i64 = 10;

/// Upper clamp of the actor's orientation, in degrees (nose up).
pub const ANGLE_MAX_DEG: i64 = 45;

/// Lower clamp of the actor's orientation, in degrees (nose down).
pub const ANGLE_MIN_DEG: i64 = -90;

/// Most negative position at which drift still moves an entity; below it
/// the integer arithmetic could not represent another step.
pub const DRIFT_X_GUARD: i64 = i64::MIN + 200_000_000;

/// What an arena entity is.
#[derive(Clone, Copy, Debug, PartialEq, Eq, Structural)]
pub enum EntityKind {
    /// The controlled actor.
    Bird,
    /// An obstacle pair's trigger-only gap sensor, parent of two barriers.
    PipeGap,
    /// A solid barrier, child of a gap sensor.
    Pipe,
    /// A drifting decorative background element.
    Cloud,
    /// The in-session score display.
    ScoreText,
    /// A persistent main-menu element, untouched by session teardown.
    MenuUi,
}

/// One arena entity. Fields outside an entity's kind are left at their
/// spawn defaults: only gap sensors use `interacted`, only the actor uses
/// `vy` and `angle`, only the score display uses `shown_score`.
#[derive(Clone, Copy, Debug)]
pub struct Entity {
    /// Arena key, unique among live entities.
    pub id: u64,
    pub kind: EntityKind,
    /// Owning gap sensor's id, for barriers; `None` otherwise.
    pub parent: Option<u64>,
    /// Session marker: created during play and removed on teardown.
    pub session: bool,
    /// Horizontal position.
    pub x: i64,
    /// Vertical position.
    pub y: i64,
    /// Horizontal velocity, units per second.
    pub vx: i64,
    /// Vertical velocity, units per second; driven by the physics
    /// collaborator and by jump impulses.
    pub vy: i64,
    /// Orientation in degrees, derived from `vy` each tick.
    pub angle: i64,
    /// Whether the actor has already passed through this gap sensor.
    pub interacted: bool,
    /// Render depth layer; more negative is further back.
    pub depth: i64,
    /// Render scale, in percent.
    pub scale_pct: u8,
    /// Render opacity, in percent.
    pub alpha_pct: u8,
    /// Score value currently shown by the score display.
    pub shown_score: u32,
}

/// Per-entity well-formedness: kinds carry their markers consistently and
/// horizontal speeds stay within the band the drift arithmetic relies on.
pub open spec fn wf_entity(e: Entity) -> bool {
    &&& PIPE_SPEED <= e.vx <= 0
    &&& (e.parent is Some <==> e.kind is Pipe)
    &&& (e.kind is MenuUi <==> !e.session)
    &&& (e.kind is Bird ==> e.vx == 0)
    &&& (e.kind is ScoreText ==> e.vx == 0)
}

/// A barrier `c` hangs off gap sensor `p`: they share horizontal position
/// and velocity, so the pair always moves, and is reaped, together.
pub open spec fn linked(c: Entity, p: Entity) -> bool {
    &&& c.parent == Some(p.id)
    &&& p.kind is PipeGap
    &&& p.x == c.x
    &&& p.vx == c.vx
}

/// A freshly spawned gap sensor at the off-screen spawn position, gap
/// centred at height `y`.
pub open spec fn gap_sensor_entity(id: u64, y: i64) -> Entity {
    Entity {
        id,
        kind: EntityKind::PipeGap,
        parent: None,
        session: true,
        x: SPAWNPOS_X,
        y,
        vx: PIPE_SPEED,
        vy: 0,
        angle: 0,
        interacted: false,
        depth: 0,
        scale_pct: 100,
        alpha_pct: 100,
        shown_score: 0,
    }
}

/// A freshly spawned barrier owned by gap sensor `parent`, at height `y`.
pub open spec fn barrier_entity(id: u64, parent: u64, y: i64) -> Entity {
    Entity {
        id,
        kind: EntityKind::Pipe,
        parent: Some(parent),
        session: true,
        x: SPAWNPOS_X,
        y,
        vx: PIPE_SPEED,
        vy: 0,
        angle: 0,
        interacted: false,
        depth: 0,
        scale_pct: 40,
        alpha_pct: 100,
        shown_score: 0,
    }
}

/// A freshly spawned cloud at height `y`; near clouds drift faster, sit
/// closer to the camera, and are smaller and more opaque than far ones.
pub open spec fn cloud_entity(id: u64, y: i64, near: bool) -> Entity {
    Entity {
        id,
        kind: EntityKind::Cloud,
        parent: None,
        session: true,
        x: SPAWNPOS_X,
        y,
        vx: if near { CLOUD_NEAR_SPEED } else { CLOUD_FAR_SPEED },
        vy: 0,
        angle: 0,
        interacted: false,
        depth: if near { -10i64 } else { -15i64 },
        scale_pct: if near { 20 } else { 40 },
        alpha_pct: if near { 50 } else { 30 },
        shown_score: 0,
    }
}

/// The actor at its session-start origin.
pub open spec fn bird_entity(id: u64) -> Entity {
    Entity {
        id,
        kind: EntityKind::Bird,
        parent: None,
        session: true,
        x: BIRD_X,
        y: 0,
        vx: 0,
        vy: 0,
        angle: 0,
        interacted: false,
        depth: 0,
        scale_pct: 100,
        alpha_pct: 100,
        shown_score: 0,
    }
}

/// The in-session score display, created showing `score`.
pub open spec fn score_text_entity(id: u64, score: u32) -> Entity {
    Entity {
        id,
        kind: EntityKind::ScoreText,
        parent: None,
        session: true,
        x: 0,
        y: 0,
        vx: 0,
        vy: 0,
        angle: 0,
        interacted: false,
        depth: 0,
        scale_pct: 100,
        alpha_pct: 100,
        shown_score: score,
    }
}

/// A persistent main-menu element.
pub open spec fn menu_entity(id: u64) -> Entity {
    Entity {
        id,
        kind: EntityKind::MenuUi,
        parent: None,
        session: false,
        x: 0,
        y: 0,
        vx: 0,
        vy: 0,
        angle: 0,
        interacted: false,
        depth: 0,
        scale_pct: 100,
        alpha_pct: 100,
        shown_score: 0,
    }
}

/// Orientation derived from vertical velocity: a tenth of the velocity,
/// clamped to the nose-down/nose-up band.
pub open spec fn angle_deg(vy: int) -> int {
    if vy >= 450 {
        45
    } else if vy <= -900 {
        -90
    } else if vy >= 0 {
        vy / 10
    } else {
        -((-vy) / 10)
    }
}

/// The orientation clamp holds for every vertical velocity.
pub proof fn lemma_angle_clamped(vy: int)
    ensures
        ANGLE_MIN_DEG <= angle_deg(vy) <= ANGLE_MAX_DEG,
{
    if vy >= 450 {
    } else if vy <= -900 {
    } else if vy >= 0 {
        assert(0 <= vy / 10 <= 44) by (nonlinear_arith)
            requires 0 <= vy < 450;
    } else {
        assert(0 <= (-vy) / 10 <= 89) by (nonlinear_arith)
            requires 0 < -vy < 900;
    }
}

/// Horizontal position after drifting for `dt_ms` at `vx` units per
/// second; below the guard the position is left as it stands.
pub open spec fn drifted_x(x: i64, vx: i64, dt_ms: u64) -> i64 {
    let shift = (-(vx as int)) * (dt_ms as int) / 1000;
    if x >= DRIFT_X_GUARD {
        (x - shift) as i64
    } else {
        x
    }
}

/// One entity after a jump impulse: a pressed edge hard-resets the
/// actor's vertical velocity to the jump constant; others are untouched.
pub open spec fn jump_e(e: Entity) -> Entity {
    if e.kind is Bird {
        Entity { vy: JUMPHEIGHT, ..e }
    } else {
        e
    }
}

/// One entity after the orientation pass: the actor's angle tracks its
/// clamped vertical velocity; others are untouched.
pub open spec fn rotate_e(e: Entity) -> Entity {
    if e.kind is Bird {
        Entity { angle: angle_deg(e.vy as int) as i64, ..e }
    } else {
        e
    }
}

/// One entity after `dt_ms` of constant-velocity drift.
pub open spec fn drift_e(e: Entity, dt_ms: u64) -> Entity {
    Entity { x: drifted_x(e.x, e.vx, dt_ms), ..e }
}

/// One entity after the actor's motion report: the physics collaborator
/// owns the actor's vertical position and velocity.
pub open spec fn sync_bird_e(e: Entity, y: i64, vy: i64) -> Entity {
    if e.kind is Bird {
        Entity { y, vy, ..e }
    } else {
        e
    }
}

/// One entity after a post-death slow-down tick: obstacle pairs coast
/// toward a stop, while clouds settle at a residual drift; the asymmetric
/// floors are deliberate and preserved.
pub open spec fn slow_e(e: Entity) -> Entity {
    match e.kind {
        EntityKind::PipeGap | EntityKind::Pipe => {
            if e.vx + SLOWDOWN_STEP < 0 {
                Entity { vx: (e.vx + SLOWDOWN_STEP) as i64, ..e }
            } else {
                Entity { vx: 0, ..e }
            }
        },
        EntityKind::Cloud => {
            if e.vx + SLOWDOWN_STEP < CLOUD_FLOOR_SPEED {
                Entity { vx: (e.vx + SLOWDOWN_STEP) as i64, ..e }
            } else {
                Entity { vx: CLOUD_FLOOR_SPEED, ..e }
            }
        },
        _ => e,
    }
}

/// Whether the actor's overlap report scores against gap sensor `e`: it
/// must be a sensor not yet passed, with its id among the overlaps.
pub open spec fn gap_hit(e: Entity, overlaps: Seq<u64>) -> bool {
    e.kind is PipeGap && !e.interacted && overlaps.contains(e.id)
}

/// One entity after the scoring pass: a scored gap sensor latches its
/// `interacted` flag, which is never cleared again.
pub open spec fn resolve_e(e: Entity, overlaps: Seq<u64>) -> Entity {
    if gap_hit(e, overlaps) {
        Entity { interacted: true, ..e }
    } else {
        e
    }
}

/// One entity after the score display sync.
pub open spec fn show_score_e(e: Entity, score: u32) -> Entity {
    if e.kind is ScoreText {
        Entity { shown_score: score, ..e }
    } else {
        e
    }
}

/// Whether the reaper keeps `e` during live play: the actor is exempt,
/// menu elements are not session-tagged, and everything else survives
/// until it scrolls strictly past the despawn bound.
pub open spec fn reap_keep(e: Entity) -> bool {
    !(e.session && !(e.kind is Bird) && e.x < DESPAWN_X)
}

/// Whether session teardown keeps `e`: only entities without the session
/// marker survive.
pub open spec fn teardown_keep(e: Entity) -> bool {
    !e.session
}

/// Whether entering a session keeps `e`: the menu's own elements are
/// removed as play begins.
pub open spec fn menu_exit_keep(e: Entity) -> bool {
    !(e.kind is MenuUi)
}

} // verus!
