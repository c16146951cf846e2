//! The player: hit points, the energy budget, the post-hit grace period and
//! the manual hide (invulnerability) action, and the mouse-driven movement
//! bounds.

use vstd::prelude::*;

use vstd::arithmetic::div_mod::lemma_div_is_ordered_by_denominator;
use vstd::arithmetic::div_mod::lemma_div_multiples_vanish_fancy;
use vstd::arithmetic::div_mod::lemma_fundamental_div_mod;

use crate::units::clamp_coord;
use crate::units::clamp_coord_exec;
use crate::units::in_arena;
use crate::units::DT_MAX;
use crate::units::Position;

verus! {

/// Hit points a fresh player starts with.
pub const PLAYER_START_HP: i32 = 3;

/// A full energy budget, in millionths of an energy point (`100.0`).
pub const ENERGY_FULL: u64 = 100_000_000;

/// Pickup threshold, in millionths (`40.0`): above it a pickup fills the
/// budget outright.
pub const ENERGY_PICKUP_THRESHOLD: u64 = 40_000_000;

/// Energy a pickup grants below the threshold, in millionths (`60.0`).
pub const ENERGY_PICKUP_GAIN: u64 = 60_000_000;

/// Energy drained per millisecond while hiding (`35.0` per second).
pub const HIDE_DRAIN: u64 = 35_000;

/// Energy regained per millisecond while not hiding (`4.0` per second).
pub const ENERGY_REGEN: u64 = 4_000;

/// Grace budget granted by a hit, in millionths (`100.0`).
pub const HIT_RESISTANCE: u64 = 100_000_000;

/// Grace budget spent per millisecond (`30.0` per second).
pub const HIT_DECAY: u64 = 30_000;

/// Camera shakes enqueued per hit before doubling.
pub const SHAKES: u64 = 4;

/// The player's remaining hit points.
#[derive(Clone, Copy, Debug, PartialEq, Eq, Structural)]
pub struct Player {
    pub hp: i32,
}

impl Player {
    /// Hit points stay between zero and the starting value.
    pub open spec fn wf(self) -> bool {
        0 <= self.hp <= PLAYER_START_HP
    }

    /// A fresh player.
    pub fn spawn_player() -> (p: Player)
        ensures
            p.wf(),
            p.hp == PLAYER_START_HP,
    {
        Player { hp: PLAYER_START_HP }
    }
}

/// The player's hit and hide bookkeeping: whether the hitbox is off, whether
/// a post-hit grace period is running, how much grace budget remains, and how
/// much energy the manual hide can still draw on.
#[derive(Clone, Copy, Debug, PartialEq, Eq, Structural)]
pub struct Hidden {
    /// The hitbox is currently off.
    pub hidden: bool,
    /// A post-hit grace period is running.
    pub hit: bool,
    /// Remaining grace budget, in millionths.
    pub hit_energy: u64,
    /// Remaining hide energy, in millionths.
    pub energy: u64,
}

impl Hidden {
    /// Both budgets stay within their configured ceilings.
    pub open spec fn wf(self) -> bool {
        self.energy <= ENERGY_FULL && self.hit_energy <= HIT_RESISTANCE
    }

    /// The bookkeeping a fresh player starts with: visible, unhit, full
    /// energy.
    pub fn spawn() -> (h: Hidden)
        ensures
            h.wf(),
            h == (Hidden { hidden: false, hit: false, hit_energy: 0u64, energy: ENERGY_FULL }),
    {
        Hidden { hidden: false, hit: false, hit_energy: 0, energy: ENERGY_FULL }
    }

    /// The whole energy points this value displays as.
    pub fn energy_points(&self) -> (p: u64)
        ensures
            p == self.energy / crate::units::UNIT,
    {
        self.energy / crate::units::UNIT
    }
}

/// The energy budget after touching a pickup: a budget above the threshold
/// fills outright, any other gains the fixed amount.
pub open spec fn energy_after_pickup(energy: int) -> int {
    if energy > ENERGY_PICKUP_THRESHOLD as int {
        ENERGY_FULL as int
    } else {
        energy + ENERGY_PICKUP_GAIN as int
    }
}

/// Apply an energy pickup to the player's budget. Only the budget changes.
pub fn absorb_energy(hidden: &mut Hidden)
    requires
        old(hidden).wf(),
    ensures
        final(hidden).wf(),
        final(hidden).energy as int == energy_after_pickup(old(hidden).energy as int),
        final(hidden).hidden == old(hidden).hidden,
        final(hidden).hit == old(hidden).hit,
        final(hidden).hit_energy == old(hidden).hit_energy,
{
    if hidden.energy > ENERGY_PICKUP_THRESHOLD {
        hidden.energy = ENERGY_FULL;
    } else {
        hidden.energy = hidden.energy + ENERGY_PICKUP_GAIN;
    }
}

/// The bookkeeping after `dt` milliseconds of a running grace period: at its
/// first tick the hitbox goes off; the grace budget then drains, and when it
/// runs out the grace period ends and the hitbox returns unless the hide
/// input is still held.
pub open spec fn grace_tick(h: Hidden, dt: int, hide_held: bool) -> Hidden {
    if !h.hit {
        h
    } else {
        let went_hidden = if h.hit_energy == HIT_RESISTANCE {
            true
        } else {
            h.hidden
        };
        let drained = if h.hit_energy <= HIT_DECAY * dt {
            0
        } else {
            h.hit_energy - HIT_DECAY * dt
        };
        if drained == 0 {
            Hidden {
                hidden: hide_held && went_hidden,
                hit: false,
                hit_energy: 0,
                energy: h.energy,
            }
        } else {
            Hidden { hidden: went_hidden, hit: true, hit_energy: drained as u64, energy: h.energy }
        }
    }
}

/// Advance a running grace period by one frame. `hide_held` tells whether
/// the manual hide input is down, which lets the hidden state persist past
/// the grace period's end.
pub fn player_was_hit(hidden: &mut Hidden, dt: u64, hide_held: bool)
    requires
        old(hidden).wf(),
        dt <= DT_MAX,
    ensures
        final(hidden).wf(),
        *final(hidden) == grace_tick(*old(hidden), dt as int, hide_held),
{
    if hidden.hit {
        if hidden.hit_energy == HIT_RESISTANCE {
            hidden.hidden = true;
        }
        let drain: u64 = HIT_DECAY * dt;
        if hidden.hit_energy <= drain {
            hidden.hit_energy = 0;
            hidden.hit = false;
            if !hide_held {
                hidden.hidden = false;
            }
        } else {
            hidden.hit_energy = hidden.hit_energy - drain;
        }
    }
}

/// The bookkeeping after `dt` milliseconds of the manual hide system, given
/// the state of the hide input. While the input is held and energy remains,
/// the hitbox is off and energy drains; otherwise energy regenerates up to
/// the ceiling. Releasing the input, or running dry, turns the hitbox back
/// on. A running grace period owns the hitbox, so nothing happens then.
pub open spec fn hide_tick(
    h: Hidden,
    dt: int,
    just_pressed: bool,
    held: bool,
    just_released: bool,
) -> Hidden {
    if h.hit {
        h
    } else {
        let has_energy = h.energy > 0;
        let hidden1 = if just_pressed && has_energy {
            true
        } else {
            h.hidden
        };
        let energy1 = if held && has_energy {
            if h.energy <= HIDE_DRAIN * dt {
                0
            } else {
                h.energy - HIDE_DRAIN * dt
            }
        } else {
            if h.energy + ENERGY_REGEN * dt >= ENERGY_FULL as int {
                ENERGY_FULL as int
            } else {
                h.energy + ENERGY_REGEN * dt
            }
        };
        let hidden2 = if just_released || !has_energy {
            false
        } else {
            hidden1
        };
        Hidden { hidden: hidden2, hit: false, hit_energy: h.hit_energy, energy: energy1 as u64 }
    }
}

/// Advance the manual hide system by one frame, from the three edges of the
/// hide input (pressed this frame, held, released this frame).
pub fn hide_update(hidden: &mut Hidden, dt: u64, just_pressed: bool, held: bool, just_released: bool)
    requires
        old(hidden).wf(),
        dt <= DT_MAX,
    ensures
        final(hidden).wf(),
        *final(hidden) == hide_tick(*old(hidden), dt as int, just_pressed, held, just_released),
{
    if !hidden.hit {
        let has_energy: bool = hidden.energy > 0;
        if just_pressed && has_energy {
            hidden.hidden = true;
        }
        if held && has_energy {
            let drain: u64 = HIDE_DRAIN * dt;
            if hidden.energy <= drain {
                hidden.energy = 0;
            } else {
                hidden.energy = hidden.energy - drain;
            }
        } else {
            let regen: u64 = ENERGY_REGEN * dt;
            if hidden.energy + regen >= ENERGY_FULL {
                hidden.energy = ENERGY_FULL;
            } else {
                hidden.energy = hidden.energy + regen;
            }
        }
        if just_released || !has_energy {
            hidden.hidden = false;
        }
    }
}

/// Horizontal bound the player may reach, in millionths of a pixel (a sixth
/// of a 1920-pixel screen).
pub const HORI_BOUND: i64 = 320_000_000;

/// Vertical bound the player may reach, in millionths of a pixel (half of a
/// 700-pixel viewport).
pub const VERT_BOUND: i64 = 350_000_000;

/// Largest speed the player may reach on either axis, in millionths of a
/// pixel per second.
pub const VEL_MAX: i64 = 1_000_000_000_000;

/// Largest mouse movement accepted per frame, in millionths of a pixel.
pub const MOUSE_DELTA_MAX: i64 = 1_000_000_000;

/// Velocity gained per unit of mouse movement.
pub const MOUSE_GAIN: i64 = 4;

/// The player's position and velocity, in millionths of a pixel and
/// millionths of a pixel per second.
#[derive(Clone, Copy, Debug, PartialEq, Eq, Structural)]
pub struct PlayerMotion {
    pub x: i64,
    pub y: i64,
    pub vx: i64,
    pub vy: i64,
}

impl PlayerMotion {
    /// The player stays inside the arena at a bounded speed.
    pub open spec fn wf(self) -> bool {
        in_arena(self.x, self.y) && -VEL_MAX <= self.vx <= VEL_MAX && -VEL_MAX <= self.vy
            <= VEL_MAX
    }
}

/// Clamp a velocity into its allowed band.
pub open spec fn clamp_vel(v: int) -> int {
    if v > VEL_MAX as int {
        VEL_MAX as int
    } else if v < -(VEL_MAX as int) {
        -(VEL_MAX as int)
    } else {
        v
    }
}

/// The player's motion after one frame of mouse steering: inside the bounds
/// the mouse accelerates the player (mouse y grows downward, so it is
/// negated); at a bound, movement further out is stopped and the player is
/// pinned to the bound, while movement back in is accepted.
pub open spec fn movement_outcome(m: PlayerMotion, mouse_dx: int, mouse_dy: int) -> PlayerMotion {
    let is_left = m.x <= -(HORI_BOUND as int);
    let is_right = m.x >= HORI_BOUND as int;
    let is_down = m.y <= -(VERT_BOUND as int);
    let is_up = m.y >= VERT_BOUND as int;
    let x_free = (!is_right && !is_left) || (is_left && m.vx >= 0) || (is_right && m.vx <= 0);
    let y_free = (!is_down && !is_up) || (is_down && m.vy >= 0) || (is_up && m.vy <= 0);
    PlayerMotion {
        x: if x_free {
            m.x
        } else if is_right {
            HORI_BOUND
        } else {
            (-HORI_BOUND) as i64
        },
        vx: if x_free {
            clamp_vel(m.vx + MOUSE_GAIN * mouse_dx) as i64
        } else {
            0
        },
        y: if y_free {
            m.y
        } else if is_up {
            VERT_BOUND
        } else {
            (-VERT_BOUND) as i64
        },
        vy: if y_free {
            clamp_vel(m.vy - MOUSE_GAIN * mouse_dy) as i64
        } else {
            0
        },
    }
}

/// Steer the player by one frame of mouse movement.
pub fn movement(m: &mut PlayerMotion, mouse_dx: i64, mouse_dy: i64)
    requires
        old(m).wf(),
        -MOUSE_DELTA_MAX <= mouse_dx <= MOUSE_DELTA_MAX,
        -MOUSE_DELTA_MAX <= mouse_dy <= MOUSE_DELTA_MAX,
    ensures
        final(m).wf(),
        *final(m) == movement_outcome(*old(m), mouse_dx as int, mouse_dy as int),
{
    let is_left: bool = m.x <= -HORI_BOUND;
    let is_right: bool = m.x >= HORI_BOUND;
    let is_down: bool = m.y <= -VERT_BOUND;
    let is_up: bool = m.y >= VERT_BOUND;
    if (!is_right && !is_left) || (is_left && m.vx >= 0) || (is_right && m.vx <= 0) {
        let v: i64 = m.vx + MOUSE_GAIN * mouse_dx;
        m.vx = if v > VEL_MAX {
            VEL_MAX
        } else if v < -VEL_MAX {
            -VEL_MAX
        } else {
            v
        };
    } else {
        m.x = if is_right {
            HORI_BOUND
        } else {
            -HORI_BOUND
        };
        m.vx = 0;
    }
    if (!is_down && !is_up) || (is_down && m.vy >= 0) || (is_up && m.vy <= 0) {
        let v: i64 = m.vy - MOUSE_GAIN * mouse_dy;
        m.vy = if v > VEL_MAX {
            VEL_MAX
        } else if v < -VEL_MAX {
            -VEL_MAX
        } else {
            v
        };
    } else {
        m.y = if is_up {
            VERT_BOUND
        } else {
            -VERT_BOUND
        };
        m.vy = 0;
    }
}

/// Activation radius of a gravitational pull, in millionths of a pixel
/// (400 pixels).
pub const GRAV_RADIUS: u64 = 400_000_000;

/// Numerator of the inverse-square pull: at distance `d` the pull vector has
/// magnitude `GRAV_NUM / d` millionths of a pixel per second, which at 400
/// pixels comes to 25 pixels per second.
pub const GRAV_NUM: u128 = 10_000_000_000_000_000;

/// Per-axis pull, in millionths of a pixel per second, at which the
/// safety-snap branch takes over (1500 pixels per second).
pub const GRAV_CLAMP: u64 = 1_500_000_000;

/// Largest pull strength a source may carry, in millionths (`10.0`).
pub const STRENGTH_MAX: u64 = 10_000_000;

/// Marks an object that pulls the player in, and how strongly.
#[derive(Clone, Copy, Debug, PartialEq, Eq, Structural)]
pub struct Gravitating {
    /// Pull strength, in millionths of a strength point.
    pub strength: u64,
}

/// The magnitude of `v`.
pub open spec fn iabs(v: int) -> int {
    if v >= 0 {
        v
    } else {
        -v
    }
}

/// `r` is the integer square root of `n`.
pub open spec fn is_isqrt(n: int, r: int) -> bool {
    0 <= r && r * r <= n < (r + 1) * (r + 1)
}

/// The integer square root of `n`.
pub open spec fn sqrt_of(n: int) -> int {
    choose|r: int| is_isqrt(n, r)
}

/// A number has at most one integer square root.
pub proof fn lemma_isqrt_unique(n: int, r1: int, r2: int)
    requires
        is_isqrt(n, r1),
        is_isqrt(n, r2),
    ensures
        r1 == r2,
{
    assert(r1 <= r2 ==> r1 == r2) by {
        if r1 < r2 {
            assert((r1 + 1) * (r1 + 1) <= r2 * r2) by (nonlinear_arith)
                requires
                    0 <= r1,
                    r1 + 1 <= r2,
            ;
        }
    }
    assert(r2 <= r1 ==> r1 == r2) by {
        if r2 < r1 {
            assert((r2 + 1) * (r2 + 1) <= r1 * r1) by (nonlinear_arith)
                requires
                    0 <= r2,
                    r2 + 1 <= r1,
            ;
        }
    }
}

/// A witness pins down `sqrt_of`.
pub proof fn lemma_sqrt_of(n: int, r: int)
    requires
        is_isqrt(n, r),
    ensures
        sqrt_of(n) == r,
{
    assert(is_isqrt(n, sqrt_of(n))) by {
        assert(exists|s: int| is_isqrt(n, s)) by {
            assert(is_isqrt(n, r));
        }
    }
    lemma_isqrt_unique(n, sqrt_of(n), r);
}

/// The integer square root, by binary search.
pub fn isqrt(n: u128) -> (r: u64)
    ensures
        is_isqrt(n as int, r as int),
        r as int == sqrt_of(n as int),
{
    let mut lo: u64 = 0;
    let mut hi: u64 = u64::MAX;
    while lo < hi
        invariant
            lo <= hi,
            (lo as int) * (lo as int) <= n as int,
            (hi as int + 1) * (hi as int + 1) > n as int,
        decreases hi - lo,
    {
        let mid: u64 = hi - (hi - lo) / 2;
        proof {
            assert((mid as int) * (mid as int) <= (u64::MAX as int) * (u64::MAX as int))
                by (nonlinear_arith)
                requires
                    0 <= mid as int <= u64::MAX as int,
            ;
        }
        let sq: u128 = (mid as u128) * (mid as u128);
        if sq <= n {
            lo = mid;
        } else {
            hi = mid - 1;
        }
    }
    proof {
        lemma_sqrt_of(n as int, lo as int);
    }
    lo
}

/// The squared Euclidean distance between two points.
pub open spec fn dist_sq(x1: int, y1: int, x2: int, y2: int) -> int {
    (x1 - x2) * (x1 - x2) + (y1 - y2) * (y1 - y2)
}

/// The Euclidean distance between two points, rounded down.
pub fn point_distance(x1: i64, y1: i64, x2: i64, y2: i64) -> (d: u64)
    requires
        in_arena(x1, y1),
        in_arena(x2, y2),
    ensures
        is_isqrt(dist_sq(x1 as int, y1 as int, x2 as int, y2 as int), d as int),
        d as int == sqrt_of(dist_sq(x1 as int, y1 as int, x2 as int, y2 as int)),
{
    let dx: i64 = x1 - x2;
    let dy: i64 = y1 - y2;
    proof {
        assert(0 <= (dx as int) * (dx as int) <= 4_000_000_000_000int * 4_000_000_000_000int)
            by (nonlinear_arith)
            requires
                -4_000_000_000_000 <= dx as int <= 4_000_000_000_000,
        ;
        assert(0 <= (dy as int) * (dy as int) <= 4_000_000_000_000int * 4_000_000_000_000int)
            by (nonlinear_arith)
            requires
                -4_000_000_000_000 <= dy as int <= 4_000_000_000_000,
        ;
    }
    let sq128: i128 = (dx as i128) * (dx as i128) + (dy as i128) * (dy as i128);
    let sq: u128 = sq128 as u128;
    isqrt(sq)
}

/// Per-axis pull magnitude, in millionths of a pixel per second, for an
/// offset of magnitude `delta` at squared distance `d2`.
pub open spec fn pull_mag(delta: int, d2: int) -> int {
    (GRAV_NUM as int) * delta / d2
}

/// The frame displacement, in millionths of a pixel, of a pull of magnitude
/// `pm` acting for `dt` milliseconds at strength `strength`.
pub open spec fn disp_mag(pm: int, dt: int, strength: int) -> int {
    pm * dt * strength / 1_000_000_000
}

/// The magnitude of the pull vector at distance `d`, in millionths of a
/// pixel per second: the inverse-square pull `GRAV_NUM / d²` of an offset of
/// length `d` comes to `GRAV_NUM / d`.
pub open spec fn gravity_displacement(d: int) -> int {
    (GRAV_NUM as int) / d
}

/// The inverse-square law: within the activation radius, the pull magnitude
/// never grows as the distance grows.
pub proof fn lemma_gravity_monotone(d1: int, d2: int)
    requires
        1 <= d1 <= d2 <= GRAV_RADIUS,
    ensures
        gravity_displacement(d1) >= gravity_displacement(d2),
{
    lemma_div_is_ordered_by_denominator(GRAV_NUM as int, d1, d2);
}

/// The per-axis pull along a purely axis-aligned offset of length `d` is
/// exactly the pull-vector magnitude at distance `d`.
pub proof fn lemma_axis_pull_at_distance(d: int)
    requires
        1 <= d,
    ensures
        pull_mag(d, d * d) == gravity_displacement(d),
{
    let g = GRAV_NUM as int;
    let q = g / d;
    let r = g % d;
    lemma_fundamental_div_mod(g, d);
    assert(g * d == (d * d) * q + r * d) by (nonlinear_arith)
        requires
            g == q * d + r,
    ;
    assert(0 <= r * d < d * d) by (nonlinear_arith)
        requires
            0 <= r < d,
            1 <= d,
    ;
    lemma_div_multiples_vanish_fancy(q, r * d, d * d);
}

/// The outcome of one frame of gravitational pull from a source at `hole`
/// with the given strength: outside the activation radius, or while the
/// player is hidden, nothing happens; within it, the player is displaced
/// toward the source by the inverse-square pull, unless the raw pull reaches
/// the safety bound on either axis (or the distance rounds to zero), in
/// which case the player snaps onto the source.
pub open spec fn gravity_outcome(
    p: Position,
    hole: Position,
    strength: int,
    dt: int,
    hidden: bool,
) -> (Position, bool) {
    let d2 = dist_sq(p.x as int, p.y as int, hole.x as int, hole.y as int);
    let d = sqrt_of(d2);
    if hidden || d > GRAV_RADIUS {
        (p, false)
    } else if d == 0 {
        (hole, true)
    } else {
        let gxm = pull_mag(iabs(p.x - hole.x), d2);
        let gym = pull_mag(iabs(p.y - hole.y), d2);
        if gxm < GRAV_CLAMP && gym < GRAV_CLAMP {
            let sx = disp_mag(gxm, dt, strength);
            let sy = disp_mag(gym, dt, strength);
            let nx = if p.x >= hole.x {
                p.x - sx
            } else {
                p.x + sx
            };
            let ny = if p.y >= hole.y {
                p.y - sy
            } else {
                p.y + sy
            };
            (Position { x: clamp_coord(nx) as i64, y: clamp_coord(ny) as i64 }, false)
        } else {
            (hole, true)
        }
    }
}

/// The safety-snap branch fires exactly when the raw computed pull reaches
/// the configured bound on some axis, or the distance rounds to zero; it
/// never fires outside the activation radius or on a hidden player.
pub proof fn lemma_snap_exactly_past_bound(
    p: Position,
    hole: Position,
    strength: int,
    dt: int,
    hidden: bool,
)
    ensures
        ({
            let d2 = dist_sq(p.x as int, p.y as int, hole.x as int, hole.y as int);
            let d = sqrt_of(d2);
            gravity_outcome(p, hole, strength, dt, hidden).1 <==> !hidden && d <= GRAV_RADIUS
                && (d == 0 || pull_mag(iabs(p.x - hole.x), d2) >= GRAV_CLAMP || pull_mag(
                iabs(p.y - hole.y),
                d2,
            ) >= GRAV_CLAMP)
        }),
{
}

/// Apply one frame of gravitational pull from one source to the player's
/// position. Returns whether the safety-snap branch fired, which happens
/// exactly when the raw per-axis pull reached the configured bound (or the
/// distance rounded to zero).
pub fn gravity_interaction(
    p: &mut Position,
    hole: Position,
    gravitating: Gravitating,
    dt: u64,
    hidden: bool,
) -> (snapped: bool)
    requires
        old(p).wf(),
        hole.wf(),
        gravitating.strength <= STRENGTH_MAX,
        dt <= DT_MAX,
    ensures
        final(p).wf(),
        (*final(p), snapped) == gravity_outcome(
            *old(p),
            hole,
            gravitating.strength as int,
            dt as int,
            hidden,
        ),
{
    let ghost d2_spec = dist_sq(p.x as int, p.y as int, hole.x as int, hole.y as int);
    if hidden {
        return false;
    }
    let d: u64 = point_distance(p.x, p.y, hole.x, hole.y);
    if d > GRAV_RADIUS {
        return false;
    }
    if d == 0 {
        *p = hole;
        return true;
    }
    let dx: i64 = p.x - hole.x;
    let dy: i64 = p.y - hole.y;
    let dxm: u64 = if dx >= 0 {
        dx as u64
    } else {
        (-dx) as u64
    };
    let dym: u64 = if dy >= 0 {
        dy as u64
    } else {
        (-dy) as u64
    };
    proof {
        assert(0 <= (dxm as int) * (dxm as int) <= 4_000_000_000_000int * 4_000_000_000_000int
            && (dxm as int) * (dxm as int) == (dx as int) * (dx as int)) by (nonlinear_arith)
            requires
                dxm as int == iabs(dx as int),
                -4_000_000_000_000 <= dx as int <= 4_000_000_000_000,
        ;
        assert(0 <= (dym as int) * (dym as int) <= 4_000_000_000_000int * 4_000_000_000_000int
            && (dym as int) * (dym as int) == (dy as int) * (dy as int)) by (nonlinear_arith)
            requires
                dym as int == iabs(dy as int),
                -4_000_000_000_000 <= dy as int <= 4_000_000_000_000,
        ;
    }
    let d2: u128 = (dxm as u128) * (dxm as u128) + (dym as u128) * (dym as u128);
    proof {
        assert(d2 == d2_spec);
        assert((d as int) * (d as int) >= 1) by (nonlinear_arith)
            requires
                d as int >= 1,
        ;
        assert(d2 >= 1);
    }
    let gxm: u128 = GRAV_NUM * (dxm as u128) / d2;
    let gym: u128 = GRAV_NUM * (dym as u128) / d2;
    if gxm < GRAV_CLAMP as u128 && gym < GRAV_CLAMP as u128 {
        proof {
            assert(0 <= gxm * (dt as u128) <= 1_500_000_000_000_000) by (nonlinear_arith)
                requires
                    0 <= gxm <= 1_500_000_000,
                    0 <= dt as u128 <= 1_000_000,
            ;
            assert(0 <= gxm * (dt as u128) * (gravitating.strength as u128)
                <= 15_000_000_000_000_000_000_000) by (nonlinear_arith)
                requires
                    0 <= gxm * (dt as u128) <= 1_500_000_000_000_000,
                    0 <= gravitating.strength as u128 <= 10_000_000,
            ;
            assert(0 <= gym * (dt as u128) <= 1_500_000_000_000_000) by (nonlinear_arith)
                requires
                    0 <= gym <= 1_500_000_000,
                    0 <= dt as u128 <= 1_000_000,
            ;
            assert(0 <= gym * (dt as u128) * (gravitating.strength as u128)
                <= 15_000_000_000_000_000_000_000) by (nonlinear_arith)
                requires
                    0 <= gym * (dt as u128) <= 1_500_000_000_000_000,
                    0 <= gravitating.strength as u128 <= 10_000_000,
            ;
        }
        let sx: i64 = ((gxm * (dt as u128) * (gravitating.strength as u128)
            / 1_000_000_000) as u64) as i64;
        let sy: i64 = ((gym * (dt as u128) * (gravitating.strength as u128)
            / 1_000_000_000) as u64) as i64;
        let nx: i64 = if dx >= 0 {
            p.x - sx
        } else {
            p.x + sx
        };
        let ny: i64 = if dy >= 0 {
            p.y - sy
        } else {
            p.y + sy
        };
        p.x = clamp_coord_exec(nx);
        p.y = clamp_coord_exec(ny);
        false
    } else {
        *p = hole;
        true
    }
}

/// A camera-shake request: the number of half-shakes still to perform. The
/// count is always odd, so the offsets cancel and the camera ends centered.
#[derive(Clone, Copy, Debug, PartialEq, Eq, Structural)]
pub struct ScreenShaker {
    pub shakes: u64,
}

/// One camera nudge, in millionths of a pixel: six pixels, alternating sides
/// as the remaining count falls.
pub open spec fn shake_offset(shakes: int) -> int {
    if shakes % 2 == 0 {
        -6_000_000
    } else {
        6_000_000
    }
}

/// Perform one camera shake step: the returned offset moves the camera, and
/// the request is spent once the count reaches zero.
pub fn cam_shake(shaker: &mut ScreenShaker) -> (r: (i64, bool))
    ensures
        r.0 as int == shake_offset(old(shaker).shakes as int),
        r.1 <==> old(shaker).shakes == 0,
        old(shaker).shakes > 0 ==> final(shaker).shakes == old(shaker).shakes - 1,
        old(shaker).shakes == 0 ==> final(shaker).shakes == 0,
{
    let offset: i64 = if shaker.shakes % 2 == 0 {
        -6_000_000
    } else {
        6_000_000
    };
    if shaker.shakes > 0 {
        shaker.shakes = shaker.shakes - 1;
        (offset, false)
    } else {
        (offset, true)
    }
}

} // verus!
