//! Planes: damaging hazards that fly across the screen after the player
//! touches an invisible sensor line.

use vstd::prelude::*;

use crate::map_layout::SPAWN_HEIGHT;
use crate::speed::Speed;
use crate::units::clamp_coord;
use crate::units::clamp_coord_exec;
use crate::units::in_arena;
use crate::units::DT_MAX;

verus! {

/// Horizontal start offset of a released plane, in millionths of a pixel:
/// just outside the screen, on the side it flies in from.
pub const PLANE_START_X: i64 = 420_000_000;

/// Vertical offset between a sensor and the plane it releases, in millionths
/// of a pixel.
pub const PLANE_Y_OFFSET: i64 = 300_000_000;

/// How long a plane lives, in milliseconds.
pub const PLANE_LIFETIME: u64 = 3_500;

/// How long a sensor waits before giving up, in milliseconds.
pub const PLANE_SENSOR_LIFETIME: u64 = 10_000;

/// Horizontal flight distance per millisecond, in millionths of a pixel
/// (200 pixels per second).
pub const PLANE_X_RATE: u64 = 200_000;

/// Vertical fall rate per millisecond per speed point, in millionths of a
/// pixel (100 pixels per second at speed `1.0`).
pub const PLANE_Y_RATE: u64 = 100;

/// The direction a plane flies in.
#[derive(Clone, Copy, Debug, PartialEq, Eq, Structural)]
pub enum PlaneDir {
    Left,
    Right,
}

/// An invisible full-width trigger line: touching it releases a plane and
/// removes the sensor.
#[derive(Clone, Copy, Debug, PartialEq, Eq, Structural)]
pub struct PlaneSensor {
    /// The direction of the plane this sensor releases.
    pub dir: PlaneDir,
    /// Height of the line, in millionths of a pixel.
    pub y: i64,
}

/// A flying plane hazard.
#[derive(Clone, Copy, Debug, PartialEq, Eq, Structural)]
pub struct Plane {
    pub x: i64,
    pub y: i64,
    pub dir: PlaneDir,
    /// Remaining lifetime, in milliseconds.
    pub timer: u64,
}

impl Plane {
    /// A plane stays inside the arena and within its initial lifetime.
    pub open spec fn wf(self) -> bool {
        in_arena(self.x, self.y) && self.timer <= PLANE_LIFETIME
    }
}

/// Place a sensor line at the given height, or at the fixed spawn height
/// when none is given. The sensor spans the whole screen, so it has no
/// horizontal position of its own.
pub fn create_plane_sensor(y: Option<i64>, dir: PlaneDir) -> (s: PlaneSensor)
    requires
        match y {
            Some(v) => -crate::units::COORD_LIMIT <= v <= crate::units::COORD_LIMIT,
            None => true,
        },
    ensures
        s.dir == dir,
        s.y == match y {
            Some(v) => v,
            None => SPAWN_HEIGHT,
        },
        in_arena(0, s.y),
{
    let sy: i64 = match y {
        Some(v) => v,
        None => SPAWN_HEIGHT,
    };
    PlaneSensor { dir, y: sy }
}

/// The plane a sensor at height `y` releases: it starts just outside the
/// screen on the side it enters from, three hundred pixels above the sensor,
/// with a full lifetime.
pub open spec fn plane_from(dir: PlaneDir, y: int) -> Plane {
    Plane {
        x: if dir == PlaneDir::Right {
            (-PLANE_START_X) as i64
        } else {
            PLANE_START_X
        },
        y: clamp_coord(y + PLANE_Y_OFFSET) as i64,
        dir,
        timer: PLANE_LIFETIME,
    }
}

/// Release a plane from a sensor at height `y`, flying in direction `dir`.
pub fn create_plane(dir: PlaneDir, y: i64) -> (p: Plane)
    requires
        in_arena(0, y),
    ensures
        p == plane_from(dir, y as int),
        p.wf(),
{
    let px: i64 = if dir == PlaneDir::Right {
        -PLANE_START_X
    } else {
        PLANE_START_X
    };
    let py: i64 = clamp_coord_exec(y + PLANE_Y_OFFSET);
    Plane { x: px, y: py, dir, timer: PLANE_LIFETIME }
}

/// The plane after `dt` milliseconds: it crosses the screen at a fixed rate
/// in its own direction and falls slowly, scaled by the speed multiplier;
/// its lifetime drains. Coordinates clamp to the arena.
pub open spec fn plane_after_tick(p: Plane, speed: int, dt: int) -> Plane {
    Plane {
        x: clamp_coord(
            if p.dir == PlaneDir::Right {
                p.x + PLANE_X_RATE * dt
            } else {
                p.x - PLANE_X_RATE * dt
            },
        ) as i64,
        y: clamp_coord(p.y - PLANE_Y_RATE * speed * dt / 1000) as i64,
        dir: p.dir,
        timer: if p.timer <= dt {
            0
        } else {
            (p.timer - dt) as u64
        },
    }
}

/// Move one plane by one frame and drain its lifetime.
pub fn plane_movement(p: &mut Plane, speed: &Speed, dt: u64)
    requires
        old(p).wf(),
        speed.wf(),
        dt <= DT_MAX,
    ensures
        final(p).wf(),
        *final(p) == plane_after_tick(*old(p), speed.speed as int, dt as int),
{
    proof {
        assert((PLANE_Y_RATE * speed.speed) * dt <= (PLANE_Y_RATE * crate::speed::SPEED_MAX)
            * DT_MAX) by (nonlinear_arith)
            requires
                speed.speed <= crate::speed::SPEED_MAX,
                dt <= DT_MAX,
        ;
    }
    let dx: i64 = (PLANE_X_RATE * dt) as i64;
    let dy: i64 = (PLANE_Y_RATE * speed.speed * dt / 1000) as i64;
    p.x = clamp_coord_exec(if matches!(p.dir, PlaneDir::Right) { p.x + dx } else { p.x - dx });
    p.y = clamp_coord_exec(p.y - dy);
    p.timer = if p.timer <= dt {
        0
    } else {
        p.timer - dt
    };
}

/// The planes still alive after one frame: each is moved and drained, and
/// those whose lifetime ran out are dropped, keeping order.
pub open spec fn planes_after_tick(s: Seq<Plane>, speed: int, dt: int) -> Seq<Plane>
    decreases s.len(),
{
    if s.len() == 0 {
        Seq::empty()
    } else {
        let rest = planes_after_tick(s.drop_last(), speed, dt);
        let p = plane_after_tick(s.last(), speed, dt);
        if p.timer > 0 {
            rest.push(p)
        } else {
            rest
        }
    }
}

/// Move every plane by one frame and drop those whose lifetime ran out.
pub fn despawn_planes(planes: &mut Vec<Plane>, speed: &Speed, dt: u64)
    requires
        forall|i: int| 0 <= i < old(planes)@.len() ==> (#[trigger] old(planes)@[i]).wf(),
        speed.wf(),
        dt <= DT_MAX,
    ensures
        final(planes)@ == planes_after_tick(old(planes)@, speed.speed as int, dt as int),
        forall|i: int| 0 <= i < final(planes)@.len() ==> (#[trigger] final(planes)@[i]).wf(),
{
    let ghost orig: Seq<Plane> = planes@;
    let mut out: Vec<Plane> = Vec::new();
    let n: usize = planes.len();
    let mut i: usize = 0;
    while i < n
        invariant
            i <= n == orig.len(),
            planes@ == orig,
            forall|j: int| 0 <= j < orig.len() ==> (#[trigger] orig[j]).wf(),
            speed.wf(),
            dt <= DT_MAX,
            out@ == planes_after_tick(orig.subrange(0, i as int), speed.speed as int, dt as int),
            forall|j: int| 0 <= j < out@.len() ==> (#[trigger] out@[j]).wf(),
        decreases n - i,
    {
        let mut p: Plane = planes[i];
        plane_movement(&mut p, speed, dt);
        if p.timer > 0 {
            out.push(p);
        }
        proof {
            let sub = orig.subrange(0, i as int + 1);
            assert(sub.drop_last() =~= orig.subrange(0, i as int));
            assert(sub.last() == orig[i as int]);
        }
        i = i + 1;
    }
    proof {
        assert(orig.subrange(0, n as int) =~= orig);
    }
    *planes = out;
}

} // verus!
