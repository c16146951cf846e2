//! Falling objects: every enemy the spawn table places, their templates,
//! their shared downward drift, and the rules that remove them again.

use vstd::prelude::*;

use crate::map_layout::EnemyKind;
use crate::map_layout::ResolvedSpawn;
use crate::plane::create_plane_sensor;
use crate::plane::PlaneDir;
use crate::plane::PlaneSensor;
use crate::rng::rand_below;
use crate::speed::Speed;
use crate::speed::SPEED_MAX;
use crate::units::clamp_coord;
use crate::units::clamp_coord_exec;
use crate::units::in_arena;
use crate::units::DT_MAX;

verus! {

/// Fall distance per millisecond per speed point, in millionths of a pixel
/// (200 pixels per second at speed `1.0`).
pub const FALL_RATE: u64 = 200;

/// Margin below the viewport, in millionths of a pixel, past which a falling
/// object is discarded.
pub const DESPAWN_MARGIN: i64 = 200_000_000;

/// The six interchangeable looks of a plain falling hazard.
#[derive(Clone, Copy, Debug, PartialEq, Eq, Structural)]
pub enum BasicKind {
    FullChoc,
    PartChoc,
    Egg,
    Lolly,
    Love,
    Drink,
}

/// What a falling object is.
#[derive(Clone, Copy, Debug, PartialEq, Eq, Structural)]
pub enum ObjectKind {
    /// Black hole: harmless, strong pull.
    Hole,
    /// Energy pickup.
    EnergyBar,
    /// Homing rainbow.
    Rainbow,
    /// Stationary hazard a rainbow leaves behind.
    Trail,
    /// Solid planet with a gentle pull.
    Planet,
    /// Plain hazard, in one of six looks.
    Basic(BasicKind),
}

/// One spawned object: its position, its remaining lifetime, and the traits
/// that drive its behaviour. The traits are independent: an object may
/// damage, pull, and home all at once.
#[derive(Clone, Copy, Debug, PartialEq, Eq, Structural)]
pub struct FallingObject {
    pub kind: ObjectKind,
    /// Position in millionths of a pixel.
    pub x: i64,
    pub y: i64,
    /// Remaining lifetime, in milliseconds.
    pub timer: u64,
    /// Contact costs the player a hit point.
    pub damaging: bool,
    /// Pull exerted on the player, in millionths of a strength point; zero
    /// means no pull.
    pub strength: u64,
    /// The object steers toward the player.
    pub homing: bool,
}

/// Lifetime of a black hole, in milliseconds.
pub const HOLE_LIFETIME: u64 = 6_000;

/// Pull strength of a black hole, in millionths (`2.5`).
pub const HOLE_STRENGTH: u64 = 2_500_000;

/// Lifetime of an energy pickup, in milliseconds.
pub const BAR_LIFETIME: u64 = 8_850;

/// Lifetime of a homing rainbow, in milliseconds.
pub const RAINBOW_LIFETIME: u64 = 16_000;

/// Lifetime of a trail hazard, in milliseconds.
pub const TRAIL_LIFETIME: u64 = 2_000;

/// Lifetime of a planet, in milliseconds.
pub const PLANET_LIFETIME: u64 = 7_000;

/// Pull strength of a planet, in millionths (`1.0`).
pub const PLANET_STRENGTH: u64 = 1_000_000;

/// Lifetime of a plain hazard, in milliseconds.
pub const BASIC_LIFETIME: u64 = 6_000;

impl FallingObject {
    /// An object stays inside the arena.
    pub open spec fn wf(self) -> bool {
        in_arena(self.x, self.y)
    }
}

/// A black hole: harmless to touch, but it pulls the player in two and a
/// half times as strongly as a planet.
pub fn create_hole(x: i64, y: i64) -> (o: FallingObject)
    requires
        in_arena(x, y),
    ensures
        o == (FallingObject {
            kind: ObjectKind::Hole,
            x,
            y,
            timer: HOLE_LIFETIME,
            damaging: false,
            strength: HOLE_STRENGTH,
            homing: false,
        }),
        o.wf(),
{
    FallingObject {
        kind: ObjectKind::Hole,
        x,
        y,
        timer: HOLE_LIFETIME,
        damaging: false,
        strength: HOLE_STRENGTH,
        homing: false,
    }
}

/// An energy pickup: harmless, refills the hide budget on contact.
pub fn create_bar(x: i64, y: i64) -> (o: FallingObject)
    requires
        in_arena(x, y),
    ensures
        o == (FallingObject {
            kind: ObjectKind::EnergyBar,
            x,
            y,
            timer: BAR_LIFETIME,
            damaging: false,
            strength: 0u64,
            homing: false,
        }),
        o.wf(),
{
    FallingObject {
        kind: ObjectKind::EnergyBar,
        x,
        y,
        timer: BAR_LIFETIME,
        damaging: false,
        strength: 0,
        homing: false,
    }
}

/// A homing rainbow: damaging, steers toward the player and leaves trails.
pub fn create_rainbow(x: i64, y: i64) -> (o: FallingObject)
    requires
        in_arena(x, y),
    ensures
        o == (FallingObject {
            kind: ObjectKind::Rainbow,
            x,
            y,
            timer: RAINBOW_LIFETIME,
            damaging: true,
            strength: 0u64,
            homing: true,
        }),
        o.wf(),
{
    FallingObject {
        kind: ObjectKind::Rainbow,
        x,
        y,
        timer: RAINBOW_LIFETIME,
        damaging: true,
        strength: 0,
        homing: true,
    }
}

/// A trail hazard left behind by a homing rainbow: stationary, damaging,
/// short-lived.
pub fn create_trail(x: i64, y: i64) -> (o: FallingObject)
    requires
        in_arena(x, y),
    ensures
        o == (FallingObject {
            kind: ObjectKind::Trail,
            x,
            y,
            timer: TRAIL_LIFETIME,
            damaging: true,
            strength: 0u64,
            homing: false,
        }),
        o.wf(),
{
    FallingObject {
        kind: ObjectKind::Trail,
        x,
        y,
        timer: TRAIL_LIFETIME,
        damaging: true,
        strength: 0,
        homing: false,
    }
}

/// A planet: solid but harmless, with a gentle pull.
pub fn create_planet(x: i64, y: i64) -> (o: FallingObject)
    requires
        in_arena(x, y),
    ensures
        o == (FallingObject {
            kind: ObjectKind::Planet,
            x,
            y,
            timer: PLANET_LIFETIME,
            damaging: false,
            strength: PLANET_STRENGTH,
            homing: false,
        }),
        o.wf(),
{
    FallingObject {
        kind: ObjectKind::Planet,
        x,
        y,
        timer: PLANET_LIFETIME,
        damaging: false,
        strength: PLANET_STRENGTH,
        homing: false,
    }
}

/// The plain-hazard look a draw resolves to: the six looks cycle with the
/// draw's remainder.
pub open spec fn basic_kind_of(draw: int) -> BasicKind {
    if draw % 6 == 0 {
        BasicKind::FullChoc
    } else if draw % 6 == 1 {
        BasicKind::PartChoc
    } else if draw % 6 == 2 {
        BasicKind::Egg
    } else if draw % 6 == 3 {
        BasicKind::Lolly
    } else if draw % 6 == 4 {
        BasicKind::Love
    } else {
        BasicKind::Drink
    }
}

/// Pick the plain-hazard look for a draw.
pub fn pick_basic(draw: u64) -> (k: BasicKind)
    ensures
        k == basic_kind_of(draw as int),
{
    let r: u64 = draw % 6;
    if r == 0 {
        BasicKind::FullChoc
    } else if r == 1 {
        BasicKind::PartChoc
    } else if r == 2 {
        BasicKind::Egg
    } else if r == 3 {
        BasicKind::Lolly
    } else if r == 4 {
        BasicKind::Love
    } else {
        BasicKind::Drink
    }
}

/// A plain falling hazard in a random one of the six looks.
pub fn create_basic(x: i64, y: i64) -> (o: FallingObject)
    requires
        in_arena(x, y),
    ensures
        o.kind matches ObjectKind::Basic(_),
        o.x == x,
        o.y == y,
        o.timer == BASIC_LIFETIME,
        o.damaging,
        o.strength == 0,
        !o.homing,
        o.wf(),
{
    let draw: u64 = rand_below(6);
    FallingObject {
        kind: ObjectKind::Basic(pick_basic(draw)),
        x,
        y,
        timer: BASIC_LIFETIME,
        damaging: true,
        strength: 0,
        homing: false,
    }
}

/// An object after one frame of falling: it drops at the shared rate scaled
/// by the speed multiplier, clamped to the arena; nothing else changes.
pub open spec fn fallen(o: FallingObject, speed: int, dt: int) -> FallingObject {
    FallingObject {
        y: clamp_coord(o.y - FALL_RATE * speed * dt / 1000) as i64,
        ..o
    }
}

/// Drop every object by one frame at the shared rate.
pub fn movement(objects: &mut Vec<FallingObject>, speed: &Speed, dt: u64)
    requires
        forall|i: int| 0 <= i < old(objects)@.len() ==> (#[trigger] old(objects)@[i]).wf(),
        speed.wf(),
        dt <= DT_MAX,
    ensures
        final(objects)@.len() == old(objects)@.len(),
        forall|i: int| 0 <= i < old(objects)@.len() ==> #[trigger] final(objects)@[i] == fallen(
            old(objects)@[i],
            speed.speed as int,
            dt as int,
        ),
        forall|i: int| 0 <= i < final(objects)@.len() ==> (#[trigger] final(objects)@[i]).wf(),
{
    proof {
        assert((FALL_RATE * speed.speed) * dt <= (FALL_RATE * SPEED_MAX) * DT_MAX)
            by (nonlinear_arith)
            requires
                speed.speed <= SPEED_MAX,
                dt <= DT_MAX,
        ;
    }
    let dy: i64 = (FALL_RATE * speed.speed * dt / 1000) as i64;
    let ghost orig: Seq<FallingObject> = objects@;
    let n: usize = objects.len();
    let mut i: usize = 0;
    while i < n
        invariant
            i <= n == objects@.len() == orig.len(),
            dy == FALL_RATE * (speed.speed as int) * dt / 1000,
            0 <= dy <= 200_000_000_000_000,
            forall|j: int| 0 <= j < orig.len() ==> (#[trigger] orig[j]).wf(),
            forall|j: int| 0 <= j < i ==> #[trigger] objects@[j] == fallen(
                orig[j],
                speed.speed as int,
                dt as int,
            ),
            forall|j: int| i <= j < orig.len() ==> #[trigger] objects@[j] == orig[j],
        decreases n - i,
    {
        let y0: i64 = objects[i].y;
        objects[i].y = clamp_coord_exec(y0 - dy);
        i = i + 1;
    }
}

/// The vertical line, in millionths of a pixel, below which a falling object
/// is out of sight for a viewport of height `h` and is discarded.
pub open spec fn despawn_threshold(h: int) -> int {
    -(h / 2) - DESPAWN_MARGIN
}

/// The objects still visible for a viewport of height `h`, in order.
pub open spec fn visible_objects(s: Seq<FallingObject>, h: int) -> Seq<FallingObject>
    decreases s.len(),
{
    if s.len() == 0 {
        Seq::empty()
    } else {
        let rest = visible_objects(s.drop_last(), h);
        if s.last().y >= despawn_threshold(h) {
            rest.push(s.last())
        } else {
            rest
        }
    }
}

/// Discard every object that has fallen out of sight below the viewport.
pub fn ingame_despawn(objects: &mut Vec<FallingObject>, viewport_height: i64)
    requires
        0 <= viewport_height,
        forall|i: int| 0 <= i < old(objects)@.len() ==> (#[trigger] old(objects)@[i]).wf(),
    ensures
        final(objects)@ == visible_objects(old(objects)@, viewport_height as int),
        forall|i: int| 0 <= i < final(objects)@.len() ==> (#[trigger] final(objects)@[i]).wf(),
{
    let threshold: i64 = -(viewport_height / 2) - DESPAWN_MARGIN;
    let ghost orig: Seq<FallingObject> = objects@;
    let mut out: Vec<FallingObject> = Vec::new();
    let n: usize = objects.len();
    let mut i: usize = 0;
    while i < n
        invariant
            i <= n == orig.len(),
            objects@ == orig,
            threshold == despawn_threshold(viewport_height as int),
            forall|j: int| 0 <= j < orig.len() ==> (#[trigger] orig[j]).wf(),
            out@ == visible_objects(orig.subrange(0, i as int), viewport_height as int),
            forall|j: int| 0 <= j < out@.len() ==> (#[trigger] out@[j]).wf(),
        decreases n - i,
    {
        let o: FallingObject = objects[i];
        if o.y >= threshold {
            out.push(o);
        }
        proof {
            let sub = orig.subrange(0, i as int + 1);
            assert(sub.drop_last() =~= orig.subrange(0, i as int));
            assert(sub.last() == orig[i as int]);
        }
        i = i + 1;
    }
    proof {
        assert(orig.subrange(0, n as int) =~= orig);
    }
    *objects = out;
}

/// The objects whose lifetime survives another `dt` milliseconds, each with
/// its timer drained, in order.
pub open spec fn alive_objects(s: Seq<FallingObject>, dt: int) -> Seq<FallingObject>
    decreases s.len(),
{
    if s.len() == 0 {
        Seq::empty()
    } else {
        let rest = alive_objects(s.drop_last(), dt);
        if s.last().timer > dt {
            rest.push(FallingObject { timer: (s.last().timer - dt) as u64, ..s.last() })
        } else {
            rest
        }
    }
}

/// Drain every object's lifetime by one frame and discard those that ran
/// out.
pub fn timer_despawn(objects: &mut Vec<FallingObject>, dt: u64)
    requires
        forall|i: int| 0 <= i < old(objects)@.len() ==> (#[trigger] old(objects)@[i]).wf(),
    ensures
        final(objects)@ == alive_objects(old(objects)@, dt as int),
        forall|i: int| 0 <= i < final(objects)@.len() ==> (#[trigger] final(objects)@[i]).wf(),
{
    let ghost orig: Seq<FallingObject> = objects@;
    let mut out: Vec<FallingObject> = Vec::new();
    let n: usize = objects.len();
    let mut i: usize = 0;
    while i < n
        invariant
            i <= n == orig.len(),
            objects@ == orig,
            forall|j: int| 0 <= j < orig.len() ==> (#[trigger] orig[j]).wf(),
            out@ == alive_objects(orig.subrange(0, i as int), dt as int),
            forall|j: int| 0 <= j < out@.len() ==> (#[trigger] out@[j]).wf(),
        decreases n - i,
    {
        let o: FallingObject = objects[i];
        if o.timer > dt {
            out.push(FallingObject { timer: o.timer - dt, ..o });
        }
        proof {
            let sub = orig.subrange(0, i as int + 1);
            assert(sub.drop_last() =~= orig.subrange(0, i as int));
            assert(sub.last() == orig[i as int]);
        }
        i = i + 1;
    }
    proof {
        assert(orig.subrange(0, n as int) =~= orig);
    }
    *objects = out;
}

/// Discard every falling object, as happens when the end screen is left.
pub fn endscreen_despawn(objects: &mut Vec<FallingObject>)
    ensures
        final(objects)@.len() == 0,
{
    objects.clear();
}

/// What one spawn-table entry places in the world: a falling object, or a
/// plane sensor for `Plane` entries.
#[derive(Clone, Copy, Debug, PartialEq, Eq, Structural)]
pub enum SpawnedThing {
    Object(FallingObject),
    Sensor(PlaneSensor),
}

/// Instantiate one resolved spawn: each enemy kind places its template at
/// the resolved position, except a `Plane` entry, which places a
/// right-flying sensor line at the resolved height.
pub fn create_object(rs: ResolvedSpawn) -> (t: SpawnedThing)
    requires
        in_arena(rs.x, rs.y),
    ensures
        match rs.enemy {
            EnemyKind::Hole => t == SpawnedThing::Object(FallingObject {
                kind: ObjectKind::Hole,
                x: rs.x,
                y: rs.y,
                timer: HOLE_LIFETIME,
                damaging: false,
                strength: HOLE_STRENGTH,
                homing: false,
            }),
            EnemyKind::EnergyBar => t == SpawnedThing::Object(FallingObject {
                kind: ObjectKind::EnergyBar,
                x: rs.x,
                y: rs.y,
                timer: BAR_LIFETIME,
                damaging: false,
                strength: 0u64,
                homing: false,
            }),
            EnemyKind::Rainbow => t == SpawnedThing::Object(FallingObject {
                kind: ObjectKind::Rainbow,
                x: rs.x,
                y: rs.y,
                timer: RAINBOW_LIFETIME,
                damaging: true,
                strength: 0u64,
                homing: true,
            }),
            EnemyKind::Plane => t == SpawnedThing::Sensor(PlaneSensor {
                dir: PlaneDir::Right,
                y: rs.y,
            }),
            EnemyKind::Planet => t == SpawnedThing::Object(FallingObject {
                kind: ObjectKind::Planet,
                x: rs.x,
                y: rs.y,
                timer: PLANET_LIFETIME,
                damaging: false,
                strength: PLANET_STRENGTH,
                homing: false,
            }),
            EnemyKind::Basic => t matches SpawnedThing::Object(o) && o.kind matches
                ObjectKind::Basic(_) && o.x == rs.x && o.y == rs.y && o.timer == BASIC_LIFETIME
                && o.damaging && o.strength == 0 && !o.homing,
        },
{
    match rs.enemy {
        EnemyKind::Hole => SpawnedThing::Object(create_hole(rs.x, rs.y)),
        EnemyKind::EnergyBar => SpawnedThing::Object(create_bar(rs.x, rs.y)),
        EnemyKind::Rainbow => SpawnedThing::Object(create_rainbow(rs.x, rs.y)),
        EnemyKind::Plane => SpawnedThing::Sensor(create_plane_sensor(Some(rs.y), PlaneDir::Right)),
        EnemyKind::Planet => SpawnedThing::Object(create_planet(rs.x, rs.y)),
        EnemyKind::Basic => SpawnedThing::Object(create_basic(rs.x, rs.y)),
    }
}

} // verus!
