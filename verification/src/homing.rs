//! Homing rainbows: damaging hazards that steer toward the player with an
//! inverse-square attraction and leave short-lived trail hazards behind.

use vstd::prelude::*;

use crate::falling::FallingObject;
use crate::falling::ObjectKind;
use crate::falling::TRAIL_LIFETIME;
use crate::player::dist_sq;
use crate::player::iabs;
use crate::player::point_distance;
use crate::player::sqrt_of;
use crate::player::GRAV_CLAMP;
use crate::units::clamp_coord;
use crate::units::clamp_coord_exec;
use crate::units::Position;
use crate::units::DT_MAX;

verus! {

/// Numerator of the homing attraction: stronger than the gravitational pull
/// on the player.
pub const HOMING_NUM: u128 = 14_000_000_000_000_000;

/// The distance a homing object steers with is clamped to this many
/// millionths of a pixel (220 pixels), to avoid the singularity up close.
pub const HOMING_DIST_CLAMP: u64 = 220_000_000;

/// Milliseconds between two trail drops.
pub const TRAIL_PERIOD: u64 = 15;

/// The position of a homing object after one frame of steering toward the
/// player at `target`: the attraction is inverse-square in the distance,
/// with the distance clamped up close; a raw attraction that reaches the
/// safety bound on either axis leaves the object where it is for the frame,
/// as does a hidden player.
pub open spec fn homing_outcome(h: Position, target: Position, dt: int, hidden: bool) -> Position {
    let d = sqrt_of(dist_sq(h.x as int, h.y as int, target.x as int, target.y as int));
    let de = if d > HOMING_DIST_CLAMP as int {
        HOMING_DIST_CLAMP as int
    } else {
        d
    };
    if hidden || de == 0 {
        h
    } else {
        let axm = (HOMING_NUM as int) * iabs(h.x - target.x) / (de * de);
        let aym = (HOMING_NUM as int) * iabs(h.y - target.y) / (de * de);
        if axm < GRAV_CLAMP as int && aym < GRAV_CLAMP as int {
            let sx = axm * dt / 1000;
            let sy = aym * dt / 1000;
            Position {
                x: clamp_coord(
                    if h.x >= target.x {
                        h.x - sx
                    } else {
                        h.x + sx
                    },
                ) as i64,
                y: clamp_coord(
                    if h.y >= target.y {
                        h.y - sy
                    } else {
                        h.y + sy
                    },
                ) as i64,
            }
        } else {
            h
        }
    }
}

/// Steer one homing object toward the player by one frame.
pub fn homing_player(h: &mut Position, target: Position, dt: u64, hidden: bool)
    requires
        old(h).wf(),
        target.wf(),
        dt <= DT_MAX,
    ensures
        final(h).wf(),
        *final(h) == homing_outcome(*old(h), target, dt as int, hidden),
{
    if hidden {
        return ;
    }
    let d: u64 = point_distance(h.x, h.y, target.x, target.y);
    let de: u64 = if d > HOMING_DIST_CLAMP {
        HOMING_DIST_CLAMP
    } else {
        d
    };
    if de == 0 {
        return ;
    }
    let dx: i64 = h.x - target.x;
    let dy: i64 = h.y - target.y;
    let dxm: u64 = if dx >= 0 {
        dx as u64
    } else {
        (-dx) as u64
    };
    let dym: u64 = if dy >= 0 {
        dy as u64
    } else {
        (-dy) as u64
    };
    proof {
        assert(1 <= (de as int) * (de as int) <= 220_000_000int * 220_000_000int)
            by (nonlinear_arith)
            requires
                1 <= de as int <= 220_000_000,
        ;
    }
    let de2: u128 = (de as u128) * (de as u128);
    let axm: u128 = HOMING_NUM * (dxm as u128) / de2;
    let aym: u128 = HOMING_NUM * (dym as u128) / de2;
    if axm < GRAV_CLAMP as u128 && aym < GRAV_CLAMP as u128 {
        proof {
            assert(0 <= axm * (dt as u128) <= 1_500_000_000_000_000) by (nonlinear_arith)
                requires
                    0 <= axm <= 1_500_000_000,
                    0 <= dt as u128 <= 1_000_000,
            ;
            assert(0 <= aym * (dt as u128) <= 1_500_000_000_000_000) by (nonlinear_arith)
                requires
                    0 <= aym <= 1_500_000_000,
                    0 <= dt as u128 <= 1_000_000,
            ;
        }
        let sx: i64 = ((axm * (dt as u128) / 1000) as u64) as i64;
        let sy: i64 = ((aym * (dt as u128) / 1000) as u64) as i64;
        h.x = clamp_coord_exec(
            if dx >= 0 {
                h.x - sx
            } else {
                h.x + sx
            },
        );
        h.y = clamp_coord_exec(
            if dy >= 0 {
                h.y - sy
            } else {
                h.y + sy
            },
        );
    }
}

/// The trail hazards one drop leaves: one per homing object, at its
/// position, in order.
pub open spec fn trails_of(s: Seq<FallingObject>) -> Seq<FallingObject>
    decreases s.len(),
{
    if s.len() == 0 {
        Seq::empty()
    } else {
        let rest = trails_of(s.drop_last());
        if s.last().homing {
            rest.push(
                FallingObject {
                    kind: ObjectKind::Trail,
                    x: s.last().x,
                    y: s.last().y,
                    timer: TRAIL_LIFETIME,
                    damaging: true,
                    strength: 0u64,
                    homing: false,
                },
            )
        } else {
            rest
        }
    }
}

/// Drop one trail hazard at the position of every homing object.
pub fn spawn_trails(objects: &Vec<FallingObject>) -> (trails: Vec<FallingObject>)
    requires
        forall|i: int| 0 <= i < objects@.len() ==> (#[trigger] objects@[i]).wf(),
    ensures
        trails@ == trails_of(objects@),
        forall|i: int| 0 <= i < trails@.len() ==> (#[trigger] trails@[i]).wf(),
{
    let ghost orig: Seq<FallingObject> = objects@;
    let mut out: Vec<FallingObject> = Vec::new();
    let n: usize = objects.len();
    let mut i: usize = 0;
    while i < n
        invariant
            i <= n == orig.len(),
            objects@ == orig,
            forall|j: int| 0 <= j < orig.len() ==> (#[trigger] orig[j]).wf(),
            out@ == trails_of(orig.subrange(0, i as int)),
            forall|j: int| 0 <= j < out@.len() ==> (#[trigger] out@[j]).wf(),
        decreases n - i,
    {
        let o: FallingObject = objects[i];
        if o.homing {
            out.push(
                FallingObject {
                    kind: ObjectKind::Trail,
                    x: o.x,
                    y: o.y,
                    timer: TRAIL_LIFETIME,
                    damaging: true,
                    strength: 0,
                    homing: false,
                },
            );
        }
        proof {
            let sub = orig.subrange(0, i as int + 1);
            assert(sub.drop_last() =~= orig.subrange(0, i as int));
            assert(sub.last() == orig[i as int]);
        }
        i = i + 1;
    }
    proof {
        assert(orig.subrange(0, n as int) =~= orig);
    }
    out
}

/// Whether an object belongs to the rainbow family (the homing object itself
/// or one of its trails), which leaves the world when the play state ends.
pub open spec fn is_rainbow(o: FallingObject) -> bool {
    o.kind == ObjectKind::Rainbow || o.kind == ObjectKind::Trail
}

/// The objects that outlive the play state: everything but rainbows and
/// their trails, in order.
pub open spec fn without_rainbows(s: Seq<FallingObject>) -> Seq<FallingObject>
    decreases s.len(),
{
    if s.len() == 0 {
        Seq::empty()
    } else {
        let rest = without_rainbows(s.drop_last());
        if is_rainbow(s.last()) {
            rest
        } else {
            rest.push(s.last())
        }
    }
}

/// Discard every rainbow and trail, as happens when the play state is left.
pub fn despawn_rainbow(objects: &mut Vec<FallingObject>)
    requires
        forall|i: int| 0 <= i < old(objects)@.len() ==> (#[trigger] old(objects)@[i]).wf(),
    ensures
        final(objects)@ == without_rainbows(old(objects)@),
        forall|i: int| 0 <= i < final(objects)@.len() ==> (#[trigger] final(objects)@[i]).wf(),
{
    let ghost orig: Seq<FallingObject> = objects@;
    let mut out: Vec<FallingObject> = Vec::new();
    let n: usize = objects.len();
    let mut i: usize = 0;
    while i < n
        invariant
            i <= n == orig.len(),
            objects@ == orig,
            forall|j: int| 0 <= j < orig.len() ==> (#[trigger] orig[j]).wf(),
            out@ == without_rainbows(orig.subrange(0, i as int)),
            forall|j: int| 0 <= j < out@.len() ==> (#[trigger] out@[j]).wf(),
        decreases n - i,
    {
        let o: FallingObject = objects[i];
        if !(matches!(o.kind, ObjectKind::Rainbow) || matches!(o.kind, ObjectKind::Trail)) {
            out.push(o);
        }
        proof {
            let sub = orig.subrange(0, i as int + 1);
            assert(sub.drop_last() =~= orig.subrange(0, i as int));
            assert(sub.last() == orig[i as int]);
        }
        i = i + 1;
    }
    proof {
        assert(orig.subrange(0, n as int) =~= orig);
    }
    *objects = out;
}

} // verus!
