//! Collision and damage resolution.
//!
//! The physics layer reports pairwise collision starts; the parts of each
//! pair are identified outside and handed in here as what the player touched.
//! Touching a sensor releases a plane, touching a pickup refills energy, and
//! touching a damaging object costs a hit point and starts the grace period;
//! running out of hit points schedules the end-screen transition.

use vstd::prelude::*;

use crate::plane::create_plane;
use crate::plane::plane_from;
use crate::plane::Plane;
use crate::plane::PlaneSensor;
use crate::player::absorb_energy;
use crate::player::energy_after_pickup;
use crate::player::Hidden;
use crate::player::Player;
use crate::player::ScreenShaker;
use crate::player::HIT_RESISTANCE;
use crate::player::SHAKES;
use crate::state::flow_after_event;
use crate::state::Flow;
use crate::state::FlowEvent;
use crate::state::GameState;
use crate::units::in_arena;

verus! {

/// Marks an object that costs the player a hit point on contact.
#[derive(Clone, Copy, Debug, PartialEq, Eq, Structural)]
pub struct Damaging;

/// What the player collided with, as far as the special-effect resolution
/// cares: a plane sensor, an energy pickup, or anything else.
#[derive(Clone, Copy, Debug, PartialEq, Eq, Structural)]
pub enum ContactKind {
    Sensor(PlaneSensor),
    EnergyBar,
    Other,
}

/// Resolve one collision with a special object. Touching a sensor releases
/// its plane (the sensor itself is spent, which the result signals to the
/// caller); touching an energy pickup refills the player's budget (the
/// pickup is likewise spent); anything else changes nothing.
pub fn manage_special_collisions(hidden: &mut Hidden, contact: ContactKind) -> (released: Option<Plane>)
    requires
        old(hidden).wf(),
        match contact {
            ContactKind::Sensor(s) => in_arena(0, s.y),
            _ => true,
        },
    ensures
        final(hidden).wf(),
        match contact {
            ContactKind::Sensor(s) => released == Some(plane_from(s.dir, s.y as int))
                && *final(hidden) == *old(hidden),
            ContactKind::EnergyBar => released is None && final(hidden).energy as int
                == energy_after_pickup(old(hidden).energy as int) && final(hidden).hidden == old(
                hidden,
            ).hidden && final(hidden).hit == old(hidden).hit && final(hidden).hit_energy == old(
                hidden,
            ).hit_energy,
            ContactKind::Other => released is None && *final(hidden) == *old(hidden),
        },
{
    match contact {
        ContactKind::Sensor(s) => Some(create_plane(s.dir, s.y)),
        ContactKind::EnergyBar => {
            absorb_energy(hidden);
            None
        },
        ContactKind::Other => None,
    }
}

/// The outcome of one damage event: the player, the bookkeeping, the screen
/// flow, and the camera-shake request, after a collision with an object that
/// is damaging or not. A hit counts only when the object damages, no grace
/// period is running, and hit points remain; it costs one hit point, starts
/// the grace period, and enqueues an odd number of camera shakes. The hit
/// that spends the last hit point schedules the end-screen transition.
pub open spec fn after_damage(p: Player, h: Hidden, f: Flow, damaging: bool) -> (
    Player,
    Hidden,
    Flow,
    Option<ScreenShaker>,
) {
    if damaging && !h.hit && p.hp > 0 {
        let p1 = Player { hp: (p.hp - 1) as i32 };
        let h1 = Hidden { hidden: h.hidden, hit: true, hit_energy: HIT_RESISTANCE, energy: h.energy };
        let f1 = if p.hp - 1 == 0 {
            flow_after_event(f, FlowEvent::PlayerDied)
        } else {
            f
        };
        (p1, h1, f1, Some(ScreenShaker { shakes: (2 * SHAKES - 1) as u64 }))
    } else {
        (p, h, f, None)
    }
}

/// Resolve one collision of the player with an object that may carry the
/// `Damaging` mark.
pub fn deal_damage(player: &mut Player, hidden: &mut Hidden, flow: &mut Flow, damaging: bool) -> (shaker: Option<ScreenShaker>)
    requires
        old(player).wf(),
        old(hidden).wf(),
    ensures
        final(player).wf(),
        final(hidden).wf(),
        (*final(player), *final(hidden), *final(flow), shaker) == after_damage(
            *old(player),
            *old(hidden),
            *old(flow),
            damaging,
        ),
        final(player).hp >= 0,
{
    if damaging && !hidden.hit && player.hp > 0 {
        player.hp = player.hp - 1;
        hidden.hit = true;
        hidden.hit_energy = HIT_RESISTANCE;
        if player.hp == 0 {
            flow.handle_event(FlowEvent::PlayerDied);
        }
        Some(ScreenShaker { shakes: 2 * SHAKES - 1 })
    } else {
        None
    }
}

/// Hit points never render negative, the hit that reaches zero schedules
/// exactly one end-screen transition, and any further damage event before
/// that transition completes changes nothing: the grace period it started
/// swallows the event, so hit points cannot be driven below zero.
pub proof fn lemma_no_double_decrement(p: Player, h: Hidden, f: Flow, second_damaging: bool)
    requires
        p.wf(),
    ensures
        ({
            let (p1, h1, f1, s1) = after_damage(p, h, f, true);
            let (p2, h2, f2, s2) = after_damage(p1, h1, f1, second_damaging);
            &&& p1.hp >= 0
            &&& p2.hp >= 0
            &&& (!h.hit && p.hp > 0) ==> (p2, h2, f2) == (p1, h1, f1) && s2 is None
            &&& (!h.hit && p.hp == 1 && f.state == GameState::Game) ==> f1.state
                == GameState::EndScreen && p1.hp == 0
        }),
{
}

/// Each hit enqueues an odd number of camera shakes, so the alternating
/// nudges cancel and the camera returns to center.
pub proof fn lemma_shake_count_odd(p: Player, h: Hidden, f: Flow, damaging: bool)
    ensures
        ({
            let (p1, h1, f1, s1) = after_damage(p, h, f, damaging);
            s1 matches Some(sh) ==> sh.shakes % 2 == 1
        }),
{
}

} // verus!
