use pupik::collisions::deal_damage;
use pupik::collisions::manage_special_collisions;
use pupik::collisions::ContactKind;
use pupik::plane::PlaneDir;
use pupik::plane::PlaneSensor;
use pupik::player::absorb_energy;
use pupik::player::cam_shake;
use pupik::player::hide_update;
use pupik::player::movement;
use pupik::player::player_was_hit;
use pupik::player::Hidden;
use pupik::player::Player;
use pupik::player::PlayerMotion;
use pupik::player::ScreenShaker;
use pupik::speed::reset_speed;
use pupik::speed::Speed;
use pupik::state::end_screen_exit_reset;
use pupik::state::Flow;
use pupik::state::FlowEvent;
use pupik::state::GameState;
use pupik::text::reset_score;
use pupik::text::score_update;
use pupik::text::Score;

fn fresh_hidden() -> Hidden {
    Hidden { hidden: false, hit: false, hit_energy: 0, energy: 100_000_000 }
}

#[test]
fn pickup_below_threshold_adds_sixty() {
    // energy 35 + 60 = 95
    let mut h = Hidden { energy: 35_000_000, ..fresh_hidden() };
    absorb_energy(&mut h);
    assert_eq!(h.energy, 95_000_000);
}

#[test]
fn pickup_above_threshold_fills_to_full() {
    // energy 45 > 40, so the pickup fills the budget outright
    let mut h = Hidden { energy: 45_000_000, ..fresh_hidden() };
    absorb_energy(&mut h);
    assert_eq!(h.energy, 100_000_000);
}

#[test]
fn pickup_through_collision_resolution() {
    let mut h = Hidden { energy: 35_000_000, ..fresh_hidden() };
    let released = manage_special_collisions(&mut h, ContactKind::EnergyBar);
    assert!(released.is_none());
    assert_eq!(h.energy, 95_000_000);
}

#[test]
fn sensor_contact_releases_plane() {
    let mut h = fresh_hidden();
    let sensor = PlaneSensor { dir: PlaneDir::Right, y: 100_000_000 };
    let released = manage_special_collisions(&mut h, ContactKind::Sensor(sensor));
    let plane = released.expect("a sensor releases a plane");
    assert_eq!(plane.x, -420_000_000);
    assert_eq!(plane.y, 400_000_000);
    assert_eq!(plane.dir, PlaneDir::Right);
    assert_eq!(plane.timer, 3_500);
    assert_eq!(h, fresh_hidden());
}

#[test]
fn last_hit_point_schedules_end_screen() {
    // hit_points = 1, one qualifying hit: 0 hit points, end screen scheduled
    let mut p = Player { hp: 1 };
    let mut h = fresh_hidden();
    let mut f = Flow { state: GameState::Game, pending: None };
    let shaker = deal_damage(&mut p, &mut h, &mut f, true);
    assert_eq!(p.hp, 0);
    assert!(h.hit);
    assert_eq!(h.hit_energy, 100_000_000);
    assert_eq!(f.state, GameState::EndScreen);
    assert_eq!(shaker, Some(ScreenShaker { shakes: 7 }));
}

#[test]
fn damage_never_drives_hit_points_negative() {
    let mut p = Player { hp: 1 };
    let mut h = fresh_hidden();
    let mut f = Flow { state: GameState::Game, pending: None };
    deal_damage(&mut p, &mut h, &mut f, true);
    // A second hit in the same frame: the grace period swallows it.
    let shaker = deal_damage(&mut p, &mut h, &mut f, true);
    assert_eq!(p.hp, 0);
    assert_eq!(f.state, GameState::EndScreen);
    assert!(shaker.is_none());
}

#[test]
fn grace_period_blocks_damage() {
    let mut p = Player { hp: 3 };
    let mut h = Hidden { hit: true, hit_energy: 50_000_000, ..fresh_hidden() };
    let mut f = Flow { state: GameState::Game, pending: None };
    let shaker = deal_damage(&mut p, &mut h, &mut f, true);
    assert_eq!(p.hp, 3);
    assert!(shaker.is_none());
}

#[test]
fn harmless_contact_does_nothing() {
    let mut p = Player { hp: 2 };
    let mut h = fresh_hidden();
    let mut f = Flow { state: GameState::Game, pending: None };
    let shaker = deal_damage(&mut p, &mut h, &mut f, false);
    assert_eq!(p.hp, 2);
    assert!(!h.hit);
    assert!(shaker.is_none());
}

#[test]
fn grace_period_decays_and_restores_hitbox() {
    let mut h = Hidden { hit: true, hit_energy: 100_000_000, ..fresh_hidden() };
    player_was_hit(&mut h, 1_000, false);
    assert!(h.hidden, "the first grace tick removes the hitbox");
    assert_eq!(h.hit_energy, 70_000_000);
    player_was_hit(&mut h, 1_000, false);
    player_was_hit(&mut h, 1_000, false);
    player_was_hit(&mut h, 1_000, false);
    assert!(!h.hit, "the grace period has expired");
    assert!(!h.hidden, "the hitbox is restored");
    assert_eq!(h.hit_energy, 0);
}

#[test]
fn grace_end_keeps_hiding_while_input_held() {
    let mut h = Hidden { hit: true, hit_energy: 100_000_000, ..fresh_hidden() };
    player_was_hit(&mut h, 1_000, true);
    player_was_hit(&mut h, 1_000, true);
    player_was_hit(&mut h, 1_000, true);
    player_was_hit(&mut h, 1_000, true);
    assert!(!h.hit);
    assert!(h.hidden, "holding the hide input keeps the player hidden");
}

#[test]
fn hiding_drains_energy_and_release_unhides() {
    let mut h = fresh_hidden();
    hide_update(&mut h, 1_000, true, true, false);
    assert!(h.hidden);
    assert_eq!(h.energy, 65_000_000);
    hide_update(&mut h, 1_000, false, false, true);
    assert!(!h.hidden);
}

#[test]
fn energy_regenerates_up_to_full() {
    let mut h = Hidden { energy: 50_000_000, ..fresh_hidden() };
    hide_update(&mut h, 1_000, false, false, false);
    assert_eq!(h.energy, 54_000_000);
    let mut nearly = Hidden { energy: 99_000_000, ..fresh_hidden() };
    hide_update(&mut nearly, 1_000, false, false, false);
    assert_eq!(nearly.energy, 100_000_000);
}

#[test]
fn exhausted_energy_forces_unhide() {
    let mut h = Hidden { hidden: true, energy: 0, ..fresh_hidden() };
    hide_update(&mut h, 16, false, true, false);
    assert!(!h.hidden);
}

#[test]
fn end_screen_reset_is_idempotent() {
    let mut speed = Speed { speed: 77_000_000 };
    let mut score = Score { score: 999_000_000 };
    end_screen_exit_reset(&mut speed, &mut score);
    assert_eq!(speed.speed, 1_600_000);
    assert_eq!(score.score, 120_000_000);
    end_screen_exit_reset(&mut speed, &mut score);
    assert_eq!(speed.speed, 1_600_000);
    assert_eq!(score.score, 120_000_000);
    reset_speed(&mut speed);
    reset_score(&mut score);
    assert_eq!(speed.speed, 1_600_000);
    assert_eq!(score.score, 120_000_000);
}

#[test]
fn score_accrues_with_speed() {
    let mut score = Score { score: 120_000_000 };
    let speed = Speed { speed: 1_600_000 };
    score_update(&mut score, &speed, 1_000);
    // 50 points per second at speed 1.6 adds 80 points.
    assert_eq!(score.score, 200_000_000);
    assert_eq!(score.points(), 200);
}

#[test]
fn odd_shake_count_recenters_camera() {
    let mut shaker = ScreenShaker { shakes: 7 };
    let mut sum: i64 = 0;
    loop {
        let (offset, done) = cam_shake(&mut shaker);
        sum += offset;
        if done {
            break;
        }
    }
    assert_eq!(sum, 0, "an odd shake count leaves the camera centered");
}

#[test]
fn mouse_steering_accelerates_inside_bounds() {
    let mut m = PlayerMotion { x: 0, y: 0, vx: 0, vy: 0 };
    movement(&mut m, 1_000_000, 2_000_000);
    assert_eq!(m.vx, 4_000_000);
    assert_eq!(m.vy, -8_000_000, "mouse y grows downward");
    assert_eq!(m.x, 0);
    assert_eq!(m.y, 0);
}

#[test]
fn outward_motion_at_bound_is_pinned() {
    let mut m = PlayerMotion { x: 320_000_000, y: 0, vx: 5_000_000, vy: 0 };
    movement(&mut m, 1_000_000, 0);
    assert_eq!(m.x, 320_000_000);
    assert_eq!(m.vx, 0);
    let mut back = PlayerMotion { x: 320_000_000, y: 0, vx: -5_000_000, vy: 0 };
    movement(&mut back, -1_000_000, 0);
    assert_eq!(back.vx, -9_000_000, "motion back toward the screen is free");
}

#[test]
fn flow_follows_button_edges() {
    let mut f = Flow::startup();
    assert_eq!(f.state, GameState::MainMenu);
    f.handle_event(FlowEvent::PlayPressed);
    assert_eq!(f.state, GameState::MainMenu, "the play transition waits out its delay");
    f.tick(49);
    assert_eq!(f.state, GameState::MainMenu);
    f.tick(1);
    assert_eq!(f.state, GameState::Game);
    f.handle_event(FlowEvent::PlayerDied);
    assert_eq!(f.state, GameState::EndScreen);
    f.handle_event(FlowEvent::ContinuePressed);
    f.tick(50);
    assert_eq!(f.state, GameState::MainMenu);
}

#[test]
fn how_to_play_cancels_pending_start() {
    let mut f = Flow::startup();
    f.handle_event(FlowEvent::PlayPressed);
    f.handle_event(FlowEvent::HowToPlayPressed);
    assert_eq!(f.state, GameState::Tutorial);
    f.tick(1_000);
    assert_eq!(f.state, GameState::Tutorial, "the cancelled start never fires");
    f.handle_event(FlowEvent::BackPressed);
    assert_eq!(f.state, GameState::MainMenu);
}

#[test]
fn events_only_act_on_their_own_screen() {
    let mut f = Flow { state: GameState::Game, pending: None };
    f.handle_event(FlowEvent::PlayPressed);
    assert_eq!(f, Flow { state: GameState::Game, pending: None });
    f.handle_event(FlowEvent::ContinuePressed);
    assert_eq!(f, Flow { state: GameState::Game, pending: None });
}
