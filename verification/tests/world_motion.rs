use pupik::falling::create_basic;
use pupik::falling::create_bar;
use pupik::falling::create_hole;
use pupik::falling::create_object;
use pupik::falling::create_planet;
use pupik::falling::create_rainbow;
use pupik::falling::endscreen_despawn;
use pupik::falling::ingame_despawn;
use pupik::falling::movement;
use pupik::falling::pick_basic;
use pupik::falling::timer_despawn;
use pupik::falling::BasicKind;
use pupik::falling::ObjectKind;
use pupik::falling::SpawnedThing;
use pupik::homing::despawn_rainbow;
use pupik::homing::homing_player;
use pupik::homing::spawn_trails;
use pupik::map_layout::EnemyKind;
use pupik::map_layout::ResolvedSpawn;
use pupik::plane::create_plane;
use pupik::plane::despawn_planes;
use pupik::plane::plane_movement;
use pupik::plane::PlaneDir;
use pupik::player::gravity_interaction;
use pupik::player::isqrt;
use pupik::player::point_distance;
use pupik::player::Gravitating;
use pupik::speed::scaling;
use pupik::speed::Speed;
use pupik::units::Position;

#[test]
fn integer_square_roots() {
    assert_eq!(isqrt(0), 0);
    assert_eq!(isqrt(35), 5);
    assert_eq!(isqrt(36), 6);
    assert_eq!(point_distance(0, 0, 3_000_000, 4_000_000), 5_000_000);
}

#[test]
fn gravity_pulls_player_toward_source() {
    // 100 pixels from the source the pull is 100 pixels per second, so one
    // second at strength 1.0 carries the player exactly onto it.
    let mut p = Position { x: 100_000_000, y: 0 };
    let hole = Position { x: 0, y: 0 };
    let snapped = gravity_interaction(&mut p, hole, Gravitating { strength: 1_000_000 }, 1_000, false);
    assert!(!snapped);
    assert_eq!(p, Position { x: 0, y: 0 });
}

#[test]
fn gravity_weakens_with_distance() {
    // The inverse-square law: the same frame moves a nearer player further.
    let hole = Position { x: 0, y: 0 };
    let mut near = Position { x: 100_000_000, y: 0 };
    let mut far = Position { x: 300_000_000, y: 0 };
    gravity_interaction(&mut near, hole, Gravitating { strength: 1_000_000 }, 16, false);
    gravity_interaction(&mut far, hole, Gravitating { strength: 1_000_000 }, 16, false);
    let near_moved = 100_000_000 - near.x;
    let far_moved = 300_000_000 - far.x;
    assert!(near_moved > far_moved);
    assert!(far_moved > 0);
}

#[test]
fn gravity_outside_radius_is_inert() {
    let mut p = Position { x: 500_000_000, y: 0 };
    let hole = Position { x: 0, y: 0 };
    let snapped = gravity_interaction(&mut p, hole, Gravitating { strength: 2_500_000 }, 16, false);
    assert!(!snapped);
    assert_eq!(p.x, 500_000_000);
}

#[test]
fn gravity_snaps_only_past_the_bound() {
    // One pixel away the raw pull is ten thousand pixels per second, far
    // past the 1500 bound: the safety snap fires.
    let mut close = Position { x: 1_000_000, y: 0 };
    let hole = Position { x: 0, y: 0 };
    let snapped = gravity_interaction(&mut close, hole, Gravitating { strength: 1_000_000 }, 16, false);
    assert!(snapped);
    assert_eq!(close, hole);
    // At ten pixels the raw pull is a thousand pixels per second, inside the
    // bound: no snap.
    let mut near = Position { x: 10_000_000, y: 0 };
    let snapped2 = gravity_interaction(&mut near, hole, Gravitating { strength: 1_000_000 }, 16, false);
    assert!(!snapped2);
}

#[test]
fn hidden_player_feels_no_pull() {
    let mut p = Position { x: 100_000_000, y: 0 };
    let hole = Position { x: 0, y: 0 };
    let snapped = gravity_interaction(&mut p, hole, Gravitating { strength: 2_500_000 }, 1_000, true);
    assert!(!snapped);
    assert_eq!(p.x, 100_000_000);
}

#[test]
fn falling_objects_drop_with_speed() {
    let mut objects = vec![create_basic(0, 500_000_000)];
    let speed = Speed { speed: 1_600_000 };
    movement(&mut objects, &speed, 1_000);
    // 200 pixels per second at speed 1.6 falls 320 pixels.
    assert_eq!(objects[0].y, 180_000_000);
    assert_eq!(objects[0].x, 0);
}

#[test]
fn offscreen_objects_despawn() {
    let mut objects = vec![
        create_basic(0, -549_000_000),
        create_basic(0, -551_000_000),
        create_hole(0, 0),
    ];
    ingame_despawn(&mut objects, 700_000_000);
    assert_eq!(objects.len(), 2);
    assert_eq!(objects[0].y, -549_000_000);
    assert_eq!(objects[1].kind, ObjectKind::Hole);
}

#[test]
fn lifetimes_drain_and_expire() {
    let mut objects = vec![create_basic(0, 0), create_bar(1_000_000, 0)];
    objects[0].timer = 500;
    timer_despawn(&mut objects, 1_000);
    assert_eq!(objects.len(), 1);
    assert_eq!(objects[0].kind, ObjectKind::EnergyBar);
    assert_eq!(objects[0].timer, 7_850);
}

#[test]
fn end_screen_exit_clears_the_world() {
    let mut objects = vec![create_basic(0, 0), create_planet(0, 0)];
    endscreen_despawn(&mut objects);
    assert!(objects.is_empty());
}

#[test]
fn templates_carry_their_traits() {
    let hole = create_hole(0, 0);
    assert!(!hole.damaging);
    assert_eq!(hole.strength, 2_500_000);
    let planet = create_planet(0, 0);
    assert!(!planet.damaging);
    assert_eq!(planet.strength, 1_000_000);
    let rainbow = create_rainbow(0, 0);
    assert!(rainbow.damaging);
    assert!(rainbow.homing);
    assert_eq!(rainbow.timer, 16_000);
    let bar = create_bar(0, 0);
    assert!(!bar.damaging);
    assert_eq!(bar.timer, 8_850);
}

#[test]
fn plane_spawn_entry_becomes_a_sensor() {
    let rs = ResolvedSpawn { x: 5_000_000, y: 200_000_000, enemy: EnemyKind::Plane };
    match create_object(rs) {
        SpawnedThing::Sensor(s) => {
            assert_eq!(s.dir, PlaneDir::Right);
            assert_eq!(s.y, 200_000_000);
        },
        SpawnedThing::Object(_) => panic!("a plane entry must place a sensor"),
    }
    let rs2 = ResolvedSpawn { x: 5_000_000, y: 200_000_000, enemy: EnemyKind::Hole };
    match create_object(rs2) {
        SpawnedThing::Object(o) => {
            assert_eq!(o.kind, ObjectKind::Hole);
            assert_eq!(o.x, 5_000_000);
        },
        SpawnedThing::Sensor(_) => panic!("a hole entry must place an object"),
    }
}

#[test]
fn basic_looks_cycle_with_the_draw() {
    assert_eq!(pick_basic(0), BasicKind::FullChoc);
    assert_eq!(pick_basic(1), BasicKind::PartChoc);
    assert_eq!(pick_basic(2), BasicKind::Egg);
    assert_eq!(pick_basic(3), BasicKind::Lolly);
    assert_eq!(pick_basic(4), BasicKind::Love);
    assert_eq!(pick_basic(5), BasicKind::Drink);
    assert_eq!(pick_basic(6), BasicKind::FullChoc);
}

#[test]
fn planes_fly_across_and_sink_slowly() {
    let mut plane = create_plane(PlaneDir::Right, 0);
    assert_eq!(plane.x, -420_000_000);
    assert_eq!(plane.y, 300_000_000);
    let speed = Speed { speed: 1_000_000 };
    plane_movement(&mut plane, &speed, 1_000);
    assert_eq!(plane.x, -220_000_000, "200 pixels per second across");
    assert_eq!(plane.y, 200_000_000, "100 pixels per second down at speed 1.0");
    assert_eq!(plane.timer, 2_500);
}

#[test]
fn expired_planes_despawn() {
    let mut planes = vec![create_plane(PlaneDir::Left, 0), create_plane(PlaneDir::Right, 0)];
    planes[0].timer = 200;
    let speed = Speed { speed: 1_600_000 };
    despawn_planes(&mut planes, &speed, 1_000);
    assert_eq!(planes.len(), 1);
    assert_eq!(planes[0].dir, PlaneDir::Right);
}

#[test]
fn homing_steers_toward_the_player() {
    let mut h = Position { x: 0, y: 220_000_000 };
    let target = Position { x: 0, y: 0 };
    homing_player(&mut h, target, 1_000, false);
    assert_eq!(h.y, 156_363_637, "attraction at the clamped distance");
    assert_eq!(h.x, 0);
}

#[test]
fn homing_ignores_hidden_players() {
    let mut h = Position { x: 0, y: 220_000_000 };
    let target = Position { x: 0, y: 0 };
    homing_player(&mut h, target, 1_000, true);
    assert_eq!(h.y, 220_000_000);
}

#[test]
fn trails_drop_behind_homing_objects() {
    let objects = vec![create_rainbow(10_000_000, 20_000_000), create_basic(0, 0)];
    let trails = spawn_trails(&objects);
    assert_eq!(trails.len(), 1);
    assert_eq!(trails[0].kind, ObjectKind::Trail);
    assert_eq!(trails[0].x, 10_000_000);
    assert_eq!(trails[0].y, 20_000_000);
    assert!(trails[0].damaging);
    assert_eq!(trails[0].timer, 2_000);
}

#[test]
fn rainbows_and_trails_leave_with_the_game_state() {
    let mut objects = vec![create_rainbow(0, 0), create_basic(0, 0)];
    let mut trails = spawn_trails(&objects);
    objects.append(&mut trails);
    despawn_rainbow(&mut objects);
    assert_eq!(objects.len(), 1);
    assert!(matches!(objects[0].kind, ObjectKind::Basic(_)));
}

#[test]
fn speed_scales_linearly_and_saturates() {
    let mut speed = Speed { speed: 1_600_000 };
    scaling(&mut speed, 1_000);
    assert_eq!(speed.speed, 1_610_000, "one hundredth of a point per second");
    let mut capped = Speed { speed: 999_999_999 };
    scaling(&mut capped, 1_000_000);
    assert_eq!(capped.speed, 1_000_000_000);
}
