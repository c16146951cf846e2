use pupik::map_layout::select_structure;
use pupik::map_layout::set_to_sums;
use pupik::map_layout::spawn_map;
use pupik::map_layout::spawn_period;
use pupik::map_layout::spawning;
use pupik::map_layout::EnemyKind;
use pupik::map_layout::SpawnEvent;
use pupik::map_layout::Structure;
use pupik::speed::Speed;

fn singleton(weight: u64, enemy: EnemyKind) -> Structure {
    Structure {
        spawn_chance: weight,
        structure: vec![SpawnEvent { x: None, y: None, enemy }],
    }
}

#[test]
fn cumulative_sums_are_non_decreasing() {
    let mut table = vec![
        singleton(7, EnemyKind::Hole),
        singleton(0, EnemyKind::Rainbow),
        singleton(19, EnemyKind::EnergyBar),
        singleton(0, EnemyKind::Planet),
    ];
    set_to_sums(&mut table);
    let sums: Vec<u64> = table.iter().map(|s| s.spawn_chance).collect();
    assert_eq!(sums, vec![7, 7, 26, 26]);
    for w in sums.windows(2) {
        assert!(w[0] <= w[1]);
    }
}

#[test]
fn zero_draw_selects_first_structure() {
    // A draw of exactly 0.0 against cumulative [7, 26] lands on the hole.
    let mut table = vec![singleton(7, EnemyKind::Hole), singleton(19, EnemyKind::EnergyBar)];
    set_to_sums(&mut table);
    assert_eq!(table[0].spawn_chance, 7);
    assert_eq!(table[1].spawn_chance, 26);
    let picked = select_structure(&table, 0);
    assert_eq!(picked, 0);
    assert_eq!(table[picked].structure[0].enemy, EnemyKind::Hole);
}

#[test]
fn final_boundary_draw_selects_last_structure() {
    let mut table = vec![singleton(7, EnemyKind::Hole), singleton(19, EnemyKind::EnergyBar)];
    set_to_sums(&mut table);
    let picked = select_structure(&table, 26);
    assert_eq!(picked, 1);
    assert_eq!(table[picked].structure[0].enemy, EnemyKind::EnergyBar);
}

#[test]
fn interior_draws_respect_boundaries() {
    let mut table = vec![singleton(7, EnemyKind::Hole), singleton(19, EnemyKind::EnergyBar)];
    set_to_sums(&mut table);
    assert_eq!(select_structure(&table, 7), 0);
    assert_eq!(select_structure(&table, 8), 1);
}

#[test]
fn default_table_weights() {
    let t = spawn_map(Vec::new());
    let sums: Vec<u64> = t.map.iter().map(|s| s.spawn_chance).collect();
    assert_eq!(sums, vec![70, 190, 192, 572, 762, 1952]);
    assert_eq!(t.map[0].structure[0].enemy, EnemyKind::Hole);
    assert_eq!(t.map[5].structure[0].enemy, EnemyKind::Basic);
}

#[test]
fn random_spawn_positions_stay_on_screen() {
    let mut t = spawn_map(Vec::new());
    for _ in 0..200 {
        let spawned = spawning(&mut t);
        assert_eq!(spawned.len(), 1);
        let rs = spawned[0];
        assert!(rs.x >= -320_000_000 && rs.x < 320_000_000);
        assert_eq!(rs.y, 500_000_000);
    }
}

#[test]
fn zero_weight_structures_never_spawn() {
    let mut raw = vec![
        singleton(1, EnemyKind::Hole),
        singleton(0, EnemyKind::Rainbow),
        singleton(1, EnemyKind::EnergyBar),
    ];
    set_to_sums(&mut raw);
    let mut t = spawn_map(Vec::new());
    t.map = raw;
    for _ in 0..300 {
        let spawned = spawning(&mut t);
        assert_ne!(spawned[0].enemy, EnemyKind::Rainbow);
    }
}

#[test]
fn queued_structures_take_priority_then_random_resumes() {
    let queued = Structure {
        spawn_chance: 10,
        structure: vec![
            SpawnEvent { x: Some(1), y: Some(100), enemy: EnemyKind::Planet },
            SpawnEvent { x: Some(2), y: Some(200), enemy: EnemyKind::Hole },
        ],
    };
    let mut t = spawn_map(vec![queued]);
    let first = spawning(&mut t);
    assert_eq!(first.len(), 2);
    assert_eq!(first[0].x, 1_000_000);
    assert_eq!(first[0].y, 100_000_000);
    assert_eq!(first[0].enemy, EnemyKind::Planet);
    assert_eq!(first[1].x, 2_000_000);
    assert_eq!(first[1].y, 200_000_000);
    assert_eq!(first[1].enemy, EnemyKind::Hole);
    assert!(t.queue.is_empty());
    let second = spawning(&mut t);
    assert_eq!(second.len(), 1);
}

#[test]
fn sampling_period_shrinks_with_speed() {
    let slow = Speed { speed: 1_600_000 };
    let fast = Speed { speed: 3_200_000 };
    assert_eq!(spawn_period(&slow), 437);
    assert_eq!(spawn_period(&fast), 218);
    assert!(spawn_period(&fast) < spawn_period(&slow));
}
