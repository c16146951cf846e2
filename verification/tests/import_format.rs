use pupik::highscore::update_highscore;
use pupik::import::import_structures;
use pupik::import::parse_file;
use pupik::import::parse_int;
use pupik::import::parse_kind;
use pupik::import::parse_line;
use pupik::import::parse_weight;
use pupik::import::sort_events_by_y;
use pupik::import::ImportError;
use pupik::import::ImportErrorKind;
use pupik::map_layout::EnemyKind;
use pupik::map_layout::SpawnEvent;
use pupik::text::Score;

#[test]
fn blackhole_line_gets_the_vertical_bias() {
    // `100 200 blackhole` spawns a hole at x = 100 with y = 200 plus the
    // fixed bias of 600.
    let ev = parse_line(&b"100 200 blackhole".to_vec()).expect("a well-formed line");
    assert_eq!(ev, SpawnEvent { x: Some(100), y: Some(800), enemy: EnemyKind::Hole });
}

#[test]
fn kind_vocabulary_and_fallback() {
    assert_eq!(parse_kind(&b"blackhole".to_vec()), EnemyKind::Hole);
    assert_eq!(parse_kind(&b"rainbow".to_vec()), EnemyKind::Rainbow);
    assert_eq!(parse_kind(&b"energybar".to_vec()), EnemyKind::EnergyBar);
    assert_eq!(parse_kind(&b"regular".to_vec()), EnemyKind::Basic);
    assert_eq!(parse_kind(&b"plane".to_vec()), EnemyKind::Plane);
    assert_eq!(parse_kind(&b"planet".to_vec()), EnemyKind::Planet);
    assert_eq!(parse_kind(&b"asteroid".to_vec()), EnemyKind::Planet, "unknown kinds fall back");
}

#[test]
fn integers_parse_with_sign_and_bounds() {
    assert_eq!(parse_int(&b"100".to_vec()), Some(100));
    assert_eq!(parse_int(&b"-250".to_vec()), Some(-250));
    assert_eq!(parse_int(&b"0".to_vec()), Some(0));
    assert_eq!(parse_int(&b"".to_vec()), None);
    assert_eq!(parse_int(&b"-".to_vec()), None);
    assert_eq!(parse_int(&b"12a".to_vec()), None);
    assert_eq!(parse_int(&b"2000001".to_vec()), None, "out of bounds");
}

#[test]
fn weights_parse_to_tenths() {
    assert_eq!(parse_weight(&b"7".to_vec()), Some(70));
    assert_eq!(parse_weight(&b"0.2".to_vec()), Some(2));
    assert_eq!(parse_weight(&b".5".to_vec()), Some(5));
    assert_eq!(parse_weight(&b"1.25".to_vec()), Some(12), "finer digits are dropped");
    assert_eq!(parse_weight(&b"".to_vec()), None);
    assert_eq!(parse_weight(&b".".to_vec()), None);
    assert_eq!(parse_weight(&b"1.2.3".to_vec()), None);
    assert_eq!(parse_weight(&b"x".to_vec()), None);
}

#[test]
fn a_file_parses_sorted_by_ascending_y() {
    let file = b"1\n0 300 planet\n0 100 planet\n0 200 rainbow".to_vec();
    let st = parse_file(&file).expect("a well-formed file");
    assert_eq!(st.spawn_chance, 10);
    let ys: Vec<i32> = st.structure.iter().map(|e| e.y.unwrap()).collect();
    assert_eq!(ys, vec![700, 800, 900], "replay order is ascending y");
    assert_eq!(st.structure[0].enemy, EnemyKind::Planet);
    assert_eq!(st.structure[1].enemy, EnemyKind::Rainbow);
}

#[test]
fn trailing_newline_is_tolerated() {
    let file = b"0.2\n10 20 plane\n".to_vec();
    let st = parse_file(&file).expect("a trailing newline is fine");
    assert_eq!(st.spawn_chance, 2);
    assert_eq!(st.structure.len(), 1);
    assert_eq!(st.structure[0], SpawnEvent { x: Some(10), y: Some(620), enemy: EnemyKind::Plane });
}

#[test]
fn bad_weight_rejects_the_header() {
    let err = parse_file(&b"seven\n1 2 planet".to_vec()).unwrap_err();
    assert_eq!(err, (0, ImportErrorKind::BadWeight));
}

#[test]
fn missing_fields_name_their_line() {
    let err = parse_file(&b"1\n1 2 planet\n3 4".to_vec()).unwrap_err();
    assert_eq!(err, (2, ImportErrorKind::MissingField));
}

#[test]
fn malformed_coordinates_name_their_line() {
    let err = parse_file(&b"1\nx 2 planet".to_vec()).unwrap_err();
    assert_eq!(err, (1, ImportErrorKind::BadCoordinate));
}

#[test]
fn import_reports_the_first_bad_file() {
    let good = b"1\n1 2 planet".to_vec();
    let bad = b"1\n1 oops planet".to_vec();
    let out = import_structures(&vec![good.clone(), good.clone()]).expect("two good files");
    assert_eq!(out.len(), 2);
    let err = import_structures(&vec![good, bad]).unwrap_err();
    assert_eq!(err, ImportError { file: 1, line: 1, kind: ImportErrorKind::BadCoordinate });
}

#[test]
fn sorting_keeps_exactly_the_same_spawns() {
    let mut events = vec![
        SpawnEvent { x: Some(1), y: Some(30), enemy: EnemyKind::Hole },
        SpawnEvent { x: Some(2), y: Some(10), enemy: EnemyKind::Planet },
        SpawnEvent { x: Some(3), y: Some(20), enemy: EnemyKind::Basic },
        SpawnEvent { x: Some(4), y: Some(10), enemy: EnemyKind::Rainbow },
    ];
    let mut expected = events.clone();
    sort_events_by_y(&mut events);
    let ys: Vec<i32> = events.iter().map(|e| e.y.unwrap()).collect();
    assert_eq!(ys, vec![10, 10, 20, 30]);
    expected.sort_by_key(|e| e.y.unwrap());
    for e in &expected {
        assert!(events.contains(e));
    }
    assert_eq!(events.len(), expected.len());
}

#[test]
fn highscore_writes_only_improvements() {
    let score = Score { score: 250_000_000 };
    assert_eq!(update_highscore(None, &score), Some(250), "a first run always writes");
    assert_eq!(update_highscore(Some(100), &score), Some(250));
    assert_eq!(update_highscore(Some(250), &score), None, "ties are kept");
    assert_eq!(update_highscore(Some(300), &score), None);
}
