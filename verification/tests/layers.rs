use simhark::debug::{
    build_controller_debug_snapshot, DebugBoard, DebugHoloRobot, DebugKickLine, DebugOverlay,
    RobotDebugInfo, ViewerDebugSnapshot,
};
use simhark::layers::{
    canonical_debug_items, debug_style, simhark_debug_layers, team_layer, DebugPrimitive, Place,
    STROKE_WIDTH_BITS,
};
use simhark::number::Double;
use simhark::replay::{ReplayDebugOverlay, ReplayDebugSnapshot};
use simhark::state::{BallState, RobotState, TeamColor, WorldState};

fn d(x: f64) -> Double {
    Double::from_bits(x.to_bits())
}

fn f(x: Double) -> f64 {
    f64::from_bits(x.bits)
}

fn world() -> WorldState {
    let z = d(0.0);
    WorldState {
        world_id: 0,
        sim_time: d(1.0),
        frame: 60,
        ball: BallState { x: z, y: z, z, vx: z, vy: z, vz: z },
        blue_robots: vec![RobotState {
            id: 2,
            team: TeamColor::Blue,
            x: d(1.0),
            y: d(-0.5),
            z: d(0.1),
            orientation: z,
            vx: z,
            vy: z,
            vz: z,
            v_angular: z,
            infrared: false,
            dribbler_on: false,
            kick_status: 0,
            is_on: true,
            wheel_speeds: [z; 4],
        }],
        yellow_robots: Vec::new(),
        goal_blue: false,
        goal_yellow: false,
    }
}

fn snapshot() -> ViewerDebugSnapshot {
    ViewerDebugSnapshot {
        world_id: 0,
        strategy: Some("attacking".to_string()),
        robots: vec![RobotDebugInfo {
            team: TeamColor::Blue,
            id: 2,
            task: "Attacker".to_string(),
            color: "#4488ff".to_string(),
            message: Some("chasing".to_string()),
        }],
        overlays: vec![
            DebugOverlay::HoloRobot(DebugHoloRobot {
                team: TeamColor::Blue,
                id: 2,
                x: d(2.0),
                y: d(0.25),
                orientation: Some(d(1.0)),
                color: "#4488ff".to_string(),
                label: Some("target".to_string()),
            }),
            DebugOverlay::KickLine(DebugKickLine {
                team: TeamColor::Blue,
                id: 2,
                from_x: d(0.0),
                from_y: d(0.0),
                angle: d(0.0),
                color: "#ffffff".to_string(),
                label: None,
            }),
        ],
    }
}

fn board() -> DebugBoard {
    let mut board = DebugBoard::new();
    board.set_debug_snapshot(snapshot());
    board
}

fn info(id: usize, task: &str) -> RobotDebugInfo {
    RobotDebugInfo {
        team: TeamColor::Yellow,
        id,
        task: task.to_string(),
        color: "#fff".to_string(),
        message: None,
    }
}

#[test]
fn every_layer_an_item_uses_is_declared() {
    let items = canonical_debug_items(&board(), &[world()]);
    let layers = simhark_debug_layers().into_iter().map(|layer| layer.id).collect::<Vec<_>>();

    assert!(!items.is_empty());
    for item in &items {
        assert!(layers.contains(&item.layer_id), "undeclared layer {}", item.layer_id);
    }
}

#[test]
fn a_task_label_follows_its_robot_in_millimetres() {
    let items = canonical_debug_items(&board(), &[world()]);
    let task = items
        .iter()
        .find(|item| item.layer_id == "simhark.debug.tasks.blue")
        .expect("a task label");
    assert_eq!(task.robot_id, Some(2));
    match &task.primitive {
        DebugPrimitive::Text { at: Place::TaskLabel { x, y }, text, .. } => {
            assert_eq!(f(*x) * 1000.0, 1000.0);
            assert!(((f(*y) + 0.16) * 1000.0 - -340.0).abs() < 1.0e-6);
            assert!(text.contains("Attacker") && text.contains("chasing"));
            assert_eq!(text, "Attacker · chasing");
        }
        other => panic!("expected text, got {other:?}"),
    }
}

#[test]
fn a_task_label_for_an_absent_robot_is_dropped() {
    let mut state = world();
    state.blue_robots.clear();
    let items = canonical_debug_items(&board(), &[state]);
    assert!(!items.iter().any(|item| item.layer_id == "simhark.debug.tasks.blue"));

    let mut state = world();
    state.blue_robots[0].is_on = false;
    let items = canonical_debug_items(&board(), &[state]);
    assert!(!items.iter().any(|item| item.layer_id == "simhark.debug.tasks.blue"));
}

#[test]
fn worlds_without_debug_data_contribute_nothing() {
    let items = canonical_debug_items(&DebugBoard::new(), &[world()]);
    assert!(items.is_empty());
}

#[test]
fn a_kick_line_goes_from_its_robot_along_its_angle() {
    let items = canonical_debug_items(&board(), &[world()]);
    let kick = items
        .iter()
        .find(|item| item.layer_id == "simhark.debug.kicks.blue")
        .expect("a kick line");
    assert_eq!(kick.id, "simhark.debug.kick.0.1");
    match &kick.primitive {
        DebugPrimitive::Arrow { from, to, .. } => {
            assert_eq!(*from, Place::At { x: d(0.0), y: d(0.0) });
            assert_eq!(
                *to,
                Place::ShotEnd { from_x: d(0.0), from_y: d(0.0), angle: d(0.0) }
            );
        }
        other => panic!("expected an arrow, got {other:?}"),
    }
}

#[test]
fn items_come_in_order_under_ids_of_their_own() {
    let items = canonical_debug_items(&board(), &[world()]);
    let ids = items.iter().map(|item| item.id.as_str()).collect::<Vec<_>>();
    assert_eq!(
        ids,
        vec![
            "simhark.debug.strategy.0",
            "simhark.debug.task.0.Blue.2",
            "simhark.debug.holo.0.0",
            "simhark.debug.kick.0.1",
        ]
    );
    match &items[0].primitive {
        DebugPrimitive::Text { at, text, style } => {
            assert_eq!(*at, Place::StrategyLabel);
            assert_eq!(text, "attacking");
            assert_eq!(style.stroke.as_deref(), Some("#e6edf3"));
        }
        other => panic!("expected text, got {other:?}"),
    }
}

#[test]
fn layers_form_one_tree() {
    let layers = simhark_debug_layers();
    assert_eq!(layers.len(), 11);
    assert_eq!(layers[0].id, "simhark.debug");
    assert_eq!(layers[0].parent_id, None);
    for layer in &layers[1..] {
        let parent = layer.parent_id.clone().unwrap();
        assert!(layers.iter().any(|other| other.id == parent));
        assert!(layer.default_visible);
    }
    assert_eq!(layers[10].id, "simhark.debug.kicks.yellow");
    assert_eq!(layers[10].label, "Yellow");
    assert_eq!(team_layer("tasks", TeamColor::Blue), "simhark.debug.tasks.blue");
}

#[test]
fn styles_are_thin_and_opaque() {
    let style = debug_style("#123456", Some("l".to_string()));
    assert_eq!(STROKE_WIDTH_BITS, 20.0f64.to_bits());
    assert_eq!(f(style.stroke_width_mm.unwrap()), 20.0);
    assert_eq!(f(style.opacity), 1.0);
    assert_eq!(style.label.as_deref(), Some("l"));
    assert!(style.fill.is_none() && style.tooltip.is_none());
}

#[test]
fn debug_data_survives_recording() {
    let recorded = ReplayDebugSnapshot::from(&snapshot());
    assert!(matches!(recorded.overlays[1], ReplayDebugOverlay::KickLine(_)));
    let live = ViewerDebugSnapshot::from(&recorded);
    assert_eq!(live.strategy.as_deref(), Some("attacking"));
    assert_eq!(live.robots[0].message.as_deref(), Some("chasing"));
    match &live.overlays[0] {
        DebugOverlay::HoloRobot(holo) => {
            assert_eq!((f(holo.x), f(holo.y)), (2.0, 0.25));
            assert_eq!(holo.orientation.map(f), Some(1.0));
            assert_eq!(holo.label.as_deref(), Some("target"));
        }
        other => panic!("expected a hologram, got {other:?}"),
    }
}

#[test]
fn robots_on_the_board_are_replaced_and_cleared() {
    let mut board = DebugBoard::new();
    board.set_robot_debug(3, info(1, "a"));
    board.set_robot_debug(3, info(2, "b"));
    board.set_robot_debug(3, info(1, "c"));
    let robots = &board.get(3).unwrap().robots;
    assert_eq!(robots.len(), 2);
    assert_eq!(robots[0].task, "c");
    board.clear_robot_debug(3, TeamColor::Yellow, 1);
    let robots = &board.get(3).unwrap().robots;
    assert_eq!(robots.len(), 1);
    assert_eq!(robots[0].task, "b");
    board.clear_robot_debug(9, TeamColor::Yellow, 1);
    assert!(board.get(9).is_none());
}

#[test]
fn strategies_on_the_board_come_and_go() {
    let mut board = DebugBoard::new();
    board.clear_strategy_debug_message(1);
    assert!(board.get(1).is_none());
    board.set_strategy_debug_message(1, "press".to_string());
    assert_eq!(board.get(1).unwrap().strategy.as_deref(), Some("press"));
    board.clear_strategy_debug_message(1);
    assert!(board.get(1).unwrap().strategy.is_none());
    board.clear_debug_snapshot(1);
    assert!(board.get(1).is_none());
}

#[test]
fn both_sides_debug_data_is_put_together() {
    assert!(build_controller_debug_snapshot(0, None, None).is_none());
    let mut yellow = snapshot();
    yellow.strategy = Some("defending".to_string());
    let both = build_controller_debug_snapshot(5, Some(snapshot()), Some(yellow)).unwrap();
    assert_eq!(both.world_id, 5);
    assert_eq!(both.strategy.as_deref(), Some("attacking | defending"));
    assert_eq!(both.robots.len(), 2);
    assert_eq!(both.overlays.len(), 4);
    let mut silent = snapshot();
    silent.strategy = Some(String::new());
    let one = build_controller_debug_snapshot(5, Some(silent), None).unwrap();
    assert!(one.strategy.is_none());
}
