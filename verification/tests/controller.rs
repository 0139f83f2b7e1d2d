use simhark::controller::{
    build_controller, referee_for, start_crash_pilot, BuiltIn, Controller, ControllerPlan,
    DummyController, FieldSide, GameCommand, PilotAi, TeamKind,
};
use simhark::developer::DeveloperRequest;
use simhark::direct::DirectDehumanizedController;
use simhark::number::Double;
use simhark::state::{
    BallState, FieldConfig, MoveCommand, RobotConfig, TeamColor, WorldConfig, WorldState,
};

fn state() -> WorldState {
    let z = Double::zero();
    WorldState {
        world_id: 0,
        sim_time: z,
        frame: 0,
        ball: BallState { x: z, y: z, z, vx: z, vy: z, vz: z },
        blue_robots: Vec::new(),
        yellow_robots: Vec::new(),
        goal_blue: false,
        goal_yellow: false,
    }
}

fn config() -> WorldConfig {
    let z = Double::zero();
    let robots = RobotConfig {
        radius: z,
        vel_absolute_max: z,
        vel_angular_max: z,
        max_linear_kick_speed: z,
        max_chip_kick_speed: z,
    };
    WorldConfig {
        seed: 0,
        robots_per_team: 6,
        field: FieldConfig {
            field_length: z,
            field_width: z,
            goal_width: z,
            goal_depth: z,
            goal_height: z,
            margin_touch_line: z,
            margin_goal_line: z,
            penalty_depth: z,
            penalty_width: z,
            field_center_radius: z,
            field_line_width: z,
        },
        ball_radius: z,
        ball_friction: z,
        gravity: z,
        blue_robots: robots,
        yellow_robots: robots,
    }
}

fn nothing() -> BuiltIn {
    BuiltIn {
        bangka: false,
        bongka: false,
        ungabunga: false,
        artificial_incompetence: false,
        dehumanized: false,
    }
}

fn everything() -> BuiltIn {
    BuiltIn {
        bangka: true,
        bongka: true,
        ungabunga: true,
        artificial_incompetence: true,
        dehumanized: true,
    }
}

#[test]
fn dummy_aliases_parse_to_dummy() {
    for name in ["dummy", "noop", "none", "idle"] {
        assert!(matches!(TeamKind::parse(name), Ok(TeamKind::Dummy)));
    }
}

#[test]
fn dehumanized_aliases_parse_to_direct_controller() {
    for name in ["dehumanized", "dehumanized-direct", "deh"] {
        assert!(matches!(TeamKind::parse(name), Ok(TeamKind::Dehumanized)));
    }
}

#[test]
fn dummy_controller_sends_zero_wheel_commands_for_every_robot() {
    let plan = build_controller(&TeamKind::Dummy, TeamColor::Blue, 3, nothing());
    let mut controller = match plan {
        Ok(ControllerPlan::Dummy { num_robots }) => DummyController { num_robots },
        _ => panic!("expected a dummy"),
    };
    let commands = controller.act(&state(), &config(), TeamColor::Blue, GameCommand::Running);

    assert_eq!(commands.len(), 3);
    for (id, command) in commands.iter().enumerate() {
        assert_eq!(command.id, id);
        match command.move_command {
            Some(MoveCommand::WheelVelocity(wheels)) => {
                assert!(wheels.iter().all(|w| f64::from_bits(w.bits) == 0.0));
            }
            _ => panic!("expected wheel velocities"),
        }
        assert_eq!(f64::from_bits(command.kick_speed.bits), 0.0);
        assert_eq!(f64::from_bits(command.kick_angle.bits), 0.0);
        assert!(!command.dribbler_on);
    }
    assert_eq!(controller.name(), "dummy");
}

#[test]
fn a_controller_without_developer_actions_refuses_them() {
    let mut controller = DummyController { num_robots: 1 };
    assert!(controller.developer_schema().is_none());
    assert!(controller.debug_snapshot().is_none());
    assert!(controller.developer_run().is_none());
    let request = DeveloperRequest::Start { target: "blue".into() };
    let answer = controller.apply_developer_request(
        &request,
        &state(),
        TeamColor::Blue,
        GameCommand::Running,
    );
    assert_eq!(answer.unwrap_err(), "this controller does not expose developer actions");
}

#[test]
fn labels_name_their_kinds() {
    let labels = [
        "bangka",
        "bongka",
        "ungabunga",
        "bangka1",
        "legacy",
        "crashpilot",
        "dehumanized",
        "dummy",
        "sumatra",
    ];
    for label in labels {
        assert_eq!(TeamKind::parse(label).unwrap().label(), label);
    }
}

#[test]
fn kinds_take_arguments_and_ignore_case() {
    match TeamKind::parse("BONGKA:Params.json").unwrap() {
        TeamKind::Bongka { params } => assert_eq!(params.as_deref(), Some("Params.json")),
        _ => panic!("expected bongka"),
    }
    match TeamKind::parse("ml:model.safetensors").unwrap() {
        TeamKind::CrashPilot { model } => assert_eq!(model.as_deref(), Some("model.safetensors")),
        _ => panic!("expected crashpilot"),
    }
    assert_eq!(TeamKind::parse("Nobody:x").unwrap_err(), "unknown team kind: nobody");
}

#[test]
fn only_sumatra_is_external() {
    assert!(TeamKind::Sumatra.is_external());
    assert!(!TeamKind::Bangka.is_external());
    assert!(TeamKind::Bangka1.uses_crashpilot_binding());
    assert!(!TeamKind::Dehumanized.uses_crashpilot_binding());
    assert!(!TeamKind::Dummy.uses_crashpilot_binding());
    assert!(!TeamKind::Sumatra.uses_crashpilot_binding());
}

#[test]
fn what_is_not_built_in_is_refused_by_name() {
    let refused = |kind: &str| {
        build_controller(&TeamKind::parse(kind).unwrap(), TeamColor::Blue, 6, nothing())
            .err()
            .unwrap()
    };
    assert_eq!(refused("bangka"), "Bangka is disabled; build with `--features bangka` to enable");
    assert_eq!(refused("bongka"), "Bongka is disabled; build with `--features bongka` to enable");
    for kind in ["ungabunga", "bangka1", "legacy"] {
        assert_eq!(
            refused(kind),
            "Ungabunga is disabled; build with `--features ungabunga` to enable"
        );
    }
    assert_eq!(
        refused("cp"),
        "CrashPilot is disabled; build with `--features artificial_incompetence` to enable"
    );
    assert_eq!(
        refused("deh"),
        "Dehumanized is disabled; build with `--features dehumanized` to enable"
    );
}

#[test]
fn what_is_built_in_is_planned() {
    match build_controller(&TeamKind::BangkaLegacy, TeamColor::Yellow, 6, everything()) {
        Ok(ControllerPlan::CrashPilot { ai: PilotAi::LegacyBangka, name, start, num_robots }) => {
            assert_eq!(name, "legacy");
            assert_eq!(start.side, FieldSide::PositiveX);
            assert_eq!(num_robots, 6);
        }
        other => panic!("expected the legacy AI, got {other:?}"),
    }
    assert!(matches!(
        build_controller(&TeamKind::Dehumanized, TeamColor::Blue, 2, everything()),
        Ok(ControllerPlan::Dehumanized { num_robots: 2 })
    ));
}

#[test]
fn built_controllers_are_called_by_their_kind() {
    for label in ["bangka", "bongka", "ungabunga", "bangka1", "legacy", "crashpilot", "dummy"] {
        let kind = TeamKind::parse(label).unwrap();
        let plan = build_controller(&kind, TeamColor::Yellow, 4, everything()).unwrap();
        assert_eq!(plan.name(), kind.label());
    }
    let plan = build_controller(&TeamKind::Dehumanized, TeamColor::Blue, 4, everything()).unwrap();
    assert_eq!(plan.name(), "dehumanized");
    assert_eq!(DirectDehumanizedController::<u8>::new(4).name(), TeamKind::Dehumanized.label());
    assert_eq!(DummyController { num_robots: 1 }.name(), TeamKind::Dummy.label());
}

#[test]
fn halting_is_the_only_command_that_stops_crash_pilot() {
    assert_eq!(referee_for(GameCommand::Halt), 0);
    assert_eq!(referee_for(GameCommand::Stop), 3);
    assert_eq!(referee_for(GameCommand::Running), 3);
    assert_eq!(start_crash_pilot(TeamColor::Blue).side, FieldSide::NegativeX);
}
