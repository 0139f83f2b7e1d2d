use serde_json::Value;
use simhark::config::{
    plan_match, route, side_name, side_title, viewer_line, world_config, Abilities, Divisions,
    MatchConfig, Route, TeamBotCounts, REPLAY_TICK_HZ_BITS,
};
use simhark::console::{
    configure_developer_console, plan_request, plan_swap, request_result, swap_controller,
    ConsolePlan, Manned, RequestPlan,
};
use simhark::controller::{BuiltIn, ControllerPlan, TeamKind};
use simhark::debug::ViewerDebugSnapshot;
use simhark::developer::DeveloperRequest;
use simhark::number::Double;
use simhark::pickup::{
    validate_pickup_for_team, LeadPoint, Measured, Miss, PickupValidator, PointView, SideView,
    SideWatch, Speeds, AT_BALL_BITS, AT_POINT_BITS, FAST_BALL_BITS, MOVING_BITS, SLOW_REACH_BITS,
};
use simhark::report::{
    command_is_active, format_optional_robot_command, maybe_debug_match_state,
    maybe_print_commands, nearest_of, parse_frame_range, print_team_commands, summarize_side,
    CommandNumbers, StateReport, KICK_THRESHOLD_BITS,
};
use simhark::runner::{
    begin_turn, build_side, goal_line, publish_controller_debug, referee_info, run_match,
    turn_commands, MatchAction, MatchEvent, MatchRun, MatchStart, Turn,
};
use simhark::state::{
    BallState, FieldConfig, MoveCommand, RobotCommand, RobotConfig, RobotState, TeamColor,
    WorldCommand, WorldConfig, WorldState,
};
use simhark::viewer::{SessionLifecycle, ViewerServer};

fn d(x: f64) -> Double {
    Double::from_bits(x.to_bits())
}

fn world(robots_per_team: usize) -> WorldConfig {
    let z = d(0.0);
    let robots = RobotConfig {
        radius: z,
        vel_absolute_max: z,
        vel_angular_max: z,
        max_linear_kick_speed: z,
        max_chip_kick_speed: z,
    };
    WorldConfig {
        seed: 0,
        robots_per_team,
        field: FieldConfig {
            field_length: z,
            field_width: z,
            goal_width: z,
            goal_depth: z,
            goal_height: z,
            margin_touch_line: z,
            margin_goal_line: z,
            penalty_depth: z,
            penalty_width: z,
            field_center_radius: z,
            field_line_width: z,
        },
        ball_radius: z,
        ball_friction: z,
        gravity: z,
        blue_robots: robots,
        yellow_robots: robots,
    }
}

fn divisions() -> Divisions {
    Divisions { a: world(11), b: world(6) }
}

fn all() -> Abilities {
    Abilities { viewer: true, sumatra: true }
}

fn robot(id: usize) -> RobotState {
    let z = d(0.0);
    RobotState {
        id,
        team: TeamColor::Blue,
        x: z,
        y: z,
        z,
        orientation: z,
        vx: z,
        vy: z,
        vz: z,
        v_angular: z,
        infrared: false,
        dribbler_on: false,
        kick_status: 0,
        is_on: true,
        wheel_speeds: [z; 4],
    }
}

fn state() -> WorldState {
    let z = d(0.0);
    WorldState {
        world_id: 0,
        sim_time: z,
        frame: 0,
        ball: BallState { x: z, y: z, z, vx: z, vy: z, vz: z },
        blue_robots: vec![robot(0), robot(1)],
        yellow_robots: vec![robot(0)],
        goal_blue: false,
        goal_yellow: false,
    }
}

fn command(id: usize, dribbler_on: bool) -> RobotCommand {
    RobotCommand {
        id,
        move_command: None,
        kick_speed: d(0.0),
        kick_angle: d(0.0),
        dribbler_on,
    }
}

#[test]
fn divisions_have_their_own_worlds() {
    assert_eq!(world_config('A', 4, &divisions()).robots_per_team, 11);
    assert_eq!(world_config('x', 4, &divisions()).robots_per_team, 6);
    assert_eq!(world_config('a', 4, &divisions()).seed, 4);
}

#[test]
fn matches_are_routed_by_who_plays() {
    let mut mc = MatchConfig::default();
    assert_eq!(route(&mc, 6, all()), Route::InProcess);
    mc.blue = TeamKind::Sumatra;
    assert_eq!(route(&mc, 6, all()), Route::Sumatra);
    let without = Abilities { viewer: true, sumatra: false };
    assert_eq!(
        route(&mc, 6, without).refusal(),
        Some("sumatra matches require building match-runner with `--features sumatra` and setting SIMHARK_SUMATRA_REPO_ROOT")
    );
    mc.dev = true;
    assert_eq!(
        route(&mc, 6, all()).refusal(),
        Some("--dev does not support matches containing Sumatra; use in-process AIs only")
    );
    mc.blue_bots = Some(0);
    assert_eq!(route(&mc, 6, all()), Route::InProcess);
    let blind = Abilities { viewer: false, sumatra: true };
    assert_eq!(
        route(&mc, 6, blind).refusal(),
        Some("development matches require building match-runner with `--features viewer`")
    );
}

#[test]
fn a_match_starts_refused_or_planned() {
    let mut mc = MatchConfig::default();
    mc.dev = true;
    let blind = Abilities { viewer: false, sumatra: true };
    match run_match(&mc, &divisions(), blind) {
        MatchStart::Refused { blue_name, yellow_name, .. } => {
            assert_eq!((blue_name.as_str(), yellow_name.as_str()), ("blue:bangka", "yellow:bangka"));
        }
        _ => panic!("expected a refusal"),
    }
    match run_match(&mc, &divisions(), all()) {
        MatchStart::InProcess(plan) => assert!(plan.opens_viewer && plan.paces),
        _ => panic!("expected a plan"),
    }
}

#[test]
fn plans_have_room_for_both_sides() {
    let mut mc = MatchConfig::default();
    mc.blue_bots = Some(0);
    mc.yellow_bots = Some(8);
    mc.replay = Some("x".into());
    mc.viewer = true;
    let plan = plan_match(&mc, &divisions());
    assert_eq!(plan.bots, TeamBotCounts { blue: 0, yellow: 8 });
    assert_eq!(plan.physical, TeamBotCounts { blue: 6, yellow: 8 });
    assert_eq!(plan.world.robots_per_team, 8);
    assert!(plan.records_replay && !plan.paces && !plan.opens_viewer);
    assert_eq!(plan.duration.bits, 60.0f64.to_bits());
    mc.interface_recording = true;
    assert!(plan_match(&mc, &divisions()).opens_viewer);
    mc.dev = true;
    assert_eq!(plan_match(&mc, &divisions()).duration.bits, f64::INFINITY.to_bits());
    assert_eq!(REPLAY_TICK_HZ_BITS, 60.0f64.to_bits());
}

#[test]
fn sides_are_called_by_their_controllers() {
    assert_eq!(side_name(&TeamKind::Dummy, Some("idle"), 0), "dummy:0bots");
    assert_eq!(side_name(&TeamKind::Dummy, Some("idle"), 1), "idle");
    assert_eq!(side_name(&TeamKind::Dummy, None, 1), "dummy");
    assert_eq!(side_title("blue", "x"), "blue:x");
    assert_eq!(viewer_line(true, "http://h:1"), "dev viewer: http://h:1/dev");
    assert_eq!(viewer_line(false, "http://h:1"), "viewer: http://h:1");
}

#[test]
fn sides_without_robots_are_not_built() {
    let built_in = BuiltIn {
        bangka: false,
        bongka: false,
        ungabunga: false,
        artificial_incompetence: false,
        dehumanized: false,
    };
    assert!(build_side(&TeamKind::Dummy, TeamColor::Blue, 0, built_in).is_none());
    assert!(matches!(
        build_side(&TeamKind::Dummy, TeamColor::Blue, 4, built_in),
        Some(Ok(ControllerPlan::Dummy { num_robots: 4 }))
    ));
    assert!(matches!(build_side(&TeamKind::Bangka, TeamColor::Blue, 4, built_in), Some(Err(_))));
}

fn match_run(has_viewer: bool) -> MatchRun {
    let mut mc = MatchConfig::default();
    mc.replay = Some("x".into());
    MatchRun::new(plan_match(&mc, &divisions()), has_viewer, true, 2)
}

#[test]
fn a_turn_is_played_step_by_step() {
    let mut run = match_run(false);
    assert_eq!(run.next(MatchEvent::Turned(Turn::Go)), MatchAction::Act);
    assert_eq!(run.next(MatchEvent::Acted { goal: true }), MatchAction::Step);
    assert_eq!(run.command_counter, 2);
    match run.next(MatchEvent::Stepped { frame: 4 }) {
        MatchAction::End(end) => {
            assert!(end.records && end.logs && !end.publishes && !end.waits);
        }
        _ => panic!("expected an end"),
    }
    assert_eq!(run.next(MatchEvent::Ended), MatchAction::Turn);
    run.next(MatchEvent::Turned(Turn::Go));
    run.next(MatchEvent::Acted { goal: false });
    match run.next(MatchEvent::Stepped { frame: 5 }) {
        MatchAction::End(end) => assert!(!end.logs),
        _ => panic!("expected an end"),
    }
    run.next(MatchEvent::Ended);
    assert_eq!(
        run.next(MatchEvent::Turned(Turn::Over)),
        MatchAction::Finish(SessionLifecycle::Completed)
    );
}

#[test]
fn a_held_match_is_shown_and_not_stepped() {
    let mut run = match_run(true);
    assert_eq!(run.next(MatchEvent::Turned(Turn::Go)), MatchAction::Prepare);
    assert_eq!(run.next(MatchEvent::Prepared { running: false }), MatchAction::Hold);
    assert_eq!(run.next(MatchEvent::Held), MatchAction::Turn);
    assert_eq!(run.next(MatchEvent::Turned(Turn::Restart)), MatchAction::Rebuild);
    run.command_counter = 9;
    assert_eq!(run.next(MatchEvent::Rebuilt), MatchAction::Prepare);
    assert_eq!(run.command_counter, 1);
    assert_eq!(run.next(MatchEvent::Prepared { running: true }), MatchAction::Act);
}

#[test]
fn the_operator_stops_and_restarts() {
    let mut v = ViewerServer::bind(1, &world(6)).0;
    v.enable_web_control_running();
    assert_eq!(begin_turn(false, &mut v), Turn::Go);
    v.client.control.restart();
    v.goals.observe(true, true);
    assert_eq!(begin_turn(false, &mut v), Turn::Restart);
    assert_eq!(v.goals.blue, 0);
    v.client.control.restart();
    v.client.control.stop();
    assert_eq!(begin_turn(false, &mut v), Turn::Stopped);
    assert!(v.take_restart_request(), "the restart stays pending");
    v.client.control.stop();
    assert_eq!(begin_turn(true, &mut v), Turn::Over);
    assert_eq!(
        match_run(true).next(MatchEvent::Turned(Turn::Stopped)),
        MatchAction::Finish(SessionLifecycle::Cancelled)
    );
}

#[test]
fn goals_are_told_unless_quiet() {
    assert_eq!(
        goal_line(false, "   1.5", Some("blue scores")).as_deref(),
        Some("  [   1.5s] blue scores")
    );
    assert_eq!(goal_line(true, "1", Some("x")), None);
    assert_eq!(goal_line(false, "1", None), None);
}

#[test]
fn sides_commands_replace_the_directors() {
    let director = WorldCommand { blue: vec![command(9, false)], yellow: Vec::new() };
    let merged = turn_commands(director, vec![command(1, true)], vec![command(2, false)]);
    assert_eq!((merged.blue[0].id, merged.yellow[0].id), (1, 2));
    let info = referee_info("STOP".into(), 4, "b".into(), "y".into());
    assert_eq!((info.command_counter, info.stage.as_deref()), (4, None));
    assert_eq!(info.blue_name.as_deref(), Some("b"));
}

#[test]
fn controllers_debug_data_is_shown_and_taken_back() {
    let mut v = ViewerServer::bind(1, &world(6)).0;
    publish_controller_debug(&mut v, 3, Some(ViewerDebugSnapshot::blank(3)));
    assert!(v.debug.get(3).is_some());
    publish_controller_debug(&mut v, 3, None);
    assert!(v.debug.get(3).is_none());
}

fn bots() -> TeamBotCounts {
    TeamBotCounts { blue: 6, yellow: 0 }
}

fn available() -> Vec<String> {
    vec!["bangka".into(), "odd".into()]
}

fn refusal(plan: RequestPlan) -> String {
    match plan {
        RequestPlan::Refused { message } => message,
        _ => panic!("expected a refusal"),
    }
}

#[test]
fn ais_are_swapped_in_for_sides_with_robots() {
    match swap_controller("bangka", "blue", &available(), bots()) {
        RequestPlan::Swap { kind, color, num_robots, message } => {
            assert!(matches!(kind, TeamKind::Bangka));
            assert_eq!((color, num_robots), (TeamColor::Blue, 6));
            assert_eq!(message, "blue is now controlled by bangka");
        }
        _ => panic!("expected a swap"),
    }
    let swap = |ai: &str, target: &str| refusal(swap_controller(ai, target, &available(), bots()));
    assert_eq!(swap("su\"m", "blue"), "\"su\\\"m\" is not an available in-process AI");
    assert_eq!(swap("odd", "blue"), "unknown team kind: odd");
    assert_eq!(swap("bangka", "green"), "unknown team target: green");
    assert_eq!(swap("bangka", "yellow"), "yellow has no active AI robots");
    assert_eq!(
        refusal(plan_swap("x", "<x>", "blue", &available(), bots())),
        "<x> is not an available in-process AI"
    );
}

#[test]
fn requests_go_where_they_belong() {
    let manned = Manned { blue: true, yellow: false };
    let plan = |r: &DeveloperRequest, dev: bool| plan_request(r, dev, manned, &available(), bots());
    let recovery = DeveloperRequest::SetBallRecovery { target: "x".into(), enabled: false };
    match plan(&recovery, true) {
        RequestPlan::BallRecovery { enabled, message } => {
            assert!(!enabled);
            assert_eq!(message, "Ball teleport on no progress disabled");
        }
        _ => panic!("expected the ball's recovery"),
    }
    assert_eq!(refusal(plan(&recovery, false)), "request is not available in this match mode");
    let switch = DeveloperRequest::SwitchAi { target: "blue".into(), ai: "bangka".into() };
    assert!(matches!(plan(&switch, true), RequestPlan::Swap { .. }));
    assert_eq!(refusal(plan(&switch, false)), "request is not available in this match mode");
    let start = DeveloperRequest::Start { target: "blue".into() };
    assert!(matches!(plan(&start, false), RequestPlan::Forward { color: TeamColor::Blue }));
    let stop = DeveloperRequest::Stop { target: "yellow".into() };
    assert_eq!(refusal(plan(&stop, true)), "no controller is available for target yellow");
    let result = request_result(&switch, Err("no".into()));
    assert_eq!((result.target.as_str(), result.entry.as_deref()), ("blue", Some("bangka")));
    assert!(!result.ok);
    assert_eq!(result.message, "no");
    assert!(request_result(&start, Ok("yes".into())).entry.is_none());
}

#[test]
fn consoles_offer_what_the_match_has() {
    assert!(configure_developer_console(false, vec![], None, None, None, None, true).is_none());
    let yellow = Some(Value::String("schema".into()));
    match configure_developer_console(false, vec![], None, None, None, yellow.clone(), true) {
        Some(ConsolePlan::Controllers { schema, modes, initial_mode }) => {
            assert_eq!(schema, Value::String("schema".into()));
            assert_eq!((modes.len(), initial_mode), (1, "yellow"));
            assert_eq!(modes[0].label, "Yellow team");
            assert_eq!(
                modes[0].description,
                "Invoke against the Yellow Dehumanized controller"
            );
        }
        _ => panic!("expected the controllers"),
    }
    let both = configure_developer_console(false, vec![], None, None, Some(Value::Null), yellow, true);
    match both {
        Some(ConsolePlan::Controllers { schema, modes, initial_mode }) => {
            assert_eq!((schema, modes.len(), initial_mode), (Value::Null, 2, "blue"));
        }
        _ => panic!("expected the controllers"),
    }
    assert!(matches!(
        configure_developer_console(true, available(), Some("b".into()), None, None, None, false),
        Some(ConsolePlan::Development { teleport_ball_on_no_progress: false, .. })
    ));
}

#[test]
fn frames_are_reported_when_asked_for() {
    assert_eq!(parse_frame_range("3:7"), Some((3, 7)));
    assert_eq!(parse_frame_range("3"), None);
    assert_eq!(parse_frame_range("3:x"), None);
    assert_eq!(maybe_debug_match_state(5, Some("3:7"), false), StateReport::WithRobots);
    assert_eq!(maybe_debug_match_state(8, Some("3:7"), false), StateReport::Nothing);
    assert_eq!(maybe_debug_match_state(240, None, true), StateReport::Summary);
    assert_eq!(maybe_debug_match_state(241, None, true), StateReport::Nothing);
    let mut mc = MatchConfig::default();
    assert!(!maybe_print_commands(&mc, false, 60));
    assert!(maybe_print_commands(&mc, true, 60));
    assert!(!maybe_print_commands(&mc, true, 61));
    mc.print_commands = true;
    mc.print_commands_every = 0;
    assert!(maybe_print_commands(&mc, false, 61));
}

#[test]
fn summaries_tell_the_nearest_robot() {
    let mut robots = vec![robot(4), robot(7), robot(9)];
    robots[1].infrared = true;
    robots[2].dribbler_on = true;
    let s = summarize_side(&robots, &[d(2.0), d(1.0), d(1.0)]);
    assert_eq!((s.infrared, s.dribbling, s.nearest_id), (1, 1, 7));
    assert_eq!(s.nearest_distance, d(1.0));
    let none = summarize_side(&Vec::new(), &[]);
    assert_eq!((none.nearest_id, none.nearest_distance), (usize::MAX, d(f64::INFINITY)));
    assert_eq!(nearest_of(&[d(f64::NAN), d(1.0)]), Some(0));
}

fn numbers(motion: &[&str]) -> CommandNumbers {
    CommandNumbers {
        motion: motion.iter().map(|s| s.to_string()).collect(),
        kick_speed: "4.00".into(),
        kick_angle: "45".into(),
    }
}

#[test]
fn commands_are_printed_in_words() {
    assert_eq!(KICK_THRESHOLD_BITS, 1e-6f64.to_bits());
    let mut kick = command(3, true);
    kick.kick_speed = d(-4.0);
    let mut go = command(5, false);
    go.move_command =
        Some(MoveCommand::LocalVelocity { forward: d(1.0), left: d(0.0), angular: d(2.0) });
    let mut wheels = command(6, false);
    wheels.move_command = Some(MoveCommand::WheelVelocity([d(0.0); 4]));
    let idle = command(1, false);
    assert!(command_is_active(&kick) && command_is_active(&go) && !command_is_active(&idle));
    let commands = [idle, kick, go, wheels];
    let texts = vec![
        numbers(&[]),
        numbers(&[]),
        numbers(&["1.00", "0.00", "2.00"]),
        numbers(&["0.0", "0.1", "0.2", "0.3"]),
    ];
    assert_eq!(
        print_team_commands("blue", &commands, &texts),
        "  blue: #3 hold drib kick=4.00m/s@45deg | #5 local f=1.00 l=0.00 w=2.00 | #6 wheels [0.0,0.1,0.2,0.3]"
    );
    assert_eq!(print_team_commands("yellow", &commands[..1], &vec![numbers(&[])]), "  yellow: <none>");
    assert_eq!(format_optional_robot_command(&commands, &texts, 1), "#1 hold");
    assert_eq!(format_optional_robot_command(&commands, &texts, 8), "<missing>");
    let mut global = command(2, false);
    global.move_command =
        Some(MoveCommand::GlobalVelocity { vx: d(1.0), vy: d(0.0), angular: d(0.0) });
    assert_eq!(
        format_optional_robot_command(&[global], &vec![numbers(&["1.00", "0.00", "0.00"])], 2),
        "#2 global vx=1.00 vy=0.00 w=0.00"
    );
}

fn measured(distance: f64, margin: f64, speeds: Option<(f64, f64)>) -> Measured {
    Measured {
        distance: d(distance),
        beaten_from: d(distance + margin),
        speeds: speeds.map(|(speed, closing)| Speeds {
            speed: d(speed),
            closing: d(closing),
            share: d(speed * 0.35),
        }),
    }
}

fn view(ball_speed: f64, own: f64, opponent: f64, speeds: Option<(f64, f64)>) -> SideView {
    let at = |margin: f64| PointView {
        own: vec![measured(own, margin, speeds), measured(5.0, margin, None)],
        opponents: vec![d(opponent)],
    };
    SideView {
        ball_speed: d(ball_speed),
        at_ball: at(0.12),
        leads: vec![LeadPoint {
            lead: d(0.15),
            target_x: d(0.0),
            target_y: d(0.0),
            reach: d(0.2425),
            view: at(0.15),
        }],
    }
}

#[test]
fn thresholds_are_those_of_the_field() {
    assert_eq!(FAST_BALL_BITS, 1.0f64.to_bits());
    assert_eq!(SLOW_REACH_BITS, 0.18f64.to_bits());
    assert_eq!(AT_BALL_BITS, 0.05f64.to_bits());
    assert_eq!(AT_POINT_BITS, 0.10f64.to_bits());
    assert_eq!(MOVING_BITS, 0.03f64.to_bits());
}

fn watch_blue(watch: &mut SideWatch, v: &SideView, commands: &[RobotCommand]) -> Option<Miss> {
    validate_pickup_for_team(&state(), TeamColor::Blue, commands, v, watch)
}

#[test]
fn a_neglected_slow_ball_is_warned_of_once() {
    let mut watch = SideWatch::new();
    let v = view(0.2, 0.1, 1.0, None);
    let idle = [command(0, false)];
    assert_eq!(watch_blue(&mut watch, &v, &idle), Some(Miss::Slow { robot: 0, opponent: 0 }));
    assert_eq!(watch_blue(&mut watch, &v, &idle), None);
    assert_eq!((watch.slow_active, watch.warnings), (true, 1));
    let far = view(0.2, 0.5, 1.0, None);
    assert_eq!(watch_blue(&mut watch, &far, &idle), None);
    assert!(!watch.slow_active);
    assert!(watch_blue(&mut watch, &v, &idle).is_some());
    assert_eq!(watch.warnings, 2);
}

#[test]
fn a_robot_that_goes_for_the_ball_is_left_alone() {
    let mut watch = SideWatch::new();
    let going = view(0.2, 0.1, 1.0, Some((0.5, 0.4)));
    assert_eq!(watch_blue(&mut watch, &going, &[command(0, true)]), None);
    assert!(watch_blue(&mut watch, &going, &[command(0, false)]).is_some());
    let crawling = view(0.2, 0.1, 1.0, Some((0.02, 0.02)));
    let mut watch = SideWatch::new();
    assert!(watch_blue(&mut watch, &crawling, &[command(0, true)]).is_some());
    let there = view(0.2, 0.04, 1.0, None);
    let mut watch = SideWatch::new();
    assert_eq!(watch_blue(&mut watch, &there, &[command(0, true)]), None);
    let contested = view(0.2, 0.1, 0.15, None);
    assert_eq!(watch_blue(&mut watch, &contested, &[]), None);
}

#[test]
fn a_neglected_fast_ball_is_warned_of() {
    let mut watch = SideWatch::new();
    let v = view(2.0, 0.2, 1.0, None);
    assert_eq!(
        watch_blue(&mut watch, &v, &[]),
        Some(Miss::Fast { lead: 0, robot: 0, opponent: 0 })
    );
    assert_eq!(watch_blue(&mut watch, &v, &[]), None);
    let going = view(2.0, 0.2, 1.0, Some((1.0, 0.4)));
    assert_eq!(watch_blue(&mut watch, &going, &[command(0, false)]), None);
    assert!(!watch.fast_active);
}

#[test]
fn both_sides_are_watched_when_asked_for() {
    let mut validator = PickupValidator::new();
    let mut mc = MatchConfig::default();
    let blue = view(0.2, 0.1, 1.0, None);
    let yellow = SideView {
        ball_speed: d(0.2),
        at_ball: PointView {
            own: vec![measured(1.0, 0.12, None)],
            opponents: vec![d(0.1), d(5.0)],
        },
        leads: Vec::new(),
    };
    let s = state();
    assert_eq!(
        validator.maybe_validate(&mc, false, &s, &[], &[], &blue, &yellow),
        (None, None)
    );
    mc.validate_pickup = true;
    let (b, y) = validator.maybe_validate(&mc, false, &s, &[], &[], &blue, &yellow);
    assert!(b.is_some() && y.is_none());
    assert_eq!((validator.blue.warnings, validator.yellow.warnings), (1, 0));
}
