use serde_json::Value;
use simhark::client::{ClientState, CommandStatus, SimharkCommand, SystemCommand};
use simhark::control::{
    allowed_speed, speed_percent, WebControlState, FASTEST_BITS, SLOWEST_BITS,
};
use simhark::debug::{RobotDebugInfo, ViewerDebugSnapshot};
use simhark::developer::DeveloperRequest;
use simhark::edits::{
    apply_robot_move_requests, entry_teleport, turn_teleport, Limits, WorldEdit, WorldShape,
};
use simhark::launch::MatchConfiguration;
use simhark::number::Double;
use simhark::publish::{FramePart, ViewerFrame};
use simhark::replay::{
    CommandTexts, ReplayDebugSnapshot, ReplayEvent, ReplayEventKind, ReplayFrame,
};
use simhark::requests::texts_of_numbers;
use simhark::session::{render_index, serves_page, socket_step, Outbox, SocketEvent, SocketStep};
use simhark::snapshot::{BALL_RADIUS_MM_BITS, MAX_ROBOT_RADIUS_MM_BITS};
use simhark::state::{
    BallState, FieldConfig, RobotConfig, RobotState, TeamColor, TeleportRobot, WorldCommand,
    WorldConfig, WorldState,
};
use simhark::trackers::{GameStateInfo, GameStateTracker, GoalTracker};
use simhark::viewer::{
    simhark_capabilities, Host, SessionLifecycle, ViewerConfig, ViewerServer,
};
use simhark::worlds::{
    parse_world_selection, selected_state, selected_worlds_snapshot, state_by_world_id,
};

fn d(x: f64) -> Double {
    Double::from_bits(x.to_bits())
}

fn f(x: Double) -> f64 {
    f64::from_bits(x.bits)
}

fn config() -> WorldConfig {
    let robots = RobotConfig {
        radius: d(0.09),
        vel_absolute_max: d(5.0),
        vel_angular_max: d(20.0),
        max_linear_kick_speed: d(6.0),
        max_chip_kick_speed: d(6.0),
    };
    WorldConfig {
        seed: 0,
        robots_per_team: 6,
        field: FieldConfig {
            field_length: d(9.0),
            field_width: d(6.0),
            goal_width: d(1.0),
            goal_depth: d(0.18),
            goal_height: d(0.16),
            margin_touch_line: d(0.3),
            margin_goal_line: d(0.4),
            penalty_depth: d(1.0),
            penalty_width: d(2.0),
            field_center_radius: d(0.5),
            field_line_width: d(0.01),
        },
        ball_radius: d(0.0215),
        ball_friction: d(0.05),
        gravity: d(9.81),
        blue_robots: robots,
        yellow_robots: robots,
    }
}

fn robot(id: usize, team: TeamColor) -> RobotState {
    let z = d(0.0);
    RobotState {
        id,
        team,
        x: d(id as f64),
        y: z,
        z,
        orientation: z,
        vx: z,
        vy: z,
        vz: z,
        v_angular: z,
        infrared: id == 1,
        dribbler_on: false,
        kick_status: 0,
        is_on: id != 2,
        wheel_speeds: [z; 4],
    }
}

fn state(world_id: usize) -> WorldState {
    let z = d(0.0);
    WorldState {
        world_id,
        sim_time: d(-1.0),
        frame: 10 + world_id as u64,
        ball: BallState { x: z, y: z, z, vx: z, vy: z, vz: z },
        blue_robots: vec![robot(2, TeamColor::Blue), robot(1, TeamColor::Blue)],
        yellow_robots: vec![robot(0, TeamColor::Yellow)],
        goal_blue: false,
        goal_yellow: false,
    }
}

fn viewer(worlds: usize) -> ViewerServer {
    ViewerServer::bind(worlds, &config()).0
}

fn say(client: &mut ClientState, message: &str) {
    let numbers = texts_of_numbers(message)
        .iter()
        .map(|t| t.parse::<f64>().ok().map(d))
        .collect::<Vec<_>>();
    let request = if message == "developer:{\"action\":\"stop\",\"target\":\"blue\"}" {
        Some(DeveloperRequest::Stop { target: "blue".into() })
    } else {
        None
    };
    client.handle_client_message(message, &numbers, request);
}

fn info(command: &str, command_counter: u32) -> GameStateInfo {
    GameStateInfo {
        command: command.into(),
        command_counter,
        stage: Some("NORMAL_FIRST_HALF".into()),
        blue_name: Some("b".into()),
        yellow_name: None,
    }
}

#[test]
fn the_viewer_says_where_it_is() {
    let c = ViewerConfig::from_setting(None);
    assert_eq!(c.http_port, 8315);
    assert_eq!(c.http_url(), "http://127.0.0.1:8315");
    assert_eq!(c.websocket_port(), 8316);
    assert_eq!(ViewerConfig::from_setting(Some("9000")).http_port, 9000);
    assert_eq!(ViewerConfig::from_setting(Some("70000")).http_port, 8315);
    let v6 = ViewerConfig { host: Host::AnyV6, http_port: 65535 };
    assert_eq!(v6.http_url(), "http://[::1]:65535");
    assert_eq!(v6.websocket_port(), 65535);
    let one = ViewerConfig { host: Host::Address("10.0.0.7".into()), http_port: 80 };
    assert_eq!(one.http_url(), "http://10.0.0.7:80");
}

#[test]
fn capabilities_are_described_by_their_ids() {
    let list = simhark_capabilities();
    assert_eq!(list.len(), 10);
    assert_eq!(list[3].description, "simhark world_selection");
    assert!(list[..9].iter().all(|c| c.mutable));
    assert_eq!(list[9].id, "simhark.world_state");
    assert!(!list[9].mutable);
    let plan = ViewerServer::bind(4, &config()).1;
    assert_eq!(plan.session_label, "simhark live");
    assert_eq!((plan.world_count, plan.generation), (4, 1));
}

#[test]
fn web_control_has_to_be_opted_in() {
    let mut v = viewer(1);
    assert!(v.is_running());
    say(&mut v.client, "control:pause");
    assert!(v.is_running());
    v.enable_web_control();
    assert!(!v.is_running());
    say(&mut v.client, "control: start ");
    assert!(v.is_running());
    say(&mut v.client, "control:restart");
    assert!(v.take_restart_request());
    assert!(!v.take_restart_request());
    say(&mut v.client, "control:stop");
    assert!(v.take_stop_request() && !v.is_running());
    v.enable_web_control_running();
    assert!(v.is_running());
}

#[test]
fn speeds_are_held_in_bounds() {
    assert_eq!((SLOWEST_BITS, FASTEST_BITS), (0.05f64.to_bits(), 4.0f64.to_bits()));
    let mut v = viewer(1);
    v.enable_web_control();
    say(&mut v.client, "speed:2.5");
    assert_eq!(v.speed(), 250);
    say(&mut v.client, "speed:100");
    assert_eq!(v.speed(), 400);
    say(&mut v.client, "speed:0");
    assert_eq!(v.speed(), 5);
    say(&mut v.client, "speed:fast");
    assert_eq!(v.speed(), 5);
    v.enable_web_control();
    assert_eq!(v.speed(), 100);
}

#[test]
fn percents_are_rounded_as_the_machine_rounds() {
    let percent = |x: f64| (x.clamp(0.05, 4.0) * 100.0).round() as usize;
    let mut seed = 0x9e37_79b9_7f4a_7c15u64;
    for i in 0..200_000u64 {
        seed = seed.wrapping_mul(6364136223846793005).wrapping_add(1442695040888963407);
        let x = (seed >> 11) as f64 / (1u64 << 53) as f64 * 4.1;
        assert_eq!(speed_percent(d(x)), percent(x), "{x}");
        // Halves, and their neighbours on both sides.
        let half = (i % 400) as f64 / 100.0 + 0.005;
        for bits in [half.to_bits() - 1, half.to_bits(), half.to_bits() + 1] {
            let x = f64::from_bits(bits);
            assert_eq!(speed_percent(d(x)), percent(x), "{x}");
        }
    }
    for x in [0.05, 0.0625, 0.125, 0.25, 0.5, 1.0, 2.0, 4.0, 1.005, 0.145, -3.0, f64::INFINITY] {
        assert_eq!(speed_percent(d(x)), percent(x), "{x}");
    }
    assert_eq!(speed_percent(d(f64::NAN)), 0);
    assert_eq!(f(allowed_speed(d(9.0))), 4.0);
}

#[test]
fn frames_are_stepped_skipped_and_sought() {
    let mut v = viewer(1);
    v.enable_web_control_running();
    say(&mut v.client, "replay:step:2");
    say(&mut v.client, "replay:step:-5");
    assert!(!v.is_running());
    assert_eq!(v.take_frame_step_request(), -3);
    assert_eq!(v.take_frame_step_request(), 0);
    say(&mut v.client, "replay:step:20000");
    assert_eq!(v.take_frame_step_request(), 10_000);
    say(&mut v.client, "replay:skip:-200000");
    assert_eq!(v.take_frame_skip_request(), -100_000);
    assert_eq!(v.take_frame_seek_request(), None);
    say(&mut v.client, "replay:seek:17");
    assert_eq!(v.take_frame_seek_request(), Some(17));
    assert_eq!(v.take_frame_seek_request(), None);
    say(&mut v.client, "replay:seek:-4");
    assert_eq!(v.take_frame_seek_request(), Some(0));
}

#[test]
fn without_opting_in_the_simulator_keeps_running() {
    let mut v = viewer(1);
    v.client.apply_simhark_command(SimharkCommand::Pause).unwrap();
    assert!(v.is_running());
    v.client.apply_simhark_command(SimharkCommand::Restart).unwrap();
    assert!(!v.take_restart_request());
    v.enable_web_control_running();
    v.client.apply_simhark_command(SimharkCommand::Pause).unwrap();
    assert!(!v.is_running());
}

#[test]
fn commands_change_the_run_control() {
    let mut c = ClientState::new();
    c.apply_simhark_command(SimharkCommand::Pause).unwrap();
    assert!(!c.control.running);
    c.apply_simhark_command(SimharkCommand::CancelSession).unwrap();
    assert!(c.control.stop_requested);
    c.apply_simhark_command(SimharkCommand::Seek { frame: u64::MAX }).unwrap();
    assert_eq!(c.control.frame_seek_requested, isize::MAX);
    let nan = SimharkCommand::SetSpeed { multiplier: d(f64::NAN) };
    assert_eq!(c.apply_simhark_command(nan).unwrap_err(), "speed must be finite");
    let fast = SimharkCommand::SetSpeed { multiplier: d(2.0) };
    c.apply_simhark_command(fast).unwrap();
    assert_eq!(c.control.speed_percent, 200);
    let worlds = SimharkCommand::SelectWorlds { world_ids: vec![4, 2] };
    c.apply_simhark_command(worlds).unwrap();
    assert_eq!((c.selected_world, c.selected_worlds.as_slice()), (4, &[4usize, 2][..]));
}

#[test]
fn commands_are_acknowledged() {
    let mut c = ClientState::new();
    let ack = c.run_interface_command(SystemCommand::Simhark(SimharkCommand::Start));
    assert_eq!((ack.status, ack.message.as_str()), (CommandStatus::Applied, "applied by simhark"));
    let ack = c.run_interface_command(SystemCommand::Other);
    assert_eq!(ack.status, CommandStatus::Rejected);
    assert_eq!(ack.message, "unsupported command for simhark");
    let configuration = MatchConfiguration {
        blue_controller: "a".into(),
        yellow_controller: "b".into(),
        blue_robots: 1,
        yellow_robots: 1,
        duration_ns: None,
        division: "b".into(),
        batch_count: 1,
        seed: 0,
        precompute: false,
        development: false,
        record: false,
    };
    let launch = SystemCommand::Simhark(SimharkCommand::LaunchMatch(configuration));
    let ack = c.run_interface_command(launch);
    assert_eq!(ack.status, CommandStatus::Rejected);
    assert_eq!(ack.message, "match launch is handled by match-runner");
    for _ in 0..64 {
        let start = DeveloperRequest::Start { target: "blue".into() };
        let ack = c.run_interface_command(SystemCommand::Developer(start));
        assert_eq!(ack.status, CommandStatus::Applied);
    }
    let start = DeveloperRequest::Start { target: "blue".into() };
    let ack = c.run_interface_command(SystemCommand::Developer(start));
    assert_eq!(ack.message, "the simulation is not draining developer requests");
}

#[test]
fn developer_messages_are_queued() {
    let mut c = ClientState::new();
    say(&mut c, "developer:{\"action\":\"stop\",\"target\":\"blue\"}");
    say(&mut c, "developer:rubbish");
    assert_eq!(c.developer_requests.len(), 1);
}

#[test]
fn worlds_are_selected_sorted_and_once() {
    assert_eq!(parse_world_selection(" 3, 1,x,3 ,2"), vec![1, 2, 3]);
    assert!(parse_world_selection("all").is_empty());
    assert_eq!(selected_worlds_snapshot(&vec![], 3), vec![0, 1, 2]);
    assert_eq!(selected_worlds_snapshot(&vec![5, 1], 3), vec![1]);
    assert_eq!(selected_worlds_snapshot(&vec![5], 3), vec![0]);
    let mut c = ClientState::new();
    say(&mut c, "worlds:2,1");
    assert_eq!((c.selected_world, c.selected_worlds.as_slice()), (1, &[1usize, 2][..]));
    say(&mut c, "worlds: all ");
    assert!(c.selected_worlds.is_empty());
    say(&mut c, "world: 4");
    assert_eq!(c.selected_worlds, vec![4]);
    say(&mut c, "world:x");
    assert_eq!(c.selected_world, 4);
}

#[test]
fn the_shown_world_is_one_that_there_is() {
    let mut v = viewer(2);
    v.select_world(7);
    assert_eq!(v.selected_world(), 1);
    assert_eq!(v.selected_worlds(), vec![1]);
    v.client.selected_world = 9;
    assert_eq!(v.selected_world(), 1);
    let none = viewer(0);
    assert_eq!(none.selected_world(), 0);
}

#[test]
fn states_are_found_by_world_then_by_place() {
    let states = vec![state(4), state(2)];
    assert_eq!(state_by_world_id(&states, 2), Some(1));
    assert_eq!(state_by_world_id(&states, 9), None);
    assert_eq!(selected_state(&states, 4), Some(0));
    assert_eq!(selected_state(&states, 1), Some(1));
    assert_eq!(selected_state(&states, 9), Some(0));
    assert_eq!(selected_state(&[], 0), None);
}

fn shape() -> WorldShape {
    let limits = Limits { x: d(4.41), y: d(2.91) };
    WorldShape {
        blue: vec![true, false],
        yellow: vec![true],
        blue_limits: limits,
        yellow_limits: limits,
        ball_limits: limits,
    }
}

#[test]
fn edits_are_held_to_the_field_and_applied_once() {
    let mut v = viewer(1);
    say(&mut v.client, "robot:move:0:Blue:0:1:1");
    say(&mut v.client, "robot:move:0:Blue:0:100:-1.5");
    say(&mut v.client, "robot:move:0:Blue:9:0:0");
    say(&mut v.client, "robot:move:5:Blue:0:0:0");
    say(&mut v.client, "ball:move:0:-100:1");
    let applied = v.apply_robot_move_requests(&[shape()]);
    let edits = applied.edits;
    assert_eq!((edits.len(), applied.changed), (2, 2));
    match edits[0] {
        WorldEdit::Robot { world_id, teleport } => {
            assert_eq!(world_id, 0);
            assert_eq!((teleport.id, teleport.team), (0, TeamColor::Blue));
            assert_eq!(teleport.x.map(f), Some(4.41));
            assert_eq!(teleport.y.map(f), Some(-1.5));
            assert_eq!(teleport.vx.map(f), Some(0.0));
            assert_eq!(teleport.orientation, None);
        }
        _ => panic!("expected a move"),
    }
    match edits[1] {
        WorldEdit::Ball { teleport, .. } => assert_eq!(teleport.x.map(f), Some(-4.41)),
        _ => panic!("expected the ball"),
    }
    let again = v.apply_robot_move_requests(&[shape()]);
    assert!(again.edits.is_empty());
    assert_eq!(again.changed, 0);
}

#[test]
fn a_robot_that_is_moved_and_turned_counts_once() {
    let mut v = viewer(1);
    say(&mut v.client, "robot:move:0:Blue:0:1:1");
    say(&mut v.client, "robot:rotate:0:Blue:0:0.5");
    let applied = v.apply_robot_move_requests(&[shape()]);
    assert_eq!((applied.edits.len(), applied.changed), (2, 1));
    say(&mut v.client, "robot:move:0:Blue:1:1:1");
    say(&mut v.client, "robot:presence:0:Blue:1:true");
    say(&mut v.client, "robot:rotate:0:Yellow:0:0.5");
    say(&mut v.client, "ball:move:0:0:0");
    let applied = v.apply_robot_move_requests(&[shape()]);
    assert_eq!((applied.edits.len(), applied.changed), (4, 3));
}

#[test]
fn one_move_is_one_edit_held_to_the_teams_own_limits() {
    let mut v = viewer(1);
    say(&mut v.client, "robot:move:0:Yellow:0:10:-10");
    let mut world = shape();
    world.blue_limits = Limits { x: d(3.75), y: d(2.75) };
    world.yellow_limits = Limits { x: d(3.5), y: d(2.5) };
    let applied = v.apply_robot_move_requests(&[world]);
    assert_eq!((applied.edits.len(), applied.changed), (1, 1));
    let still = Some(d(0.0));
    let teleport = TeleportRobot {
        id: 0,
        team: TeamColor::Yellow,
        x: Some(d(3.5)),
        y: Some(d(-2.5)),
        orientation: None,
        vx: still,
        vy: still,
        v_angular: still,
        present: None,
    };
    assert_eq!(applied.edits[0], WorldEdit::Robot { world_id: 0, teleport });
}

#[test]
fn robots_are_turned_and_switched() {
    let mut c = ClientState::new();
    say(&mut c, "robot:rotate:0:Yellow:0:9.5");
    say(&mut c, "robot:presence:0:Blue:1:true");
    say(&mut c, "robot:presence:0:Blue:0:true");
    say(&mut c, "robot:presence:0:Yellow:0:false");
    let edits = apply_robot_move_requests(&mut c, &[shape()]).edits;
    assert_eq!(edits.len(), 3);
    assert!(matches!(
        edits[0],
        WorldEdit::Turn { team: TeamColor::Yellow, id: 0, orientation, .. } if f(orientation) == 9.5
    ));
    assert!(matches!(
        edits[1],
        WorldEdit::Enter { team: TeamColor::Blue, id: 1, robot_count: 2, .. }
    ));
    match edits[2] {
        WorldEdit::Robot { teleport, .. } => assert_eq!(teleport.present, Some(false)),
        _ => panic!("expected a robot that leaves"),
    }
}

#[test]
fn turned_and_entering_robots_are_at_rest() {
    let still = Some(d(0.0));
    let turn = turn_teleport(TeamColor::Yellow, 3, d(-1.5));
    let turned = TeleportRobot {
        id: 3,
        team: TeamColor::Yellow,
        x: None,
        y: None,
        orientation: Some(d(-1.5)),
        vx: still,
        vy: still,
        v_angular: still,
        present: None,
    };
    assert_eq!(turn, turned);
    for (team, heading) in [(TeamColor::Blue, 0.0), (TeamColor::Yellow, std::f64::consts::PI)] {
        let entered = TeleportRobot {
            id: 2,
            team,
            x: Some(d(-1.0)),
            y: Some(d(0.25)),
            orientation: Some(d(heading)),
            vx: still,
            vy: still,
            v_angular: still,
            present: Some(true),
        };
        assert_eq!(entry_teleport(team, 2, d(-1.0), d(0.25)), entered);
    }
}

#[test]
fn goals_are_counted_when_their_flag_goes_up() {
    let mut t = GoalTracker::new();
    for (blue, yellow) in [(true, false), (true, false), (false, true), (true, true)] {
        t.observe(blue, yellow);
    }
    assert_eq!((t.blue, t.yellow), (2, 1));
}

#[test]
fn game_states_are_counted_when_entered() {
    let mut t = GameStateTracker::new();
    assert!(t.snapshot().is_none());
    t.update(info("STOP", 1));
    t.update(info("STOP", 1));
    t.update(info("FORCE_START", 2));
    t.update(info("STOP", 3));
    let shown = t.snapshot().unwrap();
    assert_eq!((shown.command, shown.command_counter), ("STOP", 3));
    assert_eq!(shown.stage, Some("NORMAL_FIRST_HALF"));
    assert_eq!(shown.yellow_name, None);
    assert_eq!(shown.state_counts.get(&"STOP".to_string()), Some(&2));
    assert_eq!(shown.state_counts.get(&"FORCE_START".to_string()), Some(&1));
}

fn shown_ids(frame: &ViewerFrame<'_>, states: &[WorldState]) -> Vec<usize> {
    frame.states.iter().map(|i| states[*i].world_id).collect()
}

#[test]
fn a_publish_shows_what_the_viewer_keeps() {
    let mut v = viewer(3);
    v.set_game_state(info("STOP", 1));
    v.set_test_suite(Some(Value::Bool(true)));
    say(&mut v.client, "worlds:1,2");
    let mut states = vec![state(0), state(1), state(2)];
    states[1].goal_yellow = true;
    let p = v.publish_states(&states).unwrap();
    assert_eq!(states[p.frame.state].world_id, 1);
    assert_eq!(shown_ids(&p.frame, &states), vec![1, 2]);
    assert_eq!(p.frame.goals.yellow, 1);
    assert!(p.frame.goals.yellow_active && !p.frame.goals.blue_active);
    assert_eq!(p.frame.test_suite, Some(&Value::Bool(true)));
    assert!(!p.frame.replay.enabled);
    assert_eq!(f(p.frame.replay.base_speed), 1.0);
    assert_eq!(p.frame.control.speed_percent, 100);
    assert_eq!(p.snapshot.worlds.len(), 3);
    let world = &p.snapshot.worlds[2];
    assert_eq!((world.world_id, world.frame, world.score.yellow), (2, 12, 1));
    assert_eq!(f(world.sim_time), 0.0);
    assert_eq!(world.referee.as_ref().unwrap().command, "STOP");
    assert_eq!(world.ball.source.as_deref(), Some("simhark"));
    let robots = world.robots.iter().map(|r| (r.team, r.id)).collect::<Vec<_>>();
    assert_eq!(
        robots,
        vec![(TeamColor::Blue, 1), (TeamColor::Blue, 2), (TeamColor::Yellow, 0)]
    );
    assert_eq!(world.robots[0].infrared, Some(true));
    assert_eq!(world.robots[1].visibility.map(f), Some(0.0));
    assert_eq!(f(world.field.boundary_width), 0.4);
    assert_eq!(MAX_ROBOT_RADIUS_MM_BITS, 90.0f64.to_bits());
    assert_eq!(BALL_RADIUS_MM_BITS, 21.5f64.to_bits());
    let names = p.properties.iter().map(|p| p.name).collect::<Vec<_>>();
    assert_eq!(names.len(), 7);
    assert_eq!((names[0], p.properties[0].part), ("selected_world", FramePart::SelectedWorld));
    assert_eq!((names[3], p.properties[3].part), ("control.speed", FramePart::Speed));
}

#[test]
fn a_goal_that_stays_up_is_published_once() {
    let mut v = viewer(1);
    let mut s = state(0);
    s.goal_blue = true;
    assert_eq!(v.publish(&s).unwrap().frame.goals.blue, 1);
    assert_eq!(v.publish(&s).unwrap().frame.goals.blue, 1);
    v.reset_goals();
    assert_eq!(v.publish(&s).unwrap().frame.goals.blue, 1);
    assert!(v.publish_states(&[]).is_none());
}

#[test]
fn tasks_come_from_the_debug_data_of_the_world() {
    let mut v = viewer(1);
    v.set_robot_debug(
        0,
        RobotDebugInfo {
            team: TeamColor::Blue,
            id: 1,
            task: "Keeper".into(),
            color: "#fff".into(),
            message: None,
        },
    );
    v.set_strategy_debug_message(0, "calm".into());
    let p = v.publish(&state(0)).unwrap();
    assert_eq!(p.snapshot.worlds[0].robots[0].task.as_deref(), Some("Keeper"));
    assert_eq!(p.snapshot.worlds[0].robots[1].task, None);
    assert_eq!(p.frame.debug.as_ref().unwrap().strategy.as_deref(), Some("calm"));
    assert_eq!(p.snapshot.debug_items.len(), 2);
    assert_eq!(p.snapshot.debug_layers.len(), 11);
    v.clear_robot_debug(0, TeamColor::Blue, 1);
    v.clear_strategy_debug_message(0);
    assert!(v.publish(&state(0)).unwrap().snapshot.debug_items.is_empty());
    v.set_debug_snapshot(ViewerDebugSnapshot::blank(0));
    v.clear_debug_snapshot(0);
    assert!(v.publish(&state(0)).unwrap().frame.debug.is_none());
}

fn recorded(world_id: usize, strategy: &str) -> ReplayDebugSnapshot {
    ReplayDebugSnapshot {
        world_id,
        strategy: Some(strategy.into()),
        robots: Vec::new(),
        overlays: Vec::new(),
    }
}

#[test]
fn a_replayed_frame_shows_live_debug_data_before_recorded() {
    let mut v = viewer(2);
    v.set_strategy_debug_message(1, "live".into());
    let frame = ReplayFrame {
        frame: 5,
        sim_time: d(0.1),
        states: vec![state(0), state(1)],
        commands: vec![WorldCommand { blue: Vec::new(), yellow: Vec::new() }],
        debug: vec![recorded(0, "then"), recorded(1, "history"), recorded(7, "elsewhere")],
        events: Vec::new(),
    };
    let timeline = vec![ReplayEvent {
        frame: 1,
        sim_time: d(0.0),
        world_id: None,
        kind: ReplayEventKind::Foul,
        label: "foul".into(),
        details: None,
    }];
    let texts = vec![CommandTexts { blue: Vec::new(), yellow: Vec::new() }];
    let p = v.publish_replay_frame(&frame, 2, 9, &timeline, d(60.0), &texts).unwrap();
    assert!(p.frame.replay.enabled);
    assert_eq!((p.frame.replay.frame_index, p.frame.replay.frame_count), (2, 9));
    assert_eq!(f(p.frame.replay.base_speed), 60.0);
    assert_eq!(p.frame.events.len(), 1);
    assert_eq!(p.frame.debug.as_ref().unwrap().strategy.as_deref(), Some("then"));
    let ids = p.snapshot.debug_items.iter().map(|i| i.id.as_str()).collect::<Vec<_>>();
    assert_eq!(ids, vec!["simhark.debug.strategy.0", "simhark.debug.strategy.1"]);
    assert_eq!(p.properties[0].name, "replay.enabled");
    v.select_world(1);
    let p = v.publish_replay_frame(&frame, 2, 9, &timeline, d(60.0), &texts).unwrap();
    assert_eq!(p.frame.debug.as_ref().unwrap().strategy.as_deref(), Some("live"));
}

#[test]
fn a_session_that_was_not_finished_counts_as_cancelled() {
    let mut v = viewer(1);
    assert!(v.finish_session(Err("gone".into())).is_err());
    let (lifecycle, error) = v.close().unwrap();
    assert_eq!(lifecycle, SessionLifecycle::Cancelled);
    assert_eq!(error, "viewer host stopped before the session was finalized");
    assert!(v.close().is_none());
    let mut v = viewer(1);
    v.finish_session(Ok(())).unwrap();
    assert!(v.close().is_none());
}

#[test]
fn pages_are_served_and_told_the_port() {
    assert!(serves_page(true, "/"));
    assert!(serves_page(true, "/dev?x=1"));
    assert!(serves_page(true, "/debug-big"));
    assert!(!serves_page(true, "/other"));
    assert!(!serves_page(false, "/"));
    assert_eq!(
        render_index("<head>x</head><body>", 8316),
        "<head>x<script>window.__SIMHARK_WS_PORT__=8316;</script></head><body>"
    );
    assert_eq!(
        render_index("<body>", 1),
        "<script>window.__SIMHARK_WS_PORT__=1;</script><body>"
    );
}

#[test]
fn sockets_send_what_is_new() {
    assert_eq!(socket_step(SocketEvent::Text), SocketStep::Apply);
    assert_eq!(socket_step(SocketEvent::Other), SocketStep::ReadOn);
    assert_eq!(socket_step(SocketEvent::Quiet), SocketStep::Send);
    assert_eq!(socket_step(SocketEvent::Close), SocketStep::HangUp);
    assert_eq!(socket_step(SocketEvent::Broken), SocketStep::HangUp);
    let mut outbox = Outbox::new();
    assert_eq!(outbox.to_send(&None), None);
    let frame = outbox.to_send(&Some("a".into())).unwrap();
    outbox.sent(frame);
    assert_eq!(outbox.to_send(&Some("a".into())), None);
    assert_eq!(outbox.to_send(&Some("b".into())).as_deref(), Some("b"));
}

#[test]
fn a_fresh_run_control_runs_at_plain_speed() {
    let c = WebControlState::new();
    assert!(c.running && !c.enabled);
    assert_eq!((c.speed_percent, c.frame_seek_requested), (100, -1));
}
