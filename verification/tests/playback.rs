use simhark::number::Double;
use simhark::playback::{
    apply_frame_step, is_replay_path, parse_detail_value, replay_game_state_for_frame, DemoOptions,
    Pause, Playback, ServeError, ServeOptions, VisionLogSource,
};
use simhark::replay::{ReplayEvent, ReplayEventKind};
use simhark::ssl_log::{
    apply_geometry, detection_robot, detection_to_state, shown_robots, tracked_ball, AgedRobot,
    GeometryPacket, PacketKind, RefereePacket, SslImport, TrackedEntry, TrackedFrame,
    VisionTracker, DEFAULT_TICK_HZ_BITS, TRACK_SECONDS_BITS,
};
use simhark::state::{FieldConfig, RobotConfig, TeamColor, WorldConfig};
use simhark::viewer::ViewerServer;

fn d(x: f64) -> Double {
    Double::from_bits(x.to_bits())
}

fn f(x: Double) -> f64 {
    f64::from_bits(x.bits)
}

fn config() -> WorldConfig {
    let z = d(0.0);
    let robots = RobotConfig {
        radius: d(0.09),
        vel_absolute_max: z,
        vel_angular_max: z,
        max_linear_kick_speed: z,
        max_chip_kick_speed: z,
    };
    WorldConfig {
        seed: 0,
        robots_per_team: 11,
        field: FieldConfig {
            field_length: z,
            field_width: z,
            goal_width: z,
            goal_depth: z,
            goal_height: d(0.16),
            margin_touch_line: z,
            margin_goal_line: z,
            penalty_depth: d(1.8),
            penalty_width: d(3.6),
            field_center_radius: d(0.5),
            field_line_width: d(0.01),
        },
        ball_radius: d(0.0215),
        ball_friction: z,
        gravity: z,
        blue_robots: robots,
        yellow_robots: robots,
    }
}

fn strings(args: &[&str]) -> Vec<String> {
    args.iter().map(|a| a.to_string()).collect()
}

fn referee(frame: u64, label: &str, details: Option<&str>) -> ReplayEvent {
    ReplayEvent {
        frame,
        sim_time: d(0.0),
        world_id: None,
        kind: ReplayEventKind::Referee,
        label: label.into(),
        details: details.map(str::to_string),
    }
}

fn packet(counter: u32) -> RefereePacket {
    RefereePacket {
        command: 3,
        command_name: Some("FORCE_START".into()),
        command_counter: counter,
        stage: -2,
        stage_name: None,
        blue_name: "TIGERs".into(),
        yellow_name: String::new(),
    }
}

fn entry(id: u32, team: Option<TeamColor>, visibility: Option<f64>) -> TrackedEntry {
    TrackedEntry {
        id: Some(id),
        team,
        x: d(1.0),
        y: d(2.0),
        orientation: d(0.5),
        velocity: None,
        angular_velocity: Some(d(0.25)),
        visibility: visibility.map(d),
    }
}

#[test]
fn steps_stay_between_the_ends() {
    assert_eq!(apply_frame_step(5, 2, 10), 7);
    assert_eq!(apply_frame_step(5, -7, 10), 0);
    assert_eq!(apply_frame_step(5, 70, 10), 9);
    assert_eq!(apply_frame_step(5, 1, 0), 0);
    assert_eq!(apply_frame_step(apply_frame_step(3, 4, 10), -4, 10), 3);
}

#[test]
fn a_playback_follows_the_browser() {
    let mut v = ViewerServer::bind(1, &config()).0;
    v.enable_web_control_running();
    let mut p = Playback::new(10);
    v.client.control.frame_seek_requested = 6;
    v.client.control.frame_skip_requested = 2;
    v.client.control.frame_step_requested = -1;
    p.follow(&mut v);
    assert_eq!(p.index, 7);
    p.follow(&mut v);
    assert_eq!(p.index, 7);
    v.client.control.frame_step_requested = 100;
    p.follow_steps(&mut v);
    assert_eq!(p.index, 9);
    assert_eq!(p.advance(true), Pause::Frame);
    assert_eq!(p.index, 9);
    v.client.control.restart_requested = true;
    v.goals.observe(true, false);
    p.maybe_restart(&mut v);
    assert_eq!((p.index, v.goals.blue), (0, 0));
    assert_eq!(p.advance(true), Pause::Frame);
    assert_eq!(p.advance(false), Pause::Held);
    p.maybe_restart(&mut v);
    assert_eq!(p.index, 1);
    v.client.control.frame_seek_requested = 99;
    p.follow(&mut v);
    assert_eq!(p.index, 9);
}

#[test]
fn details_are_lines_of_keys_and_values() {
    let details = "counter 4\nodd\nstage  A B \nblue x\n";
    assert_eq!(parse_detail_value(details, "counter").as_deref(), Some("4"));
    assert_eq!(parse_detail_value(details, "stage").as_deref(), Some("A B"));
    assert_eq!(parse_detail_value(details, "odd"), None);
    assert_eq!(parse_detail_value(details, "yellow"), None);
}

#[test]
fn the_game_state_is_the_last_one_told() {
    let events = vec![
        referee(0, "HALT", Some("counter 1\nstage S\nblue b\nyellow y")),
        referee(5, "STOP", None),
        referee(9, "FORCE_START", Some("counter x\nblue \nyellow y")),
    ];
    let at = |i: usize| replay_game_state_for_frame(&events, i);
    let first = at(4).unwrap();
    assert_eq!((first.command.as_str(), first.command_counter), ("HALT", 1));
    assert_eq!(first.stage.as_deref(), Some("S"));
    assert_eq!(first.yellow_name.as_deref(), Some("y"));
    let second = at(5).unwrap();
    assert_eq!((second.command.as_str(), second.command_counter), ("STOP", 5));
    assert!(second.stage.is_none() && second.blue_name.is_none());
    let third = at(100).unwrap();
    assert_eq!(third.command_counter, 9);
    assert!(third.blue_name.is_none());
    assert!(replay_game_state_for_frame(&events[1..], 4).is_none());
}

#[test]
fn a_referee_packet_is_told_by_its_event() {
    let mut import = SslImport::new(config(), VisionLogSource::Tracker2020);
    import.add_referee(&packet(7));
    import.add_referee(&packet(7));
    import.add_referee(&packet(8));
    assert_eq!(import.events.len(), 2);
    assert_eq!(
        import.events[0].details.as_deref(),
        Some("counter 7\nstage STAGE_-2\nblue TIGERs\nyellow ")
    );
    let told = replay_game_state_for_frame(&import.events, 0).unwrap();
    assert_eq!((told.command.as_str(), told.command_counter), ("FORCE_START", 8));
    assert_eq!(told.stage.as_deref(), Some("STAGE_-2"));
    assert_eq!(told.blue_name.as_deref(), Some("TIGERs"));
    assert_eq!(told.yellow_name, None);
    let mut unknown = packet(9);
    unknown.command = 42;
    unknown.command_name = None;
    import.add_referee(&unknown);
    assert_eq!(import.events[2].label, "COMMAND_42");
}

#[test]
fn serve_reads_its_options() {
    let o = ServeOptions::parse(&strings(&["a.shreplay"])).ok().unwrap();
    assert_eq!((o.path.as_str(), o.viewer_port), ("a.shreplay", 8315));
    assert_eq!(o.vision_source, VisionLogSource::Tracker2020);
    let o = ServeOptions::parse(&strings(&["--raw-vision", "--viewer-port", "90", "x.log"]))
        .ok()
        .unwrap();
    assert_eq!(o.vision_source, VisionLogSource::Vision2014);
    assert_eq!(o.viewer_port, 90);
    let error = |args: &[&str]| ServeOptions::parse(&strings(args)).err().unwrap();
    assert!(matches!(error(&["--viewer-port"]), ServeError::MissingPort));
    assert!(matches!(error(&["--viewer-port", "99999"]), ServeError::BadPort(p) if p == "99999"));
    assert_eq!(
        error(&["--what"]).message().as_deref(),
        Some("unknown serve option --what")
    );
    assert_eq!(
        error(&["a", "b"]).message().as_deref(),
        Some("unexpected extra replay/log path b")
    );
    assert_eq!(error(&[]).message().as_deref(), Some("missing replay/log path"));
    assert_eq!(
        error(&["--viewer-port"]).message().as_deref(),
        Some("missing value for --viewer-port")
    );
    assert!(error(&["--viewer-port", "x"]).message().is_none());
}

#[test]
fn replays_are_told_by_their_extension() {
    assert!(is_replay_path("a/b.shreplay"));
    assert!(is_replay_path("/a/b.shreplay"));
    assert!(is_replay_path("./b.shreplay") && is_replay_path("../b.shreplay"));
    assert!(!is_replay_path("/a.shreplay/b"));
    assert!(is_replay_path("a//b.shreplay") && is_replay_path("a/./b.shreplay/"));
    assert!(!is_replay_path("a.shreplay/..") && !is_replay_path("/"));
    assert!(!is_replay_path("a/b.log.gz"));
    assert!(!is_replay_path("shreplay"));
}

#[test]
fn a_demo_has_defaults() {
    let o = DemoOptions::parse(&[]);
    assert_eq!((o.path.as_str(), o.worlds, o.steps), ("recordings/demo.shreplay", 1, 1200));
    let o = DemoOptions::parse(&strings(&["x", "3", "many"]));
    assert_eq!((o.path.as_str(), o.worlds, o.steps), ("x", 3, 1200));
}

#[test]
fn packets_are_read_by_source() {
    let tracker = SslImport::new(config(), VisionLogSource::Tracker2020);
    assert!(tracker.reads(PacketKind::Tracker2020) && tracker.reads(PacketKind::Referee2013));
    assert!(!tracker.reads(PacketKind::Vision2014) && !tracker.reads(PacketKind::Other));
    let raw = SslImport::new(config(), VisionLogSource::Vision2014);
    assert!(raw.reads(PacketKind::Vision2014) && raw.reads(PacketKind::Vision2010));
    assert!(!raw.reads(PacketKind::Tracker2020));
}

#[test]
fn tracked_frames_become_states_in_order() {
    let mut import = SslImport::new(config(), VisionLogSource::Tracker2020);
    assert_eq!(f(import.base_time(d(100.0))), 100.0);
    assert_eq!(f(import.base_time(d(101.0))), 100.0);
    let frame = TrackedFrame {
        timestamp: d(101.0),
        frame_number: 3,
        ball: None,
        robots: vec![
            entry(5, Some(TeamColor::Blue), None),
            entry(2, Some(TeamColor::Blue), Some(0.0)),
            entry(1, None, None),
            entry(4, Some(TeamColor::Yellow), Some(0.5)),
        ],
    };
    import.add_tracked(&frame, d(1.0));
    let state = &import.frames[0].states[0];
    assert_eq!((import.frames[0].frame, f(import.frames[0].sim_time)), (3, 1.0));
    assert_eq!(state.blue_robots.iter().map(|r| r.id).collect::<Vec<_>>(), vec![2, 5]);
    assert!(!state.blue_robots[0].is_on && state.blue_robots[1].is_on);
    assert!(state.yellow_robots[0].is_on);
    assert_eq!(f(state.yellow_robots[0].v_angular), 0.25);
    assert_eq!(f(state.ball.x), 0.0);
    assert_eq!(import.frames[0].commands.len(), 1);
    import.add_referee(&packet(1));
    assert_eq!((import.events[0].frame, f(import.events[0].sim_time)), (1, 1.0));
    assert!(import.tick_span().is_none());
    import.add_tracked(&frame, d(3.0));
    assert_eq!(import.tick_span(), Some((1, d(1.0), d(3.0))));
    let log = import.finish(None, "x.log".into());
    assert_eq!(log.metadata.tick_hz.bits, 60.0f64.to_bits());
    assert_eq!(DEFAULT_TICK_HZ_BITS, 60.0f64.to_bits());
    assert_eq!((log.metadata.world_count, log.frames.len()), (1, 2));
}

#[test]
fn raw_detections_are_tracked() {
    assert_eq!(TRACK_SECONDS_BITS, 0.45f64.to_bits());
    let mut t = VisionTracker::new();
    assert_eq!(f(t.update_ball(None, d(0.0)).x), 0.0);
    let ball = tracked_ball(d(1.0), d(2.0), d(0.0), None);
    assert_eq!(f(t.update_ball(Some(ball), d(0.1)).y), 2.0);
    assert_eq!(f(t.update_ball(None, d(0.2)).x), 1.0);
    let seen = detection_robot(Some(3), TeamColor::Blue, d(1.0), d(1.0), None);
    assert!(t.seen_before(TeamColor::Blue, 3).is_none());
    t.see_robot(seen, d(0.1));
    t.see_robot(detection_robot(None, TeamColor::Yellow, d(0.0), d(0.0), Some(d(1.0))), d(0.1));
    assert_eq!(f(t.seen_before(TeamColor::Blue, 3).unwrap().sim_time), 0.1);
    assert_eq!(t.seen_of(TeamColor::Blue).len(), 1);
    assert_eq!(f(t.seen_of(TeamColor::Yellow)[0].state.orientation), 1.0);
    let mut off = seen;
    off.is_on = false;
    off.id = 1;
    let aged = vec![
        AgedRobot { state: seen, age: d(0.45) },
        AgedRobot { state: off, age: d(0.0) },
        AgedRobot { state: seen, age: d(0.46) },
    ];
    let shown = shown_robots(&aged);
    assert_eq!(shown.iter().map(|r| r.id).collect::<Vec<_>>(), vec![1, 3]);
    assert!(shown.iter().all(|r| r.is_on));
    let state = detection_to_state(ball, &aged, &Vec::new(), 9, d(0.5));
    assert_eq!((state.frame, state.blue_robots.len(), state.yellow_robots.len()), (9, 2, 0));
}

#[test]
fn geometry_packets_change_what_they_tell() {
    let mut c = config();
    apply_geometry(
        &mut c,
        &GeometryPacket {
            field_length: d(12.0),
            field_width: d(9.0),
            goal_width: d(1.8),
            goal_depth: d(0.18),
            boundary_width: d(0.3),
            boundary_width_goal_line: None,
            penalty_area_width: Some(d(4.0)),
            penalty_area_depth: None,
            center_circle_radius: None,
            line_thickness: None,
            goal_height: None,
            ball_radius: Some(d(0.02)),
            max_robot_radius: Some(d(0.08)),
        },
    );
    assert_eq!((f(c.field.field_length), f(c.field.margin_goal_line)), (12.0, 0.3));
    assert_eq!((f(c.field.penalty_width), f(c.field.penalty_depth)), (4.0, 1.8));
    assert_eq!((f(c.ball_radius), f(c.field.goal_height)), (0.02, 0.16));
    assert_eq!((f(c.blue_robots.radius), f(c.yellow_robots.radius)), (0.08, 0.08));
    assert_eq!(c.robots_per_team, 11);
}
