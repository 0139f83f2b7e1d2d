use simhark::codec::{ReplayError, MAGIC, ZSTD_LEVEL};
use simhark::number::Double;
use simhark::replay::{
    replay_robot_inputs, robot_inputs_for_frame, CommandTexts, ReplayDebugKickLine,
    ReplayDebugOverlay, ReplayDebugSnapshot, ReplayEventKind, ReplayFrame, ReplayLog,
    ReplayMetadata, ReplayRecorder, ReplayRobotDebugInfo,
};
use simhark::state::{
    BallState, FieldConfig, RobotCommand, RobotConfig, TeamColor, WorldCommand, WorldConfig,
    WorldState,
};

fn d(x: f64) -> Double {
    Double::from_bits(x.to_bits())
}

fn config() -> WorldConfig {
    let z = d(0.0);
    let robots = RobotConfig {
        radius: z,
        vel_absolute_max: z,
        vel_angular_max: z,
        max_linear_kick_speed: z,
        max_chip_kick_speed: z,
    };
    WorldConfig {
        seed: 3,
        robots_per_team: 6,
        field: FieldConfig {
            field_length: z,
            field_width: z,
            goal_width: z,
            goal_depth: z,
            goal_height: z,
            margin_touch_line: z,
            margin_goal_line: z,
            penalty_depth: z,
            penalty_width: z,
            field_center_radius: z,
            field_line_width: z,
        },
        ball_radius: z,
        ball_friction: z,
        gravity: z,
        blue_robots: robots,
        yellow_robots: robots,
    }
}

fn state(world_id: usize, frame: u64, goal_blue: bool, goal_yellow: bool) -> WorldState {
    let z = d(0.0);
    WorldState {
        world_id,
        sim_time: d(frame as f64 / 60.0),
        frame,
        ball: BallState { x: z, y: z, z, vx: z, vy: z, vz: z },
        blue_robots: Vec::new(),
        yellow_robots: Vec::new(),
        goal_blue,
        goal_yellow,
    }
}

fn recorder(worlds: usize) -> ReplayRecorder {
    ReplayRecorder::new(worlds, config(), d(60.0), "test".to_string())
}

fn command(id: usize) -> RobotCommand {
    RobotCommand {
        id,
        move_command: None,
        kick_speed: d(0.0),
        kick_angle: d(0.0),
        dribbler_on: false,
    }
}

fn frame_with(commands: Vec<WorldCommand>, debug: Vec<ReplayDebugSnapshot>) -> ReplayFrame {
    ReplayFrame {
        frame: 0,
        sim_time: d(0.0),
        states: Vec::new(),
        commands,
        debug,
        events: Vec::new(),
    }
}

#[test]
fn a_goal_becomes_an_event_when_its_flag_goes_up() {
    let mut r = recorder(1);
    r.push_frame(vec![state(0, 1, false, false)], Vec::new());
    r.push_frame(vec![state(0, 2, true, false)], Vec::new());
    r.push_frame(vec![state(0, 3, true, false)], Vec::new());
    r.push_frame(vec![state(0, 4, false, false)], Vec::new());
    r.push_frame(vec![state(0, 5, true, true)], Vec::new());
    let log = r.finish();
    assert_eq!(log.frames.len(), 5);
    let told = log.events.iter().map(|e| (e.frame, e.kind, e.label.as_str())).collect::<Vec<_>>();
    assert_eq!(
        told,
        vec![
            (2, ReplayEventKind::GoalBlue, "Blue goal"),
            (5, ReplayEventKind::GoalBlue, "Blue goal"),
            (5, ReplayEventKind::GoalYellow, "Yellow goal"),
        ]
    );
    assert_eq!(log.events[0].world_id, Some(0));
    assert!(log.frames[2].events.is_empty());
    assert_eq!(log.frames[4].events.len(), 2);
}

#[test]
fn worlds_keep_their_own_goal_flags() {
    let mut r = recorder(2);
    r.push_frame(vec![state(0, 1, true, false), state(1, 1, false, true)], Vec::new());
    r.push_frame(vec![state(1, 2, true, true), state(0, 2, true, false)], Vec::new());
    // A world that the log is not of tells of nothing.
    r.push_frame(vec![state(7, 3, true, true)], Vec::new());
    let log = r.finish();
    let told = log.events.iter().map(|e| (e.world_id, e.kind)).collect::<Vec<_>>();
    assert_eq!(
        told,
        vec![
            (Some(0), ReplayEventKind::GoalBlue),
            (Some(1), ReplayEventKind::GoalYellow),
            (Some(1), ReplayEventKind::GoalBlue),
        ]
    );
}

#[test]
fn worlds_beyond_the_count_add_no_event() {
    let mut r = recorder(1);
    r.push_frame(vec![state(1, 1, true, true), state(0, 1, true, false)], Vec::new());
    let log = r.finish();
    assert_eq!(log.frames[0].events.len(), 1);
    assert_eq!(log.events.len(), 1);
    assert_eq!(log.events[0].world_id, Some(0));
}

#[test]
fn a_frame_is_told_by_its_first_state() {
    let mut r = recorder(1);
    r.push_frame(Vec::new(), Vec::new());
    r.push_frame(vec![state(0, 30, false, false)], Vec::new());
    let log = r.finish();
    assert_eq!((log.frames[0].frame, log.frames[0].sim_time), (0, d(0.0)));
    assert_eq!((log.frames[1].frame, log.frames[1].sim_time), (30, d(0.5)));
    assert_eq!(log.metadata.source, "test");
    assert_eq!(log.metadata.world_config.seed, 3);
}

#[test]
fn events_are_pushed_as_they_are() {
    let mut r = recorder(1);
    r.push_custom_event(1, d(0.1), Some(0), "custom".to_string(), None);
    r.push_referee_event(2, d(0.2), "STOP".to_string(), Some("why".to_string()));
    r.push_foul_event(3, d(0.3), None, "foul".to_string(), None);
    let log = r.finish();
    let kinds = log.events.iter().map(|e| e.kind).collect::<Vec<_>>();
    assert_eq!(
        kinds,
        vec![ReplayEventKind::Custom, ReplayEventKind::Referee, ReplayEventKind::Foul]
    );
    assert_eq!(log.events[1].world_id, None);
    assert_eq!(log.events[1].details.as_deref(), Some("why"));
}

#[test]
fn inputs_come_from_the_commands_where_there_is_no_debug_data() {
    let commands = vec![
        WorldCommand { blue: vec![command(3)], yellow: vec![command(4)] },
        WorldCommand { blue: Vec::new(), yellow: vec![command(5)] },
    ];
    let texts = vec![
        CommandTexts { blue: vec!["b3".into()], yellow: vec!["y4".into()] },
        CommandTexts { blue: Vec::new(), yellow: vec!["y5".into()] },
    ];
    let frame = frame_with(commands, Vec::new());
    let inputs = replay_robot_inputs(&frame, &texts);
    let told = inputs
        .iter()
        .map(|i| (i.world_id, i.team, i.id, i.input.as_str()))
        .collect::<Vec<_>>();
    assert_eq!(
        told,
        vec![
            (0, TeamColor::Blue, 3, "b3"),
            (0, TeamColor::Yellow, 4, "y4"),
            (1, TeamColor::Yellow, 5, "y5"),
        ]
    );
    assert_eq!(robot_inputs_for_frame(&frame, &texts).len(), 3);
}

#[test]
fn debug_data_tells_inputs_by_message_or_task() {
    let robot = |id: usize, message: Option<&str>| ReplayRobotDebugInfo {
        team: TeamColor::Blue,
        id,
        task: "task".into(),
        color: "#fff".into(),
        message: message.map(str::to_string),
    };
    let debug = vec![ReplayDebugSnapshot {
        world_id: 2,
        strategy: None,
        robots: vec![robot(0, Some("go")), robot(1, Some("")), robot(2, None)],
        overlays: Vec::new(),
    }];
    let commands = vec![WorldCommand { blue: vec![command(9)], yellow: Vec::new() }];
    let texts = vec![CommandTexts { blue: vec!["b9".into()], yellow: Vec::new() }];
    let inputs = replay_robot_inputs(&frame_with(commands, debug), &texts);
    let told = inputs.iter().map(|i| i.input.as_str()).collect::<Vec<_>>();
    assert_eq!(told, vec!["go", "task", "task"]);
    assert!(inputs.iter().all(|i| i.world_id == 2));
}

/// An overlay's team, id, numbers, color and label.
type LineParts = (bool, usize, [f64; 3], String, Option<String>);

/// A frame's number and time, and the worlds, strategies and kick lines of its debug data.
type FrameParts = (u64, f64, Vec<(usize, Option<String>, Vec<LineParts>)>);

fn parts_of(log: &ReplayLog) -> Vec<FrameParts> {
    let f = |x: Double| f64::from_bits(x.bits);
    let line = |overlay: &ReplayDebugOverlay| match overlay {
        ReplayDebugOverlay::KickLine(k) => (
            k.team == TeamColor::Blue,
            k.id,
            [f(k.from_x), f(k.from_y), f(k.angle)],
            k.color.clone(),
            k.label.clone(),
        ),
        ReplayDebugOverlay::HoloRobot(_) => panic!("expected kick line overlay"),
    };
    let snapshot = |s: &ReplayDebugSnapshot| {
        (s.world_id, s.strategy.clone(), s.overlays.iter().map(line).collect())
    };
    log.frames
        .iter()
        .map(|frame| (frame.frame, f(frame.sim_time), frame.debug.iter().map(snapshot).collect()))
        .collect()
}

fn log_of(frames: Vec<FrameParts>) -> ReplayLog {
    let line = |(blue, id, numbers, color, label): LineParts| {
        ReplayDebugOverlay::KickLine(ReplayDebugKickLine {
            team: if blue { TeamColor::Blue } else { TeamColor::Yellow },
            id,
            from_x: d(numbers[0]),
            from_y: d(numbers[1]),
            angle: d(numbers[2]),
            color,
            label,
        })
    };
    let frames = frames.into_iter().map(|(frame, sim_time, debug)| ReplayFrame {
        frame,
        sim_time: d(sim_time),
        debug: debug
            .into_iter()
            .map(|(world_id, strategy, lines)| ReplayDebugSnapshot {
                world_id,
                strategy,
                robots: Vec::new(),
                overlays: lines.into_iter().map(line).collect(),
            })
            .collect(),
        ..frame_with(Vec::new(), Vec::new())
    });
    ReplayLog {
        metadata: ReplayMetadata {
            world_count: 1,
            world_config: config(),
            tick_hz: d(60.0),
            source: "test".to_string(),
        },
        frames: frames.collect(),
        events: Vec::new(),
    }
}

#[test]
fn zstd_bincode_round_trip_supports_debug_overlays() {
    let replay = log_of(vec![(
        7,
        7.0 / 60.0,
        vec![(
            0,
            Some("test strategy".to_string()),
            vec![(true, 2, [1.0, -0.5, 0.25], "#00aaff".to_string(), Some("shot".to_string()))],
        )],
    )]);

    let file = ReplayLog::write_zstd(&bincode::serialize(&parts_of(&replay)).unwrap()).unwrap();
    let payload = ReplayLog::read_zstd(&file).unwrap();
    assert!(payload.fault.is_none());
    let decoded = log_of(bincode::deserialize(&payload.data).unwrap());

    assert_eq!(decoded.frames.len(), 1);
    assert_eq!(decoded.frames[0].debug.len(), 1);
    match &decoded.frames[0].debug[0].overlays[0] {
        ReplayDebugOverlay::KickLine(line) => {
            assert_eq!(line.team, TeamColor::Blue);
            assert_eq!(line.id, 2);
            assert_eq!(line.label.as_deref(), Some("shot"));
        }
        ReplayDebugOverlay::HoloRobot(_) => panic!("expected kick line overlay"),
    }
    assert_eq!(parts_of(&decoded), parts_of(&replay));
}

#[test]
fn a_file_gives_back_what_was_written() {
    let payload = bincode::serialize(&("test strategy", vec![1u64, 2, 3], true)).unwrap();
    let file = ReplayLog::write_zstd(&payload).unwrap();
    assert_eq!(&file[..8], b"SHREPL01");
    assert_ne!(&file[8..], payload.as_slice());
    let read = ReplayLog::read_zstd(&file).unwrap();
    assert!(read.fault.is_none());
    assert_eq!(read.data, payload);
    let back: (String, Vec<u64>, bool) = bincode::deserialize(&read.data).unwrap();
    assert_eq!(back, ("test strategy".to_string(), vec![1, 2, 3], true));
}

#[test]
fn a_log_is_read_though_other_bytes_follow_it() {
    // Larger than what is decompressed at once, and not to be compressed away.
    let mut x = 1u32;
    let payload = (0..700_000)
        .map(|_| {
            x = x.wrapping_mul(1_664_525).wrapping_add(1_013_904_223);
            (x >> 24) as u8
        })
        .collect::<Vec<_>>();
    for payload in [payload, b"short".to_vec()] {
        let mut file = ReplayLog::write_zstd(&payload).unwrap();
        file.extend_from_slice(b"something else");
        let read = ReplayLog::read_zstd(&file).unwrap();
        assert!(read.fault.is_some());
        assert!(read.data.starts_with(&payload));
    }
}

#[test]
fn what_is_written_is_compressed() {
    let payload = vec![7u8; 100_000];
    let file = ReplayLog::write_zstd(&payload).unwrap();
    assert!(file.len() < 1_000);
    assert_eq!(ReplayLog::read_zstd(&file).unwrap().data, payload);
    assert_eq!(ZSTD_LEVEL, 3);
    assert_eq!(&MAGIC, b"SHREPL01");
}

#[test]
fn other_files_are_refused() {
    match ReplayLog::read_zstd(b"SHREPL0") {
        Err(ReplayError::Io(e)) => assert_eq!(e, "failed to fill whole buffer"),
        _ => panic!("expected too short a file"),
    }
    match ReplayLog::read_zstd(b"SHREPL02 and more") {
        Err(error) => {
            assert!(matches!(error, ReplayError::BadMagic(found) if &found == b"SHREPL02"));
            assert_eq!(
                error.message(),
                "not a simhark replay log: [83, 72, 82, 69, 80, 76, 48, 50]"
            );
        }
        _ => panic!("expected a bad start"),
    }
}

#[test]
fn a_damaged_file_tells_its_fault() {
    let mut file = ReplayLog::write_zstd(b"some payload").unwrap();
    file.truncate(file.len() - 3);
    let read = ReplayLog::read_zstd(&file).unwrap();
    assert!(read.fault.is_some());
    let garbage = ReplayLog::read_zstd(b"SHREPL01garbage").unwrap();
    assert!(garbage.fault.is_some());
}

#[test]
fn errors_say_what_went_wrong() {
    assert_eq!(ReplayError::Io("gone".into()).message(), "I/O error: gone");
    assert_eq!(ReplayError::Encode("odd".into()).message(), "replay codec error: odd");
}
