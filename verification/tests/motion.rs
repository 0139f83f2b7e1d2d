use simhark::controller::GameCommand;
use simhark::motion::{
    blank_feedback, command_to_sim, commands_to_sim, game_stage, heading_goal, initial_commands,
    mark_motion_requests_raw, motion_status, normalized_progress, request_max_angular_deg_s,
    request_max_speed_mm_s, robots_to_dehumanized, same_motion_goal, speed_limit_mm_s,
    stopped_commands, update_motion_feedback, world_state_to_dehumanized, AiCommand, Aim,
    DriveStatus, GameStage, HeadingGoal, HeadingMode, HeadingStatus, Kicker, Limits, MotionCommand,
    MotionFeedback, Offset, Progress, Side, SlotAim, Target, Tolerance, Way, CHIP_ANGLE_BITS,
    DEFAULT_ANGULAR_BITS, DEFAULT_SPEED_BITS, DEFAULT_SPEED_MM_S_BITS, HALF_TURN_BITS,
    SINGLE_EPSILON_BITS, SINGLE_ONE_BITS, SLOTS,
};
use simhark::number::{Double, Single};
use simhark::state::{BallState, MoveCommand, RobotCommand, RobotState, TeamColor, WorldState};

fn d(x: f64) -> Double {
    Double::from_bits(x.to_bits())
}

fn f(x: Double) -> f64 {
    f64::from_bits(x.bits)
}

fn s(x: f32) -> Single {
    Single { bits: x.to_bits() }
}

fn g(x: Single) -> f32 {
    f32::from_bits(x.bits)
}

fn robot(id: usize, team: TeamColor, x: f64, y: f64, orientation: f64) -> RobotState {
    let yellow = team == TeamColor::Yellow;
    RobotState {
        id,
        team,
        x: d(x),
        y: d(y),
        z: d(0.1),
        orientation: d(orientation),
        vx: d(if yellow { 0.1 } else { 0.0 }),
        vy: d(if yellow { -0.2 } else { 0.0 }),
        vz: d(0.0),
        v_angular: d(0.0),
        infrared: false,
        dribbler_on: false,
        kick_status: 0,
        is_on: true,
        wheel_speeds: [d(0.0); 4],
    }
}

fn test_world() -> WorldState {
    WorldState {
        world_id: 0,
        sim_time: d(1.25),
        frame: 75,
        ball: BallState {
            x: d(0.25),
            y: d(-0.1),
            z: d(0.0),
            vx: d(0.3),
            vy: d(0.0),
            vz: d(0.0),
        },
        blue_robots: vec![robot(0, TeamColor::Blue, 1.0, -0.25, 0.0)],
        yellow_robots: vec![robot(1, TeamColor::Yellow, -2.0, 0.5, std::f64::consts::FRAC_PI_2)],
        goal_blue: false,
        goal_yellow: false,
    }
}

fn motion(id: u64, target: Target) -> MotionCommand {
    MotionCommand {
        id,
        target,
        heading: HeadingMode::Free,
        tolerance: Tolerance { pos_mm: s(0.0), heading_deg: s(0.0), vel: s(0.0) },
        limits: None,
        raw_movement: false,
        priority: 0,
    }
}

fn place() -> Target {
    Target::Pos { x: s(2_000.0), y: s(-250.0) }
}

fn command(motion: Option<MotionCommand>) -> AiCommand {
    AiCommand { dribbler: false, motion, kicker: Kicker::Idle }
}

fn commands(first: Option<AiCommand>) -> Vec<Option<AiCommand>> {
    let mut list = vec![None; SLOTS];
    list[0] = first;
    list
}

fn offsets(dist: f32, diff: Option<f32>) -> Vec<Offset> {
    vec![Offset { drive_dist_mm: s(dist), heading_diff_deg: diff.map(s) }; SLOTS]
}

fn way(initial: f32, remaining: f32, tolerance: f32) -> Way {
    let range = initial - tolerance;
    Way { range: s(range), share: s((initial - remaining) / range), eta: s(remaining / 4_000.0) }
}

fn progress(feedback: &MotionFeedback, dist: f32, diff: Option<f32>) -> Progress {
    let tolerance = feedback.request.map(|r| r.tolerance);
    let pos = tolerance.map_or(0.0, |t| g(t.pos_mm).max(0.0));
    let heading = tolerance.map_or(0.0, |t| g(t.heading_deg).max(0.0));
    Progress {
        dist: s(dist),
        speed_mm_s: s(0.0),
        drive: way(g(feedback.initial_drive_dist_mm), dist, pos),
        diff: diff.map(s),
        turn: way(g(feedback.initial_heading_diff_deg), diff.unwrap_or(0.0).abs(), heading),
    }
}

fn aim(vx: f64, vy: f64) -> Aim {
    Aim {
        vx: d(vx),
        vy: d(vy),
        heading_error_deg: None,
        turn: d(0.0),
        max_turn: d(20.0),
        kick_speed: d(0.0),
    }
}

fn no_tolerance() -> Tolerance {
    Tolerance { pos_mm: s(0.0), heading_deg: s(0.0), vel: s(0.0) }
}

fn velocity(command: &RobotCommand) -> (f64, f64, f64) {
    match command.move_command {
        Some(MoveCommand::GlobalVelocity { vx, vy, angular }) => (f(vx), f(vy), f(angular)),
        _ => panic!("expected a global velocity"),
    }
}

#[test]
fn direct_execution_marks_motion_requests_raw_without_creating_one() {
    let mut list = commands(Some(command(Some(motion(1, Target::Hold)))));
    list[1] = Some(AiCommand { dribbler: true, ..command(None) });

    mark_motion_requests_raw(&mut list);

    assert!(list[0].and_then(|command| command.motion).is_some_and(|motion| motion.raw_movement));
    assert!(list[1].is_some_and(|command| command.motion.is_none()));
    assert!(list[2].is_none());
}

#[test]
fn motion_status_tracks_the_previous_position_and_heading_request() {
    let state = test_world();
    let request = MotionCommand {
        heading: HeadingMode::Fixed(s(90.0)),
        tolerance: Tolerance { pos_mm: s(10.0), heading_deg: s(2.0), vel: s(0.0) },
        ..motion(7, place())
    };
    let list = commands(Some(command(Some(request))));
    let mut feedback = blank_feedback();
    update_motion_feedback(
        &mut feedback,
        &list,
        &state,
        TeamColor::Blue,
        &offsets(1_000.0, Some(90.0)),
    );

    let initial = motion_status(&feedback[0], &progress(&feedback[0], 1_000.0, Some(90.0)));
    assert!(matches!(
        initial.drive,
        DriveStatus::Running { progress, dist, .. }
            if g(progress).abs() < f32::EPSILON && (g(dist) - 1_000.0).abs() < 1.0e-3
    ));
    assert!(matches!(
        initial.heading,
        HeadingStatus::Running { progress, diff, .. }
            if g(progress).abs() < f32::EPSILON && (g(diff) - 90.0).abs() < 1.0e-3
    ));
    assert_eq!(initial.id, request.id);

    let halfway = motion_status(&feedback[0], &progress(&feedback[0], 500.0, Some(45.0)));
    assert!(matches!(
        halfway.drive,
        DriveStatus::Running { progress, dist, .. }
            if (g(progress) - 500.0 / 990.0).abs() < 1.0e-3 && (g(dist) - 500.0).abs() < 1.0e-3
    ));
    assert!(matches!(
        halfway.heading,
        HeadingStatus::Running { progress, diff, .. }
            if (g(progress) - 45.0 / 88.0).abs() < 1.0e-3 && (g(diff) - 45.0).abs() < 1.0e-3
    ));
    assert_eq!(halfway.id, request.id);

    let reached = motion_status(&feedback[0], &progress(&feedback[0], 0.0, Some(0.0)));
    assert!(matches!(reached.drive, DriveStatus::Reached));
    assert!(matches!(reached.heading, HeadingStatus::Reached));
    assert_eq!(reached.id, request.id);
}

#[test]
fn a_new_request_id_resets_progress_for_an_identical_goal() {
    let state = test_world();
    let first = motion(1, place());
    let mut list = commands(Some(command(Some(first))));
    let mut feedback = blank_feedback();
    let color = TeamColor::Blue;
    update_motion_feedback(&mut feedback, &list, &state, color, &offsets(1_000.0, None));

    let second = motion(2, first.target);
    assert_ne!(first.id, second.id);
    list[0].as_mut().unwrap().motion = Some(second);
    update_motion_feedback(&mut feedback, &list, &state, color, &offsets(500.0, None));

    let status = motion_status(&feedback[0], &progress(&feedback[0], 500.0, None));
    assert!(matches!(
        status.drive,
        DriveStatus::Running { progress, dist, .. }
            if g(progress).abs() < f32::EPSILON && (g(dist) - 500.0).abs() < 1.0e-3
    ));
    assert_eq!(status.id, second.id);
}

#[test]
fn a_repeated_request_keeps_what_its_progress_is_measured_from() {
    let state = test_world();
    let list = commands(Some(command(Some(motion(1, place())))));
    let mut feedback = blank_feedback();
    let color = TeamColor::Blue;
    update_motion_feedback(&mut feedback, &list, &state, color, &offsets(1_000.0, None));
    update_motion_feedback(&mut feedback, &list, &state, color, &offsets(500.0, None));
    assert_eq!(g(feedback[0].initial_drive_dist_mm), 1_000.0);
    update_motion_feedback(&mut feedback, &commands(None), &state, color, &offsets(500.0, None));
    assert_eq!(feedback[0].request, None);
    assert_eq!(g(feedback[0].initial_drive_dist_mm), 0.0);
}

#[test]
fn face_ball_reports_tracking_error_and_drives_rotation() {
    let state = test_world();
    let request = MotionCommand { heading: HeadingMode::FaceBall, ..motion(3, Target::Hold) };
    let list = commands(Some(command(Some(request))));
    assert_eq!(
        heading_goal(HeadingMode::FaceBall, &state, TeamColor::Blue),
        HeadingGoal::Place { x: d(0.25), y: d(-0.1) }
    );
    // The ball lies at (250, -100), the robot at (1000, -250) looking along x.
    let diff = 150.0f32.atan2(-750.0).to_degrees();
    let mut feedback = blank_feedback();
    update_motion_feedback(
        &mut feedback,
        &list,
        &state,
        TeamColor::Blue,
        &offsets(0.0, Some(diff)),
    );
    let status = motion_status(&feedback[0], &progress(&feedback[0], 0.0, Some(diff)));
    assert!(matches!(status.heading, HeadingStatus::TrackingBehind(diff) if g(diff).abs() > 2.0));
    assert_eq!(status.id, list[0].unwrap().motion.unwrap().id);

    let turning = Aim {
        heading_error_deg: Some(s(diff)),
        turn: d((diff as f64).to_radians() * 6.0),
        ..aim(0.0, 0.0)
    };
    let aims = vec![SlotAim { tolerance: no_tolerance(), aim: turning }];
    let output = commands_to_sim(&list, &state, TeamColor::Blue, 1, &aims);
    let (vx, vy, angular) = velocity(&output[0]);
    assert_eq!((vx, vy), (0.0, 0.0));
    assert!(angular.abs() > 0.0);
}

#[test]
fn absent_ai_command_explicitly_stops_latched_motion() {
    let aims = vec![SlotAim { tolerance: no_tolerance(), aim: aim(1.0, 1.0) }];
    let output = commands_to_sim(&commands(None), &test_world(), TeamColor::Blue, 1, &aims);
    assert_eq!(velocity(&output[0]), (0.0, 0.0, 0.0));
}

/// The velocity towards a target at no more than a speed, in metres a second.
fn driven(robot: &RobotState, target: Target, limit_mm_s: Double) -> Aim {
    let limit = f(limit_mm_s) / 1_000.0;
    match target {
        Target::Pos { x, y } => {
            let dx = g(x) as f64 / 1_000.0 - f(robot.x);
            let dy = g(y) as f64 / 1_000.0 - f(robot.y);
            let distance = dx.hypot(dy);
            let speed = (distance * 4.0).min(limit);
            aim(dx / distance * speed, dy / distance * speed)
        }
        Target::Velocity { vx, vy } => {
            let (vx, vy) = (g(vx) as f64 / 1_000.0, g(vy) as f64 / 1_000.0);
            let share = (limit / vx.hypot(vy)).min(1.0);
            aim(vx * share, vy * share)
        }
        _ => aim(0.0, 0.0),
    }
}

#[test]
fn explicit_velocity_is_not_capped_by_the_position_default() {
    let target = Target::Velocity { vx: s(4_500.0), vy: s(0.0) };
    let robot_limit = d(5_000.0);
    assert_eq!(f(speed_limit_mm_s(target, None, None, robot_limit)), 5_000.0);
    assert_eq!(f(speed_limit_mm_s(place(), None, None, robot_limit)), 4_000.0);
    assert_eq!(f(speed_limit_mm_s(target, None, Some(d(1_500.0)), robot_limit)), 1_500.0);
    assert_eq!(f(speed_limit_mm_s(place(), Some(d(500.0)), None, robot_limit)), 500.0);

    let state = test_world();
    let list = commands(Some(command(Some(motion(1, target)))));
    let told = |stop_limit: Option<Double>| {
        let limit = speed_limit_mm_s(target, None, stop_limit, robot_limit);
        let aim = driven(&state.blue_robots[0], target, limit);
        let aims = vec![SlotAim { tolerance: no_tolerance(), aim }];
        velocity(&commands_to_sim(&list, &state, TeamColor::Blue, 1, &aims)[0])
    };
    let (vx, vy, _) = told(None);
    assert!((vx - 4.5).abs() < 1.0e-9 && vy == 0.0);
    let (vx, vy, _) = told(Some(d(1_500.0)));
    assert!((vx - 1.5).abs() < 1.0e-9 && vy == 0.0);
}

#[test]
fn position_command_becomes_direct_global_velocity() {
    let state = test_world();
    let list = commands(Some(AiCommand {
        dribbler: true,
        motion: Some(MotionCommand {
            heading: HeadingMode::Fixed(s(90.0)),
            limits: Some(Limits { v_max: s(500.0), omega_max: s(360.0) }),
            ..motion(1, place())
        }),
        kicker: Kicker::Kick(s(2_000.0)),
    }));
    let limit = speed_limit_mm_s(place(), Some(d(500.0)), None, d(5_000.0));
    let aims = vec![SlotAim {
        tolerance: no_tolerance(),
        aim: Aim { kick_speed: d(1.67), ..driven(&state.blue_robots[0], place(), limit) },
    }];
    let output = commands_to_sim(&list, &state, TeamColor::Blue, 1, &aims);
    let command = &output[0];
    let (vx, vy, _) = velocity(command);
    assert!((vx - 0.5).abs() < 1.0e-9 && vy.abs() < 1.0e-9);
    assert!(f(command.kick_speed) > 0.0);
    assert_eq!(f(command.kick_angle), 0.0);
    assert!(command.dribbler_on);
}

/// A length in metres, in millimetres.
fn mm(x: Double) -> f32 {
    (f(x) * 1_000.0) as f32
}

#[test]
fn world_conversion_uses_mm_degrees_and_team_order() {
    let mut state = test_world();
    state.yellow_robots[0].infrared = true;
    let feedback = blank_feedback();
    let measured = vec![progress(&feedback[1], 0.0, None)];
    let side = world_state_to_dehumanized(
        &state,
        TeamColor::Yellow,
        GameCommand::Running,
        &feedback,
        &measured,
    );
    let own = side.own[1].unwrap();
    let opponent = side.opponents[0].unwrap();
    assert_eq!(own.place, 0);
    assert_eq!((mm(own.robot.x), mm(own.robot.y)), (-2_000.0, 500.0));
    assert_eq!((mm(own.robot.vx), mm(own.robot.vy)), (100.0, -200.0));
    let heading = f(own.robot.orientation).to_degrees().rem_euclid(360.0) as f32;
    assert!((heading - 90.0).abs() < 1.0e-4);
    assert_eq!((mm(opponent.robot.x), mm(opponent.robot.y)), (1_000.0, -250.0));
    assert_eq!((mm(side.ball.x), mm(side.ball.y)), (250.0, -100.0));
    assert_eq!(side.sim_time, state.sim_time);
    let stop = side.ball_stop();
    assert_eq!((stop.x, stop.y, stop.time), (state.ball.x, state.ball.y, state.sim_time));
    assert!(!own.is_goalie);
    assert!(own.has_ball);
    assert!(!opponent.has_ball);
    assert!(!opponent.is_goalie);
    assert!(matches!(own.motion_status.drive, DriveStatus::Reached));
    assert!(matches!(own.motion_status.heading, HeadingStatus::Reached));
    assert_eq!(own.motion_status.id, 0);
    assert_eq!(side.stage, GameStage::Running);
    assert!(side.own[0].is_none());
    assert_eq!(side.own.len(), SLOTS);
}

#[test]
fn robots_without_a_slot_or_off_are_left_out() {
    let feedback = blank_feedback();
    let status = motion_status(&feedback[0], &progress(&feedback[0], 0.0, None));
    let mut off = robot(3, TeamColor::Blue, 0.0, 0.0, 0.0);
    off.is_on = false;
    let robots = vec![
        robot(0, TeamColor::Blue, 0.0, 0.0, 0.0),
        robot(16, TeamColor::Blue, 0.0, 0.0, 0.0),
        off,
    ];
    let slots = robots_to_dehumanized(&robots, true, &vec![status; 3]);
    assert!(slots[0].unwrap().is_goalie);
    assert!(slots[3].is_none());
    assert_eq!(slots.iter().flatten().count(), 1);
}

#[test]
fn stages_do_not_tell_whose_kick_it_is() {
    assert_eq!(game_stage(GameCommand::Halt), GameStage::Halt);
    assert_eq!(game_stage(GameCommand::Stop), GameStage::Stop);
    assert_eq!(game_stage(GameCommand::FreeKickUs), GameStage::FreeKick);
    assert_eq!(game_stage(GameCommand::FreeKickThem), GameStage::FreeKick);
    assert_eq!(game_stage(GameCommand::PrepareKickoffUs), GameStage::PrepareKickoff);
    assert_eq!(game_stage(GameCommand::PrepareKickoffThem), GameStage::PrepareKickoff);
}

#[test]
fn goals_are_the_same_bit_by_bit() {
    let a = motion(1, place());
    assert!(same_motion_goal(None, None));
    assert!(same_motion_goal(Some(a), Some(MotionCommand { priority: 9, ..a })));
    assert!(!same_motion_goal(Some(a), None));
    assert!(!same_motion_goal(Some(a), Some(MotionCommand { id: 2, ..a })));
    let zero = motion(1, Target::Heading { heading: s(0.0) });
    let minus_zero = motion(1, Target::Heading { heading: s(-0.0) });
    assert!(!same_motion_goal(Some(zero), Some(minus_zero)));
    let nan = motion(1, Target::Heading { heading: s(f32::NAN) });
    assert!(same_motion_goal(Some(nan), Some(nan)));
}

#[test]
fn directions_and_velocities_are_never_reached() {
    let feedback = MotionFeedback {
        request: Some(motion(5, Target::Velocity { vx: s(1.0), vy: s(0.0) })),
        initial_drive_dist_mm: s(0.0),
        initial_heading_diff_deg: s(0.0),
    };
    let status = motion_status(&feedback, &progress(&feedback, 0.0, None));
    assert!(matches!(
        status.drive,
        DriveStatus::Running { eta, progress, dist }
            if g(eta).is_infinite() && g(progress) == 0.0 && g(dist).is_infinite()
    ));
}

#[test]
fn a_speed_that_is_asked_for_has_to_be_kept() {
    let mut request = motion(5, place());
    request.tolerance = Tolerance { pos_mm: s(10.0), heading_deg: s(0.0), vel: s(100.0) };
    let feedback = MotionFeedback {
        request: Some(request),
        initial_drive_dist_mm: s(500.0),
        initial_heading_diff_deg: s(0.0),
    };
    let mut p = progress(&feedback, 5.0, None);
    p.speed_mm_s = s(200.0);
    assert!(matches!(motion_status(&feedback, &p).drive, DriveStatus::Running { .. }));
    p.speed_mm_s = s(50.0);
    assert_eq!(motion_status(&feedback, &p).drive, DriveStatus::Reached);
}

#[test]
fn a_robot_that_is_gone_cannot_be_faced() {
    let state = test_world();
    let mode = HeadingMode::FaceRobot { id: 1, side: Side::Opponent };
    assert_eq!(
        heading_goal(mode, &state, TeamColor::Blue),
        HeadingGoal::Place { x: d(-2.0), y: d(0.5) }
    );
    let own = HeadingMode::FaceRobot { id: 1, side: Side::Own };
    assert_eq!(heading_goal(own, &state, TeamColor::Blue), HeadingGoal::Unknown);
    let feedback = MotionFeedback {
        request: Some(MotionCommand { heading: own, ..motion(1, Target::Hold) }),
        initial_drive_dist_mm: s(0.0),
        initial_heading_diff_deg: s(0.0),
    };
    let status = motion_status(&feedback, &progress(&feedback, 0.0, None));
    assert_eq!(status.heading, HeadingStatus::TrackingBehind(s(180.0)));
    assert_eq!(HALF_TURN_BITS, 180.0f32.to_bits());
}

#[test]
fn progress_within_the_tolerance_is_all_or_nothing() {
    assert_eq!(SINGLE_EPSILON_BITS, f32::EPSILON.to_bits());
    assert_eq!(SINGLE_ONE_BITS, 1.0f32.to_bits());
    let w = Way { range: s(0.0), share: s(f32::NAN), eta: s(0.0) };
    assert_eq!(g(normalized_progress(w, s(1.0), s(2.0))), 1.0);
    assert_eq!(g(normalized_progress(w, s(3.0), s(2.0))), 0.0);
    let beyond = Way { range: s(10.0), share: s(1.5), eta: s(0.0) };
    assert_eq!(g(normalized_progress(beyond, s(3.0), s(2.0))), 1.0);
    let behind = Way { range: s(10.0), share: s(-1.5), eta: s(0.0) };
    assert_eq!(g(normalized_progress(behind, s(3.0), s(2.0))), 0.0);
}

#[test]
fn limits_have_defaults() {
    assert_eq!(DEFAULT_SPEED_BITS, 4_000.0f32.to_bits());
    assert_eq!(DEFAULT_SPEED_MM_S_BITS, 4_000.0f64.to_bits());
    assert_eq!(DEFAULT_ANGULAR_BITS, (20.0f64.to_degrees() as f32).to_bits());
    let mut request = motion(1, place());
    assert_eq!(g(request_max_speed_mm_s(&request)), 4_000.0);
    assert_eq!(request_max_angular_deg_s(&request).bits, DEFAULT_ANGULAR_BITS);
    request.limits = Some(Limits { v_max: s(-3.0), omega_max: s(90.0) });
    assert_eq!(g(request_max_speed_mm_s(&request)), 0.0);
    assert_eq!(g(request_max_angular_deg_s(&request)), 90.0);
}

#[test]
fn blank_commands_are_for_the_robots_there_are() {
    let list = initial_commands(2);
    assert_eq!(list.len(), SLOTS);
    assert!(list[0].is_some() && list[1].is_some() && list[2].is_none());
    assert_eq!(initial_commands(200).iter().flatten().count(), SLOTS);
}

#[test]
fn velocities_that_are_no_numbers_become_rest() {
    let c = command(Some(motion(1, place())));
    let told = command_to_sim(4, &c, &no_tolerance(), &aim(f64::NAN, 1.0));
    assert_eq!(velocity(&told), (0.0, 0.0, 0.0));
    assert_eq!(told.id, 4);
}

#[test]
fn turns_are_held_to_the_limit() {
    let c = command(Some(motion(1, Target::Hold)));
    let mut a = aim(0.0, 0.0);
    a.heading_error_deg = Some(s(-90.0));
    a.turn = d(-100.0);
    assert_eq!(velocity(&command_to_sim(0, &c, &no_tolerance(), &a)).2, -20.0);
    let wide = Tolerance { heading_deg: s(120.0), ..no_tolerance() };
    assert_eq!(velocity(&command_to_sim(0, &c, &wide, &a)).2, 0.0);
}

#[test]
fn chips_go_up_at_an_angle() {
    assert_eq!(CHIP_ANGLE_BITS, 45.0f64.to_bits());
    let c = AiCommand { dribbler: false, motion: None, kicker: Kicker::Chip(s(1_000.0)) };
    let a = Aim { kick_speed: d(3.0), ..aim(0.0, 0.0) };
    let told = command_to_sim(0, &c, &no_tolerance(), &a);
    assert_eq!((f(told.kick_speed), f(told.kick_angle)), (3.0, 45.0));
    let idle = command(None);
    let told = command_to_sim(0, &idle, &no_tolerance(), &a);
    assert_eq!((f(told.kick_speed), f(told.kick_angle)), (0.0, 0.0));
}

#[test]
fn a_halted_side_has_a_stop_for_every_robot() {
    let stops = stopped_commands(3);
    assert_eq!(stops.iter().map(|c| c.id).collect::<Vec<_>>(), vec![0, 1, 2]);
    assert!(stops.iter().all(|c| velocity(c) == (0.0, 0.0, 0.0) && !c.dribbler_on));
}
