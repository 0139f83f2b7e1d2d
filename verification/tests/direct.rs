use serde_json::Value;
use simhark::controller::GameCommand;
use simhark::developer::{DeveloperRequest, DeveloperRunState};
use simhark::direct::{
    find_entry, look_up, Answer, DirectControl, DirectDehumanizedController, EntryKind, EntryRun,
    Need, Registry,
};
use simhark::motion::{
    initial_commands, AiCommand, HeadingMode, Kicker, MotionCommand, Target, Tolerance, SLOTS,
};
use simhark::number::Single;

/// Remembers how often it was stepped, and finishes with the third step.
struct Counting {
    steps: usize,
}

type Controller = DirectDehumanizedController<Counting>;

fn registry() -> Registry {
    Registry {
        skills: vec!["Pass To".into(), "Counting".into()],
        plays: vec!["Kickoff".into()],
    }
}

fn load_request(kind: &str, entry: &str) -> DeveloperRequest {
    DeveloperRequest::Load {
        target: "blue".to_string(),
        kind: kind.to_string(),
        entry: entry.to_string(),
        config: Value::Null,
        params: Value::Bool(true),
    }
}

/// Does what a request needs outside, and applies it.
fn apply(
    control: &mut DirectControl<Counting>,
    request: &DeveloperRequest,
    created: Result<EntryRun<Counting>, String>,
) -> Result<String, String> {
    let registry = registry();
    let answer = match control.need(request, &registry) {
        Need::Nothing => Answer::Nothing,
        Need::Validate { .. } => Answer::Validated(Ok(())),
        Need::Create => Answer::Created(created),
    };
    control.apply_developer_request(request, &registry, answer)
}

fn load_pass_to(controller: &mut Controller) -> Result<String, String> {
    apply(&mut controller.control, &load_request("skill", "Pass To"), Err(String::new()))
}

fn start(controller: &mut Controller) -> Result<String, String> {
    let request = DeveloperRequest::Start { target: "blue".to_string() };
    let commands = initial_commands(controller.num_robots);
    apply(&mut controller.control, &request, Ok(EntryRun::new(Counting { steps: 0 }, commands)))
}

/// Steps the live instance, if one drives the side.
fn act(controller: &mut Controller) {
    if controller.control.drives() {
        let run = controller.control.run.as_mut().unwrap();
        run.instance.steps += 1;
        let finished = run.instance.steps >= 3;
        controller.control.drive(Ok(finished)).unwrap();
    }
}

#[test]
fn loading_an_entry_does_not_run_it() {
    let mut controller = Controller::new(1);
    load_pass_to(&mut controller).unwrap();

    assert_eq!(controller.control.state, DeveloperRunState::Loaded);
    assert!(controller.control.run.is_none());

    act(&mut controller);

    // Stepping the match must not instantiate anything on its own.
    assert!(controller.control.run.is_none());
    assert_eq!(controller.control.state, DeveloperRunState::Loaded);
}

#[test]
fn a_registered_play_can_be_loaded_started_and_stepped() {
    let mut controller = Controller::new(1);
    apply(&mut controller.control, &load_request("play", "Kickoff"), Err(String::new())).unwrap();
    assert_eq!(controller.control.loaded.as_ref().unwrap().registry, EntryKind::Play);
    start(&mut controller).unwrap();
    act(&mut controller);
    assert_ne!(controller.control.state, DeveloperRunState::Failed);
}

#[test]
fn starting_requires_a_loaded_entry() {
    let mut controller = Controller::new(1);
    assert!(start(&mut controller).is_err());
    assert_eq!(controller.control.state, DeveloperRunState::Idle);
    assert_eq!(start(&mut controller).unwrap_err(), "load an entry before starting it");
}

#[test]
fn started_entry_drives_directly_and_keeps_one_instance() {
    let mut controller = Controller::new(1);
    load_pass_to(&mut controller).unwrap();
    assert_eq!(start(&mut controller).unwrap(), "Pass To is driving directly");
    assert_eq!(controller.control.state, DeveloperRunState::Running);

    act(&mut controller);
    // The same instance survives the tick.
    assert_eq!(controller.control.run.as_ref().unwrap().instance.steps, 1);
    act(&mut controller);
    assert_eq!(controller.control.run.as_ref().unwrap().instance.steps, 2);
}

#[test]
fn a_second_start_is_refused_while_the_entry_runs() {
    let mut controller = Controller::new(1);
    load_pass_to(&mut controller).unwrap();
    start(&mut controller).unwrap();

    assert_eq!(start(&mut controller).unwrap_err(), "Pass To is already running");
    assert_eq!(controller.control.state, DeveloperRunState::Running);
}

#[test]
fn stopping_keeps_the_selection_and_allows_a_restart() {
    let mut controller = Controller::new(1);
    load_pass_to(&mut controller).unwrap();
    start(&mut controller).unwrap();

    let stop = DeveloperRequest::Stop { target: "blue".to_string() };
    let message = apply(&mut controller.control, &stop, Err(String::new())).unwrap();
    assert_eq!(message, "Pass To stopped; start it again to re-run");

    assert_eq!(controller.control.state, DeveloperRunState::Stopped);
    assert!(controller.control.run.is_none());
    assert!(controller.control.loaded.is_some());
    assert!(start(&mut controller).is_ok());
}

#[test]
fn disabling_hands_the_side_back_to_the_match_ai() {
    let mut controller = Controller::new(1);
    load_pass_to(&mut controller).unwrap();
    start(&mut controller).unwrap();

    let disable = DeveloperRequest::Disable { target: "blue".to_string() };
    let message = apply(&mut controller.control, &disable, Err(String::new())).unwrap();
    assert_eq!(message, "Match AI restored");

    assert_eq!(controller.control.state, DeveloperRunState::Idle);
    assert!(controller.control.run.is_none());
    assert!(controller.control.loaded.is_none());
}

#[test]
fn an_entry_that_cannot_be_built_fails_the_run_instead_of_panicking() {
    let mut controller = Controller::new(1);
    load_pass_to(&mut controller).unwrap();
    let request = DeveloperRequest::Start { target: "blue".to_string() };
    let created = Err("the entry panicked while being created".to_string());

    assert_eq!(
        apply(&mut controller.control, &request, created).unwrap_err(),
        "Pass To: the entry panicked while being created"
    );
    assert_eq!(controller.control.state, DeveloperRunState::Failed);
    assert!(controller.control.run.is_none());
}

#[test]
fn a_run_keeps_its_state_across_ticks_and_finishes_once() {
    let mut controller = Controller::new(1);
    apply(&mut controller.control, &load_request("skill", "Counting"), Err(String::new())).unwrap();
    start(&mut controller).unwrap();

    for _ in 0..2 {
        act(&mut controller);
        assert_eq!(controller.control.state, DeveloperRunState::Running);
    }

    // The third step says "finished"; the run is not started again afterwards.
    act(&mut controller);
    assert_eq!(controller.control.state, DeveloperRunState::Finished);
    assert_eq!(controller.control.message, "Counting finished");
    assert_eq!(controller.control.run.as_ref().map(|run| run.instance.steps), Some(3));

    act(&mut controller);
    assert_eq!(controller.control.state, DeveloperRunState::Finished);
    assert_eq!(
        controller.control.run.as_ref().map(|run| run.instance.steps),
        Some(3),
        "a finished run must not be stepped again"
    );
}

#[test]
fn unknown_entries_are_rejected_at_load_time() {
    let mut controller = Controller::new(1);
    let result =
        apply(&mut controller.control, &load_request("skill", "Not A Skill"), Err(String::new()));

    assert!(result.is_err());
    assert_eq!(controller.control.state, DeveloperRunState::Idle);
    assert_eq!(result.unwrap_err(), "\"Not A Skill\" is not registered in skill");
}

#[test]
fn unknown_kinds_and_bad_values_are_rejected() {
    let mut control = DirectControl::<Counting>::new();
    assert_eq!(control.message, "No entry loaded");
    let result = apply(&mut control, &load_request("trick", "Pass To"), Err(String::new()));
    assert_eq!(result.unwrap_err(), "unknown registry kind: trick");

    let request = load_request("skills", "Pass To");
    let registry = registry();
    assert!(matches!(
        control.need(&request, &registry),
        Need::Validate { registry: EntryKind::Skill, place: 0 }
    ));
    let answer = Answer::Validated(Err("no passer".to_string()));
    assert_eq!(
        control.apply_developer_request(&request, &registry, answer).unwrap_err(),
        "invalid Pass To values: no passer"
    );
    assert!(control.loaded.is_none());
}

#[test]
fn a_failing_step_ends_the_run() {
    let mut controller = Controller::new(1);
    load_pass_to(&mut controller).unwrap();
    start(&mut controller).unwrap();
    let printed = controller.control.drive(Err("the entry panicked while stepping".to_string()));
    assert_eq!(printed.unwrap_err(), "Pass To: the entry panicked while stepping");
    assert_eq!(controller.control.state, DeveloperRunState::Failed);
    assert!(!controller.control.drives());
}

#[test]
fn the_match_runner_keeps_its_own_requests() {
    let mut control = DirectControl::<Counting>::new();
    let request = DeveloperRequest::SwitchAi { target: "blue".into(), ai: "bangka".into() };
    assert_eq!(
        apply(&mut control, &request, Err(String::new())).unwrap_err(),
        "this request is handled by the match runner"
    );
    let stop = DeveloperRequest::Stop { target: "blue".into() };
    assert_eq!(
        apply(&mut control, &stop, Err(String::new())).unwrap_err(),
        "nothing is loaded"
    );
}

#[test]
fn the_published_run_tells_the_selection() {
    let mut controller = Controller::new(1);
    load_pass_to(&mut controller).unwrap();
    let run = controller.control.developer_run();
    assert_eq!(run.target, "");
    assert_eq!(run.kind.as_deref(), Some("skill"));
    assert_eq!(run.entry.as_deref(), Some("Pass To"));
    assert_eq!(run.state, DeveloperRunState::Loaded);
    assert_eq!(run.message, "Pass To is ready to start");
    assert!(run.started_frame.is_none() && run.finished_frame.is_none());
}

#[test]
fn names_are_quoted_as_the_debug_format_does() {
    let registry = registry();
    assert_eq!(
        look_up("play", "a \"b\"\n", &registry).unwrap_err(),
        "\"a \\\"b\\\"\\n\" is not registered in play"
    );
    assert_eq!(
        find_entry("play", "x", "<x>", &registry).unwrap_err(),
        "<x> is not registered in play"
    );
    assert_eq!(find_entry("skill", "Counting", "", &registry).unwrap(), (EntryKind::Skill, 1));
}

#[test]
fn face_command_persists_while_skill_waits() {
    let single = |x: f32| Single { bits: x.to_bits() };
    let mut controller = Controller::new(1);
    load_pass_to(&mut controller).unwrap();
    start(&mut controller).unwrap();

    let facing = AiCommand {
        dribbler: false,
        motion: Some(MotionCommand {
            id: 0,
            target: Target::Hold,
            heading: HeadingMode::Fixed(single(180.0)),
            tolerance: Tolerance {
                pos_mm: single(0.0),
                heading_deg: single(0.0),
                vel: single(0.0),
            },
            limits: None,
            raw_movement: false,
            priority: 0,
        }),
        kicker: Kicker::Idle,
    };
    // Only the first step sets the heading; the second writes nothing.
    controller.control.run.as_mut().unwrap().commands[0] = Some(facing);
    for _ in 0..2 {
        let told = controller.control.drive(Ok(false)).unwrap();
        let motion = told[0].unwrap().motion.unwrap();
        assert_eq!(motion.heading, HeadingMode::Fixed(single(180.0)));
        assert!(motion.raw_movement);
        assert_eq!(told.len(), SLOTS);
        assert_eq!(controller.control.run.as_ref().unwrap().commands[0], Some(facing));
        assert!(controller.begin_act(GameCommand::Running).is_none());
    }
}

#[test]
fn a_command_without_a_motion_gets_none() {
    let mut controller = Controller::new(2);
    load_pass_to(&mut controller).unwrap();
    start(&mut controller).unwrap();
    let told = controller.control.drive(Ok(true)).unwrap();
    assert!(told[1].unwrap().motion.is_none());
    assert!(told[2].is_none());
    assert_eq!(controller.control.state, DeveloperRunState::Finished);
}

#[test]
fn a_halted_side_stops_and_keeps_its_run() {
    let mut controller = Controller::new(2);
    load_pass_to(&mut controller).unwrap();
    start(&mut controller).unwrap();
    let stopped = controller.begin_act(GameCommand::Halt).unwrap();
    assert_eq!(stopped.len(), 2);
    assert_eq!(controller.motion_feedback.len(), SLOTS);
    assert!(controller.control.drives());
    assert!(controller.begin_act(GameCommand::Running).is_none());
}
