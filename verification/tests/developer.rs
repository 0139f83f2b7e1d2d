use serde_json::Value;
use simhark::developer::{
    queue_developer_request, DeveloperRequest, DeveloperResult, DeveloperRun, DeveloperRunState,
    DEVELOPER_REQUEST_QUEUE_LIMIT,
};
use simhark::number::Double;
use simhark::state::{FieldConfig, RobotConfig, WorldConfig};
use simhark::viewer::ViewerServer;

fn start() -> DeveloperRequest {
    DeveloperRequest::Start { target: "blue".into() }
}

fn load() -> DeveloperRequest {
    DeveloperRequest::Load {
        target: "blue".into(),
        kind: "skill".into(),
        entry: "Pass To".into(),
        config: Value::Null,
        params: Value::Null,
    }
}

fn viewer() -> ViewerServer {
    let z = Double::zero();
    let field = FieldConfig {
        field_length: z,
        field_width: z,
        goal_width: z,
        goal_depth: z,
        goal_height: z,
        margin_touch_line: z,
        margin_goal_line: z,
        penalty_depth: z,
        penalty_width: z,
        field_center_radius: z,
        field_line_width: z,
    };
    let robots = RobotConfig {
        radius: z,
        vel_absolute_max: z,
        vel_angular_max: z,
        max_linear_kick_speed: z,
        max_chip_kick_speed: z,
    };
    let config = WorldConfig {
        seed: 0,
        robots_per_team: 6,
        field,
        ball_radius: z,
        ball_friction: z,
        gravity: z,
        blue_robots: robots,
        yellow_robots: robots,
    };
    ViewerServer::bind(1, &config).0
}

fn run(target: &str, state: DeveloperRunState) -> DeveloperRun {
    DeveloperRun {
        target: target.into(),
        kind: Some("skill".into()),
        entry: Some("Pass To".into()),
        state,
        message: "going".into(),
        started_frame: Some(4),
        finished_frame: None,
    }
}

#[test]
fn queued_requests_keep_their_order() {
    let mut queue = Vec::new();
    queue_developer_request(&mut queue, load()).unwrap();
    queue_developer_request(&mut queue, start()).unwrap();

    // `load` then `start` in one tick must arrive in that order; coalescing them per target would
    // drop the load and fail the start.
    assert!(matches!(queue[0], DeveloperRequest::Load { .. }));
    assert!(matches!(queue[1], DeveloperRequest::Start { .. }));
}

#[test]
fn a_wedged_queue_refuses_new_requests_instead_of_growing() {
    let mut queue = Vec::new();
    for _ in 0..DEVELOPER_REQUEST_QUEUE_LIMIT {
        queue_developer_request(&mut queue, start()).unwrap();
    }

    assert!(queue_developer_request(&mut queue, start()).is_err());
    assert_eq!(queue.len(), DEVELOPER_REQUEST_QUEUE_LIMIT);
    assert_eq!(DEVELOPER_REQUEST_QUEUE_LIMIT, 64);
    assert_eq!(
        queue_developer_request(&mut queue, start()).unwrap_err(),
        "the simulation is not draining developer requests"
    );
}

#[test]
fn every_request_names_its_target() {
    assert_eq!(load().target(), "blue");
    assert_eq!(start().target(), "blue");
    assert_eq!(DeveloperRequest::Stop { target: "a".into() }.target(), "a");
    assert_eq!(DeveloperRequest::Disable { target: "b".into() }.target(), "b");
    assert_eq!(
        DeveloperRequest::SwitchAi { target: "c".into(), ai: "x".into() }.target(),
        "c"
    );
    assert_eq!(
        DeveloperRequest::SetBallRecovery { target: "d".into(), enabled: true }.target(),
        "d"
    );
}

#[test]
fn a_published_run_is_found_under_its_target() {
    let mut v = viewer();
    v.set_developer_run(run("blue", DeveloperRunState::Loaded));
    assert!(v.developer_run("blue").is_none(), "there is no console yet");

    v.set_developer_schema(Some(Value::Bool(true)));
    v.set_developer_run(run("blue", DeveloperRunState::Loaded));
    v.set_developer_run(run("yellow", DeveloperRunState::Failed));
    v.set_developer_run(run("blue", DeveloperRunState::Running));
    assert_eq!(v.developer_run("blue").unwrap().state, DeveloperRunState::Running);
    assert_eq!(v.developer_run("yellow").unwrap().state, DeveloperRunState::Failed);
    assert!(v.developer_run("green").is_none());
}

#[test]
fn a_new_schema_keeps_results_and_runs() {
    let mut v = viewer();
    v.set_developer_schema(Some(Value::Bool(true)));
    v.set_developer_run(run("blue", DeveloperRunState::Running));
    v.set_developer_result(DeveloperResult {
        target: "blue".into(),
        entry: None,
        ok: true,
        message: "fine".into(),
    });
    v.set_developer_schema(None);
    assert_eq!(v.developer.as_ref().unwrap().schema, Value::Bool(true));
    v.set_developer_schema(Some(Value::Null));
    let console = v.developer.as_ref().unwrap();
    assert_eq!(console.schema, Value::Null);
    assert_eq!(console.results.get(&"blue".to_string()).unwrap().message, "fine");
    assert!(v.developer_run("blue").is_some());
}

#[test]
fn requests_are_taken_once_and_in_order() {
    let mut v = viewer();
    queue_developer_request(&mut v.client.developer_requests, load()).unwrap();
    queue_developer_request(&mut v.client.developer_requests, start()).unwrap();
    let taken = v.take_developer_requests();
    assert!(matches!(taken[0], DeveloperRequest::Load { .. }));
    assert!(matches!(taken[1], DeveloperRequest::Start { .. }));
    assert!(v.take_developer_requests().is_empty());
}

#[test]
fn a_cloned_request_carries_its_values() {
    let request = DeveloperRequest::Load {
        target: "blue".into(),
        kind: "skill".into(),
        entry: "Pass To".into(),
        config: Value::String("c".into()),
        params: Value::Bool(true),
    };
    match request.clone() {
        DeveloperRequest::Load { config, params, .. } => {
            assert_eq!(config, Value::String("c".into()));
            assert_eq!(params, Value::Bool(true));
        }
        _ => panic!("expected a load"),
    }
}
