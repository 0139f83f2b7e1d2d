use simhark::number::Double;
use simhark::requests::{
    parse_ball_move_request, parse_robot_move_request, parse_robot_presence_request,
    parse_robot_rotate_request, parse_team, parse_usize, texts_of_numbers, BallMoveRequest,
    RobotMoveRequest, RobotPresenceRequest, RobotRotateRequest,
};
use simhark::state::TeamColor;

fn d(x: f64) -> Double {
    Double::from_bits(x.to_bits())
}

fn numbers(message: &str) -> Vec<Option<Double>> {
    texts_of_numbers(message).iter().map(|t| t.parse::<f64>().ok().map(d)).collect()
}

fn robot_move(message: &str) -> Option<RobotMoveRequest> {
    parse_robot_move_request(message, &numbers(message))
}

fn robot_rotate(message: &str) -> Option<RobotRotateRequest> {
    parse_robot_rotate_request(message, &numbers(message))
}

fn ball_move(message: &str) -> Option<BallMoveRequest> {
    parse_ball_move_request(message, &numbers(message))
}

#[test]
fn parses_robot_move_request() {
    assert_eq!(
        robot_move("robot:move:3:Yellow:7:-1.25:2.5"),
        Some(RobotMoveRequest {
            world_id: 3,
            team: TeamColor::Yellow,
            id: 7,
            x: d(-1.25),
            y: d(2.5),
        })
    );
}

#[test]
fn rejects_invalid_robot_move_request() {
    assert_eq!(robot_move("robot:move:0:Green:1:0:0"), None);
    assert_eq!(robot_move("robot:move:0:Blue:1:NaN:0"), None);
    assert_eq!(robot_move("robot:move:0:Blue:1:0:0:extra"), None);
}

#[test]
fn parses_robot_rotate_request() {
    assert_eq!(
        robot_rotate("robot:rotate:3:Yellow:7:-1.5708"),
        Some(RobotRotateRequest {
            world_id: 3,
            team: TeamColor::Yellow,
            id: 7,
            orientation: d(-1.5708),
        })
    );
}

#[test]
fn rejects_invalid_robot_rotate_request() {
    assert_eq!(robot_rotate("robot:rotate:0:Green:1:0"), None);
    assert_eq!(robot_rotate("robot:rotate:0:Blue:1:NaN"), None);
    assert_eq!(robot_rotate("robot:rotate:0:Blue:1:0:extra"), None);
}

#[test]
fn parses_robot_presence_request() {
    assert_eq!(
        parse_robot_presence_request("robot:presence:2:Blue:4:false"),
        Some(RobotPresenceRequest { world_id: 2, team: TeamColor::Blue, id: 4, present: false })
    );
    assert_eq!(
        parse_robot_presence_request("robot:presence:0:Yellow:1:true"),
        Some(RobotPresenceRequest { world_id: 0, team: TeamColor::Yellow, id: 1, present: true })
    );
}

#[test]
fn rejects_invalid_robot_presence_request() {
    assert_eq!(parse_robot_presence_request("robot:presence:0:Green:1:true"), None);
    assert_eq!(parse_robot_presence_request("robot:presence:0:Blue:1:yes"), None);
    assert_eq!(parse_robot_presence_request("robot:presence:0:Blue:1:false:extra"), None);
}

#[test]
fn parses_ball_move_request() {
    assert_eq!(
        ball_move("ball:move:2:-3.25:1.5"),
        Some(BallMoveRequest { world_id: 2, x: d(-3.25), y: d(1.5) })
    );
}

#[test]
fn rejects_invalid_ball_move_request() {
    assert_eq!(ball_move("ball:move:0:NaN:0"), None);
    assert_eq!(ball_move("ball:move:0:0:0:extra"), None);
}

#[test]
fn texts_that_need_reading_are_the_numbers_of_a_message() {
    assert_eq!(texts_of_numbers("robot:move:3:Yellow:7:-1.25:2.5"), vec!["-1.25", "2.5"]);
    assert_eq!(texts_of_numbers("speed: 1.5 "), vec!["1.5"]);
    assert!(texts_of_numbers("robot:presence:2:Blue:4:false").is_empty());
    assert!(texts_of_numbers("world:1").is_empty());
}

#[test]
fn keys_name_the_robot_of_a_request() {
    let request = robot_move("robot:move:3:Yellow:7:-1.25:2.5").unwrap();
    let key = request.key();
    assert_eq!((key.world_id, key.team, key.id), (3, TeamColor::Yellow, 7));
}

#[test]
fn numbers_and_teams_are_read_as_written() {
    assert_eq!(parse_usize("42"), Some(42));
    assert_eq!(parse_usize("+7"), Some(7));
    assert_eq!(parse_usize("-1"), None);
    assert_eq!(parse_usize(""), None);
    assert_eq!(parse_usize("99999999999999999999999"), None);
    assert_eq!(parse_team("Blue"), Some(TeamColor::Blue));
    assert_eq!(parse_team("Green"), None);
}
