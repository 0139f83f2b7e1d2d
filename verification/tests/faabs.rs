use simhark::debug::ViewerDebugSnapshot;
use simhark::faabs::{
    force_start_referee, get_config, interface_command, referee_command, ControllerEvents, Faabs,
    RefereeInbox, FORCE_START,
};
use simhark::state::TeamColor;

type Link = Faabs<&'static str, u32, &'static str>;

#[test]
fn interface_command_uses_robot_code_team_color_convention() {
    let yellow = interface_command(TeamColor::Yellow);
    let blue = interface_command(TeamColor::Blue);

    assert!(!yellow.team_color);
    assert!(blue.team_color);
    assert!(blue.side && !yellow.side);
    assert!(blue.ball_tracked && blue.running);
    assert_eq!((blue.goalkeeper_id, blue.max_speed), (0, 0));
}

#[test]
fn robots_answer_in_turn() {
    let mut link = Link::new(3, TeamColor::Blue);
    let mut answered = Vec::new();
    for _ in 0..4 {
        link.begin_step(None);
        let handed = link.hand_over();
        answered.push(handed.feedback);
        for id in 0..3 {
            link.robot_stepped(id, id * 10);
        }
        link.finish_step(None);
    }
    assert_eq!(answered, vec![None, Some(0), Some(10), Some(20)]);
    assert_eq!(link.feedback_robot, 1);
}

#[test]
fn only_the_operator_command_outlives_a_step() {
    let mut link = Link::new(1, TeamColor::Yellow);
    link.take_operator_command(vec![1]);
    link.take_operator_command(vec![2, 3]);
    link.begin_step(Some("HALT"));
    let sent = ControllerEvents { referee: None, team_messages: vec!["keeper"] };
    link.drain_game_controller_events(Some(sent));
    link.drain_game_controller_events(None);
    let handed = link.hand_over();
    assert_eq!(handed.operator, Some(vec![2, 3]));
    assert_eq!(handed.referee, Some("HALT"));
    assert_eq!(handed.team_messages, vec!["keeper"]);
    link.begin_step(Some("HALT"));
    let sent = ControllerEvents { referee: Some("STOP"), team_messages: Vec::new() };
    link.drain_game_controller_events(Some(sent));
    let handed = link.hand_over();
    assert_eq!(handed.operator, Some(vec![2, 3]));
    assert_eq!(handed.referee, Some("STOP"));
    assert!(handed.team_messages.is_empty());
}

#[test]
fn a_step_hands_over_what_came_last() {
    let mut link = Link::new(1, TeamColor::Blue);
    let sent = ControllerEvents { referee: Some("STOP"), team_messages: vec!["a"] };
    let handed = link.step(Some("HALT"), vec![vec![1], vec![2]], Some(sent));
    assert_eq!(handed.operator, Some(vec![2]));
    assert_eq!(handed.referee, Some("STOP"));
    assert_eq!(handed.team_messages, vec!["a"]);
    link.robot_stepped(0, 5);
    assert!(link.debug_snapshot().is_none());
    link.finish_step(Some(ViewerDebugSnapshot::blank(3)));
    assert_eq!(link.debug_snapshot().unwrap().world_id, 3);
    let handed = link.step(Some("HALT"), Vec::new(), None);
    assert_eq!(handed.operator, Some(vec![2]));
    assert_eq!((handed.referee, handed.feedback), (Some("HALT"), Some(5)));
}

#[test]
fn data_for_a_robot_that_is_not_there_is_told() {
    let link = Link::new(2, TeamColor::Blue);
    assert_eq!(link.robot_place(1), Ok(1));
    assert_eq!(
        link.robot_place(2).unwrap_err(),
        "Received data for robot with id 2, but only 2 robots are configured"
    );
}

#[test]
fn a_side_goes_by_its_color_in_the_interface() {
    let (id, label) = Link::new(1, TeamColor::Blue).attach_shared_interface();
    assert_eq!((id.as_str(), label.as_str()), ("crashpilot-blue", "CrashPilot (blue)"));
    let (id, _) = Link::new(1, TeamColor::Yellow).attach_shared_interface();
    assert_eq!(id, "crashpilot-yellow");
}

#[test]
fn robots_have_addresses_of_their_own() {
    let robots = get_config(3);
    assert_eq!(robots[0], (0, [10, 0, 64, 101]));
    assert_eq!(robots[2], (2, [10, 0, 64, 103]));
    assert_eq!(get_config(155)[154], (154, [10, 0, 64, 255]));
}

#[test]
fn referee_messages_are_made_up() {
    let halt = referee_command(0, 55);
    assert_eq!((halt.command, halt.packet_timestamp), (0, 55));
    assert_eq!((halt.command_counter, halt.command_timestamp), (1, 1));
    assert_eq!(force_start_referee(7).command, FORCE_START);
    assert_eq!(FORCE_START, 3);
}

#[test]
fn the_latest_readable_message_is_passed_on() {
    let mut inbox = RefereeInbox::new();
    for message in [Some(1), None, Some(2), None] {
        inbox.receive(message);
    }
    assert_eq!(inbox.take(), Some(2));
    assert_eq!(inbox.take(), None);
}
