//! What a simulated world holds, as the viewer, the replay log and the match runner read it.
//!
//! Lengths are metres, angles radians, times seconds, unless a name says otherwise.

use vstd::prelude::*;
use crate::number::Double;
use crate::table::Key;

verus! {

#[derive(Debug, Clone, Copy, PartialEq, Eq, Structural)]
pub enum TeamColor {
    Blue,
    Yellow,
}

impl TeamColor {
    pub open spec fn opposite_spec(self) -> TeamColor {
        match self {
            TeamColor::Blue => TeamColor::Yellow,
            TeamColor::Yellow => TeamColor::Blue,
        }
    }

    /// The other team.
    pub fn opposite(self) -> (r: TeamColor)
        ensures
            r == self.opposite_spec(),
    {
        match self {
            TeamColor::Blue => TeamColor::Yellow,
            TeamColor::Yellow => TeamColor::Blue,
        }
    }

    pub open spec fn name_spec(self) -> Seq<char> {
        match self {
            TeamColor::Blue => "Blue"@,
            TeamColor::Yellow => "Yellow"@,
        }
    }

    pub fn name(self) -> (r: &'static str)
        ensures
            r@ == self.name_spec(),
    {
        match self {
            TeamColor::Blue => "Blue",
            TeamColor::Yellow => "Yellow",
        }
    }

    pub open spec fn id_spec(self) -> Seq<char> {
        match self {
            TeamColor::Blue => "blue"@,
            TeamColor::Yellow => "yellow"@,
        }
    }

    /// The name in lower case, as identifiers have it.
    pub fn id(self) -> (r: &'static str)
        ensures
            r@ == self.id_spec(),
    {
        match self {
            TeamColor::Blue => "blue",
            TeamColor::Yellow => "yellow",
        }
    }
}

#[derive(Debug, Clone, Copy, PartialEq, Eq, Structural)]
pub struct BallState {
    pub x: Double,
    pub y: Double,
    pub z: Double,
    pub vx: Double,
    pub vy: Double,
    pub vz: Double,
}

#[derive(Debug, Clone, Copy)]
pub struct RobotState {
    pub id: usize,
    pub team: TeamColor,
    pub x: Double,
    pub y: Double,
    pub z: Double,
    pub orientation: Double,
    pub vx: Double,
    pub vy: Double,
    pub vz: Double,
    pub v_angular: Double,
    pub infrared: bool,
    pub dribbler_on: bool,
    /// The simulator's code for what the kicker last did.
    pub kick_status: u8,
    pub is_on: bool,
    pub wheel_speeds: [Double; 4],
}

#[derive(Debug, Clone)]
pub struct WorldState {
    pub world_id: usize,
    pub sim_time: Double,
    pub frame: u64,
    pub ball: BallState,
    pub blue_robots: Vec<RobotState>,
    pub yellow_robots: Vec<RobotState>,
    pub goal_blue: bool,
    pub goal_yellow: bool,
}

impl WorldState {
    pub open spec fn robots_of(self, team: TeamColor) -> Seq<RobotState> {
        match team {
            TeamColor::Blue => self.blue_robots@,
            TeamColor::Yellow => self.yellow_robots@,
        }
    }
}

/// The robots of one team.
pub fn team_robots(state: &WorldState, color: TeamColor) -> (r: &Vec<RobotState>)
    ensures
        r@ == state.robots_of(color),
{
    match color {
        TeamColor::Blue => &state.blue_robots,
        TeamColor::Yellow => &state.yellow_robots,
    }
}

/// The other team.
pub fn opposite_team(color: TeamColor) -> (r: TeamColor)
    ensures
        r == color.opposite_spec(),
{
    color.opposite()
}

#[derive(Debug, Clone, Copy)]
pub enum MoveCommand {
    LocalVelocity { forward: Double, left: Double, angular: Double },
    GlobalVelocity { vx: Double, vy: Double, angular: Double },
    WheelVelocity([Double; 4]),
}

#[derive(Debug, Clone, Copy)]
pub struct RobotCommand {
    pub id: usize,
    pub move_command: Option<MoveCommand>,
    pub kick_speed: Double,
    pub kick_angle: Double,
    pub dribbler_on: bool,
}

#[derive(Debug, Clone)]
pub struct WorldCommand {
    pub blue: Vec<RobotCommand>,
    pub yellow: Vec<RobotCommand>,
}

/// A change of a robot's pose; what is `None` stays as it is.
#[derive(Debug, Clone, Copy, PartialEq, Eq, Structural)]
pub struct TeleportRobot {
    pub id: usize,
    pub team: TeamColor,
    pub x: Option<Double>,
    pub y: Option<Double>,
    pub orientation: Option<Double>,
    pub vx: Option<Double>,
    pub vy: Option<Double>,
    pub v_angular: Option<Double>,
    pub present: Option<bool>,
}

/// A change of the ball's place; what is `None` stays as it is.
#[derive(Debug, Clone, Copy, PartialEq, Eq, Structural)]
pub struct TeleportBall {
    pub x: Option<Double>,
    pub y: Option<Double>,
    pub z: Option<Double>,
    pub vx: Option<Double>,
    pub vy: Option<Double>,
    pub vz: Option<Double>,
}

/// One robot among all worlds.
#[derive(Debug, Clone, Copy, PartialEq, Eq, Structural)]
pub struct RobotKey {
    pub world_id: usize,
    pub team: TeamColor,
    pub id: usize,
}

impl View for RobotKey {
    type V = RobotKey;

    open spec fn view(&self) -> RobotKey {
        *self
    }
}

impl Key for RobotKey {
    fn same(&self, other: &Self) -> (r: bool) {
        *self == *other
    }
}

#[derive(Debug, Clone, Copy, PartialEq, Eq, Structural)]
pub struct FieldConfig {
    pub field_length: Double,
    pub field_width: Double,
    pub goal_width: Double,
    pub goal_depth: Double,
    pub goal_height: Double,
    pub margin_touch_line: Double,
    pub margin_goal_line: Double,
    pub penalty_depth: Double,
    pub penalty_width: Double,
    pub field_center_radius: Double,
    pub field_line_width: Double,
}

#[derive(Debug, Clone, Copy, PartialEq, Eq, Structural)]
pub struct RobotConfig {
    pub radius: Double,
    pub vel_absolute_max: Double,
    pub vel_angular_max: Double,
    pub max_linear_kick_speed: Double,
    pub max_chip_kick_speed: Double,
}

#[derive(Debug, Clone, Copy, PartialEq, Eq, Structural)]
pub struct WorldConfig {
    pub seed: u64,
    pub robots_per_team: usize,
    pub field: FieldConfig,
    pub ball_radius: Double,
    pub ball_friction: Double,
    pub gravity: Double,
    pub blue_robots: RobotConfig,
    pub yellow_robots: RobotConfig,
}

/// The robots of a team are those in the team's own list, and the other team is the one that a team
/// is not.
pub proof fn law_teams(state: WorldState, team: TeamColor)
    ensures
        state.robots_of(TeamColor::Blue) == state.blue_robots@,
        state.robots_of(TeamColor::Yellow) == state.yellow_robots@,
        team.opposite_spec() != team,
        team.opposite_spec().opposite_spec() == team,
        TeamColor::Blue.id_spec() == "blue"@,
        TeamColor::Yellow.id_spec() == "yellow"@,
        TeamColor::Blue.name_spec() == "Blue"@,
        TeamColor::Yellow.name_spec() == "Yellow"@,
{
}

} // verus!
