//! The snapshot of a publish: every world as the interface protocol has it, with the score, the
//! referee's state and the debug items.
//!
//! Lengths are metres here, times seconds; whoever sends a snapshot on scales them.

use vstd::prelude::*;
use crate::debug;
use crate::debug::{DebugBoard, DebugModel, ViewerDebugSnapshot};
use crate::layers;
use crate::layers::{canonical_debug_items, simhark_debug_layers, DebugItem, DebugLayer};
use crate::number;
use crate::number::Double;
use crate::order;
use crate::order::{insert_ranked, Ranked};
use crate::state::{BallState, FieldConfig, RobotState, TeamColor, WorldState};
use crate::text;
use crate::text::copy_text;
use crate::trackers;
use crate::trackers::PublishedGameState;

verus! {

#[derive(Debug, Clone, Copy, PartialEq, Eq, Structural)]
pub struct Score {
    pub blue: u32,
    pub yellow: u32,
}

/// What the referee says. What a simulation's referee never says is `None`.
pub struct RefereeState {
    pub stage: Option<String>,
    pub command: String,
    pub next_command: Option<String>,
    pub command_counter: u32,
    pub stage_time_left_ns: Option<i64>,
    pub action_time_remaining_ns: Option<i64>,
    pub designated_position: Option<(Double, Double)>,
    pub blue_team_on_positive_half: Option<bool>,
    pub score: Score,
}

pub struct RefereeModel {
    pub stage: Option<Seq<char>>,
    pub command: Seq<char>,
    pub next_command: Option<Seq<char>>,
    pub command_counter: u32,
    pub stage_time_left_ns: Option<i64>,
    pub action_time_remaining_ns: Option<i64>,
    pub designated_position: Option<(Double, Double)>,
    pub blue_team_on_positive_half: Option<bool>,
    pub score: Score,
}

impl View for RefereeState {
    type V = RefereeModel;

    open spec fn view(&self) -> RefereeModel {
        RefereeModel {
            stage: text::text_view(self.stage),
            command: self.command@,
            next_command: text::text_view(self.next_command),
            command_counter: self.command_counter,
            stage_time_left_ns: self.stage_time_left_ns,
            action_time_remaining_ns: self.action_time_remaining_ns,
            designated_position: self.designated_position,
            blue_team_on_positive_half: self.blue_team_on_positive_half,
            score: self.score,
        }
    }
}

impl RefereeState {
    pub fn copy(&self) -> (r: RefereeState)
        ensures
            r == *self,
    {
        RefereeState {
            stage: copy_text(&self.stage),
            command: self.command.clone(),
            next_command: copy_text(&self.next_command),
            command_counter: self.command_counter,
            stage_time_left_ns: self.stage_time_left_ns,
            action_time_remaining_ns: self.action_time_remaining_ns,
            designated_position: self.designated_position,
            blue_team_on_positive_half: self.blue_team_on_positive_half,
            score: self.score,
        }
    }
}

/// The referee's state that a game state stands for.
pub open spec fn referee_of(
    stage: Option<Seq<char>>,
    command: Seq<char>,
    command_counter: u32,
    score: Score,
) -> RefereeModel {
    RefereeModel {
        stage,
        command,
        next_command: None,
        command_counter,
        stage_time_left_ns: None,
        action_time_remaining_ns: None,
        designated_position: None,
        blue_team_on_positive_half: None,
        score,
    }
}

pub open spec fn referee_view(r: Option<RefereeState>) -> Option<RefereeModel> {
    match r {
        Some(referee) => Some(referee@),
        None => None,
    }
}

/// What the referee says where a game state was pushed in.
pub open spec fn referee_for(game_state: Option<PublishedGameState<'_>>, score: Score) -> Option<
    RefereeModel,
> {
    match game_state {
        Some(g) => Some(
            referee_of(trackers::slice_view(g.stage), g.command@, g.command_counter, score),
        ),
        None => None,
    }
}

/// The referee's state as the protocol has it. The simulator has no game controller of its own:
/// what drives the match pushes a game state in.
pub fn canonical_referee(game_state: &Option<PublishedGameState<'_>>, score: Score) -> (r: Option<
    RefereeState,
>)
    ensures
        referee_view(r) == referee_for(*game_state, score),
{
    match game_state {
        Some(g) => Some(
            RefereeState {
                stage: match g.stage {
                    Some(stage) => Some(stage.to_owned()),
                    None => None,
                },
                command: g.command.to_owned(),
                next_command: None,
                command_counter: g.command_counter,
                stage_time_left_ns: None,
                action_time_remaining_ns: None,
                designated_position: None,
                blue_team_on_positive_half: None,
                score,
            },
        ),
        None => None,
    }
}

// ---------------------------------------------------------------------------
// The field

/// The largest robot, in millimetres.
pub const MAX_ROBOT_RADIUS_MM_BITS: u64 = 0x4056_8000_0000_0000;

/// The ball, in millimetres.
pub const BALL_RADIUS_MM_BITS: u64 = 0x4035_8000_0000_0000;

#[derive(Debug, Clone, Copy, PartialEq, Eq, Structural)]
pub struct FieldGeometry {
    pub field_length: Double,
    pub field_width: Double,
    pub goal_width: Double,
    pub goal_depth: Double,
    pub boundary_width: Double,
    pub penalty_area_depth: Double,
    pub penalty_area_width: Double,
    pub center_circle_radius: Double,
    pub line_thickness: Double,
    pub max_robot_radius_mm: Double,
    pub ball_radius_mm: Double,
}

/// The geometry that is published: the boundary is as wide as the wider of the two margins.
pub open spec fn geometry_of(field: FieldConfig) -> FieldGeometry {
    FieldGeometry {
        field_length: field.field_length,
        field_width: field.field_width,
        goal_width: field.goal_width,
        goal_depth: field.goal_depth,
        boundary_width: field.margin_touch_line.larger_of(field.margin_goal_line),
        penalty_area_depth: field.penalty_depth,
        penalty_area_width: field.penalty_width,
        center_circle_radius: field.field_center_radius,
        line_thickness: field.field_line_width,
        max_robot_radius_mm: Double { bits: MAX_ROBOT_RADIUS_MM_BITS },
        ball_radius_mm: Double { bits: BALL_RADIUS_MM_BITS },
    }
}

pub fn field_geometry(field: &FieldConfig) -> (r: FieldGeometry)
    ensures
        r == geometry_of(*field),
{
    FieldGeometry {
        field_length: field.field_length,
        field_width: field.field_width,
        goal_width: field.goal_width,
        goal_depth: field.goal_depth,
        boundary_width: field.margin_touch_line.max(field.margin_goal_line),
        penalty_area_depth: field.penalty_depth,
        penalty_area_width: field.penalty_width,
        center_circle_radius: field.field_center_radius,
        line_thickness: field.field_line_width,
        max_robot_radius_mm: Double { bits: MAX_ROBOT_RADIUS_MM_BITS },
        ball_radius_mm: Double { bits: BALL_RADIUS_MM_BITS },
    }
}

// ---------------------------------------------------------------------------
// Robots

#[derive(Debug)]
pub struct PublishedRobot {
    pub id: u32,
    pub team: TeamColor,
    pub x: Double,
    pub y: Double,
    pub orientation_rad: Double,
    pub vx: Double,
    pub vy: Double,
    pub vz: Double,
    pub angular_velocity_rad_per_s: Double,
    pub visible: bool,
    pub visibility: Option<Double>,
    pub infrared: Option<bool>,
    pub dribbler_enabled: Option<bool>,
    /// The controller's own label for what the robot is doing.
    pub task: Option<String>,
}

impl Ranked for PublishedRobot {
    /// Blue before yellow, then by number.
    open spec fn rank(self) -> int {
        match self.team {
            TeamColor::Blue => self.id as int,
            TeamColor::Yellow => u32::MAX + 1 + self.id,
        }
    }

    fn is_after(&self, other: &Self) -> (r: bool) {
        match (self.team, other.team) {
            (TeamColor::Blue, TeamColor::Yellow) => false,
            (TeamColor::Yellow, TeamColor::Blue) => true,
            _ => self.id > other.id,
        }
    }
}

/// The task that the debug data of a robot's world names for it.
pub open spec fn task_of(snapshot: Option<DebugModel>, team: TeamColor, id: usize) -> Option<String> {
    match snapshot {
        Some(m) => {
            let i = debug::robot_place(m.robots, team, id);
            if 0 <= i < m.robots.len() {
                Some(m.robots[i].task)
            } else {
                None
            }
        },
        None => None,
    }
}

pub open spec fn published_robot(robot: RobotState, task: Option<String>) -> PublishedRobot {
    PublishedRobot {
        id: robot.id as u32,
        team: robot.team,
        x: robot.x,
        y: robot.y,
        orientation_rad: robot.orientation,
        vx: robot.vx,
        vy: robot.vy,
        vz: robot.vz,
        angular_velocity_rad_per_s: robot.v_angular,
        visible: robot.is_on,
        visibility: Some(
            Double {
                bits: if robot.is_on {
                    number::ONE_BITS
                } else {
                    number::ZERO_BITS
                },
            },
        ),
        infrared: Some(robot.infrared),
        dribbler_enabled: Some(robot.dribbler_on),
        task,
    }
}

/// The robots of a world as they are published, blue's first, each with its task.
pub open spec fn robots_with_tasks(state: WorldState, snapshot: Option<DebugModel>) -> Seq<
    PublishedRobot,
> {
    (state.blue_robots@ + state.yellow_robots@).map_values(
        |robot: RobotState| published_robot(robot, task_of(snapshot, robot.team, robot.id)),
    )
}

fn find_task(snapshot: Option<&ViewerDebugSnapshot>, team: TeamColor, id: usize) -> (r: Option<
    String,
>)
    ensures
        r == task_of(
            match snapshot {
                Some(s) => Some(s@),
                None => None,
            },
            team,
            id,
        ),
{
    match snapshot {
        Some(s) => {
            proof {
                debug::lemma_robot_place(s.robots@, team, id);
            }
            let mut i: usize = 0;
            while i < s.robots.len()
                invariant
                    snapshot == Some(s),
                    i <= s.robots@.len(),
                    i <= debug::robot_place(s.robots@, team, id) <= s.robots@.len(),
                    forall|j: int|
                        0 <= j < debug::robot_place(s.robots@, team, id) ==> !((
                        #[trigger] s.robots@[j]).team == team && s.robots@[j].id == id),
                    debug::robot_place(s.robots@, team, id) < s.robots@.len()
                        ==> s.robots@[debug::robot_place(s.robots@, team, id)].team == team
                        && s.robots@[debug::robot_place(s.robots@, team, id)].id == id,
                decreases s.robots@.len() - i,
            {
                if s.robots[i].team == team && s.robots[i].id == id {
                    return Some(s.robots[i].task.clone());
                }
                i += 1;
            }
            None
        },
        None => None,
    }
}

fn publish_robot(robot: &RobotState, task: Option<String>) -> (r: PublishedRobot)
    ensures
        r == published_robot(*robot, task),
{
    PublishedRobot {
        id: #[verifier::truncate] (robot.id as u32),
        team: robot.team,
        x: robot.x,
        y: robot.y,
        orientation_rad: robot.orientation,
        vx: robot.vx,
        vy: robot.vy,
        vz: robot.vz,
        angular_velocity_rad_per_s: robot.v_angular,
        visible: robot.is_on,
        visibility: Some(
            Double {
                bits: if robot.is_on {
                    number::ONE_BITS
                } else {
                    number::ZERO_BITS
                },
            },
        ),
        infrared: Some(robot.infrared),
        dribbler_enabled: Some(robot.dribbler_on),
        task,
    }
}

fn sorted_robots(state: &WorldState, snapshot: Option<&ViewerDebugSnapshot>) -> (r: Vec<
    PublishedRobot,
>)
    ensures
        r@ == order::sorted(
            robots_with_tasks(
                *state,
                match snapshot {
                    Some(s) => Some(s@),
                    None => None,
                },
            ),
        ),
{
    let ghost model = match snapshot {
        Some(s) => Some(s@),
        None => None,
    };
    let ghost all = robots_with_tasks(*state, model);
    let mut robots: Vec<PublishedRobot> = Vec::new();
    let blue: usize = state.blue_robots.len();
    let mut i: usize = 0;
    while i < state.blue_robots.len()
        invariant
            i <= state.blue_robots@.len(),
            all == robots_with_tasks(*state, model),
            model == (match snapshot {
                Some(s) => Some(s@),
                None => None,
            }),
            robots@ == order::sorted(all.take(i as int)),
        decreases state.blue_robots@.len() - i,
    {
        let robot = &state.blue_robots[i];
        proof {
            assert(all.take(i + 1).drop_last() =~= all.take(i as int));
            assert(all[i as int] == published_robot(
                *robot,
                task_of(model, robot.team, robot.id),
            ));
        }
        let task = find_task(snapshot, robot.team, robot.id);
        insert_ranked(&mut robots, publish_robot(robot, task));
        i += 1;
    }
    let mut k: usize = 0;
    while k < state.yellow_robots.len()
        invariant
            blue as nat == state.blue_robots@.len(),
            k <= state.yellow_robots@.len(),
            all == robots_with_tasks(*state, model),
            model == (match snapshot {
                Some(s) => Some(s@),
                None => None,
            }),
            robots@ == order::sorted(all.take(blue + k)),
        decreases state.yellow_robots@.len() - k,
    {
        let robot = &state.yellow_robots[k];
        proof {
            assert(all.take(blue + k + 1).drop_last() =~= all.take(blue + k));
            assert(all[blue + k] == published_robot(*robot, task_of(model, robot.team, robot.id)));
        }
        let task = find_task(snapshot, robot.team, robot.id);
        insert_ranked(&mut robots, publish_robot(robot, task));
        k += 1;
    }
    assert(all.take(blue + k) =~= all);
    robots
}

// ---------------------------------------------------------------------------
// Worlds

pub struct PublishedBall {
    pub state: BallState,
    pub visibility: Option<Double>,
    pub source: Option<String>,
}

pub struct PublishedWorld {
    pub world_id: u32,
    pub frame: u64,
    /// The simulated time, not below zero.
    pub sim_time: Double,
    pub field: FieldGeometry,
    pub ball: PublishedBall,
    pub robots: Vec<PublishedRobot>,
    pub referee: Option<RefereeState>,
    pub score: Score,
}

pub struct BallModel {
    pub state: BallState,
    pub visibility: Option<Double>,
    pub source: Option<Seq<char>>,
}

pub struct WorldModel {
    pub world_id: u32,
    pub frame: u64,
    pub sim_time: Double,
    pub field: FieldGeometry,
    pub ball: BallModel,
    pub robots: Seq<PublishedRobot>,
    pub referee: Option<RefereeModel>,
    pub score: Score,
}

impl View for PublishedWorld {
    type V = WorldModel;

    open spec fn view(&self) -> WorldModel {
        WorldModel {
            world_id: self.world_id,
            frame: self.frame,
            sim_time: self.sim_time,
            field: self.field,
            ball: BallModel {
                state: self.ball.state,
                visibility: self.ball.visibility,
                source: text::text_view(self.ball.source),
            },
            robots: self.robots@,
            referee: referee_view(self.referee),
            score: self.score,
        }
    }
}

pub open spec fn debug_of(debug: Map<usize, DebugModel>, world_id: usize) -> Option<DebugModel> {
    if debug.contains_key(world_id) {
        Some(debug[world_id])
    } else {
        None
    }
}

/// One world as it is published.
pub open spec fn published_world(
    state: WorldState,
    field: FieldConfig,
    score: Score,
    referee: Option<RefereeModel>,
    debug: Map<usize, DebugModel>,
) -> WorldModel {
    WorldModel {
        world_id: state.world_id as u32,
        frame: state.frame,
        sim_time: state.sim_time.larger_of(Double { bits: number::ZERO_BITS }),
        field: geometry_of(field),
        ball: BallModel {
            state: state.ball,
            visibility: Some(Double { bits: number::ONE_BITS }),
            source: Some("simhark"@),
        },
        robots: order::sorted(robots_with_tasks(state, debug_of(debug, state.world_id))),
        referee,
        score,
    }
}

pub struct SystemSnapshot {
    pub worlds: Vec<PublishedWorld>,
    pub debug_layers: Vec<DebugLayer>,
    pub debug_items: Vec<DebugItem>,
}

pub open spec fn world_views(worlds: Seq<PublishedWorld>) -> Seq<WorldModel> {
    Seq::new(worlds.len(), |i: int| worlds[i]@)
}

pub open spec fn published_worlds(
    states: Seq<WorldState>,
    field: FieldConfig,
    score: Score,
    referee: Option<RefereeModel>,
    debug: Map<usize, DebugModel>,
) -> Seq<WorldModel> {
    Seq::new(states.len(), |i: int| published_world(states[i], field, score, referee, debug))
}

/// The snapshot of one publish.
///
/// `score` is the score of the match so far: a state's goal flags say that a goal is happening
/// right now, so they cannot stand for it.
pub fn canonical_simhark_snapshot(
    states: &[WorldState],
    field: &FieldConfig,
    score: Score,
    referee: &Option<RefereeState>,
    debug: &DebugBoard,
) -> (r: SystemSnapshot)
    ensures
        world_views(r.worlds@) == published_worlds(
            states@,
            *field,
            score,
            referee_view(*referee),
            debug@,
        ),
        layers::layer_views(r.debug_layers@) == layers::layer_tree(),
        layers::item_views(r.debug_items@) == layers::debug_items(debug@, states@),
{
    let debug_items = canonical_debug_items(debug, states);
    let debug_layers = simhark_debug_layers();
    let geometry = field_geometry(field);
    let ghost all = published_worlds(states@, *field, score, referee_view(*referee), debug@);
    let mut worlds: Vec<PublishedWorld> = Vec::new();
    let mut i: usize = 0;
    assert(world_views(worlds@) =~= all.take(0));
    while i < states.len()
        invariant
            i <= states@.len(),
            geometry == geometry_of(*field),
            all == published_worlds(states@, *field, score, referee_view(*referee), debug@),
            world_views(worlds@) == all.take(i as int),
        decreases states@.len() - i,
    {
        let state = &states[i];
        let ghost before = world_views(worlds@);
        let robots = sorted_robots(state, debug.get(state.world_id));
        let world = PublishedWorld {
            world_id: #[verifier::truncate] (state.world_id as u32),
            frame: state.frame,
            sim_time: state.sim_time.max(Double::zero()),
            field: geometry,
            ball: PublishedBall {
                state: state.ball,
                visibility: Some(Double { bits: number::ONE_BITS }),
                source: Some("simhark".to_owned()),
            },
            robots,
            referee: match referee {
                Some(r) => Some(r.copy()),
                None => None,
            },
            score,
        };
        assert(world@ == all[i as int]);
        worlds.push(world);
        assert(world_views(worlds@) =~= before.push(world@));
        i += 1;
        assert(world_views(worlds@) =~= all.take(i as int));
    }
    assert(all.take(i as int) =~= all);
    SystemSnapshot { worlds, debug_layers, debug_items }
}

/// Every world of a snapshot shows the score that the snapshot was made for, and the referee's
/// state; no robot is lost or added, and they come in order, blue before yellow.
pub proof fn law_published_world(
    state: WorldState,
    field: FieldConfig,
    score: Score,
    referee: Option<RefereeModel>,
    debug: Map<usize, DebugModel>,
)
    ensures
        ({
            let w = published_world(state, field, score, referee, debug);
            &&& w.score == score
            &&& w.referee == referee
            &&& order::in_order(w.robots)
            &&& w.robots.len() == state.blue_robots@.len() + state.yellow_robots@.len()
            &&& w.robots.to_multiset() == robots_with_tasks(
                state,
                debug_of(debug, state.world_id),
            ).to_multiset()
        }),
{
    order::law_sorted(robots_with_tasks(state, debug_of(debug, state.world_id)));
}

/// Whether `p` shows `robot` as it is: its team and number, where it is, how it heads and moves, and
/// whether it is on, has the ball and dribbles.
pub open spec fn shows_robot(p: PublishedRobot, robot: RobotState) -> bool {
    &&& p.team == robot.team
    &&& robot.id <= u32::MAX ==> p.id == robot.id
    &&& p.x == robot.x
    &&& p.y == robot.y
    &&& p.orientation_rad == robot.orientation
    &&& p.vx == robot.vx
    &&& p.vy == robot.vy
    &&& p.vz == robot.vz
    &&& p.angular_velocity_rad_per_s == robot.v_angular
    &&& p.visible == robot.is_on
    &&& p.visibility matches Some(v) && v.bits == (if robot.is_on {
        0x3ff0_0000_0000_0000u64
    } else {
        0
    })
    &&& p.infrared == Some(robot.infrared)
    &&& p.dribbler_enabled == Some(robot.dribbler_on)
}

/// Whether one of `robots` shows `robot`.
pub open spec fn is_shown_among(robots: Seq<PublishedRobot>, robot: RobotState) -> bool {
    exists|j: int| 0 <= j < robots.len() && shows_robot(#[trigger] robots[j], robot)
}

/// Whether `p` shows one of a world's robots.
pub open spec fn shows_one_of(p: PublishedRobot, state: WorldState) -> bool {
    ||| exists|k: int|
        0 <= k < state.blue_robots@.len() && shows_robot(p, #[trigger] state.blue_robots@[k])
    ||| exists|k: int|
        0 <= k < state.yellow_robots@.len() && shows_robot(p, #[trigger] state.yellow_robots@[k])
}

/// Every robot of every world is in the snapshot as it is, and the snapshot shows no other robot.
pub proof fn law_the_snapshot_shows_every_robot(
    worlds: Seq<PublishedWorld>,
    states: Seq<WorldState>,
    field: FieldConfig,
    score: Score,
    referee: Option<RefereeModel>,
    debug: Map<usize, DebugModel>,
    i: int,
)
    requires
        world_views(worlds) == published_worlds(states, field, score, referee, debug),
        0 <= i < states.len(),
    ensures
        worlds.len() == states.len(),
        forall|k: int|
            0 <= k < states[i].blue_robots@.len() ==> is_shown_among(
                worlds[i].robots@,
                #[trigger] states[i].blue_robots@[k],
            ),
        forall|k: int|
            0 <= k < states[i].yellow_robots@.len() ==> is_shown_among(
                worlds[i].robots@,
                #[trigger] states[i].yellow_robots@[k],
            ),
        forall|j: int|
            0 <= j < worlds[i].robots@.len() ==> shows_one_of(
                #[trigger] worlds[i].robots@[j],
                states[i],
            ),
        worlds[i].robots@.len() == states[i].blue_robots@.len() + states[i].yellow_robots@.len(),
{
    let state = states[i];
    assert(world_views(worlds).len() == worlds.len());
    assert(published_worlds(states, field, score, referee, debug).len() == states.len());
    assert(world_views(worlds)[i] == worlds[i]@);
    let listed = robots_with_tasks(state, debug_of(debug, state.world_id));
    let robots = worlds[i].robots@;
    let blue = state.blue_robots@;
    let yellow = state.yellow_robots@;
    assert(robots == order::sorted(listed));
    order::law_sorted(listed);
    assert forall|k: int| 0 <= k < blue.len() implies is_shown_among(
        robots,
        #[trigger] state.blue_robots@[k],
    ) by {
        assert((blue + yellow)[k] == blue[k]);
        let j = order::lemma_sorted_place(listed, k);
        assert(shows_robot(robots[j], blue[k]));
    }
    assert forall|k: int| 0 <= k < yellow.len() implies is_shown_among(
        robots,
        #[trigger] state.yellow_robots@[k],
    ) by {
        assert((blue + yellow)[blue.len() + k] == yellow[k]);
        let j = order::lemma_sorted_place(listed, blue.len() + k);
        assert(shows_robot(robots[j], yellow[k]));
    }
    assert forall|j: int| 0 <= j < robots.len() implies shows_one_of(
        #[trigger] worlds[i].robots@[j],
        state,
    ) by {
        let k = order::lemma_sorted_source(listed, j);
        if k < blue.len() {
            assert((blue + yellow)[k] == blue[k]);
            assert(shows_robot(robots[j], state.blue_robots@[k]));
        } else {
            assert((blue + yellow)[k] == yellow[k - blue.len()]);
            assert(shows_robot(robots[j], state.yellow_robots@[k - blue.len()]));
        }
    }
}

/// Every world is in the snapshot with its number, frame and ball, the score and the referee's state;
/// its time is shown as it is, or as zero where it is below.
pub proof fn law_the_snapshot_shows_every_world(
    worlds: Seq<PublishedWorld>,
    states: Seq<WorldState>,
    field: FieldConfig,
    score: Score,
    referee: Option<RefereeModel>,
    debug: Map<usize, DebugModel>,
    i: int,
)
    requires
        world_views(worlds) == published_worlds(states, field, score, referee, debug),
        0 <= i < states.len(),
    ensures
        worlds.len() == states.len(),
        states[i].world_id <= u32::MAX ==> worlds[i].world_id == states[i].world_id,
        worlds[i].frame == states[i].frame,
        worlds[i].ball.state == states[i].ball,
        worlds[i].ball.visibility matches Some(v) && v.bits == 0x3ff0_0000_0000_0000,
        text::text_view(worlds[i].ball.source) == Some("simhark"@),
        worlds[i].field == geometry_of(field),
        worlds[i].score == score,
        referee_view(worlds[i].referee) == referee,
        (Double { bits: 0 }).at_most(states[i].sim_time) ==> worlds[i].sim_time == states[i].sim_time,
        states[i].sim_time.less(Double { bits: 0 }) ==> worlds[i].sim_time.bits == 0,
{
    assert(world_views(worlds).len() == worlds.len());
    assert(published_worlds(states, field, score, referee, debug).len() == states.len());
    assert(world_views(worlds)[i] == worlds[i]@);
}

/// The field in a snapshot is the configured one: each length in its place, with a boundary as wide
/// as the wider margin.
pub proof fn law_the_snapshot_shows_the_field(field: FieldConfig)
    requires
        !field.margin_touch_line.is_nan_spec(),
        !field.margin_goal_line.is_nan_spec(),
    ensures
        ({
            let g = geometry_of(field);
            &&& g.field_length == field.field_length
            &&& g.field_width == field.field_width
            &&& g.goal_width == field.goal_width
            &&& g.goal_depth == field.goal_depth
            &&& g.penalty_area_depth == field.penalty_depth
            &&& g.penalty_area_width == field.penalty_width
            &&& g.center_circle_radius == field.field_center_radius
            &&& g.line_thickness == field.field_line_width
            &&& field.margin_touch_line.at_most(g.boundary_width)
            &&& field.margin_goal_line.at_most(g.boundary_width)
            &&& g.boundary_width == field.margin_touch_line || g.boundary_width
                == field.margin_goal_line
            &&& g.max_robot_radius_mm.bits == 0x4056_8000_0000_0000
            &&& g.ball_radius_mm.bits == 0x4035_8000_0000_0000
        }),
{
}

/// Each published robot's task is what the debug data of its world says first of that robot, and none
/// where nothing is said of it.
pub proof fn law_tasks_are_those_of_the_debug_data(m: DebugModel, team: TeamColor, id: usize)
    ensures
        match task_of(Some(m), team, id) {
            Some(task) => exists|k: int|
                0 <= k < m.robots.len() && (#[trigger] m.robots[k]).team == team && m.robots[k].id
                    == id && m.robots[k].task == task && forall|j: int|
                    0 <= j < k ==> !((#[trigger] m.robots[j]).team == team && m.robots[j].id == id),
            None => forall|k: int|
                0 <= k < m.robots.len() ==> !((#[trigger] m.robots[k]).team == team
                    && m.robots[k].id == id),
        },
        task_of(None, team, id) is None,
{
    debug::lemma_robot_place(m.robots, team, id);
    let k = debug::robot_place(m.robots, team, id);
    if k < m.robots.len() {
        assert(m.robots[k].task == task_of(Some(m), team, id)->0);
    }
}

/// The task that is published of a robot is the one that its world's debug data names for it.
pub proof fn law_robots_are_published_with_their_tasks(
    state: WorldState,
    field: FieldConfig,
    score: Score,
    referee: Option<RefereeModel>,
    debug: Map<usize, DebugModel>,
    k: int,
)
    requires
        0 <= k < state.blue_robots@.len() + state.yellow_robots@.len(),
    ensures
        ({
            let robot = if k < state.blue_robots@.len() {
                state.blue_robots@[k]
            } else {
                state.yellow_robots@[k - state.blue_robots@.len()]
            };
            let snapshot = if debug.contains_key(state.world_id) {
                Some(debug[state.world_id])
            } else {
                None
            };
            let robots = published_world(state, field, score, referee, debug).robots;
            exists|j: int|
                0 <= j < robots.len() && shows_robot(#[trigger] robots[j], robot) && robots[j].task
                    == task_of(snapshot, robot.team, robot.id)
        }),
{
    let listed = robots_with_tasks(state, debug_of(debug, state.world_id));
    let all = state.blue_robots@ + state.yellow_robots@;
    let j = order::lemma_sorted_place(listed, k);
    let robots = published_world(state, field, score, referee, debug).robots;
    assert(shows_robot(robots[j], all[k]));
}

/// The referee says what the game state says: its command, counter and stage, with the score that is
/// published; nothing where there is no game state.
pub proof fn law_the_referee_says_the_game_state(
    game_state: Option<PublishedGameState<'_>>,
    score: Score,
)
    ensures
        referee_for(game_state, score) is Some <==> game_state is Some,
        game_state matches Some(g) ==> {
            let r = referee_for(game_state, score)->0;
            &&& r.command == g.command@
            &&& r.command_counter == g.command_counter
            &&& g.stage matches Some(stage) ==> r.stage == Some(stage@)
            &&& g.stage is None ==> r.stage is None
            &&& r.score == score
            &&& r.next_command is None
            &&& r.stage_time_left_ns is None
            &&& r.action_time_remaining_ns is None
            &&& r.designated_position is None
            &&& r.blue_team_on_positive_half is None
        },
{
}

/// What is said of the referee is said of its own parts.
pub proof fn law_the_referee_is_seen_as_it_is(r: RefereeState)
    ensures
        r@.stage is Some == r.stage is Some,
        r.stage is Some ==> r@.stage->0 == r.stage->0@,
        r@.command == r.command@,
        r@.next_command is Some == r.next_command is Some,
        r.next_command is Some ==> r@.next_command->0 == r.next_command->0@,
        r@.command_counter == r.command_counter,
        r@.stage_time_left_ns == r.stage_time_left_ns,
        r@.action_time_remaining_ns == r.action_time_remaining_ns,
        r@.designated_position == r.designated_position,
        r@.blue_team_on_positive_half == r.blue_team_on_positive_half,
        r@.score == r.score,
{
}

} // verus!
