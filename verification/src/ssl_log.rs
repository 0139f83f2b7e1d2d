//! Turning an SSL log into a replay log.
//!
//! Whoever reads the log decodes its packets and does the arithmetic: lengths come in metres,
//! times in seconds since the first packet.

use vstd::prelude::*;
use crate::number;
use crate::number::Double;
use crate::order;
use crate::order::{insert_ranked, Ranked};
use crate::playback;
use crate::playback::VisionLogSource;
use crate::replay::{ReplayEvent, ReplayEventKind, ReplayFrame, ReplayLog, ReplayMetadata};
use crate::state::{
    BallState, FieldConfig, RobotConfig, RobotKey, RobotState, TeamColor, WorldCommand, WorldConfig,
    WorldState,
};
use crate::table;
use crate::table::Table;
use crate::text;
use crate::text::{concat_text, decimal_text, signed_text};
use crate::trackers::GameStateInfo;

verus! {

// ---------------------------------------------------------------------------
// Robots and the ball

impl Ranked for RobotState {
    open spec fn rank(self) -> int {
        self.id as int
    }

    fn is_after(&self, other: &Self) -> (r: bool) {
        self.id > other.id
    }
}

pub open spec fn zero() -> Double {
    Double { bits: number::ZERO_BITS }
}

/// A ball that nothing is known of lies in the centre.
pub open spec fn resting_ball() -> BallState {
    BallState { x: zero(), y: zero(), z: zero(), vx: zero(), vy: zero(), vz: zero() }
}

fn ball_at_rest() -> (r: BallState)
    ensures
        r == resting_ball(),
{
    let z = Double::zero();
    BallState { x: z, y: z, z, vx: z, vy: z, vz: z }
}

/// A robot as a tracker tells of it.
#[derive(Debug, Clone, Copy)]
pub struct TrackedEntry {
    pub id: Option<u32>,
    /// Its team, where the tracker names one that there is.
    pub team: Option<TeamColor>,
    pub x: Double,
    pub y: Double,
    pub orientation: Double,
    pub velocity: Option<(Double, Double)>,
    pub angular_velocity: Option<Double>,
    pub visibility: Option<Double>,
}

pub open spec fn or_zero(d: Option<Double>) -> Double {
    match d {
        Some(d) => d,
        None => zero(),
    }
}

/// The state of a tracked robot. It is on unless it is known to be invisible.
pub open spec fn tracked_state(e: TrackedEntry, team: TeamColor) -> RobotState {
    RobotState {
        id: match e.id {
            Some(id) => id as usize,
            None => 0,
        },
        team,
        x: e.x,
        y: e.y,
        z: zero(),
        orientation: e.orientation,
        vx: match e.velocity {
            Some(v) => v.0,
            None => zero(),
        },
        vy: match e.velocity {
            Some(v) => v.1,
            None => zero(),
        },
        vz: zero(),
        v_angular: or_zero(e.angular_velocity),
        infrared: false,
        dribbler_on: false,
        kick_status: 0,
        is_on: match e.visibility {
            Some(v) => zero().less(v),
            None => true,
        },
        wheel_speeds: [zero(), zero(), zero(), zero()],
    }
}

pub fn tracked_robot(e: &TrackedEntry, team: TeamColor) -> (r: RobotState)
    ensures
        r == tracked_state(*e, team),
{
    let z = Double::zero();
    let (vx, vy) = match e.velocity {
        Some(v) => v,
        None => (z, z),
    };
    RobotState {
        id: match e.id {
            Some(id) => id as usize,
            None => 0,
        },
        team,
        x: e.x,
        y: e.y,
        z,
        orientation: e.orientation,
        vx,
        vy,
        vz: z,
        v_angular: match e.angular_velocity {
            Some(w) => w,
            None => z,
        },
        infrared: false,
        dribbler_on: false,
        kick_status: 0,
        is_on: match e.visibility {
            Some(v) => z.is_less(v),
            None => true,
        },
        wheel_speeds: [z, z, z, z],
    }
}

/// A frame of a tracker.
pub struct TrackedFrame {
    pub timestamp: Double,
    pub frame_number: u32,
    /// The first of its balls.
    pub ball: Option<BallState>,
    pub robots: Vec<TrackedEntry>,
}

/// The states of a team's robots, in the order in which they are told of.
pub open spec fn team_states(entries: Seq<TrackedEntry>, team: TeamColor) -> Seq<RobotState>
    decreases entries.len(),
{
    if entries.len() == 0 {
        Seq::empty()
    } else {
        let before = team_states(entries.drop_last(), team);
        if entries.last().team == Some(team) {
            before.push(tracked_state(entries.last(), team))
        } else {
            before
        }
    }
}

pub open spec fn ball_or_rest(ball: Option<BallState>) -> BallState {
    match ball {
        Some(b) => b,
        None => resting_ball(),
    }
}

/// Whether `s` is the state of the only world, with these robots in the order of their numbers.
pub open spec fn is_state(
    s: WorldState,
    frame: u64,
    sim_time: Double,
    ball: BallState,
    blue: Seq<RobotState>,
    yellow: Seq<RobotState>,
) -> bool {
    &&& s.world_id == 0
    &&& s.sim_time == sim_time
    &&& s.frame == frame
    &&& s.ball == ball
    &&& s.blue_robots@ == order::sorted(blue)
    &&& s.yellow_robots@ == order::sorted(yellow)
    &&& !s.goal_blue
    &&& !s.goal_yellow
}

fn sorted_team(entries: &Vec<TrackedEntry>, team: TeamColor) -> (r: Vec<RobotState>)
    ensures
        r@ == order::sorted(team_states(entries@, team)),
{
    let mut robots: Vec<RobotState> = Vec::new();
    let mut i: usize = 0;
    while i < entries.len()
        invariant
            i <= entries@.len(),
            robots@ == order::sorted(team_states(entries@.take(i as int), team)),
        decreases entries@.len() - i,
    {
        let ghost before = team_states(entries@.take(i as int), team);
        proof {
            assert(entries@.take(i + 1).drop_last() == entries@.take(i as int));
            assert(entries@.take(i + 1).last() == entries@[i as int]);
        }
        let entry = entries[i];
        let mine = match entry.team {
            Some(t) => t == team,
            None => false,
        };
        if mine {
            let state = tracked_robot(&entry, team);
            assert(before.push(state).drop_last() =~= before);
            insert_ranked(&mut robots, state);
        }
        i += 1;
    }
    assert(entries@.take(i as int) == entries@);
    robots
}

/// The state that a tracker's frame tells of; robots of no team are left out.
pub fn tracked_frame_to_state(frame: &TrackedFrame, frame_number: u64, sim_time: Double) -> (s:
    WorldState)
    ensures
        is_state(
            s,
            frame_number,
            sim_time,
            ball_or_rest(frame.ball),
            team_states(frame.robots@, TeamColor::Blue),
            team_states(frame.robots@, TeamColor::Yellow),
        ),
{
    let ball = match frame.ball {
        Some(b) => b,
        None => ball_at_rest(),
    };
    WorldState {
        world_id: 0,
        sim_time,
        frame: frame_number,
        ball,
        blue_robots: sorted_team(&frame.robots, TeamColor::Blue),
        yellow_robots: sorted_team(&frame.robots, TeamColor::Yellow),
        goal_blue: false,
        goal_yellow: false,
    }
}

/// A tracked ball: where it is, and how it moves where that is told.
pub open spec fn ball_of(
    x: Double,
    y: Double,
    z: Double,
    velocity: Option<(Double, Double, Double)>,
) -> BallState {
    let v = match velocity {
        Some(v) => v,
        None => (zero(), zero(), zero()),
    };
    BallState { x, y, z, vx: v.0, vy: v.1, vz: v.2 }
}

pub fn tracked_ball(
    x: Double,
    y: Double,
    z: Double,
    velocity: Option<(Double, Double, Double)>,
) -> (r: BallState)
    ensures
        r == ball_of(x, y, z, velocity),
{
    let (vx, vy, vz) = match velocity {
        Some(v) => v,
        None => (Double::zero(), Double::zero(), Double::zero()),
    };
    BallState { x, y, z, vx, vy, vz }
}

/// A robot as a raw detection tells of it: where it is, and on.
pub open spec fn detected_state(
    id: Option<u32>,
    team: TeamColor,
    x: Double,
    y: Double,
    orientation: Option<Double>,
) -> RobotState {
    tracked_state(
        TrackedEntry {
            id,
            team: Some(team),
            x,
            y,
            orientation: or_zero(orientation),
            velocity: None,
            angular_velocity: None,
            visibility: None,
        },
        team,
    )
}

pub fn detection_robot(
    id: Option<u32>,
    team: TeamColor,
    x: Double,
    y: Double,
    orientation: Option<Double>,
) -> (r: RobotState)
    ensures
        r == detected_state(id, team, x, y, orientation),
        r.is_on,
{
    let orientation = match orientation {
        Some(o) => o,
        None => Double::zero(),
    };
    tracked_robot(
        &TrackedEntry {
            id,
            team: Some(team),
            x,
            y,
            orientation,
            velocity: None,
            angular_velocity: None,
            visibility: None,
        },
        team,
    )
}

// ---------------------------------------------------------------------------
// The field

/// The field as a geometry packet tells of it.
#[derive(Debug, Clone, Copy, PartialEq, Eq, Structural)]
pub struct GeometryPacket {
    pub field_length: Double,
    pub field_width: Double,
    pub goal_width: Double,
    pub goal_depth: Double,
    pub boundary_width: Double,
    pub boundary_width_goal_line: Option<Double>,
    pub penalty_area_width: Option<Double>,
    pub penalty_area_depth: Option<Double>,
    pub center_circle_radius: Option<Double>,
    pub line_thickness: Option<Double>,
    pub goal_height: Option<Double>,
    pub ball_radius: Option<Double>,
    pub max_robot_radius: Option<Double>,
}

pub open spec fn told_or(told: Option<Double>, known: Double) -> Double {
    match told {
        Some(d) => d,
        None => known,
    }
}

/// The world with the field that a packet tells of; what it does not tell stays as it was, but for
/// the boundary behind the goals, which is then as wide as the other.
pub open spec fn with_geometry(config: WorldConfig, g: GeometryPacket) -> WorldConfig {
    WorldConfig {
        field: FieldConfig {
            field_length: g.field_length,
            field_width: g.field_width,
            goal_width: g.goal_width,
            goal_depth: g.goal_depth,
            goal_height: told_or(g.goal_height, config.field.goal_height),
            margin_touch_line: g.boundary_width,
            margin_goal_line: told_or(g.boundary_width_goal_line, g.boundary_width),
            penalty_depth: told_or(g.penalty_area_depth, config.field.penalty_depth),
            penalty_width: told_or(g.penalty_area_width, config.field.penalty_width),
            field_center_radius: told_or(
                g.center_circle_radius,
                config.field.field_center_radius,
            ),
            field_line_width: told_or(g.line_thickness, config.field.field_line_width),
        },
        ball_radius: told_or(g.ball_radius, config.ball_radius),
        blue_robots: RobotConfig {
            radius: told_or(g.max_robot_radius, config.blue_robots.radius),
            ..config.blue_robots
        },
        yellow_robots: RobotConfig {
            radius: told_or(g.max_robot_radius, config.yellow_robots.radius),
            ..config.yellow_robots
        },
        ..config
    }
}

fn pick(told: Option<Double>, known: Double) -> (r: Double)
    ensures
        r == told_or(told, known),
{
    match told {
        Some(d) => d,
        None => known,
    }
}

/// Takes the field from a geometry packet.
pub fn apply_geometry(config: &mut WorldConfig, g: &GeometryPacket)
    ensures
        *final(config) == with_geometry(*old(config), *g),
{
    config.field.field_length = g.field_length;
    config.field.field_width = g.field_width;
    config.field.goal_width = g.goal_width;
    config.field.goal_depth = g.goal_depth;
    config.field.margin_touch_line = g.boundary_width;
    config.field.margin_goal_line = pick(g.boundary_width_goal_line, g.boundary_width);
    config.field.penalty_width = pick(g.penalty_area_width, config.field.penalty_width);
    config.field.penalty_depth = pick(g.penalty_area_depth, config.field.penalty_depth);
    config.field.field_center_radius = pick(
        g.center_circle_radius,
        config.field.field_center_radius,
    );
    config.field.field_line_width = pick(g.line_thickness, config.field.field_line_width);
    config.field.goal_height = pick(g.goal_height, config.field.goal_height);
    config.ball_radius = pick(g.ball_radius, config.ball_radius);
    config.blue_robots.radius = pick(g.max_robot_radius, config.blue_robots.radius);
    config.yellow_robots.radius = pick(g.max_robot_radius, config.yellow_robots.radius);
}

// ---------------------------------------------------------------------------
// Tracking raw detections

/// How long a robot is shown that is not seen any more: 0.45 seconds.
pub const TRACK_SECONDS_BITS: u64 = 0x3fdc_cccc_cccc_cccd;

#[derive(Debug, Clone, Copy, PartialEq, Eq, Structural)]
pub struct SeenBall {
    pub state: BallState,
    pub sim_time: Double,
}

#[derive(Debug, Clone, Copy)]
pub struct SeenRobot {
    pub state: RobotState,
    pub sim_time: Double,
}

/// A robot that was seen, where it would be by now, and how long ago it was seen.
#[derive(Debug, Clone, Copy)]
pub struct AgedRobot {
    pub state: RobotState,
    pub age: Double,
}

pub struct VisionTracker {
    pub ball: Option<SeenBall>,
    pub robots: Table<RobotKey, SeenRobot>,
}

pub open spec fn seen_key(team: TeamColor, id: usize) -> RobotKey {
    RobotKey { world_id: 0, team, id }
}

pub struct TrackerModel {
    pub ball: Option<SeenBall>,
    pub robots: Map<RobotKey, SeenRobot>,
}

impl TrackerModel {
    /// With the ball as it was seen at `sim_time`.
    pub open spec fn with_ball(self, state: BallState, sim_time: Double) -> TrackerModel {
        TrackerModel { ball: Some(SeenBall { state, sim_time }), ..self }
    }

    /// The ball where it was seen last.
    pub open spec fn last_ball(self) -> BallState {
        match self.ball {
            Some(b) => b.state,
            None => resting_ball(),
        }
    }

    /// With a robot as it was seen at `sim_time`.
    pub open spec fn with_robot(self, state: RobotState, sim_time: Double) -> TrackerModel {
        TrackerModel {
            robots: self.robots.insert(
                seen_key(state.team, state.id),
                SeenRobot { state, sim_time },
            ),
            ..self
        }
    }

    /// What was seen of a robot last.
    pub open spec fn last_seen(self, team: TeamColor, id: usize) -> Option<SeenRobot> {
        if self.robots.contains_key(seen_key(team, id)) {
            Some(self.robots[seen_key(team, id)])
        } else {
            None
        }
    }
}

impl View for VisionTracker {
    type V = TrackerModel;

    open spec fn view(&self) -> TrackerModel {
        TrackerModel { ball: self.ball, robots: self.robots@ }
    }
}

/// The keys of a team's robots among rows of what was seen.
pub open spec fn team_keys(rows: Seq<(RobotKey, SeenRobot)>, team: TeamColor) -> Seq<RobotKey>
    decreases rows.len(),
{
    if rows.len() == 0 {
        Seq::empty()
    } else {
        let before = team_keys(rows.drop_last(), team);
        if rows.last().0.team == team {
            before.push(rows.last().0)
        } else {
            before
        }
    }
}

/// Whether `keys` are those of a team's robots among what was seen, each once, and `seen` is what
/// was seen of each.
pub open spec fn lists_team(
    robots: Map<RobotKey, SeenRobot>,
    team: TeamColor,
    keys: Seq<RobotKey>,
    seen: Seq<SeenRobot>,
) -> bool {
    &&& keys.no_duplicates()
    &&& seen.len() == keys.len()
    &&& forall|k: RobotKey|
        #[trigger] keys.contains(k) <==> robots.contains_key(k) && k.team == team
    &&& forall|i: int| 0 <= i < keys.len() ==> seen[i] == robots[#[trigger] keys[i]]
}

proof fn lemma_team_rows(rows: Seq<(RobotKey, SeenRobot)>, team: TeamColor)
    requires
        table::distinct_keys(rows),
    ensures
        lists_team(
            table::rows_map(rows),
            team,
            team_keys(rows, team),
            team_rows(rows, team),
        ),
    decreases rows.len(),
{
    let all = table::rows_map(rows);
    let keys = team_keys(rows, team);
    table::law_rows_are_the_mapping(rows);
    if rows.len() > 0 {
        let init = rows.drop_last();
        let last = rows.last().0;
        assert forall|i: int, j: int| 0 <= i < j < init.len() implies (#[trigger] init[i]).0@ != (
        #[trigger] init[j]).0@ by {
            assert(rows[i].0@ != rows[j].0@);
        }
        lemma_team_rows(init, team);
        table::law_rows_are_the_mapping(init);
        let before = table::rows_map(init);
        let old_keys = team_keys(init, team);
        assert(!before.contains_key(last)) by {
            assert forall|i: int| 0 <= i < init.len() implies (#[trigger] init[i]).0@ != last@ by {
                assert(rows[i].0@ != rows[rows.len() - 1].0@);
            }
        }
        assert(rows[rows.len() - 1].0@ == last);
        assert forall|k: RobotKey| k != last implies (all.contains_key(k) <==> before.contains_key(
            k,
        )) && (before.contains_key(k) ==> all[k] == before[k]) by {
            if all.contains_key(k) {
                let i = table::row_of(rows, k);
                assert(rows[i].0@ == k);
                assert(init[i] == rows[i]);
                assert(before.contains_key(init[i].0@));
            }
            if before.contains_key(k) {
                let i = table::row_of(init, k);
                assert(init[i].0@ == k);
                assert(rows[i] == init[i]);
                assert(all.contains_key(rows[i].0@));
            }
        }
        assert(!old_keys.contains(last));
        assert forall|k: RobotKey|
            #[trigger] keys.contains(k) <==> all.contains_key(k) && k.team == team by {
            if last.team == team {
                assert(keys == old_keys.push(last));
                if keys.contains(k) {
                    let i = choose|i: int| 0 <= i < keys.len() && keys[i] == k;
                    if i < old_keys.len() {
                        assert(old_keys[i] == k);
                        assert(old_keys.contains(k));
                    }
                }
                if old_keys.contains(k) {
                    let i = choose|i: int| 0 <= i < old_keys.len() && old_keys[i] == k;
                    assert(keys[i] == k);
                }
                assert(keys[old_keys.len() as int] == last);
            }
        }
        assert forall|i: int| 0 <= i < keys.len() implies team_rows(rows, team)[i]
            == all[#[trigger] keys[i]] by {
            if i < old_keys.len() {
                assert(keys[i] == old_keys[i]);
                assert(old_keys.contains(old_keys[i]));
            } else {
                assert(all[rows[rows.len() - 1].0@] == rows[rows.len() - 1].1);
            }
        }
        assert(keys.no_duplicates()) by {
            assert forall|i: int, j: int|
                0 <= i < keys.len() && 0 <= j < keys.len() && i != j implies keys[i] != keys[j] by {
                if i < old_keys.len() {
                    assert(old_keys.contains(old_keys[i]));
                }
                if j < old_keys.len() {
                    assert(old_keys.contains(old_keys[j]));
                }
            }
        }
    }
}

/// The robots of a team among rows of what was seen.
pub open spec fn team_rows(rows: Seq<(RobotKey, SeenRobot)>, team: TeamColor) -> Seq<SeenRobot>
    decreases rows.len(),
{
    if rows.len() == 0 {
        Seq::empty()
    } else {
        let before = team_rows(rows.drop_last(), team);
        if rows.last().0.team == team {
            before.push(rows.last().1)
        } else {
            before
        }
    }
}

/// The robots that are still shown, all of them on.
pub open spec fn still_shown(aged: Seq<AgedRobot>) -> Seq<RobotState>
    decreases aged.len(),
{
    if aged.len() == 0 {
        Seq::empty()
    } else {
        let before = still_shown(aged.drop_last());
        if (Double { bits: TRACK_SECONDS_BITS }).less(aged.last().age) {
            before
        } else {
            before.push(RobotState { is_on: true, ..aged.last().state })
        }
    }
}

impl VisionTracker {
    pub fn new() -> (t: VisionTracker)
        ensures
            t@ == (TrackerModel { ball: None, robots: Map::empty() }),
    {
        VisionTracker { ball: None, robots: Table::new() }
    }

    /// Takes the ball that was seen, its velocity worked out from the one seen before; without one
    /// the ball stays where it was.
    pub fn update_ball(&mut self, seen: Option<BallState>, sim_time: Double) -> (r: BallState)
        ensures
            match seen {
                Some(state) => final(self)@ == old(self)@.with_ball(state, sim_time),
                None => final(self)@ == old(self)@,
            },
            r == final(self)@.last_ball(),
    {
        match seen {
            Some(state) => {
                self.ball = Some(SeenBall { state, sim_time });
                state
            },
            None => match self.ball {
                Some(b) => b.state,
                None => ball_at_rest(),
            },
        }
    }

    /// What was last seen of a robot.
    pub fn seen_before(&self, team: TeamColor, id: usize) -> (r: Option<SeenRobot>)
        ensures
            r == self@.last_seen(team, id),
    {
        match self.robots.get(&RobotKey { world_id: 0, team, id }) {
            Some(seen) => Some(*seen),
            None => None,
        }
    }

    /// Takes a robot that was seen, its velocity worked out from what was seen before.
    pub fn see_robot(&mut self, state: RobotState, sim_time: Double)
        ensures
            final(self)@ == old(self)@.with_robot(state, sim_time),
    {
        let key = RobotKey { world_id: 0, team: state.team, id: state.id };
        self.robots.insert(key, SeenRobot { state, sim_time });
    }

    /// What was seen of a team's robots: each of them once.
    pub fn seen_of(&self, team: TeamColor) -> (r: Vec<SeenRobot>)
        ensures
            r@ == team_rows(self.robots.rows(), team),
            lists_team(self@.robots, team, team_keys(self.robots.rows(), team), r@),
    {
        let ghost rows = self.robots.rows();
        let mut seen: Vec<SeenRobot> = Vec::new();
        let n: usize = self.robots.len();
        let mut i: usize = 0;
        while i < n
            invariant
                rows == self.robots.rows(),
                n as nat == rows.len(),
                i <= rows.len(),
                seen@ == team_rows(rows.take(i as int), team),
            decreases rows.len() - i,
        {
            proof {
                assert(rows.take(i + 1).drop_last() == rows.take(i as int));
                assert(rows.take(i + 1).last() == rows[i as int]);
            }
            let row = self.robots.row(i);
            if row.0.team == team {
                seen.push(row.1);
            }
            i += 1;
        }
        assert(rows.take(i as int) == rows);
        proof {
            lemma_team_rows(rows, team);
        }
        seen
    }
}

/// The robots that are shown of those that were seen: not those seen too long ago, in the order of
/// their numbers.
pub fn shown_robots(aged: &Vec<AgedRobot>) -> (r: Vec<RobotState>)
    ensures
        r@ == order::sorted(still_shown(aged@)),
{
    let mut robots: Vec<RobotState> = Vec::new();
    let mut i: usize = 0;
    while i < aged.len()
        invariant
            i <= aged@.len(),
            robots@ == order::sorted(still_shown(aged@.take(i as int))),
        decreases aged@.len() - i,
    {
        let ghost before = still_shown(aged@.take(i as int));
        proof {
            assert(aged@.take(i + 1).drop_last() == aged@.take(i as int));
            assert(aged@.take(i + 1).last() == aged@[i as int]);
        }
        let robot = aged[i];
        if !(Double { bits: TRACK_SECONDS_BITS }).is_less(robot.age) {
            let mut state = robot.state;
            state.is_on = true;
            assert(before.push(state).drop_last() =~= before);
            insert_ranked(&mut robots, state);
        }
        i += 1;
    }
    assert(aged@.take(i as int) == aged@);
    robots
}

/// The state that a raw detection tells of, once ball and robots are worked out.
pub fn detection_to_state(
    ball: BallState,
    blue: &Vec<AgedRobot>,
    yellow: &Vec<AgedRobot>,
    frame: u64,
    sim_time: Double,
) -> (s: WorldState)
    ensures
        is_state(s, frame, sim_time, ball, still_shown(blue@), still_shown(yellow@)),
{
    WorldState {
        world_id: 0,
        sim_time,
        frame,
        ball,
        blue_robots: shown_robots(blue),
        yellow_robots: shown_robots(yellow),
        goal_blue: false,
        goal_yellow: false,
    }
}

// ---------------------------------------------------------------------------
// The referee

/// A referee's packet. Names are those of the protocol, where it knows the code.
pub struct RefereePacket {
    pub command: i32,
    pub command_name: Option<String>,
    pub command_counter: u32,
    pub stage: i32,
    pub stage_name: Option<String>,
    pub blue_name: String,
    pub yellow_name: String,
}

pub open spec fn name_or_code(name: Option<String>, head: Seq<char>, code: i32) -> Seq<char> {
    match name {
        Some(name) => name@,
        None => head + text::signed_decimal(code as int),
    }
}

/// What an event tells beside its command.
pub open spec fn details_text(
    counter: u32,
    stage: Seq<char>,
    blue: Seq<char>,
    yellow: Seq<char>,
) -> Seq<char> {
    "counter "@ + text::decimal(counter as nat) + "\nstage "@ + stage + "\nblue "@ + blue
        + "\nyellow "@ + yellow
}

/// Whether `e` is the event that a referee's packet becomes, between frames.
pub open spec fn is_referee_event(
    e: ReplayEvent,
    p: RefereePacket,
    frames: nat,
    sim_time: Double,
) -> bool {
    &&& e.frame == frames as u64
    &&& e.sim_time == sim_time
    &&& e.world_id is None
    &&& e.kind is Referee
    &&& e.label@ == name_or_code(p.command_name, "COMMAND_"@, p.command)
    &&& text::text_view(e.details) == Some(
        details_text(
            p.command_counter,
            name_or_code(p.stage_name, "STAGE_"@, p.stage),
            p.blue_name@,
            p.yellow_name@,
        ),
    )
}

fn name_text(name: &Option<String>, head: &str, code: i32) -> (r: String)
    ensures
        r@ == name_or_code(*name, head@, code),
{
    match name {
        Some(name) => name.clone(),
        None => concat_text(head, signed_text(code).as_str()),
    }
}

fn details_of_packet(p: &RefereePacket) -> (r: String)
    ensures
        r@ == details_text(
            p.command_counter,
            name_or_code(p.stage_name, "STAGE_"@, p.stage),
            p.blue_name@,
            p.yellow_name@,
        ),
{
    let stage = name_text(&p.stage_name, "STAGE_", p.stage);
    let text = concat_text("counter ", decimal_text(p.command_counter as u64).as_str());
    let text = concat_text(text.as_str(), "\nstage ");
    let text = concat_text(text.as_str(), stage.as_str());
    let text = concat_text(text.as_str(), "\nblue ");
    let text = concat_text(text.as_str(), p.blue_name.as_str());
    let text = concat_text(text.as_str(), "\nyellow ");
    concat_text(text.as_str(), p.yellow_name.as_str())
}

// ---------------------------------------------------------------------------
// The log

/// The kinds of packets in an SSL log.
#[derive(Debug, Clone, Copy, PartialEq, Eq, Structural)]
pub enum PacketKind {
    Tracker2020,
    Vision2010,
    Vision2014,
    Referee2013,
    Other,
}

/// The replay log as far as it was read.
pub struct SslImport {
    pub config: WorldConfig,
    pub frames: Vec<ReplayFrame>,
    pub events: Vec<ReplayEvent>,
    pub first_capture: Option<Double>,
    pub last_command_counter: Option<u32>,
    pub source: VisionLogSource,
}

/// Whether packets of a kind are read: the tracker's or the raw ones, and the referee's.
pub open spec fn is_read(source: VisionLogSource, kind: PacketKind) -> bool {
    match kind {
        PacketKind::Tracker2020 => source is Tracker2020,
        PacketKind::Vision2010 | PacketKind::Vision2014 => source is Vision2014,
        PacketKind::Referee2013 => true,
        PacketKind::Other => false,
    }
}

/// Whether `f` is the frame of one state without commands or events.
pub open spec fn is_plain_frame(f: ReplayFrame, state: WorldState) -> bool {
    &&& f.frame == state.frame
    &&& f.sim_time == state.sim_time
    &&& f.states@ == seq![state]
    &&& f.commands@.len() == 1
    &&& f.commands@[0].blue@.len() == 0
    &&& f.commands@[0].yellow@.len() == 0
    &&& f.debug@.len() == 0
    &&& f.events@.len() == 0
}

impl SslImport {
    pub fn new(config: WorldConfig, source: VisionLogSource) -> (r: SslImport)
        ensures
            r.config == config,
            r.frames@.len() == 0,
            r.events@.len() == 0,
            r.first_capture is None,
            r.last_command_counter is None,
            r.source == source,
    {
        SslImport {
            config,
            frames: Vec::new(),
            events: Vec::new(),
            first_capture: None,
            last_command_counter: None,
            source,
        }
    }

    pub fn reads(&self, kind: PacketKind) -> (r: bool)
        ensures
            r == is_read(self.source, kind),
    {
        match (kind, self.source) {
            (PacketKind::Tracker2020, VisionLogSource::Tracker2020) => true,
            (PacketKind::Vision2010, VisionLogSource::Vision2014) => true,
            (PacketKind::Vision2014, VisionLogSource::Vision2014) => true,
            (PacketKind::Referee2013, _) => true,
            _ => false,
        }
    }

    /// The time from which the log counts, once a frame of `timestamp` has come.
    pub open spec fn base(self, timestamp: Double) -> Double {
        match self.first_capture {
            Some(first) => first,
            None => timestamp,
        }
    }

    /// The time from which the log counts: that of its first frame, which may be this one.
    pub fn base_time(&mut self, timestamp: Double) -> (base: Double)
        ensures
            base == old(self).base(timestamp),
            *final(self) == (SslImport { first_capture: Some(base), ..*old(self) }),
    {
        match self.first_capture {
            Some(first) => first,
            None => {
                self.first_capture = Some(timestamp);
                timestamp
            },
        }
    }

    /// Adds a frame of one state.
    pub fn add_state(&mut self, state: WorldState)
        ensures
            final(self).frames@.len() == old(self).frames@.len() + 1,
            final(self).frames@.drop_last() == old(self).frames@,
            is_plain_frame(final(self).frames@.last(), state),
            final(self).config == old(self).config,
            final(self).events == old(self).events,
            final(self).first_capture == old(self).first_capture,
            final(self).last_command_counter == old(self).last_command_counter,
            final(self).source == old(self).source,
    {
        let frame: u64 = state.frame;
        let sim_time = state.sim_time;
        let mut states: Vec<WorldState> = Vec::new();
        states.push(state);
        assert(states@ =~= seq![state]);
        let mut commands: Vec<WorldCommand> = Vec::new();
        commands.push(WorldCommand { blue: Vec::new(), yellow: Vec::new() });
        self.frames.push(
            ReplayFrame {
                frame,
                sim_time,
                states,
                commands,
                debug: Vec::new(),
                events: Vec::new(),
            },
        );
        assert(self.frames@.drop_last() =~= old(self).frames@);
    }

    /// Adds a tracker's frame, which was taken `sim_time` seconds after the first.
    pub fn add_tracked(&mut self, frame: &TrackedFrame, sim_time: Double)
        ensures
            final(self).frames@.len() == old(self).frames@.len() + 1,
            final(self).frames@.drop_last() == old(self).frames@,
            exists|state: WorldState|
                #![trigger is_plain_frame(final(self).frames@.last(), state)]
                is_plain_frame(final(self).frames@.last(), state) && is_state(
                    state,
                    frame.frame_number as u64,
                    sim_time,
                    ball_or_rest(frame.ball),
                    team_states(frame.robots@, TeamColor::Blue),
                    team_states(frame.robots@, TeamColor::Yellow),
                ),
            final(self).config == old(self).config,
            final(self).events == old(self).events,
            final(self).first_capture == old(self).first_capture,
            final(self).last_command_counter == old(self).last_command_counter,
            final(self).source == old(self).source,
    {
        let state = tracked_frame_to_state(frame, frame.frame_number as u64, sim_time);
        self.add_state(state);
    }

    /// The time of the last frame, or zero.
    pub open spec fn now(self) -> Double {
        if self.frames@.len() > 0 {
            self.frames@.last().sim_time
        } else {
            zero()
        }
    }

    /// Whether `next` is the import after one more of the referee's packets.
    pub open spec fn has_packet_more(self, next: SslImport, p: RefereePacket) -> bool {
        &&& next.frames == self.frames
        &&& next.config == self.config
        &&& next.first_capture == self.first_capture
        &&& next.source == self.source
        &&& next.last_command_counter == Some(p.command_counter)
        &&& if self.last_command_counter == Some(p.command_counter) {
            next.events == self.events
        } else {
            &&& next.events@.len() == self.events@.len() + 1
            &&& next.events@.drop_last() == self.events@
            &&& is_referee_event(next.events@.last(), p, self.frames@.len(), self.now())
        }
    }

    /// Adds a referee's packet; one whose command was told already changes nothing.
    pub fn add_referee(&mut self, p: &RefereePacket)
        ensures
            old(self).has_packet_more(*final(self), *p),
    {
        let known = match self.last_command_counter {
            Some(counter) => counter == p.command_counter,
            None => false,
        };
        if known {
            return;
        }
        let sim_time = if self.frames.len() > 0 {
            self.frames[self.frames.len() - 1].sim_time
        } else {
            Double::zero()
        };
        let label = name_text(&p.command_name, "COMMAND_", p.command);
        let details = Some(details_of_packet(p));
        self.events.push(
            ReplayEvent {
                frame: self.frames.len() as u64,
                sim_time,
                world_id: None,
                kind: ReplayEventKind::Referee,
                label,
                details,
            },
        );
        self.last_command_counter = Some(p.command_counter);
        assert(self.events@.drop_last() =~= old(self).events@);
    }

    /// The number of steps from the first frame to the last, and their times.
    pub open spec fn span(self) -> Option<(usize, Double, Double)> {
        if self.frames@.len() < 2 || self.frames@.last().sim_time.at_most(self.frames@[0].sim_time) {
            None
        } else {
            Some(
                (
                    (self.frames@.len() - 1) as usize,
                    self.frames@[0].sim_time,
                    self.frames@.last().sim_time,
                ),
            )
        }
    }

    /// What the frames a second are worked out from: the number of steps, and the first and the
    /// last time. `None` where there are no two frames, or no time passes.
    pub fn tick_span(&self) -> (r: Option<(usize, Double, Double)>)
        ensures
            r == self.span(),
    {
        let n: usize = self.frames.len();
        if n < 2 {
            return None;
        }
        let first = self.frames[0].sim_time;
        let last = self.frames[n - 1].sim_time;
        if last.is_at_most(first) {
            None
        } else {
            Some((n - 1, first, last))
        }
    }

    /// The replay log of all that was read.
    pub open spec fn finished(self, tick_hz: Option<Double>, source: String) -> ReplayLog {
        ReplayLog {
            metadata: ReplayMetadata {
                world_count: 1,
                world_config: self.config,
                tick_hz: match tick_hz {
                    Some(hz) => hz,
                    None => Double { bits: DEFAULT_TICK_HZ_BITS },
                },
                source,
            },
            frames: self.frames,
            events: self.events,
        }
    }

    /// The replay log of all that was read; 60 frames a second where that could not be worked out.
    pub fn finish(self, tick_hz: Option<Double>, source: String) -> (r: ReplayLog)
        ensures
            r == self.finished(tick_hz, source),
    {
        ReplayLog {
            metadata: ReplayMetadata {
                world_count: 1,
                world_config: self.config,
                tick_hz: match tick_hz {
                    Some(hz) => hz,
                    None => Double { bits: DEFAULT_TICK_HZ_BITS },
                },
                source,
            },
            frames: self.frames,
            events: self.events,
        }
    }
}

/// The frames a second of a log that does not tell: 60.
pub const DEFAULT_TICK_HZ_BITS: u64 = 0x404e_0000_0000_0000;

// ---------------------------------------------------------------------------
// What is written is what is read

/// A text on one line, without white space around it.
pub open spec fn is_word(s: Seq<char>) -> bool {
    &&& !s.contains('\n')
    &&& s.len() > 0 ==> !text::is_space(s[0]) && !text::is_space(s.last())
}

proof fn lemma_word_is_trimmed(s: Seq<char>)
    requires
        is_word(s),
    ensures
        text::trimmed(s) == s,
{
}

/// One line of an event's details.
pub open spec fn detail_line(key: Seq<char>, value: Seq<char>) -> Seq<char> {
    key + seq![' '] + value
}

proof fn lemma_details_lines(counter: u32, stage: Seq<char>, blue: Seq<char>, yellow: Seq<char>)
    requires
        is_word(stage),
        is_word(blue),
        is_word(yellow),
    ensures
        text::lines(details_text(counter, stage, blue, yellow)) == seq![
            detail_line("counter"@, text::decimal(counter as nat)),
            detail_line("stage"@, stage),
            detail_line("blue"@, blue),
            detail_line("yellow"@, yellow),
        ],
{
    reveal_strlit("counter ");
    reveal_strlit("\nstage ");
    reveal_strlit("\nblue ");
    reveal_strlit("\nyellow ");
    reveal_strlit("counter");
    reveal_strlit("stage");
    reveal_strlit("blue");
    reveal_strlit("yellow");
    let number = text::decimal(counter as nat);
    text::lemma_decimal_digits(counter as nat);
    let l0 = detail_line("counter"@, number);
    let l1 = detail_line("stage"@, stage);
    let l2 = detail_line("blue"@, blue);
    let l3 = detail_line("yellow"@, yellow);
    let s = details_text(counter, stage, blue, yellow);
    let nl = seq!['\n'];
    assert("counter "@ =~= "counter"@ + seq![' ']);
    assert("\nstage "@ =~= nl + "stage"@ + seq![' ']);
    assert("\nblue "@ =~= nl + "blue"@ + seq![' ']);
    assert("\nyellow "@ =~= nl + "yellow"@ + seq![' ']);
    let t2 = l2 + nl + l3;
    let t1 = l1 + nl + t2;
    assert(s =~= l0 + nl + t1);
    lemma_line_has_no_break("counter"@, number);
    lemma_line_has_no_break("stage"@, stage);
    lemma_line_has_no_break("blue"@, blue);
    lemma_line_has_no_break("yellow"@, yellow);
    text::lemma_pieces_of_joined(l0, '\n', t1);
    text::lemma_pieces_of_joined(l1, '\n', t2);
    text::lemma_pieces_of_joined(l2, '\n', l3);
    text::lemma_one_piece(l3, '\n');
    let p = text::pieces(s, '\n');
    assert(p =~= seq![l0, l1, l2, l3]);
    lemma_line_end("counter"@, number);
    lemma_line_end("stage"@, stage);
    lemma_line_end("blue"@, blue);
    assert(text::lines(s) =~= seq![l0, l1, l2, l3]);
}

proof fn lemma_line_has_no_break(key: Seq<char>, value: Seq<char>)
    requires
        !key.contains('\n'),
        !value.contains('\n'),
    ensures
        !detail_line(key, value).contains('\n'),
{
    let l = detail_line(key, value);
    assert forall|i: int| 0 <= i < l.len() implies #[trigger] l[i] != '\n' by {
        if i < key.len() {
            assert(l[i] == key[i]);
        } else if i > key.len() {
            assert(l[i] == value[i - key.len() - 1]);
        }
    }
}

proof fn lemma_line_end(key: Seq<char>, value: Seq<char>)
    requires
        is_word(value),
    ensures
        detail_line(key, value).last() != '\r',
{
    let l = detail_line(key, value);
    if value.len() > 0 {
        assert(l.last() == value.last());
    } else {
        assert(l.last() == ' ');
    }
}

proof fn lemma_detail_of_line(lines: Seq<Seq<char>>, key: Seq<char>, value: Seq<char>, wanted: Seq<char>)
    requires
        lines.len() > 0,
        lines[0] == detail_line(key, value),
        !key.contains(' '),
    ensures
        playback::detail_in(lines, wanted) == (if key == wanted {
            Some(text::trimmed(value))
        } else {
            playback::detail_in(lines.drop_first(), wanted)
        }),
{
    text::lemma_pieces_of_joined(key, ' ', value);
}

/// What a referee's packet said is what a playback of its event tells: the counter, the stage and
/// both names, where these are texts on one line without white space around them.
pub proof fn law_referee_packets_are_told(
    p: RefereePacket,
    e: ReplayEvent,
    info: GameStateInfo,
    frames: nat,
    sim_time: Double,
)
    requires
        is_referee_event(e, p, frames, sim_time),
        playback::is_told_by(info, e),
        is_word(name_or_code(p.stage_name, "STAGE_"@, p.stage)),
        is_word(p.blue_name@),
        is_word(p.yellow_name@),
    ensures
        info.command@ == name_or_code(p.command_name, "COMMAND_"@, p.command),
        info.command_counter == p.command_counter,
        text::text_view(info.stage) == Some(name_or_code(p.stage_name, "STAGE_"@, p.stage)),
        text::text_view(info.blue_name) == (if p.blue_name@.len() > 0 {
            Some(p.blue_name@)
        } else {
            None
        }),
        text::text_view(info.yellow_name) == (if p.yellow_name@.len() > 0 {
            Some(p.yellow_name@)
        } else {
            None
        }),
{
    let stage = name_or_code(p.stage_name, "STAGE_"@, p.stage);
    let number = text::decimal(p.command_counter as nat);
    lemma_details_lines(p.command_counter, stage, p.blue_name@, p.yellow_name@);
    let l = text::lines(playback::details_of(e));
    reveal_strlit("counter");
    reveal_strlit("stage");
    reveal_strlit("blue");
    reveal_strlit("yellow");
    assert("counter"@.len() != "stage"@.len());
    assert("counter"@.len() != "blue"@.len());
    assert("counter"@.len() != "yellow"@.len());
    assert("stage"@.len() != "blue"@.len());
    assert("stage"@.len() != "yellow"@.len());
    assert("blue"@.len() != "yellow"@.len());
    let l1 = l.drop_first();
    let l2 = l1.drop_first();
    let l3 = l2.drop_first();
    let keys = seq!["counter"@, "stage"@, "blue"@, "yellow"@];
    assert forall|k: int| 0 <= k < 4 implies #[trigger] told(l, keys[k]) == (if k == 0 {
        Some(text::trimmed(number))
    } else if k == 1 {
        Some(text::trimmed(stage))
    } else if k == 2 {
        Some(text::trimmed(p.blue_name@))
    } else {
        Some(text::trimmed(p.yellow_name@))
    }) by {
        lemma_detail_of_line(l, "counter"@, number, keys[k]);
        lemma_detail_of_line(l1, "stage"@, stage, keys[k]);
        lemma_detail_of_line(l2, "blue"@, p.blue_name@, keys[k]);
        lemma_detail_of_line(l3, "yellow"@, p.yellow_name@, keys[k]);
    }
    assert(told(l, keys[0]) == told(l, "counter"@));
    assert(told(l, keys[1]) == told(l, "stage"@));
    assert(told(l, keys[2]) == told(l, "blue"@));
    assert(told(l, keys[3]) == told(l, "yellow"@));
    text::lemma_decimal_digits(p.command_counter as nat);
    assert(is_word(number)) by {
        assert forall|i: int| 0 <= i < number.len() implies #[trigger] number[i] != '\n' by {
            assert(text::is_digit(number[i]));
        }
        assert(text::is_digit(number[0]));
        assert(text::is_digit(number[number.len() - 1]));
    }
    lemma_word_is_trimmed(number);
    lemma_word_is_trimmed(stage);
    lemma_word_is_trimmed(p.blue_name@);
    lemma_word_is_trimmed(p.yellow_name@);
    text::law_decimal_round_trip(p.command_counter as nat, u32::MAX as nat);
}

spec fn told(lines: Seq<Seq<char>>, key: Seq<char>) -> Option<Seq<char>> {
    playback::detail_in(lines, key)
}

// ---------------------------------------------------------------------------
// What is shown is what was seen

/// Whether a robot stands where an entry says that it is, heads and moves as the entry says, and has
/// the entry's number; what the entry does not tell is zero.
pub open spec fn stands_where_told(r: RobotState, e: TrackedEntry) -> bool {
    &&& r.x == e.x
    &&& r.y == e.y
    &&& r.z.bits == 0
    &&& r.orientation == e.orientation
    &&& e.velocity matches Some(v) ==> r.vx == v.0 && r.vy == v.1
    &&& e.velocity is None ==> r.vx.bits == 0 && r.vy.bits == 0
    &&& r.vz.bits == 0
    &&& e.angular_velocity matches Some(w) ==> r.v_angular == w
    &&& e.angular_velocity is None ==> r.v_angular.bits == 0
    &&& e.id matches Some(id) ==> r.id == id
    &&& e.id is None ==> r.id == 0
    &&& r.is_on <==> (e.visibility matches Some(v) ==> (Double { bits: 0 }).less(v))
    &&& !r.infrared
    &&& !r.dribbler_on
}

/// A tracked robot stands where its entry says.
pub proof fn law_tracked_robots_stand_where_told(e: TrackedEntry, team: TeamColor)
    ensures
        tracked_state(e, team).team == team,
        stands_where_told(tracked_state(e, team), e),
{
}

/// A robot of a raw detection stands where it was detected, heads as was detected, rests and is on.
pub proof fn law_detected_robots_stand_where_detected(
    id: Option<u32>,
    team: TeamColor,
    x: Double,
    y: Double,
    orientation: Option<Double>,
)
    ensures
        ({
            let r = detected_state(id, team, x, y, orientation);
            &&& r.team == team
            &&& r.x == x
            &&& r.y == y
            &&& orientation matches Some(o) ==> r.orientation == o
            &&& orientation is None ==> r.orientation.bits == 0
            &&& id matches Some(n) ==> r.id == n
            &&& r.is_on
            &&& r.z.bits == 0 && r.vx.bits == 0 && r.vy.bits == 0 && r.vz.bits == 0
            &&& r.v_angular.bits == 0
        }),
{
}

/// A tracked ball is where it is told to be and moves as is told; one that nothing is told of lies in
/// the centre.
pub proof fn law_tracked_balls_are_where_told(
    x: Double,
    y: Double,
    z: Double,
    velocity: Option<(Double, Double, Double)>,
    known: BallState,
)
    ensures
        ({
            let b = ball_of(x, y, z, velocity);
            &&& b.x == x && b.y == y && b.z == z
            &&& velocity matches Some(v) ==> b.vx == v.0 && b.vy == v.1 && b.vz == v.2
            &&& velocity is None ==> b.vx.bits == 0 && b.vy.bits == 0 && b.vz.bits == 0
        }),
        ball_or_rest(Some(known)) == known,
        ({
            let b = ball_or_rest(None);
            &&& b.x.bits == 0 && b.y.bits == 0 && b.z.bits == 0
            &&& b.vx.bits == 0 && b.vy.bits == 0 && b.vz.bits == 0
        }),
{
}

/// Where an entry's state is among those of its team.
proof fn lemma_state_of_entry(entries: Seq<TrackedEntry>, team: TeamColor, i: int) -> (k: int)
    requires
        0 <= i < entries.len(),
        entries[i].team == Some(team),
    ensures
        0 <= k < team_states(entries, team).len(),
        team_states(entries, team)[k] == tracked_state(entries[i], team),
    decreases entries.len(),
{
    if i < entries.len() - 1 {
        lemma_state_of_entry(entries.drop_last(), team, i)
    } else {
        team_states(entries, team).len() - 1
    }
}

/// Which entry a state of a team comes of.
proof fn lemma_entry_of_state(entries: Seq<TrackedEntry>, team: TeamColor, k: int) -> (i: int)
    requires
        0 <= k < team_states(entries, team).len(),
    ensures
        0 <= i < entries.len(),
        entries[i].team == Some(team),
        team_states(entries, team)[k] == tracked_state(entries[i], team),
    decreases entries.len(),
{
    if k < team_states(entries.drop_last(), team).len() {
        lemma_entry_of_state(entries.drop_last(), team, k)
    } else {
        entries.len() - 1
    }
}

/// Whether each entry of a team has a robot that stands where it says.
pub open spec fn shows_entries(
    robots: Seq<RobotState>,
    entries: Seq<TrackedEntry>,
    team: TeamColor,
) -> bool {
    forall|i: int|
        0 <= i < entries.len() && (#[trigger] entries[i]).team == Some(team) ==> exists|j: int|
            0 <= j < robots.len() && stands_where_told(#[trigger] robots[j], entries[i])
                && robots[j].team == team
}

/// Whether a robot comes of an entry of its team, and stands where that says.
pub open spec fn comes_of_entry(r: RobotState, entries: Seq<TrackedEntry>) -> bool {
    exists|i: int|
        0 <= i < entries.len() && (#[trigger] entries[i]).team == Some(r.team) && stands_where_told(
            r,
            entries[i],
        )
}

/// Whether each robot is of the team and comes of an entry.
pub open spec fn shows_only_entries(
    robots: Seq<RobotState>,
    entries: Seq<TrackedEntry>,
    team: TeamColor,
) -> bool {
    forall|j: int|
        0 <= j < robots.len() ==> (#[trigger] robots[j]).team == team && comes_of_entry(
            robots[j],
            entries,
        )
}

/// Whether robots come in the order of their numbers.
pub open spec fn in_order_of_numbers(robots: Seq<RobotState>) -> bool {
    forall|i: int, j: int|
        0 <= i < j < robots.len() ==> (#[trigger] robots[i]).id <= (#[trigger] robots[j]).id
}

proof fn lemma_sorted_team_shows_entries(entries: Seq<TrackedEntry>, team: TeamColor)
    ensures
        shows_entries(order::sorted(team_states(entries, team)), entries, team),
{
    let states = team_states(entries, team);
    let robots = order::sorted(states);
    assert forall|i: int| 0 <= i < entries.len() && (#[trigger] entries[i]).team == Some(
        team,
    ) implies exists|j: int|
        0 <= j < robots.len() && stands_where_told(#[trigger] robots[j], entries[i])
            && robots[j].team == team by {
        let k = lemma_state_of_entry(entries, team, i);
        let j = order::lemma_sorted_place(states, k);
        assert(stands_where_told(robots[j], entries[i]));
    }
}

proof fn lemma_sorted_team_shows_only_entries(entries: Seq<TrackedEntry>, team: TeamColor)
    ensures
        shows_only_entries(order::sorted(team_states(entries, team)), entries, team),
        in_order_of_numbers(order::sorted(team_states(entries, team))),
{
    let states = team_states(entries, team);
    let robots = order::sorted(states);
    assert forall|j: int| 0 <= j < robots.len() implies (#[trigger] robots[j]).team == team
        && comes_of_entry(robots[j], entries) by {
        let k = order::lemma_sorted_source(states, j);
        let i = lemma_entry_of_state(entries, team, k);
        assert(stands_where_told(robots[j], entries[i]));
    }
    assert forall|i: int, j: int| 0 <= i < j < robots.len() implies (#[trigger] robots[i]).id <= (
    #[trigger] robots[j]).id by {
        order::law_sorted(states);
        assert(robots[i].rank() <= robots[j].rank());
    }
}

/// The frame that comes of a tracker's frame shows what that told: the ball where it was, the time
/// and the number, and for each entry of a team a robot of that team that stands where the entry
/// says; no other robot, and robots in the order of their numbers.
pub proof fn law_imported_frames_show_what_was_tracked(
    f: ReplayFrame,
    s: WorldState,
    frame: TrackedFrame,
    number: u64,
    sim_time: Double,
)
    requires
        is_plain_frame(f, s),
        is_state(
            s,
            number,
            sim_time,
            ball_or_rest(frame.ball),
            team_states(frame.robots@, TeamColor::Blue),
            team_states(frame.robots@, TeamColor::Yellow),
        ),
    ensures
        f.frame == number,
        f.sim_time == sim_time,
        f.states@.len() == 1,
        f.events@.len() == 0,
        f.states@[0].frame == number,
        f.states@[0].sim_time == sim_time,
        f.states@[0].world_id == 0,
        frame.ball matches Some(b) ==> f.states@[0].ball == b,
        shows_entries(f.states@[0].blue_robots@, frame.robots@, TeamColor::Blue),
        shows_only_entries(f.states@[0].blue_robots@, frame.robots@, TeamColor::Blue),
        in_order_of_numbers(f.states@[0].blue_robots@),
        shows_entries(f.states@[0].yellow_robots@, frame.robots@, TeamColor::Yellow),
        shows_only_entries(f.states@[0].yellow_robots@, frame.robots@, TeamColor::Yellow),
        in_order_of_numbers(f.states@[0].yellow_robots@),
{
    lemma_sorted_team_shows_entries(frame.robots@, TeamColor::Blue);
    lemma_sorted_team_shows_only_entries(frame.robots@, TeamColor::Blue);
    lemma_sorted_team_shows_entries(frame.robots@, TeamColor::Yellow);
    lemma_sorted_team_shows_only_entries(frame.robots@, TeamColor::Yellow);
}

/// Whether `r` is `seen`, switched on.
pub open spec fn is_seen_robot(r: RobotState, seen: RobotState) -> bool {
    &&& r.is_on
    &&& r.id == seen.id
    &&& r.team == seen.team
    &&& r.x == seen.x
    &&& r.y == seen.y
    &&& r.orientation == seen.orientation
    &&& r.vx == seen.vx
    &&& r.vy == seen.vy
    &&& r.v_angular == seen.v_angular
}

/// Whether something was seen no longer than 0.45 seconds ago.
pub open spec fn is_recent(age: Double) -> bool {
    !(Double { bits: 0x3fdc_cccc_cccc_cccd }).less(age)
}

proof fn lemma_shown_of_seen(aged: Seq<AgedRobot>, i: int) -> (k: int)
    requires
        0 <= i < aged.len(),
        is_recent(aged[i].age),
    ensures
        0 <= k < still_shown(aged).len(),
        is_seen_robot(still_shown(aged)[k], aged[i].state),
    decreases aged.len(),
{
    if i < aged.len() - 1 {
        lemma_shown_of_seen(aged.drop_last(), i)
    } else {
        still_shown(aged).len() - 1
    }
}

proof fn lemma_seen_of_shown(aged: Seq<AgedRobot>, k: int) -> (i: int)
    requires
        0 <= k < still_shown(aged).len(),
    ensures
        0 <= i < aged.len(),
        is_recent(aged[i].age),
        is_seen_robot(still_shown(aged)[k], aged[i].state),
    decreases aged.len(),
{
    if k < still_shown(aged.drop_last()).len() {
        lemma_seen_of_shown(aged.drop_last(), k)
    } else {
        aged.len() - 1
    }
}

/// Whether each robot seen no longer than 0.45 seconds ago is shown, on, as it was worked out to be.
pub open spec fn shows_recent(robots: Seq<RobotState>, aged: Seq<AgedRobot>) -> bool {
    forall|i: int|
        0 <= i < aged.len() && is_recent((#[trigger] aged[i]).age) ==> exists|j: int|
            0 <= j < robots.len() && is_seen_robot(#[trigger] robots[j], aged[i].state)
}

/// Whether `r` is the robot at place `i` of those that were seen, and that was recent.
pub open spec fn is_recent_robot(r: RobotState, aged: Seq<AgedRobot>, i: int) -> bool {
    &&& 0 <= i < aged.len()
    &&& is_recent(aged[i].age)
    &&& is_seen_robot(r, aged[i].state)
}

pub open spec fn comes_of_recent(r: RobotState, aged: Seq<AgedRobot>) -> bool {
    exists|i: int| is_recent_robot(r, aged, i)
}

/// Whether no robot is shown but those seen no longer than 0.45 seconds ago.
pub open spec fn shows_only_recent(robots: Seq<RobotState>, aged: Seq<AgedRobot>) -> bool {
    forall|j: int| 0 <= j < robots.len() ==> comes_of_recent(#[trigger] robots[j], aged)
}

proof fn lemma_sorted_shows_recent(aged: Seq<AgedRobot>)
    ensures
        shows_recent(order::sorted(still_shown(aged)), aged),
{
    let states = still_shown(aged);
    let robots = order::sorted(states);
    assert forall|i: int| 0 <= i < aged.len() && is_recent(
        (#[trigger] aged[i]).age,
    ) implies exists|j: int|
        0 <= j < robots.len() && is_seen_robot(#[trigger] robots[j], aged[i].state) by {
        let k = lemma_shown_of_seen(aged, i);
        let j = order::lemma_sorted_place(states, k);
        assert(is_seen_robot(robots[j], aged[i].state));
    }
}

proof fn lemma_sorted_shows_only_recent(aged: Seq<AgedRobot>)
    ensures
        shows_only_recent(order::sorted(still_shown(aged)), aged),
{
    let states = still_shown(aged);
    let robots = order::sorted(states);
    assert forall|j: int| 0 <= j < robots.len() implies comes_of_recent(
        #[trigger] robots[j],
        aged,
    ) by {
        let k = order::lemma_sorted_source(states, j);
        let i = lemma_seen_of_shown(aged, k);
        assert(is_recent_robot(robots[j], aged, i));
    }
}

/// The state that comes of a raw detection has the ball where it is, and of each team the robots that
/// are shown still, each where it was worked out to be.
pub proof fn law_detections_show_what_was_seen(
    s: WorldState,
    frame: u64,
    sim_time: Double,
    ball: BallState,
    blue: Seq<AgedRobot>,
    yellow: Seq<AgedRobot>,
)
    requires
        is_state(s, frame, sim_time, ball, still_shown(blue), still_shown(yellow)),
    ensures
        s.frame == frame,
        s.sim_time == sim_time,
        s.ball == ball,
        shows_recent(s.blue_robots@, blue),
        shows_only_recent(s.blue_robots@, blue),
        shows_recent(s.yellow_robots@, yellow),
        shows_only_recent(s.yellow_robots@, yellow),
{
    lemma_sorted_shows_recent(blue);
    lemma_sorted_shows_only_recent(blue);
    lemma_sorted_shows_recent(yellow);
    lemma_sorted_shows_only_recent(yellow);
}

/// What was seen last is what is remembered: of the ball until another is seen, and of each robot
/// until it is seen again, whatever is seen of others.
pub proof fn law_what_is_seen_is_remembered(
    t: TrackerModel,
    ball: BallState,
    robot: RobotState,
    sim_time: Double,
    team: TeamColor,
    id: usize,
)
    ensures
        t.with_ball(ball, sim_time).last_ball() == ball,
        t.with_robot(robot, sim_time).last_ball() == t.last_ball(),
        t.with_ball(ball, sim_time).last_seen(team, id) == t.last_seen(team, id),
        t.with_robot(robot, sim_time).last_seen(robot.team, robot.id) == Some(
            SeenRobot { state: robot, sim_time },
        ),
        robot.team != team || robot.id != id ==> t.with_robot(robot, sim_time).last_seen(team, id)
            == t.last_seen(team, id),
        t.ball is None ==> t.last_ball().x.bits == 0 && t.last_ball().y.bits == 0
            && t.last_ball().vx.bits == 0 && t.last_ball().vy.bits == 0,
{
}

/// The field is as the geometry packet tells: length, width, goals and boundaries, and of the rest
/// what it tells; what it does not tell stays. Nothing but the field and the sizes of ball and robots
/// changes.
pub proof fn law_the_field_is_as_told(config: WorldConfig, g: GeometryPacket)
    ensures
        ({
            let c = with_geometry(config, g);
            &&& c.field.field_length == g.field_length
            &&& c.field.field_width == g.field_width
            &&& c.field.goal_width == g.goal_width
            &&& c.field.goal_depth == g.goal_depth
            &&& c.field.margin_touch_line == g.boundary_width
            &&& g.boundary_width_goal_line is Some ==> g.boundary_width_goal_line == Some(
                c.field.margin_goal_line,
            )
            &&& g.boundary_width_goal_line is None ==> c.field.margin_goal_line == g.boundary_width
            &&& g.goal_height is Some ==> g.goal_height == Some(c.field.goal_height)
            &&& g.goal_height is None ==> c.field.goal_height == config.field.goal_height
            &&& g.penalty_area_depth is Some ==> g.penalty_area_depth == Some(c.field.penalty_depth)
            &&& g.penalty_area_depth is None ==> c.field.penalty_depth == config.field.penalty_depth
            &&& g.penalty_area_width is Some ==> g.penalty_area_width == Some(c.field.penalty_width)
            &&& g.penalty_area_width is None ==> c.field.penalty_width == config.field.penalty_width
            &&& g.center_circle_radius is Some ==> g.center_circle_radius == Some(
                c.field.field_center_radius,
            )
            &&& g.center_circle_radius is None ==> c.field.field_center_radius
                == config.field.field_center_radius
            &&& g.line_thickness is Some ==> g.line_thickness == Some(c.field.field_line_width)
            &&& g.line_thickness is None ==> c.field.field_line_width == config.field.field_line_width
            &&& g.ball_radius is Some ==> g.ball_radius == Some(c.ball_radius)
            &&& g.ball_radius is None ==> c.ball_radius == config.ball_radius
            &&& g.max_robot_radius matches Some(radius) ==> c.blue_robots.radius == radius
                && c.yellow_robots.radius == radius
            &&& g.max_robot_radius is None ==> c.blue_robots == config.blue_robots
                && c.yellow_robots == config.yellow_robots
            &&& c.blue_robots.vel_absolute_max == config.blue_robots.vel_absolute_max
            &&& c.yellow_robots.vel_absolute_max == config.yellow_robots.vel_absolute_max
            &&& c.blue_robots.vel_angular_max == config.blue_robots.vel_angular_max
            &&& c.yellow_robots.vel_angular_max == config.yellow_robots.vel_angular_max
            &&& c.seed == config.seed
            &&& c.robots_per_team == config.robots_per_team
            &&& c.ball_friction == config.ball_friction
            &&& c.gravity == config.gravity
        }),
{
}

/// Of a log either the tracker's packets are read or the raw ones, never both, and the referee's
/// always.
pub proof fn law_packets_that_are_read(source: VisionLogSource)
    ensures
        is_read(source, PacketKind::Tracker2020) <==> source is Tracker2020,
        is_read(source, PacketKind::Vision2010) <==> source is Vision2014,
        is_read(source, PacketKind::Vision2014) <==> source is Vision2014,
        is_read(source, PacketKind::Referee2013),
        !is_read(source, PacketKind::Other),
{
}

/// A referee's packet with a new counter becomes one event of its own, at the time of the last frame
/// and of no world; one whose counter is known adds none. Frames and field stay.
pub proof fn law_referee_packets_become_events(before: SslImport, after: SslImport, p: RefereePacket)
    requires
        before.has_packet_more(after, p),
    ensures
        after.frames == before.frames,
        after.config == before.config,
        before.last_command_counter == Some(p.command_counter) ==> after.events == before.events,
        before.last_command_counter != Some(p.command_counter) ==> {
            &&& after.events@.len() == before.events@.len() + 1
            &&& forall|i: int|
                0 <= i < before.events@.len() ==> #[trigger] after.events@[i] == before.events@[i]
            &&& after.events@.last().kind is Referee
            &&& after.events@.last().world_id is None
            &&& before.frames@.len() > 0 ==> after.events@.last().sim_time
                == before.frames@.last().sim_time
            &&& before.frames@.len() == 0 ==> after.events@.last().sim_time.bits == 0
            &&& p.command_name matches Some(name) ==> after.events@.last().label@ == name@
        },
        forall|later: SslImport|
            #![trigger after.has_packet_more(later, p)]
            after.has_packet_more(later, p) ==> later.events == after.events,
{
    if before.last_command_counter != Some(p.command_counter) {
        assert forall|i: int| 0 <= i < before.events@.len() implies #[trigger] after.events@[i]
            == before.events@[i] by {
            assert(after.events@.drop_last()[i] == before.events@[i]);
        }
    }
}

/// A finished log has all the frames and events that were read, of one world with the field that was
/// told, and the tick rate that was worked out, else 60.
pub proof fn law_a_finished_log_has_all_that_was_read(
    import: SslImport,
    tick_hz: Option<Double>,
    source: String,
    timestamp: Double,
)
    ensures
        ({
            let log = import.finished(tick_hz, source);
            &&& log.frames == import.frames
            &&& log.events == import.events
            &&& log.metadata.world_count == 1
            &&& log.metadata.world_config == import.config
            &&& log.metadata.source == source
            &&& tick_hz is Some ==> tick_hz == Some(log.metadata.tick_hz)
            &&& tick_hz is None ==> log.metadata.tick_hz.bits == 0x404e_0000_0000_0000
        }),
        import.span() matches Some(span) ==> {
            &&& span.0 as int + 1 == import.frames@.len() as usize as int || import.frames@.len()
                > usize::MAX
            &&& span.1 == import.frames@[0].sim_time
            &&& span.2 == import.frames@[import.frames@.len() - 1].sim_time
            &&& !span.2.at_most(span.1)
        },
        import.frames@.len() >= 2 && import.frames@[0].sim_time.less(import.frames@.last().sim_time)
            ==> import.span() is Some,
        import.first_capture is Some ==> import.first_capture == Some(import.base(timestamp)),
        import.first_capture is None ==> import.base(timestamp) == timestamp,
{
}

} // verus!
