//! Motion requests of the Dehumanized AI: what is asked of a robot, how far it has got, and what
//! the simulator is told.
//!
//! Lengths are millimetres and angles degrees, in single precision; distances, angles and speeds
//! are worked out outside and handed in.

use vstd::prelude::*;
use crate::controller::GameCommand;
use crate::layers;
use crate::number;
use crate::number::{Double, Single};
use crate::state::{
    team_robots, BallState, MoveCommand, RobotCommand, RobotState, TeamColor, WorldState,
};

verus! {

/// The number of robots that the AI knows of on a side.
pub const SLOTS: usize = 16;

#[derive(Debug, Clone, Copy, PartialEq, Eq, Structural)]
pub enum Target {
    Hold,
    Pos { x: Single, y: Single },
    Heading { heading: Single },
    Velocity { vx: Single, vy: Single },
}

#[derive(Debug, Clone, Copy, PartialEq, Eq, Structural)]
pub enum Side {
    Own,
    Opponent,
}

#[derive(Debug, Clone, Copy, PartialEq, Eq, Structural)]
pub enum HeadingMode {
    Free,
    Fixed(Single),
    FaceTarget { x: Single, y: Single },
    FaceBall,
    FaceRobot { id: u8, side: Side },
}

#[derive(Debug, Clone, Copy, PartialEq, Eq, Structural)]
pub struct Tolerance {
    pub pos_mm: Single,
    pub heading_deg: Single,
    pub vel: Single,
}

#[derive(Debug, Clone, Copy, PartialEq, Eq, Structural)]
pub struct Limits {
    pub v_max: Single,
    pub omega_max: Single,
}

/// What is asked of a robot's motion.
#[derive(Debug, Clone, Copy, PartialEq, Eq, Structural)]
pub struct MotionCommand {
    /// Every request has an id of its own.
    pub id: u64,
    pub target: Target,
    pub heading: HeadingMode,
    pub tolerance: Tolerance,
    pub limits: Option<Limits>,
    /// Whether the collision planner is bypassed.
    pub raw_movement: bool,
    pub priority: u8,
}

/// What the kicker does: how far the ball is to go.
#[derive(Debug, Clone, Copy, PartialEq, Eq, Structural)]
pub enum Kicker {
    Idle,
    Kick(Single),
    Chip(Single),
}

#[derive(Debug, Clone, Copy, PartialEq, Eq, Structural)]
pub struct AiCommand {
    pub dribbler: bool,
    pub motion: Option<MotionCommand>,
    pub kicker: Kicker,
}

// ---------------------------------------------------------------------------
// Commands of an entry that runs by itself

/// A command past the collision planner.
pub open spec fn raw(command: Option<AiCommand>) -> Option<AiCommand> {
    match command {
        Some(c) => Some(
            AiCommand {
                motion: match c.motion {
                    Some(m) => Some(MotionCommand { raw_movement: true, ..m }),
                    None => None,
                },
                ..c
            },
        ),
        None => None,
    }
}

/// Takes all motion requests past the collision planner: an entry that runs by itself bypasses the
/// normal AI. Commands without a motion get none.
pub fn mark_motion_requests_raw(commands: &mut Vec<Option<AiCommand>>)
    ensures
        final(commands)@ == marked(old(commands)@),
{
    let ghost before = commands@;
    let mut i: usize = 0;
    while i < commands.len()
        invariant
            i <= commands@.len(),
            commands@.len() == before.len(),
            forall|j: int| 0 <= j < i ==> #[trigger] commands@[j] == raw(before[j]),
            forall|j: int| i <= j < before.len() ==> #[trigger] commands@[j] == before[j],
        decreases commands@.len() - i,
    {
        match commands[i] {
            Some(mut command) => {
                match command.motion {
                    Some(mut motion) => {
                        motion.raw_movement = true;
                        command.motion = Some(motion);
                    },
                    None => {},
                }
                commands[i] = Some(command);
            },
            None => {},
        }
        assert(commands@[i as int] == raw(before[i as int]));
        i += 1;
    }
    assert(commands@ =~= marked(before));
}

/// Commands past the collision planner.
pub open spec fn marked(commands: Seq<Option<AiCommand>>) -> Seq<Option<AiCommand>> {
    commands.map_values(|c: Option<AiCommand>| raw(c))
}

/// The commands to carry out of those in an entry's buffer, which stays as it is: a copy of them,
/// past the collision planner.
pub fn raw_commands(commands: &Vec<Option<AiCommand>>) -> (r: Vec<Option<AiCommand>>)
    ensures
        r@ == marked(commands@),
{
    let mut copy: Vec<Option<AiCommand>> = Vec::new();
    let mut i: usize = 0;
    while i < commands.len()
        invariant
            i <= commands@.len(),
            copy@ == commands@.take(i as int),
        decreases commands@.len() - i,
    {
        copy.push(commands[i]);
        i += 1;
        assert(copy@ =~= commands@.take(i as int));
    }
    assert(copy@ =~= commands@);
    mark_motion_requests_raw(&mut copy);
    copy
}

/// A command that asks for nothing.
pub open spec fn blank_command() -> AiCommand {
    AiCommand { dribbler: false, motion: None, kicker: Kicker::Idle }
}

/// A blank command for each robot that the side has.
pub open spec fn blank_commands(num_robots: u8) -> Seq<Option<AiCommand>> {
    Seq::new(
        SLOTS as nat,
        |i: int|
            if i < num_robots {
                Some(blank_command())
            } else {
                None
            },
    )
}

pub fn initial_commands(num_robots: u8) -> (r: Vec<Option<AiCommand>>)
    ensures
        r@ == blank_commands(num_robots),
{
    let mut commands: Vec<Option<AiCommand>> = Vec::new();
    let mut i: usize = 0;
    while i < SLOTS
        invariant
            i <= SLOTS,
            commands@ == blank_commands(num_robots).take(i as int),
        decreases SLOTS - i,
    {
        if i < num_robots as usize {
            commands.push(Some(AiCommand { dribbler: false, motion: None, kicker: Kicker::Idle }));
        } else {
            commands.push(None);
        }
        i += 1;
        assert(commands@ =~= blank_commands(num_robots).take(i as int));
    }
    assert(commands@ =~= blank_commands(num_robots));
    commands
}

// ---------------------------------------------------------------------------
// The game, as the AI sees it

#[derive(Debug, Clone, Copy, PartialEq, Eq, Structural)]
pub enum GameStage {
    Halt,
    Stop,
    Running,
    FreeKick,
    PrepareKickoff,
}

/// The stage of the game: whose kick it is does not matter.
pub open spec fn stage_of(gc: GameCommand) -> GameStage {
    match gc {
        GameCommand::Halt => GameStage::Halt,
        GameCommand::Stop => GameStage::Stop,
        GameCommand::Running => GameStage::Running,
        GameCommand::FreeKickUs | GameCommand::FreeKickThem => GameStage::FreeKick,
        GameCommand::PrepareKickoffUs | GameCommand::PrepareKickoffThem => {
            GameStage::PrepareKickoff
        },
    }
}

pub fn game_stage(gc: GameCommand) -> (r: GameStage)
    ensures
        r == stage_of(gc),
{
    match gc {
        GameCommand::Halt => GameStage::Halt,
        GameCommand::Stop => GameStage::Stop,
        GameCommand::Running => GameStage::Running,
        GameCommand::FreeKickUs | GameCommand::FreeKickThem => GameStage::FreeKick,
        GameCommand::PrepareKickoffUs | GameCommand::PrepareKickoffThem => {
            GameStage::PrepareKickoff
        },
    }
}

// ---------------------------------------------------------------------------
// Same request or another

/// Whether two requests are for the same goal. Numbers are compared bit by bit.
pub open spec fn same_goal(a: Option<MotionCommand>, b: Option<MotionCommand>) -> bool {
    match (a, b) {
        (None, None) => true,
        (Some(a), Some(b)) => a.id == b.id && a.target == b.target && a.heading == b.heading,
        _ => false,
    }
}

pub fn same_target(a: Target, b: Target) -> (r: bool)
    ensures
        r == (a == b),
{
    match (a, b) {
        (Target::Hold, Target::Hold) => true,
        (Target::Pos { x: ax, y: ay }, Target::Pos { x: bx, y: by }) => ax.bits == bx.bits
            && ay.bits == by.bits,
        (Target::Heading { heading: a }, Target::Heading { heading: b }) => a.bits == b.bits,
        (Target::Velocity { vx: ax, vy: ay }, Target::Velocity { vx: bx, vy: by }) => ax.bits
            == bx.bits && ay.bits == by.bits,
        _ => false,
    }
}

pub fn same_heading(a: HeadingMode, b: HeadingMode) -> (r: bool)
    ensures
        r == (a == b),
{
    match (a, b) {
        (HeadingMode::Free, HeadingMode::Free) => true,
        (HeadingMode::FaceBall, HeadingMode::FaceBall) => true,
        (HeadingMode::Fixed(a), HeadingMode::Fixed(b)) => a.bits == b.bits,
        (
            HeadingMode::FaceTarget { x: ax, y: ay },
            HeadingMode::FaceTarget { x: bx, y: by },
        ) => ax.bits == bx.bits && ay.bits == by.bits,
        (
            HeadingMode::FaceRobot { id: ai, side: aside },
            HeadingMode::FaceRobot { id: bi, side: bside },
        ) => ai == bi && aside == bside,
        _ => false,
    }
}

pub fn same_motion_goal(a: Option<MotionCommand>, b: Option<MotionCommand>) -> (r: bool)
    ensures
        r == same_goal(a, b),
{
    match (a, b) {
        (None, None) => true,
        (Some(a), Some(b)) => a.id == b.id && same_target(a.target, b.target) && same_heading(
            a.heading,
            b.heading,
        ),
        _ => false,
    }
}

// ---------------------------------------------------------------------------
// How far a request has got

/// The request that a robot was given last, and how far off it was then.
#[derive(Debug, Clone, Copy, PartialEq, Eq, Structural)]
pub struct MotionFeedback {
    pub request: Option<MotionCommand>,
    pub initial_drive_dist_mm: Single,
    pub initial_heading_diff_deg: Single,
}

pub open spec fn no_feedback() -> MotionFeedback {
    MotionFeedback {
        request: None,
        initial_drive_dist_mm: Single { bits: 0 },
        initial_heading_diff_deg: Single { bits: 0 },
    }
}

/// The feedback of a side that was asked for nothing.
pub fn blank_feedback() -> (r: Vec<MotionFeedback>)
    ensures
        r@ == Seq::new(SLOTS as nat, |i: int| no_feedback()),
{
    let mut feedback: Vec<MotionFeedback> = Vec::new();
    let mut i: usize = 0;
    while i < SLOTS
        invariant
            i <= SLOTS,
            feedback@ == Seq::new(i as nat, |k: int| no_feedback()),
        decreases SLOTS - i,
    {
        feedback.push(
            MotionFeedback {
                request: None,
                initial_drive_dist_mm: Single::zero(),
                initial_heading_diff_deg: Single::zero(),
            },
        );
        i += 1;
        assert(feedback@ =~= Seq::new(i as nat, |k: int| no_feedback()));
    }
    feedback
}

/// How far the robot of a slot is from what it is asked for.
#[derive(Debug, Clone, Copy, PartialEq, Eq, Structural)]
pub struct Offset {
    pub drive_dist_mm: Single,
    /// `None` where the heading does not matter or cannot be told.
    pub heading_diff_deg: Option<Single>,
}

pub open spec fn request_in(commands: Seq<Option<AiCommand>>, id: int) -> Option<MotionCommand> {
    if id < commands.len() {
        match commands[id] {
            Some(c) => c.motion,
            None => None,
        }
    } else {
        None
    }
}

/// The feedback of a slot whose robot is asked for `request` and is or is not `on` the field.
pub open spec fn next_feedback(
    item: MotionFeedback,
    request: Option<MotionCommand>,
    on: bool,
    offset: Offset,
) -> MotionFeedback {
    if same_goal(item.request, request) {
        MotionFeedback { request, ..item }
    } else {
        MotionFeedback {
            request,
            initial_drive_dist_mm: if on && request is Some {
                offset.drive_dist_mm
            } else {
                Single { bits: 0 }
            },
            initial_heading_diff_deg: match offset.heading_diff_deg {
                Some(diff) if on && request is Some => diff.absolute(),
                _ => Single { bits: 0 },
            },
        }
    }
}

fn next_item(item: MotionFeedback, request: Option<MotionCommand>, on: bool, offset: Offset) -> (r:
    MotionFeedback)
    ensures
        r == next_feedback(item, request, on, offset),
{
    if same_motion_goal(item.request, request) {
        return MotionFeedback {
            request,
            initial_drive_dist_mm: item.initial_drive_dist_mm,
            initial_heading_diff_deg: item.initial_heading_diff_deg,
        };
    }
    let live = on && request.is_some();
    let initial_heading_diff_deg = match offset.heading_diff_deg {
        Some(diff) => if live {
            diff.abs()
        } else {
            Single::zero()
        },
        None => Single::zero(),
    };
    MotionFeedback {
        request,
        initial_drive_dist_mm: if live {
            offset.drive_dist_mm
        } else {
            Single::zero()
        },
        initial_heading_diff_deg,
    }
}

/// Takes note of what the robots are asked for now; `offsets` has one entry for each slot.
pub fn update_motion_feedback(
    feedback: &mut Vec<MotionFeedback>,
    commands: &Vec<Option<AiCommand>>,
    state: &WorldState,
    color: TeamColor,
    offsets: &Vec<Offset>,
)
    requires
        offsets@.len() == old(feedback)@.len(),
    ensures
        final(feedback)@ == Seq::new(
            old(feedback)@.len(),
            |id: int|
                next_feedback(
                    old(feedback)@[id],
                    request_in(commands@, id),
                    layers::robot_on(state.robots_of(color), id as usize) is Some,
                    offsets@[id],
                ),
        ),
{
    let ghost before = feedback@;
    let mut id: usize = 0;
    while id < feedback.len()
        invariant
            id <= feedback@.len(),
            feedback@.len() == before.len(),
            offsets@.len() == before.len(),
            forall|j: int|
                0 <= j < id ==> #[trigger] feedback@[j] == next_feedback(
                    before[j],
                    request_in(commands@, j),
                    layers::robot_on(state.robots_of(color), j as usize) is Some,
                    offsets@[j],
                ),
            forall|j: int| id <= j < before.len() ==> #[trigger] feedback@[j] == before[j],
        decreases feedback@.len() - id,
    {
        let request = if id < commands.len() {
            match commands[id] {
                Some(command) => command.motion,
                None => None,
            }
        } else {
            None
        };
        let on = layers::robot_position(state, color, id).is_some();
        feedback[id] = next_item(feedback[id], request, on, offsets[id]);
        id += 1;
    }
    assert(feedback@ =~= Seq::new(
        before.len(),
        |id: int|
            next_feedback(
                before[id],
                request_in(commands@, id),
                layers::robot_on(state.robots_of(color), id as usize) is Some,
                offsets@[id],
            ),
    ));
}

/// A request that is repeated keeps what its progress is measured from; a request of another id is
/// measured anew, even for the same goal.
pub proof fn law_progress_is_kept_per_request(
    item: MotionFeedback,
    request: MotionCommand,
    other: MotionCommand,
    offset: Offset,
)
    requires
        item.request == Some(request),
    ensures
        next_feedback(item, Some(request), true, offset) == item,
        other.id != request.id ==> next_feedback(item, Some(other), true, offset)
            .initial_drive_dist_mm == offset.drive_dist_mm,
        next_feedback(item, None, true, offset) == no_feedback(),
{
}

#[derive(Debug, Clone, Copy, PartialEq, Eq, Structural)]
pub enum DriveStatus {
    Reached,
    Running { eta: Single, progress: Single, dist: Single },
}

#[derive(Debug, Clone, Copy, PartialEq, Eq, Structural)]
pub enum HeadingStatus {
    Reached,
    Running { eta: Single, progress: Single, diff: Single },
    Tracking,
    TrackingBehind(Single),
}

#[derive(Debug, Clone, Copy, PartialEq, Eq, Structural)]
pub struct MotionStatus {
    pub drive: DriveStatus,
    pub heading: HeadingStatus,
    pub id: u64,
}

/// The status of a robot that is asked for nothing.
pub open spec fn idle_status() -> MotionStatus {
    MotionStatus { drive: DriveStatus::Reached, heading: HeadingStatus::Reached, id: 0 }
}

pub fn no_motion_status() -> (r: MotionStatus)
    ensures
        r == idle_status(),
{
    MotionStatus { drive: DriveStatus::Reached, heading: HeadingStatus::Reached, id: 0 }
}

/// A way that is covered: how much is left, how much there was to cover beyond the tolerance, what
/// share of that is covered, and how long the rest takes.
#[derive(Debug, Clone, Copy, PartialEq, Eq, Structural)]
pub struct Way {
    pub range: Single,
    pub share: Single,
    pub eta: Single,
}

/// What is measured of a robot with regard to its request.
#[derive(Debug, Clone, Copy, PartialEq, Eq, Structural)]
pub struct Progress {
    pub dist: Single,
    pub speed_mm_s: Single,
    pub drive: Way,
    /// `None` where the heading does not matter or cannot be told.
    pub diff: Option<Single>,
    pub turn: Way,
}

/// The distance between one and the next larger number in single precision.
pub const SINGLE_EPSILON_BITS: u32 = 0x3400_0000;

/// One.
pub const SINGLE_ONE_BITS: u32 = 0x3f80_0000;

/// Half a turn, in degrees.
pub const HALF_TURN_BITS: u32 = 0x4334_0000;

/// The share of a way that is covered, between nothing and all; a way within the tolerance is
/// covered or not.
pub open spec fn progress_of(way: Way, remaining: Single, tolerance: Single) -> Single {
    if way.range.at_most(Single { bits: SINGLE_EPSILON_BITS }) {
        if remaining.at_most(tolerance) {
            Single { bits: SINGLE_ONE_BITS }
        } else {
            Single { bits: 0 }
        }
    } else {
        way.share.clamped(Single { bits: 0 }, Single { bits: SINGLE_ONE_BITS })
    }
}

pub fn normalized_progress(way: Way, remaining: Single, tolerance: Single) -> (r: Single)
    ensures
        r == progress_of(way, remaining, tolerance),
{
    if way.range.is_at_most(Single { bits: SINGLE_EPSILON_BITS }) {
        if remaining.is_at_most(tolerance) {
            Single { bits: SINGLE_ONE_BITS }
        } else {
            Single::zero()
        }
    } else {
        way.share.clamp(Single::zero(), Single { bits: SINGLE_ONE_BITS })
    }
}

/// How far the drive has got. A place is reached within the tolerance, and slowly enough where a
/// speed is asked for; a direction and a velocity are never reached.
pub open spec fn drive_of(request: MotionCommand, p: Progress) -> DriveStatus {
    match request.target {
        Target::Hold => DriveStatus::Reached,
        Target::Pos { .. } => {
            let slow = request.tolerance.vel.at_most(Single { bits: 0 }) || p.speed_mm_s.at_most(
                request.tolerance.vel,
            );
            let tolerance = request.tolerance.pos_mm.floored();
            if p.dist.at_most(tolerance) && slow {
                DriveStatus::Reached
            } else {
                DriveStatus::Running {
                    eta: p.drive.eta,
                    progress: progress_of(p.drive, p.dist, tolerance),
                    dist: p.dist,
                }
            }
        },
        Target::Heading { .. } | Target::Velocity { .. } => DriveStatus::Running {
            eta: Single { bits: number::SINGLE_INFINITY_BITS },
            progress: Single { bits: 0 },
            dist: Single { bits: number::SINGLE_INFINITY_BITS },
        },
    }
}

/// How far the turn has got. What moves is tracked: a heading towards it is never reached for
/// good, and one that cannot be told is behind by half a turn.
pub open spec fn heading_of(request: MotionCommand, p: Progress) -> HeadingStatus {
    let tolerance = request.tolerance.heading_deg.floored();
    match request.heading {
        HeadingMode::Free => HeadingStatus::Reached,
        HeadingMode::Fixed(_) => {
            let diff = match p.diff {
                Some(d) => d,
                None => Single { bits: 0 },
            };
            if diff.absolute().at_most(tolerance) {
                HeadingStatus::Reached
            } else {
                HeadingStatus::Running {
                    eta: p.turn.eta,
                    progress: progress_of(p.turn, diff.absolute(), tolerance),
                    diff,
                }
            }
        },
        HeadingMode::FaceTarget { .. } | HeadingMode::FaceBall | HeadingMode::FaceRobot { .. } => {
            match p.diff {
                Some(diff) => if diff.absolute().at_most(tolerance) {
                    HeadingStatus::Tracking
                } else {
                    HeadingStatus::TrackingBehind(diff)
                },
                None => HeadingStatus::TrackingBehind(Single { bits: HALF_TURN_BITS }),
            }
        },
    }
}

pub open spec fn status_of(feedback: MotionFeedback, p: Progress) -> MotionStatus {
    match feedback.request {
        Some(request) => MotionStatus {
            drive: drive_of(request, p),
            heading: heading_of(request, p),
            id: request.id,
        },
        None => idle_status(),
    }
}

fn drive_status(request: MotionCommand, p: &Progress) -> (r: DriveStatus)
    ensures
        r == drive_of(request, *p),
{
    match request.target {
        Target::Hold => DriveStatus::Reached,
        Target::Pos { .. } => {
            let slow = request.tolerance.vel.is_at_most(Single::zero()) || p.speed_mm_s.is_at_most(
                request.tolerance.vel,
            );
            let tolerance = request.tolerance.pos_mm.at_least_zero();
            if p.dist.is_at_most(tolerance) && slow {
                DriveStatus::Reached
            } else {
                DriveStatus::Running {
                    eta: p.drive.eta,
                    progress: normalized_progress(p.drive, p.dist, tolerance),
                    dist: p.dist,
                }
            }
        },
        Target::Heading { .. } | Target::Velocity { .. } => DriveStatus::Running {
            eta: Single { bits: number::SINGLE_INFINITY_BITS },
            progress: Single::zero(),
            dist: Single { bits: number::SINGLE_INFINITY_BITS },
        },
    }
}

fn heading_status(request: MotionCommand, p: &Progress) -> (r: HeadingStatus)
    ensures
        r == heading_of(request, *p),
{
    let tolerance = request.tolerance.heading_deg.at_least_zero();
    match request.heading {
        HeadingMode::Free => HeadingStatus::Reached,
        HeadingMode::Fixed(_) => {
            let diff = match p.diff {
                Some(d) => d,
                None => Single::zero(),
            };
            if diff.abs().is_at_most(tolerance) {
                HeadingStatus::Reached
            } else {
                HeadingStatus::Running {
                    eta: p.turn.eta,
                    progress: normalized_progress(p.turn, diff.abs(), tolerance),
                    diff,
                }
            }
        },
        HeadingMode::FaceTarget { .. } | HeadingMode::FaceBall | HeadingMode::FaceRobot { .. } => {
            match p.diff {
                Some(diff) => if diff.abs().is_at_most(tolerance) {
                    HeadingStatus::Tracking
                } else {
                    HeadingStatus::TrackingBehind(diff)
                },
                None => HeadingStatus::TrackingBehind(Single { bits: HALF_TURN_BITS }),
            }
        },
    }
}

/// How far a robot has got with what it was asked for last.
pub fn motion_status(feedback: &MotionFeedback, p: &Progress) -> (r: MotionStatus)
    ensures
        r == status_of(*feedback, *p),
{
    match feedback.request {
        Some(request) => MotionStatus {
            drive: drive_status(request, p),
            heading: heading_status(request, p),
            id: request.id,
        },
        None => no_motion_status(),
    }
}

/// A status tells of the request that the robot has; progress lies between nothing and all.
pub proof fn law_status(feedback: MotionFeedback, p: Progress)
    ensures
        feedback.request matches Some(request) ==> status_of(feedback, p).id == request.id,
        status_of(feedback, p).drive matches DriveStatus::Running { progress, .. }
            ==> is_share(progress) || p.drive.share.is_nan_spec(),
        status_of(feedback, p).heading matches HeadingStatus::Running { progress, .. }
            ==> is_share(progress) || p.turn.share.is_nan_spec(),
{
}

pub open spec fn is_share(s: Single) -> bool {
    (Single { bits: 0 }).at_most(s) && s.at_most(Single { bits: SINGLE_ONE_BITS })
}

/// What a heading is turned to.
#[derive(Debug, Clone, Copy, PartialEq, Eq, Structural)]
pub enum HeadingGoal {
    /// The heading does not matter, or what is to be faced is not there.
    Unknown,
    /// An angle, in degrees.
    Angle(Single),
    /// A point, in millimetres.
    Point { x: Single, y: Single },
    /// A place in the world, in metres.
    Place { x: Double, y: Double },
}

pub open spec fn faced_team(color: TeamColor, side: Side) -> TeamColor {
    match side {
        Side::Own => color,
        Side::Opponent => color.opposite_spec(),
    }
}

pub open spec fn goal_of(mode: HeadingMode, state: WorldState, color: TeamColor) -> HeadingGoal {
    match mode {
        HeadingMode::Free => HeadingGoal::Unknown,
        HeadingMode::Fixed(angle) => HeadingGoal::Angle(angle),
        HeadingMode::FaceTarget { x, y } => HeadingGoal::Point { x, y },
        HeadingMode::FaceBall => HeadingGoal::Place { x: state.ball.x, y: state.ball.y },
        HeadingMode::FaceRobot { id, side } => match layers::robot_on(
            state.robots_of(faced_team(color, side)),
            id as usize,
        ) {
            Some(robot) => HeadingGoal::Place { x: robot.x, y: robot.y },
            None => HeadingGoal::Unknown,
        },
    }
}

/// What a heading is turned to; a robot that is not on cannot be faced.
pub fn heading_goal(mode: HeadingMode, state: &WorldState, color: TeamColor) -> (r: HeadingGoal)
    ensures
        r == goal_of(mode, *state, color),
{
    match mode {
        HeadingMode::Free => HeadingGoal::Unknown,
        HeadingMode::Fixed(angle) => HeadingGoal::Angle(angle),
        HeadingMode::FaceTarget { x, y } => HeadingGoal::Point { x, y },
        HeadingMode::FaceBall => HeadingGoal::Place { x: state.ball.x, y: state.ball.y },
        HeadingMode::FaceRobot { id, side } => {
            let team = match side {
                Side::Own => color,
                Side::Opponent => color.opposite(),
            };
            match layers::robot_position(state, team, id as usize) {
                Some((x, y)) => HeadingGoal::Place { x, y },
                None => HeadingGoal::Unknown,
            }
        },
    }
}

/// The speed where none is asked for: 4000 mm/s.
pub const DEFAULT_SPEED_BITS: u32 = 0x457a_0000;

/// The angular speed where none is asked for: 20 rad/s, in degrees a second.
pub const DEFAULT_ANGULAR_BITS: u32 = 0x448f_3d4d;

/// The speed that a request allows, in mm/s: what it is limited to, or the default.
pub open spec fn max_speed_of(request: MotionCommand) -> Single {
    match request.limits {
        Some(limits) => limits.v_max.floored(),
        None => Single { bits: DEFAULT_SPEED_BITS },
    }
}

/// The angular speed that a request allows, in degrees a second.
pub open spec fn max_angular_of(request: MotionCommand) -> Single {
    match request.limits {
        Some(limits) => limits.omega_max.floored(),
        None => Single { bits: DEFAULT_ANGULAR_BITS },
    }
}

/// The speed that a request allows, in mm/s.
pub fn request_max_speed_mm_s(request: &MotionCommand) -> (r: Single)
    ensures
        r == max_speed_of(*request),
{
    match request.limits {
        Some(limits) => limits.v_max.at_least_zero(),
        None => Single { bits: DEFAULT_SPEED_BITS },
    }
}

/// The angular speed that a request allows, in degrees a second.
pub fn request_max_angular_deg_s(request: &MotionCommand) -> (r: Single)
    ensures
        r == max_angular_of(*request),
{
    match request.limits {
        Some(limits) => limits.omega_max.at_least_zero(),
        None => Single { bits: DEFAULT_ANGULAR_BITS },
    }
}

// ---------------------------------------------------------------------------
// A side's robots, as the AI sees them

/// A robot in its slot. Turning its place, velocity and heading into millimetres and degrees is left
/// to whoever hands it on.
#[derive(Debug, Clone, Copy)]
pub struct SlotRobot {
    /// Its place among the side's robots.
    pub place: usize,
    pub id: u8,
    /// Where it is and how it moves.
    pub robot: RobotState,
    pub is_goalie: bool,
    pub has_ball: bool,
    pub motion_status: MotionStatus,
}

/// The slot of robot `id`: the last robot of that number that is on. `statuses` has each robot's
/// status, in order.
pub open spec fn slot_of(
    robots: Seq<RobotState>,
    own_team: bool,
    statuses: Seq<MotionStatus>,
    id: int,
) -> Option<SlotRobot>
    decreases robots.len(),
{
    if robots.len() == 0 {
        None
    } else {
        let k = robots.len() - 1;
        if robots[k].is_on && robots[k].id == id {
            Some(
                SlotRobot {
                    place: k as usize,
                    id: id as u8,
                    robot: robots[k],
                    is_goalie: own_team && id == 0,
                    has_ball: robots[k].infrared,
                    motion_status: statuses[k],
                },
            )
        } else {
            slot_of(robots.drop_last(), own_team, statuses, id)
        }
    }
}

/// A side's robots in their slots; those whose number has no slot are left out.
pub fn robots_to_dehumanized(
    robots: &Vec<RobotState>,
    own_team: bool,
    statuses: &Vec<MotionStatus>,
) -> (r: Vec<Option<SlotRobot>>)
    requires
        statuses@.len() == robots@.len(),
    ensures
        r@ == Seq::new(SLOTS as nat, |id: int| slot_of(robots@, own_team, statuses@, id)),
{
    let mut slots: Vec<Option<SlotRobot>> = Vec::new();
    let mut i: usize = 0;
    while i < SLOTS
        invariant
            i <= SLOTS,
            slots@.len() == i,
            forall|id: int| 0 <= id < i ==> #[trigger] slots@[id] is None,
        decreases SLOTS - i,
    {
        slots.push(None);
        i += 1;
    }
    let mut k: usize = 0;
    while k < robots.len()
        invariant
            k <= robots@.len(),
            statuses@.len() == robots@.len(),
            slots@.len() == SLOTS,
            forall|id: int|
                0 <= id < SLOTS ==> #[trigger] slots@[id] == slot_of(
                    robots@.take(k as int),
                    own_team,
                    statuses@,
                    id,
                ),
        decreases robots@.len() - k,
    {
        proof {
            let longer = robots@.take(k + 1);
            assert(longer.drop_last() == robots@.take(k as int));
            assert(longer[k as int] == robots@[k as int]);
        }
        let id: usize = robots[k].id;
        if robots[k].is_on && id < SLOTS {
            slots[id] = Some(
                SlotRobot {
                    place: k,
                    id: id as u8,
                    robot: robots[k],
                    is_goalie: own_team && id == 0,
                    has_ball: robots[k].infrared,
                    motion_status: statuses[k],
                },
            );
        }
        k += 1;
    }
    assert(robots@.take(k as int) == robots@);
    assert(slots@ =~= Seq::new(
        SLOTS as nat,
        |id: int| slot_of(robots@, own_team, statuses@, id),
    ));
    slots
}

/// A robot is in its slot as it is on the field: the one at its place in the list, switched on, and
/// the last such of its number. Of either team it is seen whether the robot has the ball; only the
/// side's own robot 0 is a goalie. An empty slot's number is that of no robot that is on.
pub proof fn law_slots_hold_the_robots_on_the_field(
    robots: Seq<RobotState>,
    own_team: bool,
    statuses: Seq<MotionStatus>,
    id: int,
)
    requires
        0 <= id < SLOTS,
        robots.len() <= usize::MAX,
    ensures
        match slot_of(robots, own_team, statuses, id) {
            Some(slot) => {
                &&& slot.place < robots.len()
                &&& slot.robot == robots[slot.place as int]
                &&& slot.motion_status == statuses[slot.place as int]
                &&& slot.robot.is_on
                &&& slot.robot.id == id
                &&& slot.id == id
                &&& slot.has_ball == robots[slot.place as int].infrared
                &&& slot.is_goalie == (own_team && id == 0)
                &&& forall|k: int|
                    slot.place < k < robots.len() ==> !((#[trigger] robots[k]).is_on && robots[k].id
                        == id)
            },
            None => forall|k: int|
                0 <= k < robots.len() ==> !((#[trigger] robots[k]).is_on && robots[k].id == id),
        },
    decreases robots.len(),
{
    if robots.len() > 0 {
        let k = robots.len() - 1;
        if !(robots[k].is_on && robots[k].id == id) {
            let fewer = robots.drop_last();
            law_slots_hold_the_robots_on_the_field(fewer, own_team, statuses, id);
            assert forall|j: int| 0 <= j < k implies #[trigger] robots[j] == fewer[j] by {}
        }
    }
}

/// Where and when a rolling ball is taken to stop.
#[derive(Debug, Clone, Copy, PartialEq, Eq, Structural)]
pub struct BallStop {
    pub x: Double,
    pub y: Double,
    pub time: Double,
}

/// The world from one side: its own robots, the opponents', the ball, the time, and the stage of the
/// game.
pub struct SideView {
    pub own: Vec<Option<SlotRobot>>,
    pub opponents: Vec<Option<SlotRobot>>,
    pub ball: BallState,
    pub sim_time: Double,
    pub stage: GameStage,
}

impl SideView {
    pub open spec fn ball_stop_spec(self) -> BallStop {
        BallStop { x: self.ball.x, y: self.ball.y, time: self.sim_time }
    }

    /// Where the ball is taken to stop. The simulator gives no estimate, so it is where the ball is
    /// now.
    pub fn ball_stop(&self) -> (r: BallStop)
        ensures
            r == self.ball_stop_spec(),
    {
        BallStop { x: self.ball.x, y: self.ball.y, time: self.sim_time }
    }
}

/// The status of each robot of a side, given what is measured of each: that of what its slot was
/// asked for, or none where its number has no slot.
pub open spec fn statuses_of(
    robots: Seq<RobotState>,
    feedback: Seq<MotionFeedback>,
    measured: Seq<Progress>,
) -> Seq<MotionStatus> {
    Seq::new(
        robots.len(),
        |k: int|
            if robots[k].id < feedback.len() {
                status_of(feedback[robots[k].id as int], measured[k])
            } else {
                idle_status()
            },
    )
}

pub open spec fn idle_statuses(n: nat) -> Seq<MotionStatus> {
    Seq::new(n, |k: int| idle_status())
}

/// Whether `r` is the world as the AI of one side sees it.
pub open spec fn is_side_view(
    r: SideView,
    state: WorldState,
    color: TeamColor,
    gc: GameCommand,
    feedback: Seq<MotionFeedback>,
    measured: Seq<Progress>,
) -> bool {
    &&& r.stage == stage_of(gc)
    &&& r.ball == state.ball
    &&& r.sim_time == state.sim_time
    &&& r.own@ == Seq::new(
        SLOTS as nat,
        |id: int|
            slot_of(
                state.robots_of(color),
                true,
                statuses_of(state.robots_of(color), feedback, measured),
                id,
            ),
    )
    &&& r.opponents@ == Seq::new(
        SLOTS as nat,
        |id: int|
            slot_of(
                state.robots_of(color.opposite_spec()),
                false,
                idle_statuses(state.robots_of(color.opposite_spec()).len()),
                id,
            ),
    )
}

/// The world as the AI of one side sees it. `measured` has what is measured of each of its own
/// robots, in order; nothing is known of what the opponents were asked for.
pub fn world_state_to_dehumanized(
    state: &WorldState,
    color: TeamColor,
    gc: GameCommand,
    feedback: &Vec<MotionFeedback>,
    measured: &Vec<Progress>,
) -> (r: SideView)
    requires
        measured@.len() == state.robots_of(color).len(),
    ensures
        is_side_view(r, *state, color, gc, feedback@, measured@),
{
    let own = team_robots(state, color);
    let opponents = team_robots(state, color.opposite());
    let mut statuses: Vec<MotionStatus> = Vec::new();
    let mut k: usize = 0;
    while k < own.len()
        invariant
            own@ == state.robots_of(color),
            measured@.len() == own@.len(),
            k <= own@.len(),
            statuses@ == statuses_of(own@, feedback@, measured@).take(k as int),
        decreases own@.len() - k,
    {
        let id: usize = own[k].id;
        if id < feedback.len() {
            statuses.push(motion_status(&feedback[id], &measured[k]));
        } else {
            statuses.push(no_motion_status());
        }
        k += 1;
        assert(statuses@ =~= statuses_of(own@, feedback@, measured@).take(k as int));
    }
    assert(statuses@ =~= statuses_of(own@, feedback@, measured@));
    let mut idle: Vec<MotionStatus> = Vec::new();
    let mut i: usize = 0;
    while i < opponents.len()
        invariant
            i <= opponents@.len(),
            idle@ == idle_statuses(i as nat),
        decreases opponents@.len() - i,
    {
        idle.push(no_motion_status());
        i += 1;
        assert(idle@ =~= idle_statuses(i as nat));
    }
    SideView {
        own: robots_to_dehumanized(own, true, &statuses),
        opponents: robots_to_dehumanized(opponents, false, &idle),
        ball: state.ball,
        sim_time: state.sim_time,
        stage: game_stage(gc),
    }
}

// ---------------------------------------------------------------------------
// What the simulator is told

/// The elevation of a chip kick: 45 degrees.
pub const CHIP_ANGLE_BITS: u64 = 0x4046_8000_0000_0000;

/// The speed where none is asked for: 4000 mm/s, in double precision.
pub const DEFAULT_SPEED_MM_S_BITS: u64 = 0x40af_4000_0000_0000;

pub open spec fn infinity() -> Double {
    Double { bits: number::INFINITY_BITS }
}

/// The speed limit of a request, in mm/s: what it asks for, or the default, which an explicit
/// velocity does not have; but no more than the robot can, nor than a stopped game allows.
pub open spec fn limit_of(
    target: Target,
    requested: Option<Double>,
    stop_limit: Option<Double>,
    robot_limit: Double,
) -> Double {
    let asked = match requested {
        Some(v) => v,
        None => if target is Velocity {
            infinity()
        } else {
            Double { bits: DEFAULT_SPEED_MM_S_BITS }
        },
    };
    let stopped = match stop_limit {
        Some(v) => v,
        None => infinity(),
    };
    asked.smaller_of(stopped).smaller_of(robot_limit)
}

/// The speed limit of a request, in mm/s. `requested` is the limit that it asks for, `stop_limit`
/// that of a stopped game, where the game is stopped.
pub fn speed_limit_mm_s(
    target: Target,
    requested: Option<Double>,
    stop_limit: Option<Double>,
    robot_limit: Double,
) -> (r: Double)
    ensures
        r == limit_of(target, requested, stop_limit, robot_limit),
{
    let asked = match requested {
        Some(v) => v,
        None => match target {
            Target::Velocity { .. } => Double { bits: number::INFINITY_BITS },
            _ => Double { bits: DEFAULT_SPEED_MM_S_BITS },
        },
    };
    let stopped = match stop_limit {
        Some(v) => v,
        None => Double { bits: number::INFINITY_BITS },
    };
    asked.min(stopped).min(robot_limit)
}

/// What is worked out for a robot that is driven, in metres and radians.
#[derive(Debug, Clone, Copy, PartialEq, Eq, Structural)]
pub struct Aim {
    pub vx: Double,
    pub vy: Double,
    /// How far the heading is off, in degrees, where that can be told.
    pub heading_error_deg: Option<Single>,
    /// How fast to turn for it, and how fast at most.
    pub turn: Double,
    pub max_turn: Double,
    /// How fast the kicker has to shoot.
    pub kick_speed: Double,
}

pub open spec fn zero() -> Double {
    Double { bits: number::ZERO_BITS }
}

/// How fast a robot turns: not at all where its heading is within the tolerance.
pub open spec fn angular_of(tolerance: Tolerance, aim: Aim) -> Double {
    match aim.heading_error_deg {
        Some(error) => if error.absolute().at_most(tolerance.heading_deg.floored()) {
            zero()
        } else {
            aim.turn.clamped(aim.max_turn.negated(), aim.max_turn)
        },
        None => zero(),
    }
}

/// What a robot is told: a velocity that is a number, the turn, the kick and the dribbler.
pub open spec fn driven_command(
    id: usize,
    command: AiCommand,
    tolerance: Tolerance,
    aim: Aim,
) -> RobotCommand {
    let finite = aim.vx.is_finite_spec() && aim.vy.is_finite_spec();
    RobotCommand {
        id,
        move_command: Some(
            MoveCommand::GlobalVelocity {
                vx: if finite {
                    aim.vx
                } else {
                    zero()
                },
                vy: if finite {
                    aim.vy
                } else {
                    zero()
                },
                angular: angular_of(tolerance, aim),
            },
        ),
        kick_speed: match command.kicker {
            Kicker::Idle => zero(),
            _ => aim.kick_speed,
        },
        kick_angle: match command.kicker {
            Kicker::Chip(_) => Double { bits: CHIP_ANGLE_BITS },
            _ => zero(),
        },
        dribbler_on: command.dribbler,
    }
}

/// What a robot is told. `tolerance` is that of its motion request.
pub fn command_to_sim(id: usize, command: &AiCommand, tolerance: &Tolerance, aim: &Aim) -> (r:
    RobotCommand)
    requires
        zero().at_most(aim.max_turn),
    ensures
        r == driven_command(id, *command, *tolerance, *aim),
{
    let finite = aim.vx.is_finite() && aim.vy.is_finite();
    let angular = match aim.heading_error_deg {
        Some(error) => if error.abs().is_at_most(tolerance.heading_deg.at_least_zero()) {
            Double::zero()
        } else {
            aim.turn.clamp(aim.max_turn.negate(), aim.max_turn)
        },
        None => Double::zero(),
    };
    let (kick_speed, kick_angle) = match command.kicker {
        Kicker::Idle => (Double::zero(), Double::zero()),
        Kicker::Kick(_) => (aim.kick_speed, Double::zero()),
        Kicker::Chip(_) => (aim.kick_speed, Double { bits: CHIP_ANGLE_BITS }),
    };
    RobotCommand {
        id,
        move_command: Some(
            MoveCommand::GlobalVelocity {
                vx: if finite {
                    aim.vx
                } else {
                    Double::zero()
                },
                vy: if finite {
                    aim.vy
                } else {
                    Double::zero()
                },
                angular,
            },
        ),
        kick_speed,
        kick_angle,
        dribbler_on: command.dribbler,
    }
}

/// A command that stops a robot; without one the simulator would go on with the last.
pub open spec fn stop_of(id: usize) -> RobotCommand {
    RobotCommand {
        id,
        move_command: Some(
            MoveCommand::GlobalVelocity { vx: zero(), vy: zero(), angular: zero() },
        ),
        kick_speed: zero(),
        kick_angle: zero(),
        dribbler_on: false,
    }
}

pub fn stopped_command(id: usize) -> (r: RobotCommand)
    ensures
        r == stop_of(id),
{
    RobotCommand {
        id,
        move_command: Some(
            MoveCommand::GlobalVelocity {
                vx: Double::zero(),
                vy: Double::zero(),
                angular: Double::zero(),
            },
        ),
        kick_speed: Double::zero(),
        kick_angle: Double::zero(),
        dribbler_on: false,
    }
}

pub open spec fn stops(num_robots: u8) -> Seq<RobotCommand> {
    Seq::new(num_robots as nat, |id: int| stop_of(id as usize))
}

/// The commands of a side that is halted.
pub fn stopped_commands(num_robots: u8) -> (r: Vec<RobotCommand>)
    ensures
        r@ == stops(num_robots),
{
    let mut commands: Vec<RobotCommand> = Vec::new();
    let mut id: u8 = 0;
    while id < num_robots
        invariant
            id <= num_robots,
            commands@ == stops(num_robots).take(id as int),
        decreases num_robots - id,
    {
        commands.push(stopped_command(id as usize));
        id += 1;
        assert(commands@ =~= stops(num_robots).take(id as int));
    }
    assert(commands@ =~= stops(num_robots));
    commands
}

/// What is worked out for a slot whose robot is driven.
#[derive(Debug, Clone, Copy, PartialEq, Eq, Structural)]
pub struct SlotAim {
    pub tolerance: Tolerance,
    pub aim: Aim,
}

/// What robot `id` of a side is told: its command, if it is on and has one, else to stop.
pub open spec fn told_to(
    id: int,
    commands: Seq<Option<AiCommand>>,
    robots: Seq<RobotState>,
    aims: Seq<SlotAim>,
) -> RobotCommand {
    if id < commands.len() && commands[id] is Some && layers::robot_on(robots, id as usize) is Some {
        driven_command(id as usize, commands[id]->0, aims[id].tolerance, aims[id].aim)
    } else {
        stop_of(id as usize)
    }
}

/// What a side's robots are told; `aims` has one entry for each robot.
pub fn commands_to_sim(
    commands: &Vec<Option<AiCommand>>,
    state: &WorldState,
    color: TeamColor,
    num_robots: u8,
    aims: &Vec<SlotAim>,
) -> (r: Vec<RobotCommand>)
    requires
        aims@.len() >= num_robots,
        forall|i: int| 0 <= i < aims@.len() ==> zero().at_most((#[trigger] aims@[i]).aim.max_turn),
    ensures
        r@ == Seq::new(
            num_robots as nat,
            |id: int| told_to(id, commands@, state.robots_of(color), aims@),
        ),
{
    let ghost all = Seq::new(
        num_robots as nat,
        |id: int| told_to(id, commands@, state.robots_of(color), aims@),
    );
    let n: usize = num_robots as usize;
    let mut told: Vec<RobotCommand> = Vec::new();
    let mut id: usize = 0;
    while id < n
        invariant
            id <= n,
            n == num_robots,
            aims@.len() >= num_robots,
            forall|i: int|
                0 <= i < aims@.len() ==> zero().at_most((#[trigger] aims@[i]).aim.max_turn),
            all == Seq::new(
                num_robots as nat,
                |id: int| told_to(id, commands@, state.robots_of(color), aims@),
            ),
            told@ == all.take(id as int),
        decreases n - id,
    {
        let on = layers::robot_position(state, color, id).is_some();
        let command = if on && id < commands.len() {
            match commands[id] {
                Some(command) => command_to_sim(
                    id,
                    &command,
                    &aims[id].tolerance,
                    &aims[id].aim,
                ),
                None => stopped_command(id),
            }
        } else {
            stopped_command(id)
        };
        told.push(command);
        assert(command == all[id as int]);
        id += 1;
        assert(told@ =~= all.take(id as int));
    }
    assert(told@ =~= all);
    told
}

/// Every robot of a side is told something, under its own number; one without a command, or one
/// that is not on, is told to stop.
pub proof fn law_every_robot_is_told(
    id: int,
    commands: Seq<Option<AiCommand>>,
    robots: Seq<RobotState>,
    aims: Seq<SlotAim>,
)
    requires
        0 <= id <= u8::MAX,
    ensures
        told_to(id, commands, robots, aims).id == id,
        told_to(id, commands, robots, aims).move_command is Some,
        layers::robot_on(robots, id as usize) is None || id >= commands.len() || commands[id] is None
            ==> told_to(id, commands, robots, aims) == stop_of(id as usize),
{
}

/// No robot is told a velocity that is not a number, nor to turn faster than it may.
pub proof fn law_told_velocities_are_finite(
    id: usize,
    command: AiCommand,
    tolerance: Tolerance,
    aim: Aim,
)
    requires
        zero().at_most(aim.max_turn),
        !aim.turn.is_nan_spec(),
    ensures
        driven_command(id, command, tolerance, aim).move_command matches Some(
            MoveCommand::GlobalVelocity { vx, vy, angular },
        ) && vx.is_finite_spec() && vy.is_finite_spec() && aim.max_turn.negated().at_most(angular)
            && angular.at_most(aim.max_turn),
{
    number::law_clamped_within(aim.turn, aim.max_turn.negated(), aim.max_turn);
}

// ---------------------------------------------------------------------------
// Laws

/// A robot drives as it is aimed: along both axes with the velocity that was worked out, where that
/// is finite, and not at all where it is not. It turns as was worked out, no faster than it may,
/// unless its heading is within the tolerance or cannot be told. It kicks as fast as was worked out
/// where its command has a kick, flat or as a chip, and dribbles where its command says so.
pub proof fn law_driven_robots_follow_their_aim(
    id: usize,
    command: AiCommand,
    tolerance: Tolerance,
    aim: Aim,
)
    requires
        (Double { bits: 0 }).at_most(aim.max_turn),
    ensures
        follows_aim(driven_command(id, command, tolerance, aim), id, command, tolerance, aim),
{
}

/// Whether a robot is told to drive, turn, kick and dribble as its command and its aim have it.
pub open spec fn follows_aim(
    r: RobotCommand,
    id: usize,
    command: AiCommand,
    tolerance: Tolerance,
    aim: Aim,
) -> bool {
    &&& r.id == id
    &&& r.dribbler_on == command.dribbler
    &&& match r.move_command {
        Some(MoveCommand::GlobalVelocity { vx, vy, angular }) => {
            &&& aim.vx.is_finite_spec() && aim.vy.is_finite_spec() ==> vx == aim.vx && vy == aim.vy
            &&& !aim.vx.is_finite_spec() || !aim.vy.is_finite_spec() ==> vx.bits == 0 && vy.bits == 0
            &&& match aim.heading_error_deg {
                None => angular.bits == 0,
                Some(error) => if error.absolute().at_most(tolerance.heading_deg.floored()) {
                    angular.bits == 0
                } else if aim.max_turn.less(aim.turn) {
                    angular == aim.max_turn
                } else if aim.turn.less(aim.max_turn.negated()) {
                    angular == aim.max_turn.negated()
                } else {
                    angular == aim.turn
                },
            }
        },
        _ => false,
    }
    &&& match command.kicker {
        Kicker::Idle => r.kick_speed.bits == 0 && r.kick_angle.bits == 0,
        Kicker::Kick(_) => r.kick_speed == aim.kick_speed && r.kick_angle.bits == 0,
        Kicker::Chip(_) => r.kick_speed == aim.kick_speed && r.kick_angle.bits
            == 0x4046_8000_0000_0000,
    }
}

/// Whether a robot is told to stand still: no velocity, no turn, no kick, no dribbler.
pub open spec fn stands_still(r: RobotCommand, id: usize) -> bool {
    &&& r.id == id
    &&& !r.dribbler_on
    &&& r.kick_speed.bits == 0
    &&& r.kick_angle.bits == 0
    &&& r.move_command matches Some(MoveCommand::GlobalVelocity { vx, vy, angular })
    &&& vx.bits == 0
    &&& vy.bits == 0
    &&& angular.bits == 0
}

/// A side's robot that is on and has a command is told that command, by its own aim; every other is
/// told to stand still.
pub proof fn law_told_robots_follow_their_commands(
    id: int,
    commands: Seq<Option<AiCommand>>,
    robots: Seq<RobotState>,
    aims: Seq<SlotAim>,
)
    requires
        0 <= id <= u8::MAX,
        id < aims.len(),
        (Double { bits: 0 }).at_most(aims[id].aim.max_turn),
    ensures
        ({
            let on = exists|k: int|
                0 <= k < robots.len() && (#[trigger] robots[k]).id == id && robots[k].is_on;
            let told = told_to(id, commands, robots, aims);
            if on && id < commands.len() && commands[id] is Some {
                follows_aim(told, id as usize, commands[id]->0, aims[id].tolerance, aims[id].aim)
            } else {
                stands_still(told, id as usize)
            }
        }),
{
    layers::law_the_first_robot_that_is_on(robots, id as usize);
}

/// A halted side's robots stand still, each under its own number.
pub proof fn law_halted_robots_stand_still(num_robots: u8, id: int)
    requires
        0 <= id < num_robots,
    ensures
        stops(num_robots).len() == num_robots,
        stands_still(stops(num_robots)[id], id as usize),
{
}

/// What the AI of a side sees is the world as it is: the ball, the time, and in the slots the robots
/// of both teams, each with its place, velocity and heading and with whether it has the ball. Its own
/// robots tell how far they have got with what they were asked for last.
pub proof fn law_a_side_sees_the_world_as_it_is(
    r: SideView,
    state: WorldState,
    color: TeamColor,
    gc: GameCommand,
    feedback: Seq<MotionFeedback>,
    measured: Seq<Progress>,
    id: int,
)
    requires
        is_side_view(r, state, color, gc, feedback, measured),
        measured.len() == state.robots_of(color).len(),
        0 <= id < SLOTS,
    ensures
        r.ball == state.ball,
        r.sim_time == state.sim_time,
        gc is Halt <==> r.stage is Halt,
        gc is Stop <==> r.stage is Stop,
        gc is Running <==> r.stage is Running,
        gc is FreeKickUs || gc is FreeKickThem <==> r.stage is FreeKick,
        r.own@.len() == SLOTS,
        r.opponents@.len() == SLOTS,
        ({
            let own = if color is Blue {
                state.blue_robots@
            } else {
                state.yellow_robots@
            };
            let opponents = if color is Blue {
                state.yellow_robots@
            } else {
                state.blue_robots@
            };
            &&& r.own@[id] matches Some(slot) ==> {
                &&& slot.place < own.len() && slot.robot == own[slot.place as int]
                &&& slot.robot.id == id && slot.robot.is_on
                &&& slot.has_ball == slot.robot.infrared
                &&& slot.is_goalie == (id == 0)
                &&& id < feedback.len() ==> match feedback[id].request {
                    Some(request) => slot.motion_status.id == request.id,
                    None => slot.motion_status.drive is Reached && slot.motion_status.heading
                        is Reached && slot.motion_status.id == 0,
                }
            }
            &&& r.own@[id] is None ==> forall|k: int|
                0 <= k < own.len() ==> !((#[trigger] own[k]).is_on && own[k].id == id)
            &&& r.opponents@[id] matches Some(slot) ==> {
                &&& slot.place < opponents.len() && slot.robot == opponents[slot.place as int]
                &&& slot.robot.id == id && slot.robot.is_on
                &&& slot.has_ball == slot.robot.infrared
                &&& !slot.is_goalie
                &&& slot.motion_status.drive is Reached && slot.motion_status.heading is Reached
                &&& slot.motion_status.id == 0
            }
            &&& r.opponents@[id] is None ==> forall|k: int|
                0 <= k < opponents.len() ==> !((#[trigger] opponents[k]).is_on && opponents[k].id
                    == id)
        }),
{
    let statuses = statuses_of(state.robots_of(color), feedback, measured);
    let other = state.robots_of(color.opposite_spec());
    assert(state.blue_robots.len() == state.blue_robots@.len());
    assert(state.yellow_robots.len() == state.yellow_robots@.len());
    law_slots_hold_the_robots_on_the_field(state.robots_of(color), true, statuses, id);
    law_slots_hold_the_robots_on_the_field(other, false, idle_statuses(other.len()), id);
}

/// A drive to a place is reached exactly where what is left of it is within the tolerance and, if a
/// speed is asked for, the robot is no faster. Until then it tells what is left. Holding is always
/// reached; a direction and a velocity never are.
pub proof fn law_drive_status(feedback: MotionFeedback, p: Progress, request: MotionCommand)
    requires
        feedback.request == Some(request),
    ensures
        match request.target {
            Target::Hold => status_of(feedback, p).drive is Reached,
            Target::Pos { .. } => {
                let near = p.dist.at_most(request.tolerance.pos_mm.floored());
                let slow = request.tolerance.vel.at_most(Single { bits: 0 }) || p.speed_mm_s.at_most(
                    request.tolerance.vel,
                );
                &&& status_of(feedback, p).drive is Reached <==> near && slow
                &&& status_of(feedback, p).drive matches DriveStatus::Running { eta, dist, .. }
                    ==> eta == p.drive.eta && dist == p.dist
            },
            _ => status_of(feedback, p).drive matches DriveStatus::Running { eta, progress, dist }
                && eta.bits == 0x7f80_0000 && dist.bits == 0x7f80_0000 && progress.bits == 0,
        },
{
}

/// A fixed heading is reached exactly where it is off by no more than the tolerance, and until then
/// tells by how much it is off. What is faced is tracked, or tracked behind by as much as it is off,
/// by half a turn where that cannot be told. A free heading is always reached.
pub proof fn law_heading_status(feedback: MotionFeedback, p: Progress, request: MotionCommand)
    requires
        feedback.request == Some(request),
    ensures
        ({
            let heading = status_of(feedback, p).heading;
            let tolerance = request.tolerance.heading_deg.floored();
            match request.heading {
                HeadingMode::Free => heading is Reached,
                HeadingMode::Fixed(_) => match p.diff {
                    Some(off) => {
                        &&& heading is Reached <==> off.absolute().at_most(tolerance)
                        &&& heading !is Reached ==> (heading matches HeadingStatus::Running {
                            eta,
                            diff,
                            ..
                        } && eta == p.turn.eta && diff == off)
                    },
                    None => heading is Reached,
                },
                _ => match p.diff {
                    Some(off) => if off.absolute().at_most(tolerance) {
                        heading is Tracking
                    } else {
                        heading == HeadingStatus::TrackingBehind(off)
                    },
                    None => heading matches HeadingStatus::TrackingBehind(behind) && behind.bits
                        == 0x4334_0000,
                },
            }
        }),
{
    number::law_order_of_singles(Single { bits: 0 }, request.tolerance.heading_deg);
    number::law_held_singles(request.tolerance.heading_deg, Single { bits: 0 }, Single { bits: 0 });
}

/// The share of a way that is covered is what was worked out, held between nothing and all; where
/// there was nothing to cover beyond the tolerance, it is all or nothing by whether the rest is
/// within it.
pub proof fn law_progress(way: Way, remaining: Single, tolerance: Single)
    ensures
        ({
            let share = progress_of(way, remaining, tolerance);
            if way.range.at_most(Single { bits: 0x3400_0000 }) {
                share.bits == (if remaining.at_most(tolerance) {
                    0x3f80_0000u32
                } else {
                    0
                })
            } else if way.share.less(Single { bits: 0 }) {
                share.bits == 0
            } else if (Single { bits: 0x3f80_0000 }).less(way.share) {
                share.bits == 0x3f80_0000
            } else {
                share == way.share
            }
        }),
{
}

/// A request is the same as the last one only where its id, its target and its heading all are; a
/// robot that is asked for nothing is asked for the same as before only where that was nothing.
pub proof fn law_same_goals(a: MotionCommand, b: MotionCommand)
    ensures
        same_goal(Some(a), Some(a)),
        same_goal(Some(a), Some(b)) == same_goal(Some(b), Some(a)),
        a.id != b.id || a.target != b.target || a.heading != b.heading ==> !same_goal(
            Some(a),
            Some(b),
        ),
        same_goal(None, None),
        !same_goal(Some(a), None),
        !same_goal(None, Some(a)),
        same_goal(Some(a), Some(MotionCommand { id: a.id, target: a.target, heading: a.heading, ..b })),
{
}

/// Progress is measured from how far off the robot was when its request was new: the way for the
/// drive and, without its sign, the angle for the turn; nothing where the robot is not on or nothing
/// is asked for.
pub proof fn law_new_requests_are_measured_from_here(
    item: MotionFeedback,
    request: Option<MotionCommand>,
    on: bool,
    offset: Offset,
)
    ensures
        next_feedback(item, request, on, offset).request == request,
        same_goal(item.request, request) ==> {
            &&& next_feedback(item, request, on, offset).initial_drive_dist_mm
                == item.initial_drive_dist_mm
            &&& next_feedback(item, request, on, offset).initial_heading_diff_deg
                == item.initial_heading_diff_deg
        },
        !same_goal(item.request, request) && on && request is Some ==> {
            &&& next_feedback(item, request, on, offset).initial_drive_dist_mm
                == offset.drive_dist_mm
            &&& match offset.heading_diff_deg {
                Some(diff) => next_feedback(item, request, on, offset).initial_heading_diff_deg
                    == diff.absolute(),
                None => next_feedback(item, request, on, offset).initial_heading_diff_deg.bits == 0,
            }
        },
        !same_goal(item.request, request) && !(on && request is Some) ==> {
            &&& next_feedback(item, request, on, offset).initial_drive_dist_mm.bits == 0
            &&& next_feedback(item, request, on, offset).initial_heading_diff_deg.bits == 0
        },
{
}

/// The motion that is asked of a slot's robot is that of the command in its place.
pub proof fn law_requests_are_those_of_the_commands(commands: Seq<Option<AiCommand>>, id: int)
    requires
        0 <= id,
    ensures
        request_in(commands, id) matches Some(request) ==> id < commands.len() && commands[id]
            is Some && commands[id]->0.motion == Some(request),
        id < commands.len() && commands[id] is Some ==> request_in(commands, id)
            == commands[id]->0.motion,
{
}

/// A heading is turned to what it names: a fixed angle, a point, or the ball where it is.
pub proof fn law_headings_are_turned_to_what_they_name(
    mode: HeadingMode,
    state: WorldState,
    color: TeamColor,
)
    ensures
        mode is Free ==> goal_of(mode, state, color) is Unknown,
        mode matches HeadingMode::Fixed(angle) ==> goal_of(mode, state, color)
            == HeadingGoal::Angle(angle),
        mode matches HeadingMode::FaceTarget { x, y } ==> goal_of(mode, state, color)
            == (HeadingGoal::Point { x, y }),
        mode is FaceBall ==> goal_of(mode, state, color) == (HeadingGoal::Place {
            x: state.ball.x,
            y: state.ball.y,
        }),
{
}

/// A robot that is to be faced is faced where it stands: the robot of that number of the side that is
/// meant, where such a robot is on.
pub proof fn law_robots_are_faced_where_they_stand(
    id: u8,
    side: Side,
    state: WorldState,
    color: TeamColor,
    robots: Seq<RobotState>,
)
    requires
        robots == (if (color is Blue) == (side is Own) {
            state.blue_robots@
        } else {
            state.yellow_robots@
        }),
    ensures
        ({
            let goal = goal_of(HeadingMode::FaceRobot { id, side }, state, color);
            &&& goal is Place || goal is Unknown
            &&& goal matches HeadingGoal::Place { x, y } ==> exists|k: int|
                0 <= k < robots.len() && (#[trigger] robots[k]).id == id && robots[k].is_on
                    && robots[k].x == x && robots[k].y == y
            &&& goal is Unknown ==> forall|k: int|
                0 <= k < robots.len() ==> !((#[trigger] robots[k]).id == id && robots[k].is_on)
        }),
{
    layers::law_the_first_robot_that_is_on(robots, id as usize);
    match layers::robot_on(robots, id as usize) {
        Some(robot) => {
            let k = choose|k: int|
                0 <= k < robots.len() && #[trigger] robots[k] == robot && robot.id == id
                    && robot.is_on;
            assert(robots[k].x == robot.x);
        },
        None => {},
    }
}

/// No speed limit is above what the request asks for, what a stopped game allows or what the robot
/// can; it is one of these, or the default of a drive that asks for none. An explicit velocity has no
/// default.
pub proof fn law_speed_limits(
    target: Target,
    requested: Option<Double>,
    stop_limit: Option<Double>,
    robot_limit: Double,
)
    requires
        !robot_limit.is_nan_spec(),
        requested matches Some(v) ==> !v.is_nan_spec(),
        stop_limit matches Some(v) ==> !v.is_nan_spec(),
    ensures
        ({
            let limit = limit_of(target, requested, stop_limit, robot_limit);
            let default = Double { bits: 0x40af_4000_0000_0000 };
            &&& limit.at_most(robot_limit)
            &&& requested matches Some(v) ==> limit.at_most(v)
            &&& stop_limit matches Some(v) ==> limit.at_most(v)
            &&& requested is None && target !is Velocity ==> limit.at_most(default)
            &&& limit == robot_limit || requested == Some(limit) || stop_limit == Some(limit)
                || requested is None && target !is Velocity && limit == default || limit.bits
                == 0x7ff0_0000_0000_0000
            &&& limit.bits == 0x7ff0_0000_0000_0000 ==> requested == Some(limit) || requested is None
                && target is Velocity
        }),
{
}

/// The speeds that a request allows are those that it is limited to, not below zero; without limits,
/// 4000 mm/s and 20 radians a second.
pub proof fn law_speeds_that_a_request_allows(request: MotionCommand)
    ensures
        match request.limits {
            Some(limits) => {
                &&& (Single { bits: 0 }).less(limits.v_max) ==> max_speed_of(request) == limits.v_max
                &&& !(Single { bits: 0 }).less(limits.v_max) ==> max_speed_of(request).bits == 0
                &&& (Single { bits: 0 }).less(limits.omega_max) ==> max_angular_of(request)
                    == limits.omega_max
                &&& !(Single { bits: 0 }).less(limits.omega_max) ==> max_angular_of(request).bits == 0
            },
            None => max_speed_of(request).bits == 0x457a_0000 && max_angular_of(request).bits
                == 0x448f_3d4d,
        },
{
}

/// Marking takes every motion past the collision planner and changes nothing else: no command comes
/// or goes, none gets a motion, and target, heading, limits, kick and dribbler stay.
pub proof fn law_marking_changes_the_planner_alone(commands: Seq<Option<AiCommand>>, i: int)
    requires
        0 <= i < commands.len(),
    ensures
        marked(commands).len() == commands.len(),
        marked(commands)[i] is Some <==> commands[i] is Some,
        commands[i] matches Some(before) ==> {
            let after = marked(commands)[i]->0;
            &&& after.dribbler == before.dribbler
            &&& after.kicker == before.kicker
            &&& after.motion is Some <==> before.motion is Some
            &&& before.motion matches Some(m) ==> {
                let n = after.motion->0;
                &&& n.raw_movement
                &&& n.id == m.id
                &&& n.target == m.target
                &&& n.heading == m.heading
                &&& n.tolerance == m.tolerance
                &&& n.limits == m.limits
                &&& n.priority == m.priority
            }
        },
{
}

/// A side starts with a command that asks for nothing for each of its robots, and none for others.
pub proof fn law_first_commands_ask_for_nothing(num_robots: u8, i: int)
    requires
        0 <= i < SLOTS,
    ensures
        blank_commands(num_robots).len() == SLOTS,
        blank_commands(num_robots)[i] is Some <==> i < num_robots,
        blank_commands(num_robots)[i] matches Some(c) ==> !c.dribbler && c.motion is None && c.kicker
            is Idle,
{
}

/// The ball is taken to stop where it is, at the time of the view.
pub proof fn law_the_ball_stops_where_it_is(view: SideView)
    ensures
        view.ball_stop_spec().x == view.ball.x,
        view.ball_stop_spec().y == view.ball.y,
        view.ball_stop_spec().time == view.sim_time,
{
}

/// A robot's status is that of what its own slot was asked for, by what is measured of that robot; a
/// robot whose number has no slot was asked for nothing, and so was every robot of the other side.
pub proof fn law_statuses_are_of_the_robots_own_slot(
    robots: Seq<RobotState>,
    feedback: Seq<MotionFeedback>,
    measured: Seq<Progress>,
    k: int,
)
    requires
        0 <= k < robots.len(),
    ensures
        statuses_of(robots, feedback, measured).len() == robots.len(),
        ({
            let status = statuses_of(robots, feedback, measured)[k];
            let id = robots[k].id as int;
            &&& id < feedback.len() ==> status == status_of(feedback[id], measured[k])
            &&& id >= feedback.len() ==> status.drive is Reached && status.heading is Reached
                && status.id == 0
        }),
        idle_statuses(robots.len())[k].drive is Reached,
        idle_statuses(robots.len())[k].heading is Reached,
        idle_statuses(robots.len())[k].id == 0,
        SLOTS == 16,
{
}

} // verus!
