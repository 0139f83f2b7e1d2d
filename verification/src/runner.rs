//! The loop of a match in this process: what each turn decides.
//!
//! Whoever runs the loop steps the engine, asks the controllers and the director, and comes back
//! here between, to `MatchRun::next`.

use vstd::prelude::*;
use crate::config;
use crate::config::{
    plan_match, route, side_title, world_config, Abilities, Divisions, MatchConfig, MatchPlan, Route,
};
use crate::control::WebControlState;
use crate::controller;
use crate::controller::{build_controller, BuiltIn, ControllerPlan, KindModel, TeamKind};
use crate::debug::ViewerDebugSnapshot;
use crate::state::{RobotCommand, TeamColor, WorldCommand};
use crate::text;
use crate::text::concat_text;
use crate::trackers::{GameStateInfo, GoalTracker};
use crate::viewer::{SessionLifecycle, ViewerModel, ViewerServer};

verus! {

/// Whether this is what to build for a side of `bots` robots.
pub open spec fn is_side(
    r: Option<Result<ControllerPlan, &'static str>>,
    kind: KindModel,
    color: TeamColor,
    bots: usize,
    built_in: BuiltIn,
) -> bool {
    match r {
        Some(built) => {
            &&& bots > 0
            &&& match controller::unbuildable(kind, built_in) {
                Some(message) => built matches Err(e) && e@ == message,
                None => built matches Ok(plan) && controller::is_plan_of(
                    plan,
                    kind,
                    color,
                    bots as u8,
                ),
            }
        },
        None => bots == 0,
    }
}

/// What to build for a side: nothing for a side without robots.
pub fn build_side(kind: &TeamKind, color: TeamColor, bots: usize, built_in: BuiltIn) -> (r: Option<
    Result<ControllerPlan, &'static str>,
>)
    requires
        bots > 0 ==> !(kind@ is Sumatra),
    ensures
        is_side(r, kind@, color, bots, built_in),
{
    if bots > 0 {
        Some(build_controller(kind, color, #[verifier::truncate] (bots as u8), built_in))
    } else {
        None
    }
}

// ---------------------------------------------------------------------------
// Starting

/// How a match starts.
pub enum MatchStart {
    /// Not played: why, and what both sides go by in the empty report.
    Refused { message: &'static str, blue_name: String, yellow_name: String },
    /// Over SimNet, with Sumatra.
    Sumatra,
    /// In this process.
    InProcess(MatchPlan),
}

/// Whether a match starts so.
pub open spec fn is_start(
    r: MatchStart,
    mc: MatchConfig,
    divisions: Divisions,
    abilities: Abilities,
) -> bool {
    let default_bots = config::division_world(mc.div, mc.seed, divisions).robots_per_team;
    match config::route_of(mc, default_bots, abilities) {
        Route::InProcess => r matches MatchStart::InProcess(plan) && plan == config::plan_of(
            mc,
            divisions,
        ),
        Route::Sumatra => r is Sumatra,
        refused => r matches MatchStart::Refused { message, blue_name, yellow_name } && {
            &&& refused.refusal_spec() == Some(message@)
            &&& blue_name@ == config::side_label("blue"@, controller::kind_label(mc.blue@))
            &&& yellow_name@ == config::side_label("yellow"@, controller::kind_label(mc.yellow@))
        },
    }
}

/// Starts a match: routes it, and plans it where both sides play in this process.
pub fn run_match(mc: &MatchConfig, divisions: &Divisions, abilities: Abilities) -> (r: MatchStart)
    ensures
        is_start(r, *mc, *divisions, abilities),
{
    let world = world_config(mc.div, mc.seed, divisions);
    let route = route(mc, world.robots_per_team, abilities);
    match route.refusal() {
        Some(message) => MatchStart::Refused {
            message,
            blue_name: side_title("blue", mc.blue.label()),
            yellow_name: side_title("yellow", mc.yellow.label()),
        },
        None => match route {
            Route::Sumatra => MatchStart::Sumatra,
            _ => MatchStart::InProcess(plan_match(mc, divisions)),
        },
    }
}

/// Both sides of a match that is played in this process can be built here: none that has robots is
/// external.
pub proof fn law_sides_in_this_process_can_be_built(
    mc: MatchConfig,
    divisions: Divisions,
    abilities: Abilities,
)
    requires
        config::route_of(
            mc,
            config::division_world(mc.div, mc.seed, divisions).robots_per_team,
            abilities,
        ) is InProcess,
    ensures
        config::plan_of(mc, divisions).bots.blue > 0 ==> !(mc.blue@ is Sumatra),
        config::plan_of(mc, divisions).bots.yellow > 0 ==> !(mc.yellow@ is Sumatra),
{
}

// ---------------------------------------------------------------------------
// The loop

/// How a turn goes on.
#[derive(Debug, Clone, Copy, PartialEq, Eq, Structural)]
pub enum Turn {
    /// The match is over.
    Over,
    /// The operator has stopped the match.
    Stopped,
    /// Everything is built anew and kicked off first.
    Restart,
    Go,
}

/// How the next turn goes: whether the match is over, and what the operator has asked for. A stop
/// comes before a restart, which then stays pending.
pub open spec fn turn_of(over: bool, viewer: ViewerModel) -> Turn {
    if over {
        Turn::Over
    } else if viewer.client.control.stop_requested {
        Turn::Stopped
    } else if viewer.client.control.wants_restart() {
        Turn::Restart
    } else {
        Turn::Go
    }
}

/// What the viewer is once the turn has taken what it answers to. A restart starts the score anew.
pub open spec fn viewer_after(turn: Turn, viewer: ViewerModel) -> ViewerModel {
    let control = viewer.client.control;
    match turn {
        Turn::Over => viewer,
        Turn::Go => viewer.with_control(WebControlState { restart_requested: false, ..control }),
        Turn::Stopped => viewer.with_control(WebControlState { stop_requested: false, ..control }),
        Turn::Restart => ViewerModel {
            goals: GoalTracker::initial(),
            ..viewer.with_control(WebControlState { restart_requested: false, ..control })
        },
    }
}

/// How the next turn of a match goes that has a viewer.
pub fn begin_turn(over: bool, viewer: &mut ViewerServer) -> (turn: Turn)
    ensures
        turn == turn_of(over, old(viewer)@),
        final(viewer)@ == viewer_after(turn, old(viewer)@),
{
    if over {
        return Turn::Over;
    }
    if viewer.take_stop_request() {
        return Turn::Stopped;
    }
    if viewer.take_restart_request() {
        viewer.reset_goals();
        return Turn::Restart;
    }
    Turn::Go
}

/// What was done last.
#[derive(Debug, Clone, Copy, PartialEq, Eq, Structural)]
pub enum MatchEvent {
    /// A turn has begun, which goes on so.
    Turned(Turn),
    /// Engine, controllers, director and evaluator were built anew, and the match kicked off.
    Rebuilt,
    /// The operator's requests and edits were applied; the match runs, or is held.
    Prepared { running: bool },
    /// The world was shown while the match is held, and 16 milliseconds passed.
    Held,
    /// The controllers have acted and the director has seen the world: a goal was scored, or not.
    Acted { goal: bool },
    /// The world was stepped, and is now at this frame.
    Stepped { frame: u64 },
    /// The turn was ended.
    Ended,
}

/// What to do next.
#[derive(Debug, Clone, Copy, PartialEq, Eq, Structural)]
pub enum MatchAction {
    Turn,
    Rebuild,
    Prepare,
    Hold,
    Act,
    Step,
    End(TurnEnd),
    Finish(SessionLifecycle),
}

/// What is left to do at the end of a turn.
#[derive(Debug, Clone, Copy, PartialEq, Eq, Structural)]
pub struct TurnEnd {
    pub records: bool,
    pub logs: bool,
    pub publishes: bool,
    pub waits: bool,
}

/// A match that is being played.
#[derive(Debug, Clone, Copy, PartialEq, Eq, Structural)]
pub struct MatchRun {
    pub plan: MatchPlan,
    pub has_viewer: bool,
    pub log_open: bool,
    pub log_every: u64,
    /// What is being done.
    pub doing: MatchAction,
    pub command_counter: u32,
}

/// `n + 1`, going round at the end of `u32`.
pub open spec fn next_count(n: u32) -> u32 {
    if n == u32::MAX {
        0
    } else {
        (n + 1) as u32
    }
}

impl MatchRun {
    pub open spec fn wf(self) -> bool {
        self.log_open ==> self.log_every > 0
    }

    /// Whether an event is what comes of what is being done.
    pub open spec fn expects(self, event: MatchEvent) -> bool {
        match self.doing {
            MatchAction::Turn => event is Turned,
            MatchAction::Rebuild => event is Rebuilt,
            MatchAction::Prepare => event is Prepared,
            MatchAction::Hold => event is Held,
            MatchAction::Act => event is Acted,
            MatchAction::Step => event is Stepped,
            MatchAction::End(_) => event is Ended,
            MatchAction::Finish(_) => false,
        }
    }

    /// A match with a viewer is prepared before it is played.
    pub open spec fn go(self) -> MatchAction {
        if self.has_viewer {
            MatchAction::Prepare
        } else {
            MatchAction::Act
        }
    }

    /// How a turn that came to `frame` ends. The log is kept of every so many frames.
    pub open spec fn end(self, frame: u64) -> TurnEnd {
        TurnEnd {
            records: self.plan.records_replay,
            logs: self.log_open && goes_into_log(frame, self.log_every),
            publishes: self.has_viewer,
            waits: self.plan.paces,
        }
    }

    /// What is done after an event.
    pub open spec fn action_after(self, event: MatchEvent) -> MatchAction {
        match event {
            MatchEvent::Turned(Turn::Over) => MatchAction::Finish(SessionLifecycle::Completed),
            MatchEvent::Turned(Turn::Stopped) => MatchAction::Finish(SessionLifecycle::Cancelled),
            MatchEvent::Turned(Turn::Restart) => MatchAction::Rebuild,
            MatchEvent::Turned(Turn::Go) => self.go(),
            MatchEvent::Rebuilt => self.go(),
            MatchEvent::Prepared { running } => if running {
                MatchAction::Act
            } else {
                MatchAction::Hold
            },
            MatchEvent::Held => MatchAction::Turn,
            MatchEvent::Acted { .. } => MatchAction::Step,
            MatchEvent::Stepped { frame } => MatchAction::End(self.end(frame)),
            MatchEvent::Ended => MatchAction::Turn,
        }
    }

    /// The counter of the referee's commands: a restart starts it over, a goal calls a new one.
    pub open spec fn counter_after(self, event: MatchEvent) -> u32 {
        match event {
            MatchEvent::Rebuilt => 1,
            MatchEvent::Acted { goal } if goal => next_count(self.command_counter),
            _ => self.command_counter,
        }
    }

    pub open spec fn after(self, event: MatchEvent) -> MatchRun {
        MatchRun {
            doing: self.action_after(event),
            command_counter: self.counter_after(event),
            ..self
        }
    }

    pub open spec fn kicked_off(
        plan: MatchPlan,
        has_viewer: bool,
        log_open: bool,
        log_every: u64,
    ) -> MatchRun {
        MatchRun {
            plan,
            has_viewer,
            log_open,
            log_every,
            doing: MatchAction::Turn,
            command_counter: 1,
        }
    }

    /// A match that was kicked off. `log_open` is whether there is a log to write to.
    pub fn new(plan: MatchPlan, has_viewer: bool, log_open: bool, log_every: u64) -> (r: MatchRun)
        requires
            log_open ==> log_every > 0,
        ensures
            r.wf(),
            r == MatchRun::kicked_off(plan, has_viewer, log_open, log_every),
    {
        MatchRun {
            plan,
            has_viewer,
            log_open,
            log_every,
            doing: MatchAction::Turn,
            command_counter: 1,
        }
    }

    /// Takes what came of what was being done, and says what to do next.
    pub fn next(&mut self, event: MatchEvent) -> (action: MatchAction)
        requires
            old(self).wf(),
            old(self).expects(event),
        ensures
            final(self).wf(),
            *final(self) == old(self).after(event),
            action == final(self).doing,
    {
        let go = if self.has_viewer {
            MatchAction::Prepare
        } else {
            MatchAction::Act
        };
        let action = match event {
            MatchEvent::Turned(Turn::Over) => MatchAction::Finish(SessionLifecycle::Completed),
            MatchEvent::Turned(Turn::Stopped) => MatchAction::Finish(SessionLifecycle::Cancelled),
            MatchEvent::Turned(Turn::Restart) => MatchAction::Rebuild,
            MatchEvent::Turned(Turn::Go) => go,
            MatchEvent::Rebuilt => {
                self.command_counter = 1;
                go
            },
            MatchEvent::Prepared { running } => if running {
                MatchAction::Act
            } else {
                MatchAction::Hold
            },
            MatchEvent::Held => MatchAction::Turn,
            MatchEvent::Acted { goal } => {
                if goal {
                    self.command_counter = self.command_counter.wrapping_add(1);
                }
                MatchAction::Step
            },
            MatchEvent::Stepped { frame } => MatchAction::End(
                TurnEnd {
                    records: self.plan.records_replay,
                    logs: self.log_open && is_logged(frame, self.log_every),
                    publishes: self.has_viewer,
                    waits: self.plan.paces,
                },
            ),
            MatchEvent::Ended => MatchAction::Turn,
        };
        self.doing = action;
        action
    }
}

/// A stop asked for before the match is over cancels it, and the request is answered once.
pub proof fn law_stop_cancels(run: MatchRun, viewer: ViewerModel)
    requires
        viewer.client.control.stop_requested,
    ensures
        ({
            let turn = turn_of(false, viewer);
            let after = viewer_after(turn, viewer);
            &&& run.after(MatchEvent::Turned(turn)).doing == MatchAction::Finish(
                SessionLifecycle::Cancelled,
            )
            &&& !after.client.control.stop_requested
            &&& after.client.control.restart_requested == viewer.client.control.restart_requested
        }),
{
}

/// After a restart the score is nil, the counter starts over, and the match goes on.
pub proof fn law_restart_starts_over(run: MatchRun, viewer: ViewerModel)
    requires
        turn_of(false, viewer) is Restart,
    ensures
        ({
            let after = viewer_after(Turn::Restart, viewer);
            let rebuilt = run.after(MatchEvent::Turned(Turn::Restart)).after(MatchEvent::Rebuilt);
            &&& after.goals == GoalTracker::initial()
            &&& rebuilt.command_counter == 1
            &&& rebuilt.doing == run.go()
            &&& turn_of(false, after) is Go
        }),
{
}

/// A match that is held is neither stepped nor recorded: it is shown, and the next turn begins.
pub proof fn law_held_matches_stand_still(run: MatchRun)
    ensures
        ({
            let held = run.after(MatchEvent::Prepared { running: false });
            &&& held.doing is Hold
            &&& held.after(MatchEvent::Held) == (MatchRun { doing: MatchAction::Turn, ..run })
        }),
{
}

/// A turn that is played acts once, steps once and ends once; a goal in it counts once.
pub proof fn law_a_played_turn(run: MatchRun, goal: bool, frame: u64)
    ensures
        ({
            let acted = run.after(MatchEvent::Acted { goal });
            let stepped = acted.after(MatchEvent::Stepped { frame });
            let ended = stepped.after(MatchEvent::Ended);
            &&& acted.doing is Step
            &&& stepped.doing == MatchAction::End(run.end(frame))
            &&& ended.doing is Turn
            &&& ended.command_counter == (if goal {
                next_count(run.command_counter)
            } else {
                run.command_counter
            })
        }),
{
}

pub open spec fn goes_into_log(frame: u64, log_every: u64) -> bool {
    frame as int % log_every as int == 0
}

/// Whether a frame goes into the log.
pub fn is_logged(frame: u64, log_every: u64) -> (r: bool)
    requires
        log_every > 0,
    ensures
        r == goes_into_log(frame, log_every),
{
    frame % log_every == 0
}

/// The line that tells of a goal, unless the match is quiet. `time` is the time in seconds, with
/// one decimal, six wide.
pub open spec fn goal_line_of(quiet: bool, time: Seq<char>, event: Option<Seq<char>>) -> Option<
    Seq<char>,
> {
    match event {
        Some(event) if !quiet => Some("  ["@ + time + "s] "@ + event),
        _ => None,
    }
}

pub fn goal_line(quiet: bool, time: &str, event: Option<&str>) -> (r: Option<String>)
    ensures
        text::text_view(r) == goal_line_of(
            quiet,
            time@,
            match event {
                Some(e) => Some(e@),
                None => None,
            },
        ),
{
    match event {
        Some(event) => if quiet {
            None
        } else {
            let head = concat_text(concat_text("  [", time).as_str(), "s] ");
            Some(concat_text(head.as_str(), event))
        },
        None => None,
    }
}

pub open spec fn commands_of_turn(
    director: WorldCommand,
    blue: Vec<RobotCommand>,
    yellow: Vec<RobotCommand>,
) -> WorldCommand {
    WorldCommand { blue, yellow, ..director }
}

/// The commands of a turn: the director's, with each side's own in place of its.
pub fn turn_commands(director: WorldCommand, blue: Vec<RobotCommand>, yellow: Vec<RobotCommand>) -> (r:
    WorldCommand)
    ensures
        r == commands_of_turn(director, blue, yellow),
{
    let mut commands = director;
    commands.blue = blue;
    commands.yellow = yellow;
    commands
}

/// The viewer once it shows what the controllers have to say of a world.
pub open spec fn with_controllers_told(
    m: ViewerModel,
    world_id: usize,
    snapshot: Option<ViewerDebugSnapshot>,
) -> ViewerModel {
    m.with_debug(
        match snapshot {
            Some(s) => m.debug.insert(world_id, s@),
            None => m.debug.remove(world_id),
        },
    )
}

/// Shows what the controllers have to say of world `world_id`, or takes back what they said.
pub fn publish_controller_debug(
    viewer: &mut ViewerServer,
    world_id: usize,
    snapshot: Option<ViewerDebugSnapshot>,
)
    requires
        snapshot matches Some(s) ==> s.world_id == world_id,
    ensures
        final(viewer)@ == with_controllers_told(old(viewer)@, world_id, snapshot),
{
    match snapshot {
        Some(s) => viewer.set_debug_snapshot(s),
        None => viewer.clear_debug_snapshot(world_id),
    }
}

pub open spec fn info_of(
    command: String,
    command_counter: u32,
    blue_name: String,
    yellow_name: String,
) -> GameStateInfo {
    GameStateInfo {
        command,
        command_counter,
        stage: None,
        blue_name: Some(blue_name),
        yellow_name: Some(yellow_name),
    }
}

/// What the referee's state is published as.
pub fn referee_info(
    command: String,
    command_counter: u32,
    blue_name: String,
    yellow_name: String,
) -> (r: GameStateInfo)
    ensures
        r == info_of(command, command_counter, blue_name, yellow_name),
{
    GameStateInfo {
        command,
        command_counter,
        stage: None,
        blue_name: Some(blue_name),
        yellow_name: Some(yellow_name),
    }
}

// ---------------------------------------------------------------------------
// Laws

/// A side with robots is built for its color and for all of its robots, where its AI is built in; a
/// side without robots is not built.
pub proof fn law_sides_with_robots_are_built(
    r: Option<Result<ControllerPlan, &'static str>>,
    kind: KindModel,
    color: TeamColor,
    bots: usize,
    built_in: BuiltIn,
)
    requires
        is_side(r, kind, color, bots, built_in),
    ensures
        r is Some == (bots > 0),
        r matches Some(Ok(ControllerPlan::CrashPilot { start, num_robots, .. })) ==> start.team
            == color && (bots <= 255 ==> num_robots == bots),
        r matches Some(Ok(ControllerPlan::Dummy { num_robots })) ==> kind is Dummy && (bots <= 255
            ==> num_robots == bots),
        r matches Some(Ok(ControllerPlan::Dehumanized { num_robots })) ==> kind is Dehumanized && (
        bots <= 255 ==> num_robots == bots),
        kind is Dummy && bots > 0 ==> r is Some && r->0 is Ok,
        kind is Dehumanized && bots > 0 ==> r is Some && (r->0 is Ok == built_in.dehumanized),
        kind is Bangka && bots > 0 ==> r is Some && (r->0 is Ok == built_in.bangka),
{
}

/// A match starts in this process unless Sumatra plays in it; one that cannot be played is refused,
/// with a reason, under the colors and kinds of its sides.
pub proof fn law_matches_start_where_they_are_played(
    r: MatchStart,
    mc: MatchConfig,
    divisions: Divisions,
    abilities: Abilities,
)
    requires
        is_start(r, mc, divisions, abilities),
    ensures
        !(mc.blue@ is Sumatra) && !(mc.yellow@ is Sumatra) && !mc.dev ==> r is InProcess,
        mc.dev && !abilities.viewer ==> r is Refused,
        r is Sumatra ==> abilities.sumatra && !mc.dev && (mc.blue@ is Sumatra
            || mc.yellow@ is Sumatra),
        r matches MatchStart::InProcess(plan) ==> plan.world.seed == mc.seed && (!mc.dev
            ==> plan.duration == mc.seconds),
        r matches MatchStart::Refused { message, blue_name, yellow_name } ==> message@.len() > 0
            && blue_name@ == "blue:"@ + controller::kind_label(mc.blue@) && yellow_name@
            == "yellow:"@ + controller::kind_label(mc.yellow@),
{
    reveal_strlit("blue");
    reveal_strlit("yellow");
    reveal_strlit(":");
    reveal_strlit("blue:");
    reveal_strlit("yellow:");
    assert("blue:"@ =~= "blue"@ + ":"@);
    assert("yellow:"@ =~= "yellow"@ + ":"@);
    reveal_strlit("development matches require building match-runner with `--features viewer`");
    reveal_strlit("--dev does not support matches containing Sumatra; use in-process AIs only");
    reveal_strlit(
        "sumatra matches require building match-runner with `--features sumatra` and setting SIMHARK_SUMATRA_REPO_ROOT",
    );
}

/// A match that is over ends whatever the operator wants; before, a stop comes first, then a restart
/// where the browser may ask for one, and otherwise the match goes on.
pub proof fn law_turns(viewer: ViewerModel)
    ensures
        ({
            let c = viewer.client.control;
            &&& turn_of(true, viewer) is Over
            &&& c.stop_requested <==> turn_of(false, viewer) is Stopped
            &&& !c.stop_requested && c.enabled && c.restart_requested <==> turn_of(
                false,
                viewer,
            ) is Restart
            &&& !c.stop_requested && !(c.enabled && c.restart_requested) <==> turn_of(
                false,
                viewer,
            ) is Go
        }),
{
}

/// A turn takes the request that it answers and no other, and only a restart touches the score.
pub proof fn law_turns_take_what_they_answer(viewer: ViewerModel)
    ensures
        viewer_after(Turn::Over, viewer) == viewer,
        ({
            let c = viewer.client.control;
            let stopped = viewer_after(Turn::Stopped, viewer);
            let restarted = viewer_after(Turn::Restart, viewer);
            let went = viewer_after(Turn::Go, viewer);
            &&& !stopped.client.control.stop_requested
            &&& stopped.client.control.restart_requested == c.restart_requested
            &&& stopped.client.control.running == c.running
            &&& stopped.goals == viewer.goals
            &&& !restarted.client.control.restart_requested
            &&& restarted.client.control.stop_requested == c.stop_requested
            &&& restarted.client.control.running == c.running
            &&& restarted.goals.blue == 0 && restarted.goals.yellow == 0
            &&& !went.client.control.restart_requested
            &&& went.client.control.stop_requested == c.stop_requested
            &&& went.goals == viewer.goals
            &&& restarted.client.selected_worlds == viewer.client.selected_worlds
            &&& restarted.client.robot_moves == viewer.client.robot_moves
            &&& restarted.debug == viewer.debug
        }),
{
}

/// A match begins with a turn and the first command of the referee.
pub proof fn law_a_match_begins_with_a_turn(
    plan: MatchPlan,
    has_viewer: bool,
    log_open: bool,
    log_every: u64,
)
    ensures
        ({
            let run = MatchRun::kicked_off(plan, has_viewer, log_open, log_every);
            &&& run.doing is Turn
            &&& run.command_counter == 1
            &&& run.plan == plan
            &&& run.has_viewer == has_viewer
            &&& run.log_open == log_open
            &&& run.log_every == log_every
        }),
{
}

/// What is done after each thing: a match that is over completes, one that is stopped is cancelled, one
/// that restarts is rebuilt; one that goes on is prepared where it has a viewer, then played while it
/// runs and held while it does not, and a turn that was played is ended before the next begins.
pub proof fn law_what_comes_next(run: MatchRun, frame: u64, goal: bool)
    ensures
        run.action_after(MatchEvent::Turned(Turn::Over)) == MatchAction::Finish(
            SessionLifecycle::Completed,
        ),
        run.action_after(MatchEvent::Turned(Turn::Stopped)) == MatchAction::Finish(
            SessionLifecycle::Cancelled,
        ),
        run.action_after(MatchEvent::Turned(Turn::Restart)) is Rebuild,
        run.action_after(MatchEvent::Turned(Turn::Go)) is Prepare == run.has_viewer,
        run.action_after(MatchEvent::Turned(Turn::Go)) is Act == !run.has_viewer,
        run.action_after(MatchEvent::Rebuilt) is Prepare == run.has_viewer,
        run.action_after(MatchEvent::Rebuilt) is Act == !run.has_viewer,
        run.action_after(MatchEvent::Prepared { running: true }) is Act,
        run.action_after(MatchEvent::Prepared { running: false }) is Hold,
        run.action_after(MatchEvent::Held) is Turn,
        run.action_after(MatchEvent::Acted { goal }) is Step,
        run.action_after(MatchEvent::Stepped { frame }) is End,
        run.action_after(MatchEvent::Ended) is Turn,
{
}

/// At the end of a turn the frame is recorded where a replay is asked for, logged where the log is open
/// and has come to its next frame, published where there is a viewer, and waited for where the match
/// keeps pace with the clock.
pub proof fn law_how_a_turn_ends(run: MatchRun, frame: u64, k: u64)
    requires
        run.wf(),
    ensures
        run.end(frame).records == run.plan.records_replay,
        run.end(frame).publishes == run.has_viewer,
        run.end(frame).waits == run.plan.paces,
        !run.log_open ==> !run.end(frame).logs,
        run.log_open && frame as int == k * run.log_every ==> run.end(frame).logs,
        run.log_open && k * run.log_every < frame < (k + 1) * run.log_every ==> !run.end(
            frame,
        ).logs,
        run.log_open ==> run.end(0).logs,
{
    if run.log_open {
        let n = run.log_every as int;
        let f = frame as int;
        let j = k as int;
        assert(f == j * n ==> f % n == 0) by (nonlinear_arith)
            requires
                n > 0,
        ;
        assert(j * n < f < (j + 1) * n ==> f % n != 0) by {
            if j * n < f < (j + 1) * n {
                assert((j + 1) * n == j * n + n) by (nonlinear_arith);
                vstd::arithmetic::div_mod::lemma_fundamental_div_mod_converse(f, n, j, f - j * n);
            }
        }
    }
}

/// A goal counts the referee's commands on by one, a rebuilt match counts from one again, and nothing
/// else counts.
pub proof fn law_how_commands_are_counted(run: MatchRun, event: MatchEvent)
    ensures
        run.counter_after(MatchEvent::Rebuilt) == 1,
        run.command_counter < u32::MAX ==> run.counter_after(MatchEvent::Acted { goal: true })
            == run.command_counter + 1,
        run.command_counter == u32::MAX ==> run.counter_after(MatchEvent::Acted { goal: true }) == 0,
        run.counter_after(MatchEvent::Acted { goal: false }) == run.command_counter,
        !(event is Rebuilt) && !(event is Acted) ==> run.counter_after(event)
            == run.command_counter,
        run.after(event).plan == run.plan,
        run.after(event).has_viewer == run.has_viewer,
        run.after(event).log_every == run.log_every,
{
}

/// A goal is told with its time unless the match is quiet; where there is no goal, nothing is told.
pub proof fn law_goals_are_told(time: Seq<char>, event: Seq<char>)
    ensures
        goal_line_of(false, time, Some(event)) == Some("  ["@ + time + "s] "@ + event),
        goal_line_of(true, time, Some(event)) is None,
        goal_line_of(false, time, None) is None,
        goal_line_of(true, time, None) is None,
{
}

/// Each side's robots do what their own side commands, whatever the director has for them.
pub proof fn law_sides_command_their_own_robots(
    director: WorldCommand,
    blue: Vec<RobotCommand>,
    yellow: Vec<RobotCommand>,
)
    ensures
        commands_of_turn(director, blue, yellow).blue == blue,
        commands_of_turn(director, blue, yellow).yellow == yellow,
{
}

/// What the controllers say of a world is shown of that world until they say something else, and what
/// is shown of the others stays.
pub proof fn law_controllers_are_shown(
    m: ViewerModel,
    world_id: usize,
    snapshot: ViewerDebugSnapshot,
    other: usize,
)
    ensures
        ({
            let told = with_controllers_told(m, world_id, Some(snapshot));
            let taken = with_controllers_told(m, world_id, None);
            &&& told.debug.contains_key(world_id) && told.debug[world_id] == snapshot@
            &&& !taken.debug.contains_key(world_id)
            &&& other != world_id ==> told.debug.contains_key(other) == m.debug.contains_key(other)
            &&& other != world_id ==> taken.debug.contains_key(other) == m.debug.contains_key(other)
            &&& other != world_id && m.debug.contains_key(other) ==> told.debug[other]
                == m.debug[other] && taken.debug[other] == m.debug[other]
            &&& told.client == m.client && told.goals == m.goals
            &&& taken.client == m.client && taken.goals == m.goals
        }),
{
}

/// The referee's state is published with its command, its counter and the names of both sides, each
/// with its own.
pub proof fn law_the_referee_is_told_of(
    command: String,
    command_counter: u32,
    blue_name: String,
    yellow_name: String,
)
    ensures
        ({
            let info = info_of(command, command_counter, blue_name, yellow_name);
            &&& info.command == command
            &&& info.command_counter == command_counter
            &&& info.stage is None
            &&& info.blue_name == Some(blue_name)
            &&& info.yellow_name == Some(yellow_name)
        }),
{
}

} // verus!
