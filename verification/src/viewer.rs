//! The viewer: what it keeps between frames, what the browser and the application do to it, and
//! what it publishes.

use vstd::prelude::*;
use serde_json::Value;
use crate::client::{ClientModel, ClientState};
use crate::control::WebControlState;
use crate::debug;
use crate::debug::{DebugBoard, DebugModel, RobotDebugInfo, ViewerDebugSnapshot};
use crate::developer;
use crate::developer::{
    ConsoleModel, DeveloperRequest, DeveloperResult, DeveloperRun, DeveloperSnapshot,
};
use crate::edits;
use crate::edits::{AppliedEdits, WorldShape};
use crate::number::Double;
use crate::snapshot::Score;
use crate::state::{FieldConfig, RobotKey, TeamColor, WorldConfig};
use crate::table::Table;
use crate::text;
use crate::text::{concat_text, decimal_text, parse_unsigned, replace_char};
use crate::trackers;
use crate::trackers::{GameStateInfo, GameStateModel, GameStateTracker, GoalTracker};
use crate::worlds;
use crate::worlds::selected_worlds_snapshot;

verus! {

// ---------------------------------------------------------------------------
// Where the viewer listens

/// The address that the viewer binds to.
pub enum Host {
    AnyV4,
    AnyV6,
    /// One address, as it is written.
    Address(String),
}

pub struct ViewerConfig {
    pub host: Host,
    pub http_port: u16,
}

/// The port where none is set.
pub const DEFAULT_PORT: u16 = 8315;

/// The port that a setting asks for.
pub open spec fn port_of(setting: Option<Seq<char>>) -> u16 {
    match setting {
        Some(s) => match text::unsigned_number(s, u16::MAX as nat) {
            Some(n) => n as u16,
            None => DEFAULT_PORT,
        },
        None => DEFAULT_PORT,
    }
}

/// The port after `port`; the last one has none after it.
pub open spec fn next_port(port: u16) -> u16 {
    if port == u16::MAX {
        u16::MAX
    } else {
        (port + 1) as u16
    }
}

impl ViewerConfig {
    /// Every address of the machine; the port as `SIMHARK_VIEWER_PORT` sets it.
    pub fn from_setting(port: Option<&str>) -> (r: ViewerConfig)
        ensures
            r.host is AnyV4,
            r.http_port == port_of(trackers::slice_view(port)),
    {
        let http_port: u16 = match port {
            Some(value) => match parse_unsigned(value, u16::MAX as u64) {
                Some(n) => n as u16,
                None => DEFAULT_PORT,
            },
            None => DEFAULT_PORT,
        };
        ViewerConfig { host: Host::AnyV4, http_port }
    }

    /// The port next to the viewer's own.
    pub fn websocket_port(&self) -> (r: u16)
        ensures
            r == next_port(self.http_port),
    {
        if self.http_port == u16::MAX {
            u16::MAX
        } else {
            self.http_port + 1
        }
    }

    pub open spec fn http_url_spec(&self) -> Seq<char> {
        "http://"@ + (match self.host {
            Host::AnyV4 => "127.0.0.1"@,
            Host::AnyV6 => "[::1]"@,
            Host::Address(address) => address@,
        }) + ":"@ + text::decimal(self.http_port as nat)
    }

    /// Where a browser on this machine finds the viewer.
    pub fn http_url(&self) -> (r: String)
        ensures
            r@ == self.http_url_spec(),
    {
        let host = match &self.host {
            Host::AnyV4 => "127.0.0.1",
            Host::AnyV6 => "[::1]",
            Host::Address(address) => address.as_str(),
        };
        let head = concat_text(concat_text("http://", host).as_str(), ":");
        let port = decimal_text(self.http_port as u64);
        concat_text(head.as_str(), port.as_str())
    }
}

// ---------------------------------------------------------------------------
// What the simulator can do for the interface

#[derive(Debug)]
pub struct Capability {
    pub id: String,
    pub mutable: bool,
    pub description: String,
}

pub struct CapabilityModel {
    pub id: Seq<char>,
    pub mutable: bool,
    pub description: Seq<char>,
}

impl View for Capability {
    type V = CapabilityModel;

    open spec fn view(&self) -> CapabilityModel {
        CapabilityModel { id: self.id@, mutable: self.mutable, description: self.description@ }
    }
}

pub open spec fn capability_views(list: Seq<Capability>) -> Seq<CapabilityModel> {
    Seq::new(list.len(), |i: int| list[i]@)
}

/// A capability is described by its id, with spaces for the dots.
pub open spec fn capability(id: Seq<char>, mutable: bool) -> CapabilityModel {
    CapabilityModel { id, mutable, description: text::replaced(id, '.', ' ') }
}

pub open spec fn capability_list() -> Seq<CapabilityModel> {
    seq![
        capability("simhark.lifecycle"@, true),
        capability("simhark.speed"@, true),
        capability("simhark.replay"@, true),
        capability("simhark.world_selection"@, true),
        capability("simhark.move_robot"@, true),
        capability("simhark.rotate_robot"@, true),
        capability("simhark.robot_presence"@, true),
        capability("simhark.move_ball"@, true),
        capability("simhark.developer"@, true),
        capability("simhark.world_state"@, false),
    ]
}

fn make_capability(id: &str, mutable: bool) -> (r: Capability)
    ensures
        r@ == capability(id@, mutable),
{
    Capability { id: id.to_owned(), mutable, description: replace_char(id, '.', ' ') }
}

/// What can be asked of the simulator; the state of the worlds can only be read.
pub fn simhark_capabilities() -> (r: Vec<Capability>)
    ensures
        capability_views(r@) == capability_list(),
{
    let mut list: Vec<Capability> = Vec::new();
    list.push(make_capability("simhark.lifecycle", true));
    list.push(make_capability("simhark.speed", true));
    list.push(make_capability("simhark.replay", true));
    list.push(make_capability("simhark.world_selection", true));
    list.push(make_capability("simhark.move_robot", true));
    list.push(make_capability("simhark.rotate_robot", true));
    list.push(make_capability("simhark.robot_presence", true));
    list.push(make_capability("simhark.move_ball", true));
    list.push(make_capability("simhark.developer", true));
    list.push(make_capability("simhark.world_state", false));
    assert(capability_views(list@) =~= capability_list());
    list
}

#[derive(Debug, Clone, Copy, PartialEq, Eq, Structural)]
pub enum SessionLifecycle {
    Running,
    Completed,
    Cancelled,
    Failed,
}

/// What the interface host is asked for when the viewer comes up.
pub struct SessionPlan {
    pub session_label: String,
    pub live: bool,
    pub systems: Vec<String>,
    pub world_count: u32,
    pub lifecycle: SessionLifecycle,
    pub system_id: String,
    pub system_label: String,
    pub generation: u64,
    pub capabilities: Vec<Capability>,
}

/// A live session of one system, running from the start.
pub open spec fn is_session_plan(plan: SessionPlan, world_count: usize) -> bool {
    &&& plan.session_label@ == "simhark live"@
    &&& plan.live
    &&& text::texts(plan.systems@) == seq!["simhark"@]
    &&& plan.world_count == world_count as u32
    &&& plan.lifecycle == SessionLifecycle::Running
    &&& plan.system_id@ == "simhark"@
    &&& plan.system_label@ == "simhark"@
    &&& plan.generation == 1
    &&& capability_views(plan.capabilities@) == capability_list()
}

// ---------------------------------------------------------------------------
// The viewer's state

/// What a viewer is made for.
#[derive(Debug, Clone, Copy, PartialEq, Eq, Structural)]
pub struct ViewerSetup {
    pub world_count: usize,
    pub field: FieldConfig,
    pub robot_radius: Double,
    pub ball_radius: Double,
    pub ball_friction: Double,
    pub gravity: Double,
}

pub struct ViewerServer {
    pub setup: ViewerSetup,
    pub client: ClientState,
    pub game_state: GameStateTracker,
    pub test_suite: Option<Value>,
    pub developer: Option<DeveloperSnapshot>,
    pub goals: GoalTracker,
    pub debug: DebugBoard,
    /// Whether the session has been told how it ended.
    pub session_terminal: bool,
}

pub struct ViewerModel {
    pub setup: ViewerSetup,
    pub client: ClientModel,
    pub game_state: GameStateModel,
    pub test_suite: Option<Value>,
    pub developer: Option<ConsoleModel>,
    pub goals: GoalTracker,
    pub debug: Map<usize, DebugModel>,
    pub session_terminal: bool,
}

impl View for ViewerServer {
    type V = ViewerModel;

    open spec fn view(&self) -> ViewerModel {
        ViewerModel {
            setup: self.setup,
            client: self.client@,
            game_state: self.game_state@,
            test_suite: self.test_suite,
            developer: developer::console_view(self.developer),
            goals: self.goals,
            debug: self.debug@,
            session_terminal: self.session_terminal,
        }
    }
}

pub open spec fn setup_of(world_count: usize, config: WorldConfig) -> ViewerSetup {
    ViewerSetup {
        world_count,
        field: config.field,
        robot_radius: config.blue_robots.radius,
        ball_radius: config.ball_radius,
        ball_friction: config.ball_friction,
        gravity: config.gravity,
    }
}

impl ViewerModel {
    pub open spec fn initial(world_count: usize, config: WorldConfig) -> ViewerModel {
        ViewerModel {
            setup: setup_of(world_count, config),
            client: ClientModel::initial(),
            game_state: GameStateModel::initial(),
            test_suite: None,
            developer: None,
            goals: GoalTracker::initial(),
            debug: Map::empty(),
            session_terminal: false,
        }
    }

    pub open spec fn with_control(self, control: WebControlState) -> ViewerModel {
        ViewerModel { client: self.client.with_control(control), ..self }
    }

    /// The selected world; the last one where there are not as many.
    pub open spec fn shown_world(self) -> usize {
        held_index(self.client.selected_world, self.setup.world_count)
    }

    pub open spec fn speed_percent(self) -> usize {
        self.client.control.speed_percent
    }

    pub open spec fn score(self) -> Score {
        Score { blue: self.goals.blue, yellow: self.goals.yellow }
    }

    /// The viewer with no edit of a robot or a ball pending.
    pub open spec fn without_edits(self) -> ViewerModel {
        ViewerModel {
            client: ClientModel {
                robot_moves: Map::empty(),
                robot_rotations: Map::empty(),
                robot_presences: Map::empty(),
                ball_moves: Map::empty(),
                ..self.client
            },
            ..self
        }
    }

    /// The viewer with no developer request queued.
    pub open spec fn without_requests(self) -> ViewerModel {
        ViewerModel {
            client: ClientModel { developer_requests: Seq::empty(), ..self.client },
            ..self
        }
    }

    /// The viewer that shows one world alone.
    pub open spec fn showing(self, index: usize) -> ViewerModel {
        ViewerModel {
            client: self.client.with_worlds(
                held_index(index, self.setup.world_count),
                seq![held_index(index, self.setup.world_count)],
            ),
            ..self
        }
    }

    pub open spec fn with_game_state(self, info: GameStateInfo) -> ViewerModel {
        ViewerModel { game_state: self.game_state.updated(info), ..self }
    }

    pub open spec fn with_suite(self, suite: Option<Value>) -> ViewerModel {
        ViewerModel { test_suite: suite, ..self }
    }

    pub open spec fn with_console(self, console: Option<ConsoleModel>) -> ViewerModel {
        ViewerModel { developer: console, ..self }
    }

    /// The viewer with another schema of the developer console, where there is one.
    pub open spec fn with_schema(self, schema: Option<Value>) -> ViewerModel {
        match schema {
            Some(schema) => self.with_console(Some(developer::with_schema(self.developer, schema))),
            None => self,
        }
    }

    pub open spec fn with_debug(self, debug: Map<usize, DebugModel>) -> ViewerModel {
        ViewerModel { debug, ..self }
    }

    pub open spec fn without_goals(self) -> ViewerModel {
        ViewerModel { goals: GoalTracker::initial(), ..self }
    }

    pub open spec fn with_end(self, told: bool) -> ViewerModel {
        ViewerModel { session_terminal: told, ..self }
    }
}

/// What is still to be told of a session's end.
pub open spec fn is_end_to_tell(m: ViewerModel, r: Option<(SessionLifecycle, String)>) -> bool {
    match r {
        Some((lifecycle, error)) => {
            &&& !m.session_terminal
            &&& lifecycle == SessionLifecycle::Cancelled
            &&& error@ == "viewer host stopped before the session was finalized"@
        },
        None => m.session_terminal,
    }
}

/// `index`, but no further than the last of `count`.
pub open spec fn held_index(index: usize, count: usize) -> usize {
    if count == 0 {
        0
    } else if index < count {
        index
    } else {
        (count - 1) as usize
    }
}

pub fn hold_index(index: usize, count: usize) -> (r: usize)
    ensures
        r == held_index(index, count),
{
    if count == 0 {
        0
    } else if index < count {
        index
    } else {
        count - 1
    }
}

impl ViewerServer {
    /// A viewer of `world_count` worlds, and what to ask of the interface host for it.
    pub fn bind(world_count: usize, world_config: &WorldConfig) -> (r: (ViewerServer, SessionPlan))
        ensures
            r.0@ == ViewerModel::initial(world_count, *world_config),
            is_session_plan(r.1, world_count),
    {
        let viewer = ViewerServer {
            setup: ViewerSetup {
                world_count,
                field: world_config.field,
                robot_radius: world_config.blue_robots.radius,
                ball_radius: world_config.ball_radius,
                ball_friction: world_config.ball_friction,
                gravity: world_config.gravity,
            },
            client: ClientState::new(),
            game_state: GameStateTracker::new(),
            test_suite: None,
            developer: None,
            goals: GoalTracker::new(),
            debug: DebugBoard::new(),
            session_terminal: false,
        };
        let mut systems: Vec<String> = Vec::new();
        systems.push("simhark".to_owned());
        assert(text::texts(systems@) =~= seq!["simhark"@]);
        let plan = SessionPlan {
            session_label: "simhark live".to_owned(),
            live: true,
            systems,
            world_count: #[verifier::truncate] (world_count as u32),
            lifecycle: SessionLifecycle::Running,
            system_id: "simhark".to_owned(),
            system_label: "simhark".to_owned(),
            generation: 1,
            capabilities: simhark_capabilities(),
        };
        (viewer, plan)
    }

    /// Opts in to web-driven start, stop and restart. The simulator is then stopped until the
    /// browser starts it.
    pub fn enable_web_control(&mut self)
        ensures
            final(self)@ == old(self)@.with_control(old(self)@.client.control.opted_in(false)),
    {
        self.client.control.enable(false);
    }

    /// Opts in to web-driven control without stopping a simulation that runs already.
    pub fn enable_web_control_running(&mut self)
        ensures
            final(self)@ == old(self)@.with_control(old(self)@.client.control.opted_in(true)),
    {
        self.client.control.enable(true);
    }

    /// Whether the simulator should keep stepping. Always true when web control is disabled.
    pub fn is_running(&self) -> (r: bool)
        ensures
            r == self@.client.control.keeps_stepping(),
    {
        self.client.control.is_running()
    }

    /// True once after the browser has asked for a restart. Always false when web control is
    /// disabled.
    pub fn take_restart_request(&mut self) -> (r: bool)
        ensures
            r == old(self)@.client.control.wants_restart(),
            final(self)@ == old(self)@.with_control(old(self)@.client.control.without_restart()),
    {
        self.client.control.take_restart_request()
    }

    /// True once after the browser has asked for a stop.
    pub fn take_stop_request(&mut self) -> (r: bool)
        ensures
            r == old(self)@.client.control.stop_requested,
            final(self)@ == old(self)@.with_control(old(self)@.client.control.without_stop()),
    {
        self.client.control.take_stop_request()
    }

    pub fn take_frame_step_request(&mut self) -> (r: isize)
        ensures
            r == old(self)@.client.control.frame_step_requested,
            final(self)@ == old(self)@.with_control(old(self)@.client.control.without_step()),
    {
        self.client.control.take_frame_step_request()
    }

    pub fn take_frame_skip_request(&mut self) -> (r: isize)
        ensures
            r == old(self)@.client.control.frame_skip_requested,
            final(self)@ == old(self)@.with_control(old(self)@.client.control.without_skip()),
    {
        self.client.control.take_frame_skip_request()
    }

    pub fn take_frame_seek_request(&mut self) -> (r: Option<usize>)
        ensures
            r == old(self)@.client.control.seek_request(),
            final(self)@ == old(self)@.with_control(old(self)@.client.control.without_seek()),
    {
        self.client.control.take_frame_seek_request()
    }

    /// The playback speed, in percent of the plain one.
    pub fn speed(&self) -> (percent: usize)
        ensures
            percent == self@.speed_percent(),
    {
        self.client.control.speed_percent
    }

    /// Takes the latest browser edits of robots and balls, and says what they come to and how many
    /// entities change.
    ///
    /// Applications with a viewer call this once per loop, including while paused, so that dragging
    /// stays responsive without advancing the physics.
    pub fn apply_robot_move_requests(&mut self, worlds: &[WorldShape]) -> (r: AppliedEdits)
        ensures
            edits::one_row_each(old(self).client),
            r.edits@ == edits::pending_edits(old(self).client, worlds@),
            r.changed as nat == edits::entities(r.edits@).len(),
            final(self)@ == old(self)@.without_edits(),
    {
        edits::apply_robot_move_requests(&mut self.client, worlds)
    }

    pub fn selected_world(&self) -> (r: usize)
        ensures
            r == self@.shown_world(),
    {
        hold_index(self.client.selected_world, self.setup.world_count)
    }

    pub fn selected_worlds(&self) -> (r: Vec<usize>)
        ensures
            r@ == worlds::shown_worlds(self@.client.selected_worlds, self@.setup.world_count),
    {
        selected_worlds_snapshot(&self.client.selected_worlds, self.setup.world_count)
    }

    /// Shows one world alone.
    pub fn select_world(&mut self, index: usize)
        ensures
            final(self)@ == old(self)@.showing(index),
    {
        let index: usize = hold_index(index, self.setup.world_count);
        self.client.selected_world = index;
        let mut worlds: Vec<usize> = Vec::new();
        worlds.push(index);
        self.client.selected_worlds = worlds;
        assert(self@.client.selected_worlds =~= seq![index]);
    }

    /// Takes the latest referee snapshot; entered game states are counted.
    pub fn set_game_state(&mut self, info: GameStateInfo)
        requires
            old(self)@.game_state.has_room(info),
        ensures
            final(self)@ == old(self)@.with_game_state(info),
    {
        self.game_state.update(info);
    }

    /// Takes a test suite as JSON; `None` where it could not be put into JSON.
    pub fn set_test_suite(&mut self, suite: Option<Value>)
        ensures
            final(self)@ == old(self)@.with_suite(suite),
    {
        self.test_suite = suite;
    }

    /// Enables the developer console; results and runs of an earlier schema stay. A schema that
    /// could not be put into JSON changes nothing.
    pub fn set_developer_schema(&mut self, schema: Option<Value>)
        ensures
            final(self)@ == old(self)@.with_schema(schema),
    {
        match schema {
            Some(schema) => {
                match self.developer.take() {
                    Some(d) => {
                        self.developer = Some(
                            DeveloperSnapshot { schema, results: d.results, runs: d.runs },
                        );
                    },
                    None => {
                        self.developer = Some(
                            DeveloperSnapshot {
                                schema,
                                results: Table::new(),
                                runs: Table::new(),
                            },
                        );
                    },
                }
            },
            None => {},
        }
    }

    /// Takes the queued requests in the order in which the operator issued them.
    ///
    /// Order matters: a load followed by a start in the same tick stays in that order, and neither
    /// swallows the other.
    pub fn take_developer_requests(&mut self) -> (r: Vec<DeveloperRequest>)
        ensures
            r@ == old(self)@.client.developer_requests,
            final(self)@ == old(self)@.without_requests(),
    {
        let mut taken: Vec<DeveloperRequest> = Vec::new();
        core::mem::swap(&mut taken, &mut self.client.developer_requests);
        taken
    }

    pub fn set_developer_result(&mut self, result: DeveloperResult)
        ensures
            final(self)@ == old(self)@.with_console(
                developer::with_result(old(self)@.developer, result),
            ),
    {
        match self.developer.take() {
            Some(mut d) => {
                d.results.insert(result.target.clone(), result);
                self.developer = Some(d);
            },
            None => {},
        }
    }

    /// Publishes the lifecycle of one AI lab target.
    pub fn set_developer_run(&mut self, run: DeveloperRun)
        ensures
            final(self)@ == old(self)@.with_console(developer::with_run(old(self)@.developer, run)),
    {
        match self.developer.take() {
            Some(mut d) => {
                d.runs.insert(run.target.clone(), run);
                self.developer = Some(d);
            },
            None => {},
        }
    }

    /// The lifecycle published for `target`.
    pub fn developer_run(&self, target: &str) -> (r: Option<DeveloperRun>)
        ensures
            r == developer::run_of(self@.developer, target@),
    {
        match &self.developer {
            Some(d) => match d.runs.get(&target.to_owned()) {
                Some(run) => Some(run.copy()),
                None => None,
            },
            None => None,
        }
    }

    pub fn set_debug_snapshot(&mut self, snapshot: ViewerDebugSnapshot)
        ensures
            final(self)@ == old(self)@.with_debug(debug::snapshot_set(old(self)@.debug, snapshot)),
    {
        self.debug.set_debug_snapshot(snapshot);
    }

    pub fn clear_debug_snapshot(&mut self, world_id: usize)
        ensures
            final(self)@ == old(self)@.with_debug(
                debug::snapshot_cleared(old(self)@.debug, world_id),
            ),
    {
        self.debug.clear_debug_snapshot(world_id);
    }

    pub fn set_strategy_debug_message(&mut self, world_id: usize, message: String)
        ensures
            final(self)@ == old(self)@.with_debug(
                debug::strategy_set(old(self)@.debug, world_id, message),
            ),
    {
        self.debug.set_strategy_debug_message(world_id, message);
    }

    pub fn clear_strategy_debug_message(&mut self, world_id: usize)
        ensures
            final(self)@ == old(self)@.with_debug(
                debug::strategy_cleared(old(self)@.debug, world_id),
            ),
    {
        self.debug.clear_strategy_debug_message(world_id);
    }

    pub fn set_robot_debug(&mut self, world_id: usize, info: RobotDebugInfo)
        ensures
            final(self)@ == old(self)@.with_debug(
                debug::robot_set(old(self)@.debug, world_id, info),
            ),
    {
        self.debug.set_robot_debug(world_id, info);
    }

    pub fn clear_robot_debug(&mut self, world_id: usize, team: TeamColor, id: usize)
        ensures
            final(self)@ == old(self)@.with_debug(
                debug::robot_cleared(old(self)@.debug, world_id, team, id),
            ),
    {
        self.debug.clear_robot_debug(world_id, team, id);
    }

    /// Starts the score anew.
    pub fn reset_goals(&mut self)
        ensures
            final(self)@ == old(self)@.without_goals(),
    {
        self.goals = GoalTracker::new();
    }

    /// Takes note that the host was told how the session ended, if it took it.
    pub fn finish_session(&mut self, told: Result<(), String>) -> (r: Result<(), String>)
        ensures
            r == told,
            final(self)@ == old(self)@.with_end(old(self)@.session_terminal || told is Ok),
    {
        if told.is_ok() {
            self.session_terminal = true;
        }
        told
    }

    /// What the host is still to be told when the viewer goes: a session whose end was not told
    /// counts as cancelled.
    pub fn close(&mut self) -> (r: Option<(SessionLifecycle, String)>)
        ensures
            final(self)@ == old(self)@.with_end(true),
            is_end_to_tell(old(self)@, r),
    {
        let told = self.session_terminal;
        self.session_terminal = true;
        if told {
            None
        } else {
            Some(
                (
                    SessionLifecycle::Cancelled,
                    "viewer host stopped before the session was finalized".to_owned(),
                ),
            )
        }
    }
}

// ---------------------------------------------------------------------------
// Laws

/// A port is read where the setting writes one that there is; any other setting leaves port 8315. The
/// websocket listens one port higher, where there is one.
pub proof fn law_ports(port: u16, setting: Seq<char>)
    ensures
        port_of(Some(text::decimal(port as nat))) == port,
        port_of(None) == 8315,
        text::unsigned_number(setting, 65535) is None ==> port_of(Some(setting)) == 8315,
        port < 65535 ==> next_port(port) == port + 1,
        next_port(65535) == 65535,
{
    text::law_decimal_round_trip(port as nat, u16::MAX as nat);
}

/// A browser on this machine is sent to the loopback address where the viewer listens everywhere, and
/// to the viewer's own address where it has one, at the viewer's port.
pub proof fn law_urls_lead_to_the_viewer(address: String, http_port: u16)
    ensures
        (ViewerConfig { host: Host::AnyV4, http_port }).http_url_spec() == "http://127.0.0.1:"@
            + text::decimal(http_port as nat),
        (ViewerConfig { host: Host::AnyV6, http_port }).http_url_spec() == "http://[::1]:"@
            + text::decimal(http_port as nat),
        (ViewerConfig { host: Host::Address(address), http_port }).http_url_spec() == "http://"@
            + address@ + ":"@ + text::decimal(http_port as nat),
{
    reveal_strlit("http://");
    reveal_strlit("127.0.0.1");
    reveal_strlit("[::1]");
    reveal_strlit(":");
    reveal_strlit("http://127.0.0.1:");
    reveal_strlit("http://[::1]:");
    assert("http://127.0.0.1:"@ =~= "http://"@ + "127.0.0.1"@ + ":"@);
    assert("http://[::1]:"@ =~= "http://"@ + "[::1]"@ + ":"@);
}

/// Ten things can be asked of the simulator, no two alike; all but the last can change it, and the
/// last, the state of the worlds, is only read. Each is described by its id with spaces for dots.
pub proof fn law_capabilities(i: int, k: int)
    requires
        0 <= i < capability_list().len(),
        0 <= k < capability_list()[i].id.len(),
    ensures
        capability_list().len() == 10,
        capability_list()[i].mutable == (i != 9),
        capability_list()[9].id == "simhark.world_state"@,
        capability_list()[i].description.len() == capability_list()[i].id.len(),
        capability_list()[i].description[k] == (if capability_list()[i].id[k] == '.' {
            ' '
        } else {
            capability_list()[i].id[k]
        }),
{
}

/// A viewer knows the worlds that it is made for by the sizes in their configuration, shows the first
/// world, and has counted no goal and ended no session.
pub proof fn law_a_viewer_starts_afresh(world_count: usize, config: WorldConfig)
    ensures
        ({
            let m = ViewerModel::initial(world_count, config);
            &&& m.setup.world_count == world_count
            &&& m.setup.field == config.field
            &&& m.setup.robot_radius == config.blue_robots.radius
            &&& m.setup.ball_radius == config.ball_radius
            &&& m.setup.ball_friction == config.ball_friction
            &&& m.setup.gravity == config.gravity
            &&& m.shown_world() == 0
            &&& m.client.developer_requests.len() == 0
            &&& m.client.robot_moves.dom() == Set::<RobotKey>::empty()
            &&& m.client.control.keeps_stepping()
            &&& m.score() == (Score { blue: 0, yellow: 0 })
            &&& m.test_suite is None && m.developer is None
            &&& m.debug == Map::<usize, DebugModel>::empty()
            &&& !m.session_terminal
        }),
{
}

/// A session is planned as a live one of one system, that runs from the start.
pub proof fn law_sessions_run_from_the_start(plan: SessionPlan, world_count: usize)
    requires
        is_session_plan(plan, world_count),
    ensures
        plan.live,
        plan.lifecycle is Running,
        plan.generation == 1,
        world_count <= u32::MAX ==> plan.world_count as int == world_count as int,
        plan.systems@.len() == 1 && plan.systems@[0]@ == plan.system_id@,
        plan.system_label@ == plan.system_id@,
        plan.system_id@ == "simhark"@,
        plan.session_label@ == plan.system_id@ + " live"@,
        plan.capabilities@.len() == 10,
{
    assert(text::texts(plan.systems@).len() == plan.systems@.len());
    assert(text::texts(plan.systems@)[0] == plan.systems@[0]@);
    assert(capability_views(plan.capabilities@).len() == plan.capabilities@.len());
    reveal_strlit("simhark live");
    reveal_strlit("simhark");
    reveal_strlit(" live");
    assert("simhark live"@ =~= "simhark"@ + " live"@);
}

/// The shown world is the selected one where there is such a world, and otherwise the last.
pub proof fn law_the_shown_world_is_there(m: ViewerModel)
    ensures
        m.client.selected_world < m.setup.world_count ==> m.shown_world()
            == m.client.selected_world,
        m.client.selected_world >= m.setup.world_count > 0 ==> m.shown_world()
            == m.setup.world_count - 1,
        m.setup.world_count == 0 ==> m.shown_world() == 0,
{
}

/// A world that is asked for is then the shown one, alone; nothing else of the viewer changes.
pub proof fn law_one_world_is_shown(m: ViewerModel, index: usize)
    ensures
        ({
            let shown = m.showing(index);
            let held: int = if index < m.setup.world_count {
                index as int
            } else if m.setup.world_count == 0 {
                0
            } else {
                m.setup.world_count - 1
            };
            &&& shown.shown_world() as int == held
            &&& shown.client.selected_worlds.len() == 1
            &&& shown.client.selected_worlds[0] as int == held
            &&& shown.client.control == m.client.control
            &&& shown.client.robot_moves == m.client.robot_moves
            &&& shown.client.robot_rotations == m.client.robot_rotations
            &&& shown.client.robot_presences == m.client.robot_presences
            &&& shown.client.ball_moves == m.client.ball_moves
            &&& shown.client.developer_requests == m.client.developer_requests
            &&& shown.setup == m.setup
            &&& shown.game_state == m.game_state
            &&& shown.goals == m.goals
            &&& shown.debug == m.debug
        }),
{
}

/// What is taken is taken once, and only that: no edit stays pending once the edits are taken, no
/// request stays queued once the requests are, no goal stays counted once the score starts anew.
pub proof fn law_what_is_taken_is_gone(m: ViewerModel)
    ensures
        ({
            let r = m.without_edits();
            &&& r.client.robot_moves.dom() == Set::<RobotKey>::empty()
            &&& r.client.robot_rotations.dom() == Set::<RobotKey>::empty()
            &&& r.client.robot_presences.dom() == Set::<RobotKey>::empty()
            &&& r.client.ball_moves.dom() == Set::<usize>::empty()
            &&& r.client.developer_requests == m.client.developer_requests
            &&& r.client.control == m.client.control
            &&& r.client.selected_world == m.client.selected_world
            &&& r.client.selected_worlds == m.client.selected_worlds
            &&& r.goals == m.goals && r.debug == m.debug && r.game_state == m.game_state
        }),
        ({
            let r = m.without_requests();
            &&& r.client.developer_requests.len() == 0
            &&& r.client.robot_moves == m.client.robot_moves
            &&& r.client.ball_moves == m.client.ball_moves
            &&& r.client.control == m.client.control
            &&& r.developer == m.developer && r.goals == m.goals
        }),
        ({
            let r = m.without_goals();
            &&& r.score().blue == 0 && r.score().yellow == 0
            &&& r.client == m.client && r.debug == m.debug && r.game_state == m.game_state
        }),
{
}

/// What the application hands the viewer is kept as it is, and each thing that is handed over leaves
/// the others as they were.
pub proof fn law_what_is_handed_over_is_kept(
    m: ViewerModel,
    suite: Option<Value>,
    schema: Option<Value>,
    debug: Map<usize, DebugModel>,
    control: WebControlState,
)
    ensures
        m.with_suite(suite).test_suite == suite,
        m.with_suite(suite).developer == m.developer && m.with_suite(suite).client == m.client,
        schema is None ==> m.with_schema(schema) == m,
        schema is Some ==> m.with_schema(schema).developer is Some && m.with_schema(
            schema,
        ).developer->0.schema == schema->0 && m.with_schema(schema).test_suite == m.test_suite
            && m.with_schema(schema).client == m.client,
        m.with_debug(debug).debug == debug,
        m.with_debug(debug).client == m.client && m.with_debug(debug).goals == m.goals,
        m.with_control(control).client.control == control,
        m.with_control(control).client.robot_moves == m.client.robot_moves,
        m.with_control(control).client.selected_worlds == m.client.selected_worlds,
        m.with_control(control).debug == m.debug && m.with_control(control).goals == m.goals,
{
}

/// The end of a session is told once: a viewer whose session has no end told yet cancels it when it
/// goes, and says why, and one whose session has ended says nothing more.
pub proof fn law_a_session_ends_once(m: ViewerModel, r: Option<(SessionLifecycle, String)>)
    requires
        is_end_to_tell(m, r),
    ensures
        r is Some == !m.session_terminal,
        r is Some ==> (r->0).0 is Cancelled && (r->0).1@.len() > 0,
        m.with_end(true).session_terminal,
        m.with_end(true).client == m.client,
        is_end_to_tell(m.with_end(true), r) ==> r is None,
{
    reveal_strlit("viewer host stopped before the session was finalized");
}

/// The score that is shown is blue's and yellow's own; the speed is the one that was set.
pub proof fn law_score_and_speed_are_as_counted_and_set(m: ViewerModel)
    ensures
        m.score().blue == m.goals.blue,
        m.score().yellow == m.goals.yellow,
        m.speed_percent() == m.client.control.speed_percent,
{
}

/// The referee's latest state is kept, and nothing else of the viewer changes with it.
pub proof fn law_the_latest_game_state_is_kept(m: ViewerModel, info: GameStateInfo)
    ensures
        m.with_game_state(info).game_state.info == Some(info),
        m.with_game_state(info).game_state.last_command == Some(info.command@),
        m.with_game_state(info).game_state.last_counter == Some(info.command_counter),
        m.with_game_state(info).client == m.client,
        m.with_game_state(info).goals == m.goals,
        m.with_game_state(info).debug == m.debug,
{
}

/// The console keeps what it is given, and nothing else of the viewer changes with it.
pub proof fn law_the_console_is_kept(m: ViewerModel, console: Option<ConsoleModel>)
    ensures
        m.with_console(console).developer == console,
        m.with_console(console).client == m.client,
        m.with_console(console).test_suite == m.test_suite,
        m.with_console(console).debug == m.debug,
        m.with_console(console).goals == m.goals,
{
}

/// No two capabilities have the same id.
pub proof fn law_capabilities_differ(i: int, k: int)
    requires
        0 <= i < k < capability_list().len(),
    ensures
        capability_list()[i].id != capability_list()[k].id,
{
    lemma_capabilities_differ();
}

proof fn lemma_capabilities_differ()
    ensures
        "simhark.lifecycle"@.len() == 17,
        "simhark.speed"@.len() == 13,
        "simhark.replay"@.len() == 14,
        "simhark.world_selection"@.len() == 23,
        "simhark.move_robot"@.len() == 18,
        "simhark.rotate_robot"@.len() == 20,
        "simhark.robot_presence"@.len() == 22,
        "simhark.move_ball"@.len() == 17,
        "simhark.developer"@.len() == 17,
        "simhark.world_state"@.len() == 19,
        "simhark.lifecycle"@ != "simhark.move_ball"@,
        "simhark.lifecycle"@ != "simhark.developer"@,
        "simhark.move_ball"@ != "simhark.developer"@,
{
    reveal_strlit("simhark.lifecycle");
    reveal_strlit("simhark.speed");
    reveal_strlit("simhark.replay");
    reveal_strlit("simhark.world_selection");
    reveal_strlit("simhark.move_robot");
    reveal_strlit("simhark.rotate_robot");
    reveal_strlit("simhark.robot_presence");
    reveal_strlit("simhark.move_ball");
    reveal_strlit("simhark.developer");
    reveal_strlit("simhark.world_state");
    assert("simhark.lifecycle"@[8] != "simhark.move_ball"@[8]);
    assert("simhark.lifecycle"@[8] != "simhark.developer"@[8]);
    assert("simhark.move_ball"@[8] != "simhark.developer"@[8]);
}

/// What is said of a viewer is said of its own parts.
pub proof fn law_a_viewer_is_seen_as_it_is(v: ViewerServer, c: Capability)
    ensures
        v@.setup == v.setup,
        v@.client == v.client@,
        v@.game_state == v.game_state@,
        v@.test_suite == v.test_suite,
        v@.developer is Some == v.developer is Some,
        v.developer is Some ==> v@.developer->0 == v.developer->0@,
        v@.goals == v.goals,
        v@.debug == v.debug@,
        v@.session_terminal == v.session_terminal,
        c@.id == c.id@,
        c@.mutable == c.mutable,
        c@.description == c.description@,
{
}

} // verus!
