//! What the browser can change of a running viewer: the selection of worlds, the run control, the
//! edits of robots and balls, and the developer requests.

use vstd::prelude::*;
use crate::control;
use crate::control::{speed_percent, WebControlState};
use crate::developer;
use crate::developer::{queue_developer_request, DeveloperRequest};
use crate::launch::MatchConfiguration;
use crate::number::Double;
use crate::requests;
use crate::requests::{
    parse_ball_move_request, parse_robot_move_request, parse_robot_presence_request,
    parse_robot_rotate_request, parse_usize, BallMoveRequest, RobotMoveRequest,
    RobotPresenceRequest, RobotRotateRequest,
};
use crate::state::{RobotKey, TeamColor};
use crate::table::Table;
use crate::text;
use crate::text::{parse_signed, same_text, strip_text_prefix, trim_text};
use crate::worlds;
use crate::worlds::{asks_for_all, parse_world_selection};

verus! {

pub struct ClientState {
    pub selected_world: usize,
    /// The worlds that were picked; all where none were.
    pub selected_worlds: Vec<usize>,
    pub control: WebControlState,
    /// The latest move of each robot that was not applied yet; so for the three below.
    pub robot_moves: Table<RobotKey, RobotMoveRequest>,
    pub robot_rotations: Table<RobotKey, RobotRotateRequest>,
    pub robot_presences: Table<RobotKey, RobotPresenceRequest>,
    pub ball_moves: Table<usize, BallMoveRequest>,
    /// The developer requests in the order in which they came.
    pub developer_requests: Vec<DeveloperRequest>,
}

#[verifier::ext_equal]
pub struct ClientModel {
    pub selected_world: usize,
    pub selected_worlds: Seq<usize>,
    pub control: WebControlState,
    pub robot_moves: Map<RobotKey, RobotMoveRequest>,
    pub robot_rotations: Map<RobotKey, RobotRotateRequest>,
    pub robot_presences: Map<RobotKey, RobotPresenceRequest>,
    pub ball_moves: Map<usize, BallMoveRequest>,
    pub developer_requests: Seq<DeveloperRequest>,
}

impl View for ClientState {
    type V = ClientModel;

    open spec fn view(&self) -> ClientModel {
        ClientModel {
            selected_world: self.selected_world,
            selected_worlds: self.selected_worlds@,
            control: self.control,
            robot_moves: self.robot_moves@,
            robot_rotations: self.robot_rotations@,
            robot_presences: self.robot_presences@,
            ball_moves: self.ball_moves@,
            developer_requests: self.developer_requests@,
        }
    }
}

impl ClientModel {
    /// Nothing asked for yet, with the first world shown.
    pub open spec fn initial() -> ClientModel {
        ClientModel {
            selected_world: 0,
            selected_worlds: seq![0usize],
            control: WebControlState::initial(),
            robot_moves: Map::empty(),
            robot_rotations: Map::empty(),
            robot_presences: Map::empty(),
            ball_moves: Map::empty(),
            developer_requests: Seq::empty(),
        }
    }

    pub open spec fn with_control(self, control: WebControlState) -> ClientModel {
        ClientModel { control, ..self }
    }

    pub open spec fn with_worlds(self, first: usize, worlds: Seq<usize>) -> ClientModel {
        ClientModel { selected_world: first, selected_worlds: worlds, ..self }
    }

    pub open spec fn with_move(self, r: RobotMoveRequest) -> ClientModel {
        ClientModel { robot_moves: self.robot_moves.insert(r.key_spec(), r), ..self }
    }

    pub open spec fn with_rotation(self, r: RobotRotateRequest) -> ClientModel {
        ClientModel { robot_rotations: self.robot_rotations.insert(r.key_spec(), r), ..self }
    }

    pub open spec fn with_presence(self, r: RobotPresenceRequest) -> ClientModel {
        ClientModel { robot_presences: self.robot_presences.insert(r.key_spec(), r), ..self }
    }

    pub open spec fn with_ball_move(self, r: BallMoveRequest) -> ClientModel {
        ClientModel { ball_moves: self.ball_moves.insert(r.world_id, r), ..self }
    }

    /// Queues a developer request; a full queue refuses it.
    pub open spec fn with_developer_request(self, r: DeveloperRequest) -> ClientModel {
        if self.developer_requests.len() < developer::DEVELOPER_REQUEST_QUEUE_LIMIT {
            ClientModel { developer_requests: self.developer_requests.push(r), ..self }
        } else {
            self
        }
    }
}

// ---------------------------------------------------------------------------
// Messages as text

/// What `control:<action>` makes of the run control.
pub open spec fn after_action(c: WebControlState, action: Seq<char>) -> WebControlState {
    if action == "start"@ {
        c.started()
    } else if action == "pause"@ {
        c.paused()
    } else if action == "stop"@ {
        c.stopped()
    } else if action == "restart"@ {
        c.restarted()
    } else {
        c
    }
}

pub open spec fn isize_number(s: Seq<char>) -> Option<int> {
    text::signed_number(text::trimmed(s), isize::MIN as int, isize::MAX as int)
}

/// What the messages that drive a run (`control:`, `speed:`, `replay:`) make of the run control.
/// Nothing, unless the application has opted in to web control. `None` is for other messages.
pub open spec fn after_run_message(
    c: WebControlState,
    m: Seq<char>,
    numbers: Seq<Option<Double>>,
) -> Option<WebControlState> {
    if let Some(action) = text::after_prefix(m, "control:"@) {
        Some(
            if c.enabled {
                after_action(c, text::trimmed(action))
            } else {
                c
            },
        )
    } else if text::after_prefix(m, "speed:"@) is Some {
        Some(
            match numbers[0] {
                Some(speed) if c.enabled => c.sped(
                    if control::percent_of(speed) < 1 {
                        1
                    } else {
                        control::percent_of(speed)
                    },
                ),
                _ => c,
            },
        )
    } else if let Some(value) = text::after_prefix(m, "replay:step:"@) {
        Some(
            match isize_number(value) {
                Some(n) => if c.enabled {
                    c.stepped(n)
                } else {
                    c
                },
                None => c,
            },
        )
    } else if let Some(value) = text::after_prefix(m, "replay:skip:"@) {
        Some(
            match isize_number(value) {
                Some(n) => if c.enabled {
                    c.skipped(n)
                } else {
                    c
                },
                None => c,
            },
        )
    } else if let Some(value) = text::after_prefix(m, "replay:seek:"@) {
        Some(
            match isize_number(value) {
                Some(n) => if c.enabled {
                    c.sought(
                        if n < 0 {
                            0
                        } else {
                            n as isize
                        },
                    )
                } else {
                    c
                },
                None => c,
            },
        )
    } else {
        None
    }
}

/// What the messages that edit a robot or the ball add to the pending edits.
pub open spec fn after_edit_message(
    c: ClientModel,
    m: Seq<char>,
    numbers: Seq<Option<Double>>,
) -> ClientModel {
    if let Some(r) = requests::robot_move_request(m, numbers) {
        c.with_move(r)
    } else if let Some(r) = requests::robot_rotate_request(m, numbers) {
        c.with_rotation(r)
    } else if let Some(r) = requests::robot_presence_request(m) {
        c.with_presence(r)
    } else if let Some(r) = requests::ball_move_request(m, numbers) {
        c.with_ball_move(r)
    } else {
        c
    }
}

/// What a message makes of the client state.
pub open spec fn after_message(
    c: ClientModel,
    m: Seq<char>,
    numbers: Seq<Option<Double>>,
    request: Option<DeveloperRequest>,
) -> ClientModel {
    if text::starts_with(m, "developer:"@) {
        match request {
            Some(r) => c.with_developer_request(r),
            None => c,
        }
    } else if let Some(value) = text::after_prefix(m, "world:"@) {
        match requests::usize_number(text::trimmed(value)) {
            Some(index) => c.with_worlds(index, seq![index]),
            None => c,
        }
    } else if let Some(value) = text::after_prefix(m, "worlds:"@) {
        let worlds = worlds::world_selection(value);
        if worlds::selects_all(value) {
            c.with_worlds(0, Seq::empty())
        } else if worlds.len() > 0 {
            c.with_worlds(worlds[0], worlds)
        } else {
            c
        }
    } else if let Some(control) = after_run_message(c.control, m, numbers) {
        c.with_control(control)
    } else {
        after_edit_message(c, m, numbers)
    }
}

// ---------------------------------------------------------------------------
// Commands of the interface protocol

/// A command to the simulator. Positions are metres.
pub enum SimharkCommand {
    Start,
    Pause,
    Stop,
    CancelSession,
    Restart,
    Step { frames: i64 },
    Skip { frames: i64 },
    Seek { frame: u64 },
    SetSpeed { multiplier: Double },
    SelectWorlds { world_ids: Vec<u32> },
    MoveRobot { world_id: u32, team: TeamColor, id: u32, x: Double, y: Double },
    RotateRobot { world_id: u32, team: TeamColor, id: u32, orientation: Double },
    SetRobotPresent { world_id: u32, team: TeamColor, id: u32, present: bool },
    MoveBall { world_id: u32, x: Double, y: Double },
    LaunchMatch(MatchConfiguration),
}

pub open spec fn as_worlds(ids: Seq<u32>) -> Seq<usize> {
    Seq::new(ids.len(), |i: int| ids[i] as usize)
}

/// What a command makes of the client state, or why it is refused.
pub open spec fn after_command(c: ClientModel, command: SimharkCommand) -> Result<
    ClientModel,
    Seq<char>,
> {
    match command {
        SimharkCommand::Start => Ok(c.with_control(c.control.started())),
        SimharkCommand::Pause => Ok(c.with_control(c.control.paused())),
        SimharkCommand::Stop => Ok(c.with_control(c.control.stopped())),
        SimharkCommand::CancelSession => Ok(c.with_control(c.control.stopped())),
        SimharkCommand::Restart => Ok(c.with_control(c.control.restarted())),
        SimharkCommand::Step { frames } => Ok(c.with_control(c.control.stepped(frames as int))),
        SimharkCommand::Skip { frames } => Ok(c.with_control(c.control.skipped(frames as int))),
        SimharkCommand::Seek { frame } => Ok(
            c.with_control(
                c.control.sought(
                    if frame <= isize::MAX {
                        frame as isize
                    } else {
                        isize::MAX
                    },
                ),
            ),
        ),
        SimharkCommand::SetSpeed { multiplier } => if multiplier.is_finite_spec() {
            Ok(c.with_control(c.control.sped(control::percent_of(multiplier))))
        } else {
            Err("speed must be finite"@)
        },
        SimharkCommand::SelectWorlds { world_ids } => {
            let worlds = as_worlds(world_ids@);
            Ok(
                c.with_worlds(
                    if worlds.len() > 0 {
                        worlds[0]
                    } else {
                        c.selected_world
                    },
                    worlds,
                ),
            )
        },
        SimharkCommand::MoveRobot { world_id, team, id, x, y } => Ok(
            c.with_move(
                RobotMoveRequest { world_id: world_id as usize, team, id: id as usize, x, y },
            ),
        ),
        SimharkCommand::RotateRobot { world_id, team, id, orientation } => Ok(
            c.with_rotation(
                RobotRotateRequest {
                    world_id: world_id as usize,
                    team,
                    id: id as usize,
                    orientation,
                },
            ),
        ),
        SimharkCommand::SetRobotPresent { world_id, team, id, present } => Ok(
            c.with_presence(
                RobotPresenceRequest { world_id: world_id as usize, team, id: id as usize, present },
            ),
        ),
        SimharkCommand::MoveBall { world_id, x, y } => Ok(
            c.with_ball_move(BallMoveRequest { world_id: world_id as usize, x, y }),
        ),
        SimharkCommand::LaunchMatch(_) => Err("match launch is handled by match-runner"@),
    }
}

/// A command to one of the systems that the interface drives.
pub enum SystemCommand {
    Simhark(SimharkCommand),
    Developer(DeveloperRequest),
    /// A command for some other system.
    Other,
}

#[derive(Debug, Clone, Copy, PartialEq, Eq, Structural)]
pub enum CommandStatus {
    Applied,
    Rejected,
}

/// What the sender of a command is told.
pub struct Acknowledgement {
    pub status: CommandStatus,
    pub message: String,
}

/// What a command makes of the client state, or why it is refused.
pub open spec fn after_system_command(c: ClientModel, command: SystemCommand) -> Result<
    ClientModel,
    Seq<char>,
> {
    match command {
        SystemCommand::Simhark(command) => after_command(c, command),
        SystemCommand::Developer(request) => if c.developer_requests.len()
            < developer::DEVELOPER_REQUEST_QUEUE_LIMIT {
            Ok(c.with_developer_request(request))
        } else {
            Err("the simulation is not draining developer requests"@)
        },
        SystemCommand::Other => Err("unsupported command for simhark"@),
    }
}

impl ClientState {
    pub fn new() -> (c: ClientState)
        ensures
            c@ == ClientModel::initial(),
    {
        let mut selected_worlds: Vec<usize> = Vec::new();
        selected_worlds.push(0);
        let c = ClientState {
            selected_world: 0,
            selected_worlds,
            control: WebControlState::new(),
            robot_moves: Table::new(),
            robot_rotations: Table::new(),
            robot_presences: Table::new(),
            ball_moves: Table::new(),
            developer_requests: Vec::new(),
        };
        assert(c@ =~= ClientModel::initial());
        c
    }

    fn handle_run_message(
        &mut self,
        message: &str,
        numbers: &[Option<Double>],
    ) -> (r: bool)
        requires
            numbers@.len() == requests::number_texts(message@).len(),
        ensures
            match after_run_message(old(self).control, message@, numbers@) {
                Some(control) => r && final(self)@ == old(self)@.with_control(control),
                None => !r && *final(self) == *old(self),
            },
    {
        if let Some(action) = strip_text_prefix(message, "control:") {
            // Ignored where nobody opted in, so that a stale page cannot restart a headless run.
            if self.control.enabled {
                let action = trim_text(action.as_str());
                if same_text(action.as_str(), "start") {
                    self.control.start();
                } else if same_text(action.as_str(), "pause") {
                    self.control.pause();
                } else if same_text(action.as_str(), "stop") {
                    self.control.stop();
                } else if same_text(action.as_str(), "restart") {
                    self.control.restart();
                }
            }
            true
        } else if strip_text_prefix(message, "speed:").is_some() {
            if self.control.enabled {
                if let Some(speed) = numbers[0] {
                    let percent: usize = speed_percent(speed);
                    self.control.set_speed_percent(
                        if percent < 1 {
                            1
                        } else {
                            percent
                        },
                    );
                }
            }
            true
        } else if let Some(value) = strip_text_prefix(message, "replay:step:") {
            if self.control.enabled {
                if let Some(n) = parse_signed(trim_text(value.as_str()).as_str()) {
                    self.control.step(n as i64);
                }
            }
            true
        } else if let Some(value) = strip_text_prefix(message, "replay:skip:") {
            if self.control.enabled {
                if let Some(n) = parse_signed(trim_text(value.as_str()).as_str()) {
                    self.control.skip(n as i64);
                }
            }
            true
        } else if let Some(value) = strip_text_prefix(message, "replay:seek:") {
            if self.control.enabled {
                if let Some(n) = parse_signed(trim_text(value.as_str()).as_str()) {
                    self.control.seek(
                        if n < 0 {
                            0
                        } else {
                            n
                        },
                    );
                }
            }
            true
        } else {
            false
        }
    }

    fn handle_edit_message(&mut self, message: &str, numbers: &[Option<Double>])
        requires
            numbers@.len() == requests::number_texts(message@).len(),
        ensures
            final(self)@ == after_edit_message(old(self)@, message@, numbers@),
    {
        if let Some(request) = parse_robot_move_request(message, numbers) {
            self.robot_moves.insert(request.key(), request);
        } else if let Some(request) = parse_robot_rotate_request(message, numbers) {
            self.robot_rotations.insert(request.key(), request);
        } else if let Some(request) = parse_robot_presence_request(message) {
            self.robot_presences.insert(request.key(), request);
        } else if let Some(request) = parse_ball_move_request(message, numbers) {
            self.ball_moves.insert(request.world_id, request);
        }
    }

    /// Handles one message of the browser.
    ///
    /// `numbers` is what `texts_of_numbers(message)` was read as; `request` is what the text behind
    /// `developer:` was read as.
    pub fn handle_client_message(
        &mut self,
        message: &str,
        numbers: &[Option<Double>],
        request: Option<DeveloperRequest>,
    )
        requires
            numbers@.len() == requests::number_texts(message@).len(),
        ensures
            final(self)@ == after_message(old(self)@, message@, numbers@, request),
    {
        if strip_text_prefix(message, "developer:").is_some() {
            if let Some(request) = request {
                let _ = queue_developer_request(&mut self.developer_requests, request);
            }
            return;
        }
        if let Some(value) = strip_text_prefix(message, "world:") {
            if let Some(index) = parse_usize(trim_text(value.as_str()).as_str()) {
                self.selected_world = index;
                let mut worlds: Vec<usize> = Vec::new();
                worlds.push(index);
                self.selected_worlds = worlds;
                assert(self.selected_worlds@ =~= seq![index]);
            }
            return;
        }
        if let Some(value) = strip_text_prefix(message, "worlds:") {
            let worlds = parse_world_selection(value.as_str());
            if asks_for_all(value.as_str()) {
                self.selected_world = 0;
                self.selected_worlds = Vec::new();
            } else if worlds.len() > 0 {
                self.selected_world = worlds[0];
                self.selected_worlds = worlds;
            }
            return;
        }
        if self.handle_run_message(message, numbers) {
            return;
        }
        self.handle_edit_message(message, numbers);
    }

    /// Applies a command of the interface protocol.
    pub fn apply_simhark_command(&mut self, command: SimharkCommand) -> (r: Result<(), String>)
        ensures
            match after_command(old(self)@, command) {
                Ok(c) => r is Ok && final(self)@ == c,
                Err(e) => r matches Err(message) && message@ == e && final(self)@ == old(self)@,
            },
    {
        match command {
            SimharkCommand::Start => self.control.start(),
            SimharkCommand::Pause => self.control.pause(),
            SimharkCommand::Stop => self.control.stop(),
            SimharkCommand::CancelSession => self.control.stop(),
            SimharkCommand::Restart => self.control.restart(),
            SimharkCommand::Step { frames } => self.control.step(frames),
            SimharkCommand::Skip { frames } => self.control.skip(frames),
            SimharkCommand::Seek { frame } => self.control.seek(
                if frame <= isize::MAX as u64 {
                    frame as isize
                } else {
                    isize::MAX
                },
            ),
            SimharkCommand::SetSpeed { multiplier } => {
                if !multiplier.is_finite() {
                    return Err("speed must be finite".to_owned());
                }
                self.control.set_speed_percent(speed_percent(multiplier));
            },
            SimharkCommand::SelectWorlds { world_ids } => {
                let mut worlds: Vec<usize> = Vec::new();
                let mut i: usize = 0;
                while i < world_ids.len()
                    invariant
                        i <= world_ids@.len(),
                        worlds@ =~= as_worlds(world_ids@.take(i as int)),
                    decreases world_ids@.len() - i,
                {
                    worlds.push(world_ids[i] as usize);
                    i += 1;
                }
                assert(world_ids@.take(i as int) =~= world_ids@);
                if worlds.len() > 0 {
                    self.selected_world = worlds[0];
                }
                self.selected_worlds = worlds;
            },
            SimharkCommand::MoveRobot { world_id, team, id, x, y } => {
                let request = RobotMoveRequest {
                    world_id: world_id as usize,
                    team,
                    id: id as usize,
                    x,
                    y,
                };
                self.robot_moves.insert(request.key(), request);
            },
            SimharkCommand::RotateRobot { world_id, team, id, orientation } => {
                let request = RobotRotateRequest {
                    world_id: world_id as usize,
                    team,
                    id: id as usize,
                    orientation,
                };
                self.robot_rotations.insert(request.key(), request);
            },
            SimharkCommand::SetRobotPresent { world_id, team, id, present } => {
                let request = RobotPresenceRequest {
                    world_id: world_id as usize,
                    team,
                    id: id as usize,
                    present,
                };
                self.robot_presences.insert(request.key(), request);
            },
            SimharkCommand::MoveBall { world_id, x, y } => {
                let request = BallMoveRequest { world_id: world_id as usize, x, y };
                self.ball_moves.insert(request.world_id, request);
            },
            SimharkCommand::LaunchMatch(_) => {
                return Err("match launch is handled by match-runner".to_owned());
            },
        }
        Ok(())
    }

    /// Applies a command and says what its sender is to be told.
    pub fn run_interface_command(&mut self, command: SystemCommand) -> (ack: Acknowledgement)
        ensures
            match after_system_command(old(self)@, command) {
                Ok(c) => ack.status == CommandStatus::Applied && ack.message@
                    == "applied by simhark"@ && final(self)@ == c,
                Err(e) => ack.status == CommandStatus::Rejected && ack.message@ == e
                    && final(self)@ == old(self)@,
            },
    {
        let result = match command {
            SystemCommand::Simhark(command) => self.apply_simhark_command(command),
            SystemCommand::Developer(request) => queue_developer_request(
                &mut self.developer_requests,
                request,
            ),
            SystemCommand::Other => Err("unsupported command for simhark".to_owned()),
        };
        match result {
            Ok(()) => Acknowledgement {
                status: CommandStatus::Applied,
                message: "applied by simhark".to_owned(),
            },
            Err(message) => Acknowledgement { status: CommandStatus::Rejected, message },
        }
    }
}

// ---------------------------------------------------------------------------
// Laws

/// Without web control no message touches the run control.
pub proof fn law_run_control_needs_opting_in(
    c: ClientModel,
    m: Seq<char>,
    numbers: Seq<Option<Double>>,
    request: Option<DeveloperRequest>,
)
    requires
        !c.control.enabled,
    ensures
        after_message(c, m, numbers, request).control == c.control,
{
}

/// Of two moves of one robot only the later one is left to apply.
pub proof fn law_later_move_wins(c: ClientModel, a: RobotMoveRequest, b: RobotMoveRequest)
    requires
        a.key_spec() == b.key_spec(),
    ensures
        c.with_move(a).with_move(b) == c.with_move(b),
{
    assert(c.robot_moves.insert(a.key_spec(), a).insert(b.key_spec(), b) =~= c.robot_moves.insert(
        b.key_spec(),
        b,
    ));
}

/// A refused command leaves everything as it was, and only launching a match, an infinite speed, a
/// full queue or a foreign command is refused.
pub proof fn law_refusals(c: ClientModel, command: SystemCommand)
    ensures
        after_system_command(c, command) is Err <==> (match command {
            SystemCommand::Simhark(SimharkCommand::LaunchMatch(_)) => true,
            SystemCommand::Simhark(
                SimharkCommand::SetSpeed { multiplier },
            ) => !multiplier.is_finite_spec(),
            SystemCommand::Simhark(_) => false,
            SystemCommand::Developer(_) => c.developer_requests.len()
                >= developer::DEVELOPER_REQUEST_QUEUE_LIMIT,
            SystemCommand::Other => true,
        }),
{
}

/// The queue of developer requests never grows beyond its limit.
pub proof fn law_queue_is_bounded(c: ClientModel, command: SystemCommand)
    requires
        c.developer_requests.len() <= developer::DEVELOPER_REQUEST_QUEUE_LIMIT,
    ensures
        after_system_command(c, command) matches Ok(d) ==> d.developer_requests.len()
            <= developer::DEVELOPER_REQUEST_QUEUE_LIMIT,
{
}

/// Whether nothing but the run control differs.
pub open spec fn same_but_control(a: ClientModel, b: ClientModel) -> bool {
    &&& a.selected_world == b.selected_world
    &&& a.selected_worlds == b.selected_worlds
    &&& same_edits(a, b)
    &&& a.developer_requests == b.developer_requests
}

/// Whether the same edits are pending.
pub open spec fn same_edits(a: ClientModel, b: ClientModel) -> bool {
    &&& a.robot_moves == b.robot_moves
    &&& a.robot_rotations == b.robot_rotations
    &&& a.robot_presences == b.robot_presences
    &&& a.ball_moves == b.ball_moves
}

/// Whether nothing but the pending edits differs.
pub open spec fn same_but_edits(a: ClientModel, b: ClientModel) -> bool {
    &&& a.selected_world == b.selected_world
    &&& a.selected_worlds == b.selected_worlds
    &&& a.control == b.control
    &&& a.developer_requests == b.developer_requests
}

/// A message starts with one of the known prefixes at most.
proof fn lemma_one_prefix(m: Seq<char>)
    ensures
        text::starts_with(m, "developer:"@) ==> m.len() > 0 && m[0] == 'd',
        text::starts_with(m, "world:"@) ==> m.len() > 5 && m[0] == 'w' && m[5] == ':',
        text::starts_with(m, "worlds:"@) ==> m.len() > 5 && m[0] == 'w' && m[5] == 's',
        text::starts_with(m, "control:"@) ==> m.len() > 0 && m[0] == 'c',
        text::starts_with(m, "speed:"@) ==> m.len() > 0 && m[0] == 's',
        text::starts_with(m, "replay:step:"@) ==> m.len() > 8 && m[0] == 'r' && m[1] == 'e' && m[7]
            == 's' && m[8] == 't',
        text::starts_with(m, "replay:skip:"@) ==> m.len() > 8 && m[0] == 'r' && m[1] == 'e' && m[7]
            == 's' && m[8] == 'k',
        text::starts_with(m, "replay:seek:"@) ==> m.len() > 8 && m[0] == 'r' && m[1] == 'e' && m[7]
            == 's' && m[8] == 'e',
        text::starts_with(m, "robot:move:"@) ==> m.len() > 6 && m[0] == 'r' && m[1] == 'o' && m[6]
            == 'm',
        text::starts_with(m, "robot:rotate:"@) ==> m.len() > 6 && m[0] == 'r' && m[1] == 'o' && m[6]
            == 'r',
        text::starts_with(m, "robot:presence:"@) ==> m.len() > 6 && m[0] == 'r' && m[1] == 'o'
            && m[6] == 'p',
        text::starts_with(m, "ball:move:"@) ==> m.len() > 0 && m[0] == 'b',
{
    reveal_strlit("developer:");
    reveal_strlit("world:");
    reveal_strlit("worlds:");
    reveal_strlit("control:");
    reveal_strlit("speed:");
    reveal_strlit("replay:step:");
    reveal_strlit("replay:skip:");
    reveal_strlit("replay:seek:");
    reveal_strlit("robot:move:");
    reveal_strlit("robot:rotate:");
    reveal_strlit("robot:presence:");
    reveal_strlit("ball:move:");
    let d = "developer:"@;
    let w = "world:"@;
    let ws = "worlds:"@;
    let c = "control:"@;
    let s = "speed:"@;
    let t = "replay:step:"@;
    let k = "replay:skip:"@;
    let e = "replay:seek:"@;
    let rm = "robot:move:"@;
    let rr = "robot:rotate:"@;
    let rp = "robot:presence:"@;
    let b = "ball:move:"@;
    assert(text::starts_with(m, d) ==> m.take(d.len() as int)[0] == m[0]);
    assert(text::starts_with(m, w) ==> m.take(w.len() as int)[0] == m[0] && m.take(
        w.len() as int,
    )[5] == m[5]);
    assert(text::starts_with(m, ws) ==> m.take(ws.len() as int)[0] == m[0] && m.take(
        ws.len() as int,
    )[5] == m[5]);
    assert(text::starts_with(m, c) ==> m.take(c.len() as int)[0] == m[0]);
    assert(text::starts_with(m, s) ==> m.take(s.len() as int)[0] == m[0]);
    assert(text::starts_with(m, t) ==> m.take(t.len() as int)[0] == m[0] && m.take(
        t.len() as int,
    )[1] == m[1] && m.take(t.len() as int)[7] == m[7] && m.take(t.len() as int)[8] == m[8]);
    assert(text::starts_with(m, k) ==> m.take(k.len() as int)[0] == m[0] && m.take(
        k.len() as int,
    )[1] == m[1] && m.take(k.len() as int)[7] == m[7] && m.take(k.len() as int)[8] == m[8]);
    assert(text::starts_with(m, e) ==> m.take(e.len() as int)[0] == m[0] && m.take(
        e.len() as int,
    )[1] == m[1] && m.take(e.len() as int)[7] == m[7] && m.take(e.len() as int)[8] == m[8]);
    assert(text::starts_with(m, rm) ==> m.take(rm.len() as int)[0] == m[0] && m.take(
        rm.len() as int,
    )[1] == m[1] && m.take(rm.len() as int)[6] == m[6]);
    assert(text::starts_with(m, rr) ==> m.take(rr.len() as int)[0] == m[0] && m.take(
        rr.len() as int,
    )[1] == m[1] && m.take(rr.len() as int)[6] == m[6]);
    assert(text::starts_with(m, rp) ==> m.take(rp.len() as int)[0] == m[0] && m.take(
        rp.len() as int,
    )[1] == m[1] && m.take(rp.len() as int)[6] == m[6]);
    assert(text::starts_with(m, b) ==> m.take(b.len() as int)[0] == m[0]);
}

/// A message that moves, turns or switches a robot, or moves a ball, makes that the pending edit of
/// that robot or ball, in place of an earlier one; the edits of others stay, and nothing else changes.
pub proof fn law_edit_messages_make_edits_pending(
    c: ClientModel,
    m: Seq<char>,
    numbers: Seq<Option<Double>>,
    request: Option<DeveloperRequest>,
    other: RobotKey,
    world: usize,
)
    ensures
        ({
            let d = after_message(c, m, numbers, request);
            &&& requests::robot_move_request(m, numbers) matches Some(r) ==> {
                let key = RobotKey { world_id: r.world_id, team: r.team, id: r.id };
                &&& same_but_edits(d, c)
                &&& d.robot_moves.contains_key(key) && d.robot_moves[key] == r
                &&& other != key ==> d.robot_moves.contains_key(other) == c.robot_moves.contains_key(
                    other,
                )
                &&& other != key && c.robot_moves.contains_key(other) ==> d.robot_moves[other]
                    == c.robot_moves[other]
                &&& d.robot_rotations == c.robot_rotations
                &&& d.robot_presences == c.robot_presences
                &&& d.ball_moves == c.ball_moves
            }
            &&& requests::robot_rotate_request(m, numbers) matches Some(r) ==> {
                let key = RobotKey { world_id: r.world_id, team: r.team, id: r.id };
                &&& same_but_edits(d, c)
                &&& d.robot_rotations.contains_key(key) && d.robot_rotations[key] == r
                &&& other != key ==> d.robot_rotations.contains_key(other)
                    == c.robot_rotations.contains_key(other)
                &&& other != key && c.robot_rotations.contains_key(other)
                    ==> d.robot_rotations[other] == c.robot_rotations[other]
                &&& d.robot_moves == c.robot_moves
                &&& d.robot_presences == c.robot_presences
                &&& d.ball_moves == c.ball_moves
            }
            &&& requests::robot_presence_request(m) matches Some(r) ==> {
                let key = RobotKey { world_id: r.world_id, team: r.team, id: r.id };
                &&& same_but_edits(d, c)
                &&& d.robot_presences.contains_key(key) && d.robot_presences[key] == r
                &&& other != key ==> d.robot_presences.contains_key(other)
                    == c.robot_presences.contains_key(other)
                &&& other != key && c.robot_presences.contains_key(other)
                    ==> d.robot_presences[other] == c.robot_presences[other]
                &&& d.robot_moves == c.robot_moves
                &&& d.robot_rotations == c.robot_rotations
                &&& d.ball_moves == c.ball_moves
            }
            &&& requests::ball_move_request(m, numbers) matches Some(r) ==> {
                &&& same_but_edits(d, c)
                &&& d.ball_moves.contains_key(r.world_id) && d.ball_moves[r.world_id] == r
                &&& world != r.world_id ==> d.ball_moves.contains_key(world)
                    == c.ball_moves.contains_key(world)
                &&& world != r.world_id && c.ball_moves.contains_key(world) ==> d.ball_moves[world]
                    == c.ball_moves[world]
                &&& d.robot_moves == c.robot_moves
                &&& d.robot_rotations == c.robot_rotations
                &&& d.robot_presences == c.robot_presences
            }
        }),
{
    lemma_one_prefix(m);
}

/// `world:` shows one world, `worlds:` those in its list, the first of them foremost, or all; a list
/// without a number changes nothing. Edits, run control and developer requests stay.
pub proof fn law_world_messages_select_worlds(
    c: ClientModel,
    m: Seq<char>,
    value: Seq<char>,
    numbers: Seq<Option<Double>>,
    request: Option<DeveloperRequest>,
)
    ensures
        ({
            let d = after_message(c, m, numbers, request);
            &&& m == "world:"@ + value ==> {
                &&& d.control == c.control && same_edits(d, c)
                &&& d.developer_requests == c.developer_requests
                &&& match text::unsigned_number(text::trimmed(value), usize::MAX as nat) {
                    Some(n) => d.selected_world == n && d.selected_worlds == seq![n as usize],
                    None => d.selected_world == c.selected_world && d.selected_worlds
                        == c.selected_worlds,
                }
            }
            &&& m == "worlds:"@ + value ==> {
                &&& d.control == c.control && same_edits(d, c)
                &&& d.developer_requests == c.developer_requests
                &&& text::lowered(text::trimmed(value)) == "all"@ ==> d.selected_world == 0
                    && d.selected_worlds.len() == 0
                &&& text::lowered(text::trimmed(value)) != "all"@ ==> {
                    let named = worlds::world_selection(value);
                    &&& named.len() > 0 ==> d.selected_worlds == named && d.selected_world
                        == named[0]
                    &&& named.len() == 0 ==> d.selected_world == c.selected_world
                        && d.selected_worlds == c.selected_worlds
                }
            }
        }),
{
    lemma_one_prefix(m);
    text::law_prefixes(m, "world:"@, value);
    text::law_prefixes(m, "worlds:"@, value);
}

/// What a run message asks for is what the run control is told, where web control was opted in to:
/// `start`, `pause`, `stop` and `restart`; a speed in percent, at least one; frames to step or to skip,
/// and a frame to go to, not before the first. Selections and edits stay.
pub proof fn law_run_messages_drive_the_run(
    c: ClientModel,
    m: Seq<char>,
    value: Seq<char>,
    numbers: Seq<Option<Double>>,
    request: Option<DeveloperRequest>,
)
    requires
        c.control.enabled,
    ensures
        ({
            let d = after_message(c, m, numbers, request);
            let word = text::trimmed(value);
            let n = text::signed_number(word, isize::MIN as int, isize::MAX as int);
            &&& m == "control:"@ + value ==> {
                &&& same_but_control(d, c)
                &&& word == "start"@ ==> d.control == c.control.started()
                &&& word == "pause"@ ==> d.control == c.control.paused()
                &&& word == "stop"@ ==> d.control == c.control.stopped()
                &&& word == "restart"@ ==> d.control == c.control.restarted()
                &&& word != "start"@ && word != "pause"@ && word != "stop"@ && word != "restart"@
                    ==> d.control == c.control
            }
            &&& m == "speed:"@ + value ==> {
                &&& same_but_control(d, c)
                &&& numbers[0] is None ==> d.control == c.control
                &&& numbers[0] matches Some(speed) ==> {
                    let percent = control::percent_of(speed);
                    d.control == c.control.sped(
                        if percent == 0 {
                            1
                        } else {
                            percent
                        },
                    )
                }
            }
            &&& m == "replay:step:"@ + value ==> {
                &&& same_but_control(d, c)
                &&& n is None ==> d.control == c.control
                &&& n matches Some(frames) ==> d.control == c.control.stepped(frames)
            }
            &&& m == "replay:skip:"@ + value ==> {
                &&& same_but_control(d, c)
                &&& n is None ==> d.control == c.control
                &&& n matches Some(frames) ==> d.control == c.control.skipped(frames)
            }
            &&& m == "replay:seek:"@ + value ==> {
                &&& same_but_control(d, c)
                &&& n is None ==> d.control == c.control
                &&& n matches Some(frame) ==> d.control.seek_request() == Some(
                    if frame < 0 {
                        0
                    } else {
                        frame as usize
                    },
                )
            }
        }),
{
    lemma_one_prefix(m);
    lemma_actions_differ();
    text::law_prefixes(m, "control:"@, value);
    text::law_prefixes(m, "speed:"@, value);
    text::law_prefixes(m, "replay:step:"@, value);
    text::law_prefixes(m, "replay:skip:"@, value);
    text::law_prefixes(m, "replay:seek:"@, value);
    if m == "replay:seek:"@ + value {
        assert(text::after_prefix(m, "replay:step:"@) is None);
        assert(text::after_prefix(m, "replay:skip:"@) is None);
        match isize_number(value) {
            Some(n) => lemma_signed_number_fits(text::trimmed(value)),
            None => {},
        }
    }
}

proof fn lemma_signed_number_fits(s: Seq<char>)
    ensures
        text::signed_number(s, isize::MIN as int, isize::MAX as int) matches Some(n)
            ==> isize::MIN <= n <= isize::MAX,
{
}

proof fn lemma_actions_differ()
    ensures
        "start"@ != "pause"@,
        "start"@ != "stop"@,
        "start"@ != "restart"@,
        "pause"@ != "stop"@,
        "pause"@ != "restart"@,
        "stop"@ != "restart"@,
{
    reveal_strlit("start");
    reveal_strlit("pause");
    reveal_strlit("stop");
    reveal_strlit("restart");
    assert("start"@[0] == 's' && "pause"@[0] == 'p');
    assert("start"@.len() == 5 && "pause"@.len() == 5 && "stop"@.len() == 4 && "restart"@.len() == 7);
}

/// A developer request that was read is queued behind the others while there is room, and one that
/// could not be read changes nothing.
pub proof fn law_developer_messages_are_queued(
    c: ClientModel,
    m: Seq<char>,
    value: Seq<char>,
    numbers: Seq<Option<Double>>,
    request: Option<DeveloperRequest>,
)
    requires
        m == "developer:"@ + value,
    ensures
        ({
            let d = after_message(c, m, numbers, request);
            &&& d.selected_world == c.selected_world && d.selected_worlds == c.selected_worlds
            &&& d.control == c.control && same_edits(d, c)
            &&& request is None ==> d.developer_requests == c.developer_requests
            &&& request matches Some(r) ==> if c.developer_requests.len() < 64 {
                d.developer_requests == c.developer_requests.push(r)
            } else {
                d.developer_requests == c.developer_requests
            }
        }),
{
    text::law_prefixes(m, "developer:"@, value);
}

/// A command to the simulator does what it says, whatever web control was opted in to: it drives the
/// run, selects worlds, or makes an edit pending with the robot or ball, place and angle that it names.
pub proof fn law_commands_do_what_they_say(c: ClientModel, command: SimharkCommand)
    ensures
        match (command, after_command(c, command)) {
            (SimharkCommand::Start, Ok(d)) => same_but_control(d, c) && d.control
                == c.control.started(),
            (SimharkCommand::Pause, Ok(d)) => same_but_control(d, c) && d.control
                == c.control.paused(),
            (SimharkCommand::Stop, Ok(d)) => same_but_control(d, c) && d.control
                == c.control.stopped(),
            (SimharkCommand::CancelSession, Ok(d)) => same_but_control(d, c) && d.control
                == c.control.stopped(),
            (SimharkCommand::Restart, Ok(d)) => same_but_control(d, c) && d.control
                == c.control.restarted(),
            (SimharkCommand::Step { frames }, Ok(d)) => same_but_control(d, c) && d.control
                == c.control.stepped(frames as int),
            (SimharkCommand::Skip { frames }, Ok(d)) => same_but_control(d, c) && d.control
                == c.control.skipped(frames as int),
            (SimharkCommand::Seek { frame }, Ok(d)) => same_but_control(d, c) && (frame
                <= isize::MAX ==> d.control.seek_request() == Some(frame as usize)) && (frame
                > isize::MAX ==> d.control.seek_request() == Some(isize::MAX as usize)),
            (SimharkCommand::SetSpeed { multiplier }, Ok(d)) => same_but_control(d, c)
                && multiplier.is_finite_spec() && d.control == c.control.sped(
                control::percent_of(multiplier),
            ),
            (SimharkCommand::SetSpeed { multiplier }, Err(_)) => !multiplier.is_finite_spec(),
            (SimharkCommand::SelectWorlds { world_ids }, Ok(d)) => {
                &&& d.control == c.control && same_edits(d, c)
                &&& d.developer_requests == c.developer_requests
                &&& d.selected_worlds.len() == world_ids@.len()
                &&& forall|i: int|
                    0 <= i < world_ids@.len() ==> #[trigger] d.selected_worlds[i] == world_ids@[i]
                &&& world_ids@.len() > 0 ==> d.selected_world == world_ids@[0]
                &&& world_ids@.len() == 0 ==> d.selected_world == c.selected_world
            },
            (SimharkCommand::MoveRobot { world_id, team, id, x, y }, Ok(d)) => {
                let key = RobotKey { world_id: world_id as usize, team, id: id as usize };
                &&& same_but_edits(d, c)
                &&& d.robot_moves.contains_key(key)
                &&& d.robot_moves[key].world_id == world_id
                &&& d.robot_moves[key].team == team
                &&& d.robot_moves[key].id == id
                &&& d.robot_moves[key].x == x
                &&& d.robot_moves[key].y == y
                &&& d.robot_moves.remove(key) == c.robot_moves.remove(key)
                &&& d.robot_rotations == c.robot_rotations
                &&& d.robot_presences == c.robot_presences
                &&& d.ball_moves == c.ball_moves
            },
            (SimharkCommand::RotateRobot { world_id, team, id, orientation }, Ok(d)) => {
                let key = RobotKey { world_id: world_id as usize, team, id: id as usize };
                &&& same_but_edits(d, c)
                &&& d.robot_rotations.contains_key(key)
                &&& d.robot_rotations[key].world_id == world_id
                &&& d.robot_rotations[key].team == team
                &&& d.robot_rotations[key].id == id
                &&& d.robot_rotations[key].orientation == orientation
                &&& d.robot_rotations.remove(key) == c.robot_rotations.remove(key)
                &&& d.robot_moves == c.robot_moves
                &&& d.robot_presences == c.robot_presences
                &&& d.ball_moves == c.ball_moves
            },
            (SimharkCommand::SetRobotPresent { world_id, team, id, present }, Ok(d)) => {
                let key = RobotKey { world_id: world_id as usize, team, id: id as usize };
                &&& same_but_edits(d, c)
                &&& d.robot_presences.contains_key(key)
                &&& d.robot_presences[key].world_id == world_id
                &&& d.robot_presences[key].team == team
                &&& d.robot_presences[key].id == id
                &&& d.robot_presences[key].present == present
                &&& d.robot_presences.remove(key) == c.robot_presences.remove(key)
                &&& d.robot_moves == c.robot_moves
                &&& d.robot_rotations == c.robot_rotations
                &&& d.ball_moves == c.ball_moves
            },
            (SimharkCommand::MoveBall { world_id, x, y }, Ok(d)) => {
                &&& same_but_edits(d, c)
                &&& d.ball_moves.contains_key(world_id as usize)
                &&& d.ball_moves[world_id as usize].world_id == world_id
                &&& d.ball_moves[world_id as usize].x == x
                &&& d.ball_moves[world_id as usize].y == y
                &&& d.ball_moves.remove(world_id as usize) == c.ball_moves.remove(world_id as usize)
                &&& d.robot_moves == c.robot_moves
                &&& d.robot_rotations == c.robot_rotations
                &&& d.robot_presences == c.robot_presences
            },
            (SimharkCommand::LaunchMatch(_), Err(_)) => true,
            _ => false,
        },
{
    match (command, after_command(c, command)) {
        (SimharkCommand::MoveRobot { world_id, team, id, .. }, Ok(d)) => {
            let key = RobotKey { world_id: world_id as usize, team, id: id as usize };
            assert(d.robot_moves.remove(key) =~= c.robot_moves.remove(key));
        },
        (SimharkCommand::RotateRobot { world_id, team, id, .. }, Ok(d)) => {
            let key = RobotKey { world_id: world_id as usize, team, id: id as usize };
            assert(d.robot_rotations.remove(key) =~= c.robot_rotations.remove(key));
        },
        (SimharkCommand::SetRobotPresent { world_id, team, id, .. }, Ok(d)) => {
            let key = RobotKey { world_id: world_id as usize, team, id: id as usize };
            assert(d.robot_presences.remove(key) =~= c.robot_presences.remove(key));
        },
        (SimharkCommand::MoveBall { world_id, .. }, Ok(d)) => {
            assert(d.ball_moves.remove(world_id as usize) =~= c.ball_moves.remove(
                world_id as usize,
            ));
        },
        _ => {},
    }
}

/// A viewer starts with the first world shown, at plain speed and with nothing pending.
pub proof fn law_a_client_starts_with_nothing_pending()
    ensures
        ({
            let c = ClientModel::initial();
            &&& c.selected_world == 0 && c.selected_worlds == seq![0usize]
            &&& c.robot_moves.dom() == Set::<RobotKey>::empty()
            &&& c.robot_rotations.dom() == Set::<RobotKey>::empty()
            &&& c.robot_presences.dom() == Set::<RobotKey>::empty()
            &&& c.ball_moves.dom() == Set::<usize>::empty()
            &&& c.developer_requests.len() == 0
            &&& !c.control.enabled
        }),
{
    assert(ClientModel::initial().robot_moves.dom() =~= Set::<RobotKey>::empty());
    assert(ClientModel::initial().robot_rotations.dom() =~= Set::<RobotKey>::empty());
    assert(ClientModel::initial().robot_presences.dom() =~= Set::<RobotKey>::empty());
    assert(ClientModel::initial().ball_moves.dom() =~= Set::<usize>::empty());
}

/// What is said of a client is said of its own parts, each of its own.
pub proof fn law_a_client_is_seen_as_it_is(c: ClientState)
    ensures
        c@.selected_world == c.selected_world,
        c@.selected_worlds == c.selected_worlds@,
        c@.control == c.control,
        c@.robot_moves == c.robot_moves@,
        c@.robot_rotations == c.robot_rotations@,
        c@.robot_presences == c.robot_presences@,
        c@.ball_moves == c.ball_moves@,
        c@.developer_requests == c.developer_requests@,
{
}

} // verus!
