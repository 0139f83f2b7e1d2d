//! The link between a simulated world and a CrashPilot that drives one side of it.
//!
//! What CrashPilot, the robots' firmware and the game controller exchange is opaque here: a
//! referee's message is an `R`, a robot's answer an `F`, a team message an `M`.

use vstd::prelude::*;
use crate::debug::ViewerDebugSnapshot;
use crate::state::TeamColor;
use crate::text;
use crate::text::{concat_text, decimal_text};

verus! {

/// What CrashPilot is handed at the next step.
pub struct PilotEvents<R, F, M> {
    /// The latest operator command, as it came over the interface.
    pub operator: Option<Vec<u8>>,
    pub referee: Option<R>,
    pub team_messages: Vec<M>,
    /// The answer of one robot.
    pub feedback: Option<F>,
}

pub struct EventsModel<R, F, M> {
    pub operator: Option<Seq<u8>>,
    pub referee: Option<R>,
    pub team_messages: Seq<M>,
    pub feedback: Option<F>,
}

pub open spec fn bytes_view(b: Option<Vec<u8>>) -> Option<Seq<u8>> {
    match b {
        Some(v) => Some(v@),
        None => None,
    }
}

impl<R, F, M> View for PilotEvents<R, F, M> {
    type V = EventsModel<R, F, M>;

    open spec fn view(&self) -> EventsModel<R, F, M> {
        EventsModel {
            operator: bytes_view(self.operator),
            referee: self.referee,
            team_messages: self.team_messages@,
            feedback: self.feedback,
        }
    }
}

/// One side's CrashPilot and its robots. The robots answer in turn, one at each step.
pub struct Faabs<R, F, M> {
    pub team: TeamColor,
    pub robots: u8,
    pub feedback_robot: u32,
    pub events: PilotEvents<R, F, M>,
    /// What there was to say of the last step.
    pub latest_debug: Option<ViewerDebugSnapshot>,
}

/// What the game controller has sent since the last step.
pub struct ControllerEvents<R, M> {
    pub referee: Option<R>,
    pub team_messages: Vec<M>,
}

/// The robot whose turn it is after `feedback_robot`.
pub open spec fn next_in_turn(feedback_robot: u32, robots: u8) -> u32 {
    ((feedback_robot + 1) % robots as int) as u32
}

/// What a side's CrashPilot is registered as.
pub open spec fn is_registered_as(team: TeamColor, r: (String, String)) -> bool {
    &&& r.0@ == "crashpilot-"@ + team.id_spec()
    &&& r.1@ == "CrashPilot ("@ + team.id_spec() + ")"@
}

/// Whether `r` is the place of robot `id` among as many robots.
pub open spec fn is_place_of(r: Result<usize, String>, id: u32, robots: u8) -> bool {
    match r {
        Ok(place) => id < robots && place == id,
        Err(message) => id >= robots && message@ == "Received data for robot with id "@
            + text::decimal(id as nat) + ", but only "@ + text::decimal(robots as nat)
            + " robots are configured"@,
    }
}

impl<R, F, M> EventsModel<R, F, M> {
    pub open spec fn initial() -> EventsModel<R, F, M> {
        EventsModel { operator: None, referee: None, team_messages: Seq::empty(), feedback: None }
    }

    pub open spec fn with_referee(self, referee: Option<R>) -> EventsModel<R, F, M> {
        EventsModel { referee, ..self }
    }

    pub open spec fn with_operator(self, command: Seq<u8>) -> EventsModel<R, F, M> {
        EventsModel { operator: Some(command), ..self }
    }

    /// With what the game controller has sent.
    pub open spec fn with_sent(self, pending: Option<ControllerEvents<R, M>>) -> EventsModel<
        R,
        F,
        M,
    > {
        match pending {
            Some(sent) => EventsModel {
                referee: if sent.referee is Some {
                    sent.referee
                } else {
                    self.referee
                },
                team_messages: self.team_messages + sent.team_messages@,
                ..self
            },
            None => self,
        }
    }

    /// What is left once everything was handed over.
    pub open spec fn handed_over(self) -> EventsModel<R, F, M> {
        EventsModel {
            operator: self.operator,
            referee: None,
            team_messages: Seq::empty(),
            feedback: None,
        }
    }

    /// With a robot's answer, where it was its turn.
    pub open spec fn with_answer(self, in_turn: bool, feedback: F) -> EventsModel<R, F, M> {
        if in_turn {
            EventsModel { feedback: Some(feedback), ..self }
        } else {
            self
        }
    }

    /// What a step hands over.
    pub open spec fn stepped(
        self,
        referee: Option<R>,
        operator: Seq<Vec<u8>>,
        pending: Option<ControllerEvents<R, M>>,
    ) -> EventsModel<R, F, M> {
        EventsModel {
            operator: if operator.len() > 0 {
                Some(operator.last()@)
            } else {
                self.operator
            },
            ..self.with_referee(referee).with_sent(pending)
        }
    }
}

impl<R, F, M> Faabs<R, F, M> {
    /// Whose turn it is is one of the robots, where there are any.
    pub open spec fn wf(self) -> bool {
        self.feedback_robot == 0 || self.feedback_robot < self.robots
    }

    pub fn new(robots: u8, team: TeamColor) -> (r: Self)
        ensures
            r.wf(),
            r.team == team,
            r.robots == robots,
            r.feedback_robot == 0,
            r.latest_debug is None,
            r.events@ == EventsModel::<R, F, M>::initial(),
    {
        Faabs {
            team,
            robots,
            feedback_robot: 0,
            events: PilotEvents {
                operator: None,
                referee: None,
                team_messages: Vec::new(),
                feedback: None,
            },
            latest_debug: None,
        }
    }

    /// Begins a step: the referee's message is the one that the step was called with.
    pub fn begin_step(&mut self, referee: Option<R>)
        requires
            old(self).wf(),
        ensures
            final(self).wf(),
            final(self).team == old(self).team,
            final(self).robots == old(self).robots,
            final(self).feedback_robot == old(self).feedback_robot,
            final(self).latest_debug == old(self).latest_debug,
            final(self).events@ == old(self).events@.with_referee(referee),
    {
        self.events.referee = referee;
    }

    /// Takes an operator command that was read; the latest one stays.
    pub fn take_operator_command(&mut self, command: Vec<u8>)
        requires
            old(self).wf(),
        ensures
            final(self).wf(),
            final(self).team == old(self).team,
            final(self).robots == old(self).robots,
            final(self).feedback_robot == old(self).feedback_robot,
            final(self).latest_debug == old(self).latest_debug,
            final(self).events@ == old(self).events@.with_operator(command@),
    {
        self.events.operator = Some(command);
    }

    /// Takes what the game controller has sent: its referee's message replaces the step's own,
    /// team messages are added. `None` is for a controller that cannot be asked right now.
    pub fn drain_game_controller_events(&mut self, pending: Option<ControllerEvents<R, M>>)
        requires
            old(self).wf(),
        ensures
            final(self).wf(),
            final(self).team == old(self).team,
            final(self).robots == old(self).robots,
            final(self).feedback_robot == old(self).feedback_robot,
            final(self).latest_debug == old(self).latest_debug,
            final(self).events@ == old(self).events@.with_sent(pending),
    {
        match pending {
            Some(sent) => {
                if sent.referee.is_some() {
                    self.events.referee = sent.referee;
                }
                let mut messages = sent.team_messages;
                self.events.team_messages.append(&mut messages);
            },
            None => {},
        }
    }

    /// Hands everything over to CrashPilot; only the operator's command is kept for the next step.
    pub fn hand_over(&mut self) -> (r: PilotEvents<R, F, M>)
        requires
            old(self).wf(),
        ensures
            final(self).wf(),
            final(self).team == old(self).team,
            final(self).robots == old(self).robots,
            final(self).feedback_robot == old(self).feedback_robot,
            final(self).latest_debug == old(self).latest_debug,
            r@ == old(self).events@,
            final(self).events@ == old(self).events@.handed_over(),
    {
        let operator = match &self.events.operator {
            Some(bytes) => {
                let copy = bytes.clone();
                assert(copy@ =~= bytes@);
                Some(copy)
            },
            None => None,
        };
        let mut events = PilotEvents {
            operator,
            referee: None,
            team_messages: Vec::new(),
            feedback: None,
        };
        core::mem::swap(&mut events, &mut self.events);
        events
    }

    /// Begins a step and hands everything over to CrashPilot: the referee's message, unless the
    /// game controller has sent one; its team messages; the latest of the operator's commands; and
    /// the answer of the robot whose turn it was.
    pub fn step(
        &mut self,
        referee: Option<R>,
        operator: Vec<Vec<u8>>,
        pending: Option<ControllerEvents<R, M>>,
    ) -> (r: PilotEvents<R, F, M>)
        requires
            old(self).wf(),
        ensures
            final(self).wf(),
            final(self).team == old(self).team,
            final(self).robots == old(self).robots,
            final(self).feedback_robot == old(self).feedback_robot,
            final(self).latest_debug == old(self).latest_debug,
            r@ == old(self).events@.stepped(referee, operator@, pending),
            final(self).events@ == r@.handed_over(),
    {
        self.begin_step(referee);
        let mut commands = operator;
        match commands.pop() {
            Some(latest) => self.take_operator_command(latest),
            None => {},
        }
        self.drain_game_controller_events(pending);
        self.hand_over()
    }

    /// What there was to say of the last step.
    pub fn debug_snapshot(&self) -> (r: Option<ViewerDebugSnapshot>)
        ensures
            match (r, self.latest_debug) {
                (Some(s), Some(latest)) => s@ == latest@,
                (None, None) => true,
                _ => false,
            },
    {
        match &self.latest_debug {
            Some(s) => Some(s.copy()),
            None => None,
        }
    }

    /// The place of robot `id`, which CrashPilot has something for.
    pub fn robot_place(&self, id: u32) -> (r: Result<usize, String>)
        ensures
            is_place_of(r, id, self.robots),
    {
        if id < self.robots as u32 {
            return Ok(id as usize);
        }
        let number = decimal_text(id as u64);
        let count = decimal_text(self.robots as u64);
        let head = concat_text("Received data for robot with id ", number.as_str());
        let head = concat_text(head.as_str(), ", but only ");
        let head = concat_text(head.as_str(), count.as_str());
        Err(concat_text(head.as_str(), " robots are configured"))
    }

    /// Takes robot `id`'s answer, if it is that robot's turn.
    pub fn robot_stepped(&mut self, id: u32, feedback: F)
        requires
            old(self).wf(),
        ensures
            final(self).wf(),
            final(self).team == old(self).team,
            final(self).robots == old(self).robots,
            final(self).feedback_robot == old(self).feedback_robot,
            final(self).latest_debug == old(self).latest_debug,
            final(self).events@ == old(self).events@.with_answer(
                id == old(self).feedback_robot,
                feedback,
            ),
    {
        if self.feedback_robot == id {
            self.events.feedback = Some(feedback);
        }
    }

    /// Ends a step: the next robot's turn. `debug` is what there is to say of the step.
    pub fn finish_step(&mut self, debug: Option<ViewerDebugSnapshot>)
        requires
            old(self).wf(),
            old(self).robots > 0,
        ensures
            final(self).wf(),
            final(self).team == old(self).team,
            final(self).robots == old(self).robots,
            final(self).feedback_robot == next_in_turn(
                old(self).feedback_robot,
                old(self).robots,
            ),
            final(self).events@ == old(self).events@,
            final(self).latest_debug == debug,
    {
        self.latest_debug = debug;
        let next: u32 = self.feedback_robot + 1;
        self.feedback_robot = next % (self.robots as u32);
    }

    /// What the side's CrashPilot is registered as with a shared interface: its id and its label.
    /// Whatever was registered under the id before makes way.
    pub fn attach_shared_interface(&self) -> (r: (String, String))
        ensures
            is_registered_as(self.team, r),
    {
        let head = concat_text("CrashPilot (", self.team.id());
        (concat_text("crashpilot-", self.team.id()), concat_text(head.as_str(), ")"))
    }
}

/// Whose turn it is after `steps` steps.
pub open spec fn turn_after(start: u32, robots: u8, steps: nat) -> u32
    decreases steps,
{
    if steps == 0 {
        start
    } else {
        next_in_turn(turn_after(start, robots, (steps - 1) as nat), robots)
    }
}

/// Whether it is robot `id`'s turn within as many steps as there are robots.
pub open spec fn has_turn(start: u32, robots: u8, id: u32) -> bool {
    exists|n: nat| n < robots && #[trigger] turn_after(start, robots, n) == id
}

/// The robots answer in turn: after as many steps as there are robots it is the same robot's turn
/// again, and every robot has had one.
pub proof fn law_robots_answer_in_turn(start: u32, robots: u8, steps: nat)
    requires
        start < robots,
    ensures
        turn_after(start, robots, steps) as int == (start + steps) % robots as int,
        turn_after(start, robots, robots as nat) == start,
        forall|id: u32| id < robots ==> #[trigger] has_turn(start, robots, id),
{
    lemma_turn_after(start, robots, steps);
    lemma_turn_after(start, robots, robots as nat);
    assert((start + robots) % robots as int == start) by (nonlinear_arith)
        requires
            0 <= start < robots,
    ;
    assert forall|id: u32| id < robots implies #[trigger] has_turn(start, robots, id) by {
        let n: nat = if id >= start {
            (id - start) as nat
        } else {
            (id + robots - start) as nat
        };
        lemma_turn_after(start, robots, n);
        if id >= start {
            assert((start + n) % robots as int == id) by (nonlinear_arith)
                requires
                    start + n == id,
                    0 <= id < robots,
            ;
        } else {
            assert((start + n) % robots as int == id) by (nonlinear_arith)
                requires
                    start + n == id + robots,
                    0 <= id < robots,
            ;
        }
        assert(turn_after(start, robots, n) == id);
    }
}

proof fn lemma_turn_after(start: u32, robots: u8, steps: nat)
    requires
        start < robots,
    ensures
        turn_after(start, robots, steps) as int == (start + steps) % robots as int,
    decreases steps,
{
    if steps > 0 {
        let n = (steps - 1) as nat;
        lemma_turn_after(start, robots, n);
        let a = start + n;
        assert(((a % robots as int) + 1) % robots as int == (a + 1) % robots as int)
            by (nonlinear_arith)
            requires
                robots > 0,
        {
            vstd::arithmetic::div_mod::lemma_add_mod_noop(a, 1, robots as int);
            vstd::arithmetic::div_mod::lemma_mod_bound(a, robots as int);
        }
    } else {
        assert((start + 0) % robots as int == start) by (nonlinear_arith)
            requires
                0 <= start < robots,
        ;
    }
}

/// The address of each of a side's robots: `10.0.64.101` is the first.
pub open spec fn robot_address(i: int) -> (u32, [u8; 4]) {
    (i as u32, [10u8, 0u8, 64u8, (101 + i) as u8])
}

pub open spec fn robot_addresses(n: nat) -> Seq<(u32, [u8; 4])> {
    Seq::new(n, |i: int| robot_address(i))
}

pub fn get_config(num_robots: u8) -> (r: Vec<(u32, [u8; 4])>)
    requires
        num_robots <= 155,
    ensures
        r@ == robot_addresses(num_robots as nat),
{
    let mut robots: Vec<(u32, [u8; 4])> = Vec::new();
    let ghost all = robot_addresses(num_robots as nat);
    let mut i: u8 = 0;
    while i < num_robots
        invariant
            i <= num_robots <= 155,
            all == robot_addresses(num_robots as nat),
            robots@ == all.take(i as int),
        decreases num_robots - i,
    {
        robots.push((i as u32, [10u8, 0u8, 64u8, 101 + i]));
        i += 1;
        assert(robots@ =~= all.take(i as int));
    }
    assert(robots@ =~= all);
    robots
}

// ---------------------------------------------------------------------------
// Messages made up for CrashPilot

/// A referee's message. Whoever sends it stamps it.
#[derive(Debug, Clone, Copy, PartialEq, Eq, Structural)]
pub struct RefereeMessage {
    pub packet_timestamp: u64,
    pub command: i32,
    pub command_counter: u32,
    pub command_timestamp: u64,
}

pub open spec fn message_of(command: i32, now: u64) -> RefereeMessage {
    RefereeMessage { packet_timestamp: now, command, command_counter: 1, command_timestamp: 1 }
}

/// The referee calls `command`; `now` is the time in microseconds.
pub fn referee_command(command: i32, now: u64) -> (r: RefereeMessage)
    ensures
        r == message_of(command, now),
{
    RefereeMessage { packet_timestamp: now, command, command_counter: 1, command_timestamp: 1 }
}

/// The referee's code for a forced start.
pub const FORCE_START: i32 = 3;

pub fn force_start_referee(now: u64) -> (r: RefereeMessage)
    ensures
        r == message_of(FORCE_START, now),
{
    referee_command(FORCE_START, now)
}

/// What the operator's interface tells CrashPilot of a side: to play a game.
#[derive(Debug, Clone, Copy, PartialEq, Eq, Structural)]
pub struct InterfaceCommand {
    /// The robots' convention: true is blue.
    pub team_color: bool,
    pub side: bool,
    pub ball_tracked: bool,
    pub running: bool,
    pub goalkeeper_id: u32,
    pub max_speed: u32,
}

pub open spec fn interface_command_of(team: TeamColor) -> InterfaceCommand {
    InterfaceCommand {
        team_color: team is Blue,
        side: team is Blue,
        ball_tracked: true,
        running: true,
        goalkeeper_id: 0,
        max_speed: 0,
    }
}

pub fn interface_command(team: TeamColor) -> (r: InterfaceCommand)
    ensures
        r == interface_command_of(team),
{
    let blue = match team {
        TeamColor::Yellow => false,
        TeamColor::Blue => true,
    };
    InterfaceCommand {
        team_color: blue,
        side: blue,
        ball_tracked: true,
        running: true,
        goalkeeper_id: 0,
        max_speed: 0,
    }
}

// ---------------------------------------------------------------------------
// The referee's multicast

/// The latest of the messages that could be read, after a first one.
pub open spec fn latest_of<R>(first: R, rest: Seq<Option<R>>) -> R
    decreases rest.len(),
{
    if rest.len() == 0 {
        first
    } else {
        match rest.last() {
            Some(r) => r,
            None => latest_of(first, rest.drop_last()),
        }
    }
}

pub open spec fn latest_after<R>(latest: Option<R>, message: Option<R>) -> Option<R> {
    if message is Some {
        message
    } else {
        latest
    }
}

/// What a receiver has of the referee's messages that wait one behind the other.
pub struct RefereeInbox<R> {
    pub latest: Option<R>,
}

impl<R> RefereeInbox<R> {
    pub fn new() -> (r: Self)
        ensures
            r.latest is None,
    {
        RefereeInbox { latest: None }
    }

    /// Takes the next message, `None` where it could not be read; a later one replaces an earlier.
    pub fn receive(&mut self, message: Option<R>)
        ensures
            final(self).latest == latest_after(old(self).latest, message),
    {
        if message.is_some() {
            self.latest = message;
        }
    }

    /// The message to pass on, once none waits any more.
    pub fn take(&mut self) -> (r: Option<R>)
        ensures
            r == old(self).latest,
            final(self).latest is None,
    {
        self.latest.take()
    }
}

pub open spec fn received<R>(latest: Option<R>, messages: Seq<Option<R>>) -> Option<R>
    decreases messages.len(),
{
    if messages.len() == 0 {
        latest
    } else if messages.last() is Some {
        messages.last()
    } else {
        received(latest, messages.drop_last())
    }
}

/// Of a run of messages the latest readable one is passed on.
pub proof fn law_latest_message_wins<R>(first: R, rest: Seq<Option<R>>)
    ensures
        received(Some(first), rest) == Some(latest_of(first, rest)),
    decreases rest.len(),
{
    if rest.len() > 0 && rest.last() is None {
        law_latest_message_wins(first, rest.drop_last());
    }
}

// ---------------------------------------------------------------------------
// Laws

/// A step hands CrashPilot the referee's message that the game controller sent, or else the step's own;
/// the latest of the operator's commands, or else the one that it had; the team messages that wait,
/// with those just sent behind them; and the answer of the robot whose turn it was.
pub proof fn law_what_a_step_hands_over<R, F, M>(
    e: EventsModel<R, F, M>,
    referee: Option<R>,
    operator: Seq<Vec<u8>>,
    sent: ControllerEvents<R, M>,
)
    ensures
        ({
            let r = e.stepped(referee, operator, Some(sent));
            &&& sent.referee is Some ==> r.referee == sent.referee
            &&& sent.referee is None ==> r.referee == referee
            &&& operator.len() > 0 ==> r.operator == Some(operator[operator.len() - 1]@)
            &&& operator.len() == 0 ==> r.operator == e.operator
            &&& r.team_messages.len() == e.team_messages.len() + sent.team_messages@.len()
            &&& r.team_messages == e.team_messages + sent.team_messages@
            &&& r.feedback == e.feedback
        }),
        ({
            let r = e.stepped(referee, operator, None);
            &&& r.referee == referee
            &&& r.team_messages == e.team_messages
            &&& r.feedback == e.feedback
            &&& operator.len() > 0 ==> r.operator == Some(operator[operator.len() - 1]@)
        }),
{
}

/// What was handed over is gone, but for the operator's command, which stays for the next step.
pub proof fn law_only_the_operators_command_stays<R, F, M>(e: EventsModel<R, F, M>)
    ensures
        e.handed_over().operator == e.operator,
        e.handed_over().referee is None,
        e.handed_over().team_messages.len() == 0,
        e.handed_over().feedback is None,
        EventsModel::<R, F, M>::initial().operator is None,
        EventsModel::<R, F, M>::initial().referee is None,
        EventsModel::<R, F, M>::initial().team_messages.len() == 0,
        EventsModel::<R, F, M>::initial().feedback is None,
{
}

/// What comes in changes what it is of, and nothing else.
pub proof fn law_what_comes_in_is_kept<R, F, M>(
    e: EventsModel<R, F, M>,
    referee: Option<R>,
    command: Seq<u8>,
    feedback: F,
)
    ensures
        e.with_referee(referee).referee == referee,
        e.with_referee(referee).operator == e.operator,
        e.with_referee(referee).feedback == e.feedback,
        e.with_referee(referee).team_messages == e.team_messages,
        e.with_operator(command).operator == Some(command),
        e.with_operator(command).referee == e.referee,
        e.with_operator(command).feedback == e.feedback,
        e.with_operator(command).team_messages == e.team_messages,
        e.with_answer(true, feedback).feedback == Some(feedback),
        e.with_answer(true, feedback).referee == e.referee,
        e.with_answer(true, feedback).operator == e.operator,
        e.with_answer(true, feedback).team_messages == e.team_messages,
        e.with_answer(false, feedback) == e,
{
}

/// The next robot's turn is that of the next number, and of the first after the last.
pub proof fn law_the_next_in_turn(robot: u32, robots: u8)
    requires
        robot < robots,
    ensures
        robot + 1 < robots ==> next_in_turn(robot, robots) == robot + 1,
        robot + 1 == robots ==> next_in_turn(robot, robots) == 0,
{
    if robot + 1 < robots {
        vstd::arithmetic::div_mod::lemma_small_mod((robot + 1) as nat, robots as nat);
    } else {
        vstd::arithmetic::div_mod::lemma_mod_self_0(robots as int);
    }
}

/// A side's robots have the numbers from 0 on and an address each, one behind the other, the first of
/// them `10.0.64.101`.
pub proof fn law_addresses_of_robots(n: nat, i: int)
    requires
        0 <= i < n <= 155,
    ensures
        robot_addresses(n).len() == n,
        robot_addresses(n)[i].0 == i,
        robot_addresses(n)[i].1[0] == 10,
        robot_addresses(n)[i].1[1] == 0,
        robot_addresses(n)[i].1[2] == 64,
        robot_addresses(n)[i].1[3] == 101 + i,
{
}

/// A robot that there is has the place of its number; there is none with a higher one.
pub proof fn law_places_of_robots(r: Result<usize, String>, id: u32, robots: u8)
    requires
        is_place_of(r, id, robots),
    ensures
        r is Ok == (id < robots),
        r matches Ok(place) ==> place == id,
{
}

/// CrashPilot is registered under its side's color.
pub proof fn law_registered_by_color(team: TeamColor, r: (String, String))
    requires
        is_registered_as(team, r),
    ensures
        team is Blue ==> r.0@ == "crashpilot-blue"@ && r.1@ == "CrashPilot (blue)"@,
        team is Yellow ==> r.0@ == "crashpilot-yellow"@ && r.1@ == "CrashPilot (yellow)"@,
{
    reveal_strlit("crashpilot-");
    reveal_strlit("CrashPilot (");
    reveal_strlit(")");
    reveal_strlit("blue");
    reveal_strlit("yellow");
    reveal_strlit("crashpilot-blue");
    reveal_strlit("crashpilot-yellow");
    reveal_strlit("CrashPilot (blue)");
    reveal_strlit("CrashPilot (yellow)");
    assert("crashpilot-blue"@ =~= "crashpilot-"@ + "blue"@);
    assert("crashpilot-yellow"@ =~= "crashpilot-"@ + "yellow"@);
    assert("CrashPilot (blue)"@ =~= "CrashPilot ("@ + "blue"@ + ")"@);
    assert("CrashPilot (yellow)"@ =~= "CrashPilot ("@ + "yellow"@ + ")"@);
}

/// A made-up message has the command and the time that it was made with; a forced start has code 3.
pub proof fn law_made_up_messages(command: i32, now: u64)
    ensures
        message_of(command, now).command == command,
        message_of(command, now).packet_timestamp == now,
        message_of(command, now).command_counter == 1,
        message_of(command, now).command_timestamp == 1,
        message_of(FORCE_START, now).command == 3,
{
}

/// Blue is told that it is blue, yellow that it is not; both are told to play with the tracked ball.
pub proof fn law_sides_are_told_their_color(team: TeamColor)
    ensures
        interface_command_of(TeamColor::Blue).team_color,
        interface_command_of(TeamColor::Blue).side,
        !interface_command_of(TeamColor::Yellow).team_color,
        !interface_command_of(TeamColor::Yellow).side,
        interface_command_of(team).ball_tracked,
        interface_command_of(team).running,
        interface_command_of(team).goalkeeper_id == 0,
        interface_command_of(team).max_speed == 0,
{
}

/// A message that could be read replaces the one before; one that could not leaves it.
pub proof fn law_later_messages_replace_earlier_ones<R>(latest: Option<R>, message: R)
    ensures
        latest_after(latest, Some(message)) == Some(message),
        latest_after(latest, None) == latest,
{
}

/// What is said of what CrashPilot is handed is said of its own parts.
pub proof fn law_events_are_seen_as_they_are<R, F, M>(e: PilotEvents<R, F, M>)
    ensures
        e@.operator is Some == e.operator is Some,
        e.operator is Some ==> e@.operator->0 == e.operator->0@,
        e@.referee == e.referee,
        e@.team_messages == e.team_messages@,
        e@.feedback == e.feedback,
{
}

} // verus!
