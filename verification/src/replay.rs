//! The replay log: what a recorded session holds, and how a recorder fills it.

use vstd::prelude::*;
use crate::number;
use crate::number::Double;
use crate::state::{RobotCommand, TeamColor, WorldCommand, WorldConfig, WorldState};
use crate::text;

verus! {

pub struct ReplayLog {
    pub metadata: ReplayMetadata,
    pub frames: Vec<ReplayFrame>,
    pub events: Vec<ReplayEvent>,
}

pub struct ReplayMetadata {
    pub world_count: usize,
    pub world_config: WorldConfig,
    pub tick_hz: Double,
    pub source: String,
}

pub struct ReplayFrame {
    pub frame: u64,
    pub sim_time: Double,
    pub states: Vec<WorldState>,
    pub commands: Vec<WorldCommand>,
    pub debug: Vec<ReplayDebugSnapshot>,
    pub events: Vec<ReplayEvent>,
}

/// What the controllers of one world had to say at a frame.
pub struct ReplayDebugSnapshot {
    pub world_id: usize,
    pub strategy: Option<String>,
    pub robots: Vec<ReplayRobotDebugInfo>,
    pub overlays: Vec<ReplayDebugOverlay>,
}

#[derive(Debug)]
pub struct ReplayRobotDebugInfo {
    pub team: TeamColor,
    pub id: usize,
    pub task: String,
    pub color: String,
    pub message: Option<String>,
}

#[derive(Debug)]
pub enum ReplayDebugOverlay {
    HoloRobot(ReplayDebugHoloRobot),
    KickLine(ReplayDebugKickLine),
}

#[derive(Debug)]
pub struct ReplayDebugHoloRobot {
    pub team: TeamColor,
    pub id: usize,
    pub x: Double,
    pub y: Double,
    pub orientation: Option<Double>,
    pub color: String,
    pub label: Option<String>,
}

#[derive(Debug)]
pub struct ReplayDebugKickLine {
    pub team: TeamColor,
    pub id: usize,
    pub from_x: Double,
    pub from_y: Double,
    pub angle: Double,
    pub color: String,
    pub label: Option<String>,
}

#[derive(Debug)]
pub struct ReplayEvent {
    pub frame: u64,
    pub sim_time: Double,
    pub world_id: Option<usize>,
    pub kind: ReplayEventKind,
    pub label: String,
    pub details: Option<String>,
}

#[derive(Debug, Clone, Copy, PartialEq, Eq, Structural)]
pub enum ReplayEventKind {
    GoalBlue,
    GoalYellow,
    Foul,
    Referee,
    Custom,
}

/// An event, its texts by their characters.
pub struct EventModel {
    pub frame: u64,
    pub sim_time: Double,
    pub world_id: Option<usize>,
    pub kind: ReplayEventKind,
    pub label: Seq<char>,
    pub details: Option<Seq<char>>,
}

impl View for ReplayEvent {
    type V = EventModel;

    open spec fn view(&self) -> EventModel {
        EventModel {
            frame: self.frame,
            sim_time: self.sim_time,
            world_id: self.world_id,
            kind: self.kind,
            label: self.label@,
            details: text::text_view(self.details),
        }
    }
}

impl ReplayEvent {
    pub fn copy(&self) -> (r: ReplayEvent)
        ensures
            r == *self,
    {
        ReplayEvent {
            frame: self.frame,
            sim_time: self.sim_time,
            world_id: self.world_id,
            kind: self.kind,
            label: self.label.clone(),
            details: text::copy_text(&self.details),
        }
    }
}

pub open spec fn event_views(events: Seq<ReplayEvent>) -> Seq<EventModel> {
    Seq::new(events.len(), |i: int| events[i]@)
}

/// A copy of a list of events.
pub fn copy_events(events: &[ReplayEvent]) -> (r: Vec<ReplayEvent>)
    ensures
        r@ == events@,
{
    let mut out: Vec<ReplayEvent> = Vec::new();
    let mut i: usize = 0;
    while i < events.len()
        invariant
            i <= events@.len(),
            out@ == events@.take(i as int),
        decreases events@.len() - i,
    {
        out.push(events[i].copy());
        i += 1;
    }
    out
}

// ---------------------------------------------------------------------------
// Goals

/// The goal flags last seen of each world, and the events that came of them.
#[verifier::ext_equal]
pub struct GoalNotes {
    pub blue: Seq<bool>,
    pub yellow: Seq<bool>,
    pub events: Seq<EventModel>,
}

pub open spec fn goal_event(state: WorldState, kind: ReplayEventKind, label: Seq<char>) -> EventModel {
    EventModel {
        frame: state.frame,
        sim_time: state.sim_time,
        world_id: Some(state.world_id),
        kind,
        label,
        details: None,
    }
}

/// Whether a flag of world `world_id` that is now `flag` went up.
pub open spec fn went_up(last: Seq<bool>, world_id: usize, flag: bool) -> bool {
    world_id < last.len() && flag && !last[world_id as int]
}

pub open spec fn noted(last: Seq<bool>, world_id: usize, flag: bool) -> Seq<bool> {
    if world_id < last.len() {
        last.update(world_id as int, flag)
    } else {
        last
    }
}

/// The goal events of one world at one frame: blue's first.
pub open spec fn goals_of_state(blue: Seq<bool>, yellow: Seq<bool>, state: WorldState) -> Seq<
    EventModel,
> {
    (if went_up(blue, state.world_id, state.goal_blue) {
        seq![goal_event(state, ReplayEventKind::GoalBlue, "Blue goal"@)]
    } else {
        Seq::empty()
    }) + (if went_up(yellow, state.world_id, state.goal_yellow) {
        seq![goal_event(state, ReplayEventKind::GoalYellow, "Yellow goal"@)]
    } else {
        Seq::empty()
    })
}

/// What the states of one frame, taken in order, add to the goal flags `blue` and `yellow`.
pub open spec fn goal_notes(blue: Seq<bool>, yellow: Seq<bool>, states: Seq<WorldState>) -> GoalNotes
    decreases states.len(),
{
    if states.len() == 0 {
        GoalNotes { blue, yellow, events: Seq::empty() }
    } else {
        let before = goal_notes(blue, yellow, states.drop_last());
        let state = states.last();
        GoalNotes {
            blue: noted(before.blue, state.world_id, state.goal_blue),
            yellow: noted(before.yellow, state.world_id, state.goal_yellow),
            events: before.events + goals_of_state(before.blue, before.yellow, state),
        }
    }
}

/// Whether a goal of world `world_id` is among `events`.
pub open spec fn tells_of_goal(events: Seq<EventModel>, world_id: usize, kind: ReplayEventKind) -> bool {
    exists|k: int|
        0 <= k < events.len() && (#[trigger] events[k]).world_id == Some(world_id)
            && events[k].kind == kind
}

pub open spec fn distinct_worlds(states: Seq<WorldState>) -> bool {
    forall|i: int, j: int|
        0 <= i < j < states.len() ==> (#[trigger] states[i]).world_id != (
        #[trigger] states[j]).world_id
}

proof fn lemma_tells_of_goal_in_sum(
    a: Seq<EventModel>,
    b: Seq<EventModel>,
    world_id: usize,
    kind: ReplayEventKind,
)
    ensures
        tells_of_goal(a + b, world_id, kind) == (tells_of_goal(a, world_id, kind) || tells_of_goal(
            b,
            world_id,
            kind,
        )),
{
    let s = a + b;
    if tells_of_goal(a, world_id, kind) {
        let k = choose|k: int|
            0 <= k < a.len() && (#[trigger] a[k]).world_id == Some(world_id) && a[k].kind == kind;
        assert(s[k] == a[k]);
    }
    if tells_of_goal(b, world_id, kind) {
        let k = choose|k: int|
            0 <= k < b.len() && (#[trigger] b[k]).world_id == Some(world_id) && b[k].kind == kind;
        assert(s[a.len() + k] == b[k]);
    }
    if tells_of_goal(s, world_id, kind) {
        let k = choose|k: int|
            0 <= k < s.len() && (#[trigger] s[k]).world_id == Some(world_id) && s[k].kind == kind;
        if k < a.len() {
            assert(s[k] == a[k]);
        } else {
            assert(s[k] == b[k - a.len()]);
        }
    }
}

proof fn lemma_goals_of_state(
    blue: Seq<bool>,
    yellow: Seq<bool>,
    state: WorldState,
    world_id: usize,
)
    ensures
        tells_of_goal(goals_of_state(blue, yellow, state), world_id, ReplayEventKind::GoalBlue) == (
        world_id == state.world_id && went_up(blue, world_id, state.goal_blue)),
        tells_of_goal(goals_of_state(blue, yellow, state), world_id, ReplayEventKind::GoalYellow)
            == (world_id == state.world_id && went_up(yellow, world_id, state.goal_yellow)),
{
    let e = goals_of_state(blue, yellow, state);
    let b = went_up(blue, state.world_id, state.goal_blue);
    let y = went_up(yellow, state.world_id, state.goal_yellow);
    if b {
        assert(e[0] == goal_event(state, ReplayEventKind::GoalBlue, "Blue goal"@));
        if y {
            assert(e[1] == goal_event(state, ReplayEventKind::GoalYellow, "Yellow goal"@));
        }
    } else if y {
        assert(e[0] == goal_event(state, ReplayEventKind::GoalYellow, "Yellow goal"@));
    }
}

/// The states of other worlds say nothing of world `world_id`.
proof fn lemma_other_worlds(
    blue: Seq<bool>,
    yellow: Seq<bool>,
    states: Seq<WorldState>,
    world_id: usize,
)
    requires
        forall|i: int| 0 <= i < states.len() ==> (#[trigger] states[i]).world_id != world_id,
    ensures
        ({
            let notes = goal_notes(blue, yellow, states);
            &&& notes.blue.len() == blue.len()
            &&& notes.yellow.len() == yellow.len()
            &&& world_id < blue.len() ==> notes.blue[world_id as int] == blue[world_id as int]
            &&& world_id < yellow.len() ==> notes.yellow[world_id as int] == yellow[world_id as int]
            &&& !tells_of_goal(notes.events, world_id, ReplayEventKind::GoalBlue)
            &&& !tells_of_goal(notes.events, world_id, ReplayEventKind::GoalYellow)
        }),
    decreases states.len(),
{
    if states.len() > 0 {
        let short = states.drop_last();
        assert forall|i: int| 0 <= i < short.len() implies (
        #[trigger] short[i]).world_id != world_id by {
            assert(short[i] == states[i]);
        }
        lemma_other_worlds(blue, yellow, short, world_id);
        let before = goal_notes(blue, yellow, short);
        let more = goals_of_state(before.blue, before.yellow, states.last());
        lemma_goals_of_state(before.blue, before.yellow, states.last(), world_id);
        lemma_tells_of_goal_in_sum(before.events, more, world_id, ReplayEventKind::GoalBlue);
        lemma_tells_of_goal_in_sum(before.events, more, world_id, ReplayEventKind::GoalYellow);
    }
}

/// A frame tells of a goal of one of its worlds exactly where that world's goal flag went up, and
/// the flag is then remembered as it was in the frame.
pub proof fn law_goal_events_are_rises(
    blue: Seq<bool>,
    yellow: Seq<bool>,
    states: Seq<WorldState>,
    i: int,
)
    requires
        distinct_worlds(states),
        0 <= i < states.len(),
    ensures
        ({
            let notes = goal_notes(blue, yellow, states);
            let s = states[i];
            &&& tells_of_goal(notes.events, s.world_id, ReplayEventKind::GoalBlue) == went_up(
                blue,
                s.world_id,
                s.goal_blue,
            )
            &&& tells_of_goal(notes.events, s.world_id, ReplayEventKind::GoalYellow) == went_up(
                yellow,
                s.world_id,
                s.goal_yellow,
            )
            &&& notes.blue.len() == blue.len()
            &&& notes.yellow.len() == yellow.len()
            &&& s.world_id < blue.len() ==> notes.blue[s.world_id as int] == s.goal_blue
            &&& s.world_id < yellow.len() ==> notes.yellow[s.world_id as int] == s.goal_yellow
        }),
    decreases states.len(),
{
    let short = states.drop_last();
    let last = states.last();
    let world_id = states[i].world_id;
    assert forall|a: int, b: int| 0 <= a < b < short.len() implies (
    #[trigger] short[a]).world_id != (#[trigger] short[b]).world_id by {
        assert(short[a] == states[a] && short[b] == states[b]);
    }
    if i < short.len() {
        assert(short[i] == states[i]);
        law_goal_events_are_rises(blue, yellow, short, i);
        assert(states[i].world_id != states[states.len() - 1].world_id);
    } else {
        assert forall|a: int| 0 <= a < short.len() implies (
        #[trigger] short[a]).world_id != world_id by {
            assert(short[a] == states[a]);
        }
        lemma_other_worlds(blue, yellow, short, world_id);
    }
    let before = goal_notes(blue, yellow, short);
    let more = goals_of_state(before.blue, before.yellow, last);
    lemma_goals_of_state(before.blue, before.yellow, last, world_id);
    lemma_tells_of_goal_in_sum(before.events, more, world_id, ReplayEventKind::GoalBlue);
    lemma_tells_of_goal_in_sum(before.events, more, world_id, ReplayEventKind::GoalYellow);
}

/// A goal that is still up in the next frame is not told again.
pub proof fn law_held_goal_is_told_once(
    blue: Seq<bool>,
    yellow: Seq<bool>,
    first: Seq<WorldState>,
    second: Seq<WorldState>,
    i: int,
    j: int,
)
    requires
        distinct_worlds(first),
        distinct_worlds(second),
        0 <= i < first.len(),
        0 <= j < second.len(),
        first[i].world_id == second[j].world_id,
    ensures
        ({
            let notes = goal_notes(blue, yellow, first);
            let next = goal_notes(notes.blue, notes.yellow, second);
            let world_id = first[i].world_id;
            &&& first[i].goal_blue ==> !tells_of_goal(
                next.events,
                world_id,
                ReplayEventKind::GoalBlue,
            )
            &&& first[i].goal_yellow ==> !tells_of_goal(
                next.events,
                world_id,
                ReplayEventKind::GoalYellow,
            )
        }),
{
    law_goal_events_are_rises(blue, yellow, first, i);
    let notes = goal_notes(blue, yellow, first);
    law_goal_events_are_rises(notes.blue, notes.yellow, second, j);
}

// ---------------------------------------------------------------------------
// Recording

/// Fills a replay log frame by frame.
pub struct ReplayRecorder {
    metadata: ReplayMetadata,
    frames: Vec<ReplayFrame>,
    events: Vec<ReplayEvent>,
    last_goal_blue: Vec<bool>,
    last_goal_yellow: Vec<bool>,
}

/// What was recorded so far, and the goal flags last seen of each world.
pub struct RecorderModel {
    pub metadata: ReplayMetadata,
    pub frames: Seq<ReplayFrame>,
    pub events: Seq<ReplayEvent>,
    pub blue: Seq<bool>,
    pub yellow: Seq<bool>,
}

impl View for ReplayRecorder {
    type V = RecorderModel;

    closed spec fn view(&self) -> RecorderModel {
        RecorderModel {
            metadata: self.metadata,
            frames: self.frames@,
            events: self.events@,
            blue: self.last_goal_blue@,
            yellow: self.last_goal_yellow@,
        }
    }
}

/// Whether `f` is the frame recorded of `states`, with the goals `goals`.
pub open spec fn is_frame_of(
    f: ReplayFrame,
    states: Vec<WorldState>,
    commands: Vec<WorldCommand>,
    debug: Seq<ReplayDebugSnapshot>,
    goals: Seq<EventModel>,
) -> bool {
    &&& f.frame == (if states@.len() > 0 {
        states@[0].frame
    } else {
        0
    })
    &&& f.sim_time == (if states@.len() > 0 {
        states@[0].sim_time
    } else {
        (Double { bits: number::ZERO_BITS })
    })
    &&& f.states == states
    &&& f.commands == commands
    &&& f.debug@ == debug
    &&& event_views(f.events@) == goals
}

impl RecorderModel {
    /// The goal flags are kept for every world that the log is of, and for no other.
    pub open spec fn has_flags_of_every_world(self) -> bool {
        &&& self.blue.len() == self.metadata.world_count
        &&& self.yellow.len() == self.metadata.world_count
    }

    /// Whether `next` is the recorder after one more frame.
    pub open spec fn has_frame_more(
        self,
        next: RecorderModel,
        states: Vec<WorldState>,
        commands: Vec<WorldCommand>,
        debug: Seq<ReplayDebugSnapshot>,
    ) -> bool {
        let notes = goal_notes(self.blue, self.yellow, states@);
        &&& next.metadata == self.metadata
        &&& next.blue == notes.blue
        &&& next.yellow == notes.yellow
        &&& next.frames.len() == self.frames.len() + 1
        &&& next.frames.drop_last() == self.frames
        &&& is_frame_of(next.frames.last(), states, commands, debug, notes.events)
        &&& next.events == self.events + next.frames.last().events@
    }

    pub open spec fn with_event(self, e: ReplayEvent) -> RecorderModel {
        RecorderModel { events: self.events.push(e), ..self }
    }

    pub open spec fn with_custom(
        self,
        frame: u64,
        sim_time: Double,
        world_id: Option<usize>,
        label: String,
        details: Option<String>,
    ) -> RecorderModel {
        self.with_event(
            ReplayEvent {
                frame,
                sim_time,
                world_id,
                kind: ReplayEventKind::Custom,
                label,
                details,
            },
        )
    }

    pub open spec fn with_referee(
        self,
        frame: u64,
        sim_time: Double,
        label: String,
        details: Option<String>,
    ) -> RecorderModel {
        self.with_event(
            ReplayEvent {
                frame,
                sim_time,
                world_id: None,
                kind: ReplayEventKind::Referee,
                label,
                details,
            },
        )
    }

    pub open spec fn with_foul(
        self,
        frame: u64,
        sim_time: Double,
        world_id: Option<usize>,
        label: String,
        details: Option<String>,
    ) -> RecorderModel {
        self.with_event(
            ReplayEvent { frame, sim_time, world_id, kind: ReplayEventKind::Foul, label, details },
        )
    }

    /// The recorder with nothing recorded: no goal flag is up.
    pub open spec fn initial(
        world_count: usize,
        world_config: WorldConfig,
        tick_hz: Double,
        source: String,
    ) -> RecorderModel {
        RecorderModel {
            metadata: ReplayMetadata { world_count, world_config, tick_hz, source },
            frames: Seq::empty(),
            events: Seq::empty(),
            blue: Seq::new(world_count as nat, |i: int| false),
            yellow: Seq::new(world_count as nat, |i: int| false),
        }
    }

    /// Whether `log` holds all that was recorded.
    pub open spec fn is_finished_as(self, log: ReplayLog) -> bool {
        &&& log.metadata == self.metadata
        &&& log.frames@ == self.frames
        &&& log.events@ == self.events
    }
}

/// Of each frame's goals, all are of worlds that flags are kept for.
proof fn lemma_goals_are_of_kept_worlds(blue: Seq<bool>, yellow: Seq<bool>, states: Seq<WorldState>)
    requires
        blue.len() == yellow.len(),
    ensures
        ({
            let notes = goal_notes(blue, yellow, states);
            &&& notes.blue.len() == blue.len()
            &&& notes.yellow.len() == yellow.len()
            &&& forall|k: int|
                0 <= k < notes.events.len() ==> ((#[trigger] notes.events[k]).world_id matches Some(
                    world_id,
                ) && world_id < blue.len())
        }),
    decreases states.len(),
{
    if states.len() > 0 {
        lemma_goals_are_of_kept_worlds(blue, yellow, states.drop_last());
        let before = goal_notes(blue, yellow, states.drop_last());
        let more = goals_of_state(before.blue, before.yellow, states.last());
        let events = goal_notes(blue, yellow, states).events;
        assert forall|k: int| 0 <= k < events.len() implies ((
        #[trigger] events[k]).world_id matches Some(world_id) && world_id < blue.len()) by {
            if k < before.events.len() {
                assert(events[k] == before.events[k]);
            } else {
                assert(events[k] == more[k - before.events.len()]);
            }
        }
    }
}

/// Worlds beyond the number that the log is of add no event, neither to their frame nor to the log.
pub proof fn law_worlds_beyond_the_count_add_no_event(
    m: RecorderModel,
    next: RecorderModel,
    states: Vec<WorldState>,
    commands: Vec<WorldCommand>,
    debug: Seq<ReplayDebugSnapshot>,
    world_id: usize,
)
    requires
        m.has_flags_of_every_world(),
        m.has_frame_more(next, states, commands, debug),
        world_id >= m.metadata.world_count,
    ensures
        forall|k: int|
            0 <= k < next.frames.last().events@.len() ==> (
            #[trigger] next.frames.last().events@[k]).world_id != Some(world_id),
        forall|k: int|
            m.events.len() <= k < next.events.len() ==> (#[trigger] next.events[k]).world_id != Some(
                world_id,
            ),
        next.has_flags_of_every_world(),
{
    lemma_goals_are_of_kept_worlds(m.blue, m.yellow, states@);
    let events = next.frames.last().events@;
    let goals = goal_notes(m.blue, m.yellow, states@).events;
    assert forall|k: int| 0 <= k < events.len() implies (#[trigger] events[k]).world_id != Some(
        world_id,
    ) by {
        assert(event_views(events)[k] == goals[k]);
        assert(event_views(events)[k].world_id == events[k].world_id);
    }
    assert forall|k: int| m.events.len() <= k < next.events.len() implies (
    #[trigger] next.events[k]).world_id != Some(world_id) by {
        assert(next.events[k] == events[k - m.events.len()]);
    }
}

impl ReplayRecorder {
    /// The goal flags are kept for every world that the log is of.
    #[verifier::type_invariant]
    spec fn keeps_every_world(self) -> bool {
        &&& self.last_goal_blue@.len() == self.metadata.world_count
        &&& self.last_goal_yellow@.len() == self.metadata.world_count
    }

    pub fn new(world_count: usize, world_config: WorldConfig, tick_hz: Double, source: String) -> (r:
        ReplayRecorder)
        ensures
            r@ == RecorderModel::initial(world_count, world_config, tick_hz, source),
    {
        let r = ReplayRecorder {
            metadata: ReplayMetadata { world_count, world_config, tick_hz, source },
            frames: Vec::new(),
            events: Vec::new(),
            last_goal_blue: vec![false; world_count],
            last_goal_yellow: vec![false; world_count],
        };
        assert(r@.blue =~= Seq::new(world_count as nat, |i: int| false));
        assert(r@.yellow =~= Seq::new(world_count as nat, |i: int| false));
        r
    }

    fn push_event(&mut self, event: ReplayEvent)
        ensures
            final(self)@ == old(self)@.with_event(event),
    {
        proof { use_type_invariant(&*self); }
        let mut events: Vec<ReplayEvent> = Vec::new();
        core::mem::swap(&mut events, &mut self.events);
        events.push(event);
        self.events = events;
    }

    pub fn push_custom_event(
        &mut self,
        frame: u64,
        sim_time: Double,
        world_id: Option<usize>,
        label: String,
        details: Option<String>,
    )
        ensures
            final(self)@ == old(self)@.with_custom(frame, sim_time, world_id, label, details),
    {
        self.push_event(
            ReplayEvent {
                frame,
                sim_time,
                world_id,
                kind: ReplayEventKind::Custom,
                label,
                details,
            },
        );
    }

    pub fn push_referee_event(
        &mut self,
        frame: u64,
        sim_time: Double,
        label: String,
        details: Option<String>,
    )
        ensures
            final(self)@ == old(self)@.with_referee(frame, sim_time, label, details),
    {
        self.push_event(
            ReplayEvent {
                frame,
                sim_time,
                world_id: None,
                kind: ReplayEventKind::Referee,
                label,
                details,
            },
        );
    }

    pub fn push_foul_event(
        &mut self,
        frame: u64,
        sim_time: Double,
        world_id: Option<usize>,
        label: String,
        details: Option<String>,
    )
        ensures
            final(self)@ == old(self)@.with_foul(frame, sim_time, world_id, label, details),
    {
        self.push_event(
            ReplayEvent {
                frame,
                sim_time,
                world_id,
                kind: ReplayEventKind::Foul,
                label,
                details,
            },
        );
    }

    /// Records one frame without debug data.
    pub fn push_frame(&mut self, states: Vec<WorldState>, commands: Vec<WorldCommand>)
        ensures
            old(self)@.has_frame_more(final(self)@, states, commands, Seq::empty()),
            old(self)@.has_flags_of_every_world(),
            final(self)@.has_flags_of_every_world(),
    {
        self.push_frame_with_debug(states, commands, Vec::new());
    }

    /// Records one frame: the states of the worlds, the commands they were given, what the
    /// controllers had to say. A goal flag that goes up becomes an event, in the frame and in the
    /// log's own list.
    pub fn push_frame_with_debug(
        &mut self,
        states: Vec<WorldState>,
        commands: Vec<WorldCommand>,
        debug: Vec<ReplayDebugSnapshot>,
    )
        ensures
            old(self)@.has_frame_more(final(self)@, states, commands, debug@),
            old(self)@.has_flags_of_every_world(),
            final(self)@.has_flags_of_every_world(),
    {
        proof { use_type_invariant(&*self); }
        let ghost before = self@;
        let mut frame: u64 = 0;
        let mut sim_time: Double = Double::zero();
        if states.len() > 0 {
            frame = states[0].frame;
            sim_time = states[0].sim_time;
        }
        let mut blue: Vec<bool> = self.last_goal_blue.clone();
        let mut yellow: Vec<bool> = self.last_goal_yellow.clone();
        assert(blue@ =~= before.blue);
        assert(yellow@ =~= before.yellow);
        let mut events: Vec<ReplayEvent> = Vec::new();
        core::mem::swap(&mut events, &mut self.events);

        let mut frame_events: Vec<ReplayEvent> = Vec::new();
        let mut k: usize = 0;
        assert(event_views(frame_events@) =~= Seq::<EventModel>::empty());
        while k < states.len()
            invariant
                k <= states@.len(),
                blue@.len() == before.blue.len(),
                yellow@.len() == before.yellow.len(),
                goal_notes(before.blue, before.yellow, states@.take(k as int)) == (GoalNotes {
                    blue: blue@,
                    yellow: yellow@,
                    events: event_views(frame_events@),
                }),
            decreases states@.len() - k,
        {
            let state = &states[k];
            let world_id: usize = state.world_id;
            let ghost seen = event_views(frame_events@);
            let ghost old_blue = blue@;
            let ghost old_yellow = yellow@;
            proof {
                assert(states@.take(k + 1).drop_last() == states@.take(k as int));
                assert(states@.take(k + 1).last() == states@[k as int]);
            }
            if world_id < blue.len() && state.goal_blue && !blue[world_id] {
                frame_events.push(
                    ReplayEvent {
                        frame: state.frame,
                        sim_time: state.sim_time,
                        world_id: Some(world_id),
                        kind: ReplayEventKind::GoalBlue,
                        label: "Blue goal".to_owned(),
                        details: None,
                    },
                );
                assert(event_views(frame_events@) =~= seen.push(
                    goal_event(*state, ReplayEventKind::GoalBlue, "Blue goal"@),
                ));
            }
            let ghost with_blue = event_views(frame_events@);
            if world_id < yellow.len() && state.goal_yellow && !yellow[world_id] {
                frame_events.push(
                    ReplayEvent {
                        frame: state.frame,
                        sim_time: state.sim_time,
                        world_id: Some(world_id),
                        kind: ReplayEventKind::GoalYellow,
                        label: "Yellow goal".to_owned(),
                        details: None,
                    },
                );
                assert(event_views(frame_events@) =~= with_blue.push(
                    goal_event(*state, ReplayEventKind::GoalYellow, "Yellow goal"@),
                ));
            }
            if world_id < blue.len() {
                blue[world_id] = state.goal_blue;
            }
            if world_id < yellow.len() {
                yellow[world_id] = state.goal_yellow;
            }
            assert(event_views(frame_events@) =~= seen + goals_of_state(
                old_blue,
                old_yellow,
                *state,
            ));
            k += 1;
        }
        assert(states@.take(k as int) == states@);

        let mut j: usize = 0;
        while j < frame_events.len()
            invariant
                j <= frame_events@.len(),
                events@ == before.events + frame_events@.take(j as int),
            decreases frame_events@.len() - j,
        {
            events.push(frame_events[j].copy());
            assert(events@ =~= before.events + frame_events@.take(j + 1));
            j += 1;
        }
        assert(frame_events@.take(j as int) == frame_events@);
        let mut frames: Vec<ReplayFrame> = Vec::new();
        core::mem::swap(&mut frames, &mut self.frames);
        frames.push(
            ReplayFrame { frame, sim_time, states, commands, debug, events: frame_events },
        );
        self.events = events;
        self.last_goal_blue = blue;
        self.last_goal_yellow = yellow;
        self.frames = frames;
        assert(self@.frames.drop_last() == before.frames);
    }

    /// The log of all that was recorded.
    pub fn finish(self) -> (r: ReplayLog)
        ensures
            self@.is_finished_as(r),
    {
        ReplayLog { metadata: self.metadata, frames: self.frames, events: self.events }
    }
}

// ---------------------------------------------------------------------------
// Robot inputs

/// What one robot was told, in words.
#[derive(Debug)]
pub struct RobotInputInfo {
    pub world_id: usize,
    pub team: TeamColor,
    pub id: usize,
    pub input: String,
}

/// The commands of one world in words, each in the place of its command.
pub struct CommandTexts {
    pub blue: Vec<String>,
    pub yellow: Vec<String>,
}

/// Whether there is one text for every command.
pub open spec fn texts_fit(commands: Seq<WorldCommand>, command_texts: Seq<CommandTexts>) -> bool {
    &&& command_texts.len() == commands.len()
    &&& forall|w: int|
        0 <= w < commands.len() ==> (#[trigger] command_texts[w]).blue@.len()
            == commands[w].blue@.len() && command_texts[w].yellow@.len()
            == commands[w].yellow@.len()
}

/// The inputs of one team: every command under its robot's id, in order.
pub open spec fn team_inputs(
    world_id: usize,
    team: TeamColor,
    commands: Seq<RobotCommand>,
    words: Seq<String>,
) -> Seq<RobotInputInfo> {
    Seq::new(
        commands.len(),
        |i: int| RobotInputInfo { world_id, team, id: commands[i].id, input: words[i] },
    )
}

/// The inputs of all worlds in order, blue before yellow; a world's number is its place.
pub open spec fn inputs_of(commands: Seq<WorldCommand>, command_texts: Seq<CommandTexts>) -> Seq<
    RobotInputInfo,
>
    decreases commands.len(),
{
    if commands.len() == 0 {
        Seq::empty()
    } else {
        let n = commands.len() - 1;
        let c = commands[n];
        let t = command_texts[n];
        inputs_of(commands.drop_last(), command_texts) + team_inputs(
            n as usize,
            TeamColor::Blue,
            c.blue@,
            t.blue@,
        ) + team_inputs(n as usize, TeamColor::Yellow, c.yellow@, t.yellow@)
    }
}

fn add_team_inputs(
    inputs: &mut Vec<RobotInputInfo>,
    world_id: usize,
    team: TeamColor,
    commands: &Vec<RobotCommand>,
    words: &Vec<String>,
)
    requires
        words@.len() == commands@.len(),
    ensures
        final(inputs)@ == old(inputs)@ + team_inputs(world_id, team, commands@, words@),
{
    let ghost before = inputs@;
    let mut i: usize = 0;
    while i < commands.len()
        invariant
            words@.len() == commands@.len(),
            i <= commands@.len(),
            inputs@ == before + team_inputs(world_id, team, commands@, words@).take(i as int),
        decreases commands@.len() - i,
    {
        inputs.push(
            RobotInputInfo { world_id, team, id: commands[i].id, input: words[i].clone() },
        );
        i += 1;
        assert(inputs@ =~= before + team_inputs(world_id, team, commands@, words@).take(i as int));
    }
    assert(team_inputs(world_id, team, commands@, words@).take(i as int) =~= team_inputs(
        world_id,
        team,
        commands@,
        words@,
    ));
}

/// What every robot was told in a frame.
pub fn robot_inputs_for_frame(frame: &ReplayFrame, command_texts: &Vec<CommandTexts>) -> (r: Vec<
    RobotInputInfo,
>)
    requires
        texts_fit(frame.commands@, command_texts@),
    ensures
        r@ == inputs_of(frame.commands@, command_texts@),
{
    let mut inputs: Vec<RobotInputInfo> = Vec::new();
    let mut w: usize = 0;
    while w < frame.commands.len()
        invariant
            w <= frame.commands@.len(),
            texts_fit(frame.commands@, command_texts@),
            inputs@ == inputs_of(frame.commands@.take(w as int), command_texts@),
        decreases frame.commands@.len() - w,
    {
        let command = &frame.commands[w];
        let words = &command_texts[w];
        proof {
            assert(frame.commands@.take(w + 1).drop_last() == frame.commands@.take(w as int));
        }
        add_team_inputs(&mut inputs, w, TeamColor::Blue, &command.blue, &words.blue);
        add_team_inputs(&mut inputs, w, TeamColor::Yellow, &command.yellow, &words.yellow);
        w += 1;
    }
    assert(frame.commands@.take(w as int) == frame.commands@);
    inputs
}

/// The input of a robot as its controller's debug data tells it: the message, or the task where
/// there is no message or an empty one.
pub open spec fn input_of_debug(world_id: usize, robot: ReplayRobotDebugInfo) -> RobotInputInfo {
    RobotInputInfo {
        world_id,
        team: robot.team,
        id: robot.id,
        input: match robot.message {
            Some(message) if message@.len() > 0 => message,
            _ => robot.task,
        },
    }
}

pub open spec fn inputs_of_robots(world_id: usize, robots: Seq<ReplayRobotDebugInfo>) -> Seq<
    RobotInputInfo,
> {
    Seq::new(robots.len(), |i: int| input_of_debug(world_id, robots[i]))
}

/// The inputs that the debug data of a frame tells of, snapshot by snapshot.
pub open spec fn inputs_of_debug(debug: Seq<ReplayDebugSnapshot>) -> Seq<RobotInputInfo>
    decreases debug.len(),
{
    if debug.len() == 0 {
        Seq::empty()
    } else {
        inputs_of_debug(debug.drop_last()) + inputs_of_robots(
            debug.last().world_id,
            debug.last().robots@,
        )
    }
}

/// What is shown of the robots' inputs: the debug data, or the commands where it tells of none.
pub open spec fn shown_inputs(frame: ReplayFrame, command_texts: Seq<CommandTexts>) -> Seq<
    RobotInputInfo,
> {
    let told = inputs_of_debug(frame.debug@);
    if told.len() == 0 {
        inputs_of(frame.commands@, command_texts)
    } else {
        told
    }
}

pub fn replay_robot_inputs(frame: &ReplayFrame, command_texts: &Vec<CommandTexts>) -> (r: Vec<
    RobotInputInfo,
>)
    requires
        texts_fit(frame.commands@, command_texts@),
    ensures
        r@ == shown_inputs(*frame, command_texts@),
{
    let mut inputs: Vec<RobotInputInfo> = Vec::new();
    let mut k: usize = 0;
    while k < frame.debug.len()
        invariant
            k <= frame.debug@.len(),
            inputs@ == inputs_of_debug(frame.debug@.take(k as int)),
        decreases frame.debug@.len() - k,
    {
        let snapshot = &frame.debug[k];
        let ghost before = inputs@;
        let ghost all = inputs_of_robots(snapshot.world_id, snapshot.robots@);
        let mut i: usize = 0;
        while i < snapshot.robots.len()
            invariant
                i <= snapshot.robots@.len(),
                all == inputs_of_robots(snapshot.world_id, snapshot.robots@),
                inputs@ == before + all.take(i as int),
            decreases snapshot.robots@.len() - i,
        {
            let robot = &snapshot.robots[i];
            let input = match &robot.message {
                Some(message) => if text::is_empty_text(message.as_str()) {
                    robot.task.clone()
                } else {
                    message.clone()
                },
                None => robot.task.clone(),
            };
            inputs.push(
                RobotInputInfo {
                    world_id: snapshot.world_id,
                    team: robot.team,
                    id: robot.id,
                    input,
                },
            );
            i += 1;
            assert(inputs@ =~= before + all.take(i as int));
        }
        assert(all.take(i as int) =~= all);
        k += 1;
        proof {
            assert(frame.debug@.take(k as int).drop_last() == frame.debug@.take(k - 1));
        }
    }
    assert(frame.debug@.take(k as int) == frame.debug@);
    if inputs.len() == 0 {
        robot_inputs_for_frame(frame, command_texts)
    } else {
        inputs
    }
}

// ---------------------------------------------------------------------------
// Laws

/// A recorder starts with an empty log of the session that it is made for, and with every goal flag
/// down.
pub proof fn law_a_recorder_starts_empty(
    world_count: usize,
    world_config: WorldConfig,
    tick_hz: Double,
    source: String,
    i: int,
)
    requires
        0 <= i < world_count,
    ensures
        ({
            let m = RecorderModel::initial(world_count, world_config, tick_hz, source);
            &&& m.frames.len() == 0 && m.events.len() == 0
            &&& m.metadata.world_count == world_count
            &&& m.metadata.world_config == world_config
            &&& m.metadata.tick_hz == tick_hz
            &&& m.metadata.source == source
            &&& m.has_flags_of_every_world()
            &&& !m.blue[i] && !m.yellow[i]
        }),
{
}

/// Whether one event has been added to a log: of this kind, at this time, in these words. What was
/// recorded before stays.
pub open spec fn has_event_more(
    m: RecorderModel,
    next: RecorderModel,
    kind: ReplayEventKind,
    frame: u64,
    sim_time: Double,
    label: String,
    details: Option<String>,
) -> bool {
    let n = m.events.len() as int;
    &&& next.events.len() == n + 1
    &&& forall|i: int| 0 <= i < n ==> #[trigger] next.events[i] == m.events[i]
    &&& next.events[n].kind == kind
    &&& next.events[n].frame == frame
    &&& next.events[n].sim_time == sim_time
    &&& next.events[n].label == label
    &&& next.events[n].details == details
    &&& next.frames == m.frames
    &&& next.metadata == m.metadata
    &&& next.blue == m.blue
    &&& next.yellow == m.yellow
}

/// An event that is put into the log is there under its kind, at its time, in its words and of its
/// world; what the referee does is of no world.
pub proof fn law_events_are_recorded_as_told(
    m: RecorderModel,
    frame: u64,
    sim_time: Double,
    world_id: Option<usize>,
    label: String,
    details: Option<String>,
)
    ensures
        ({
            let next = m.with_custom(frame, sim_time, world_id, label, details);
            &&& has_event_more(m, next, ReplayEventKind::Custom, frame, sim_time, label, details)
            &&& next.events.last().world_id == world_id
        }),
        ({
            let next = m.with_foul(frame, sim_time, world_id, label, details);
            &&& has_event_more(m, next, ReplayEventKind::Foul, frame, sim_time, label, details)
            &&& next.events.last().world_id == world_id
        }),
        ({
            let next = m.with_referee(frame, sim_time, label, details);
            &&& has_event_more(m, next, ReplayEventKind::Referee, frame, sim_time, label, details)
            &&& next.events.last().world_id is None
        }),
{
}

/// A recorded frame holds the states, the commands and the debug data that it was recorded of, under
/// the number and the time of its first state; the frames before it stay as they were, and its goals
/// are the last events of the log.
pub proof fn law_frames_are_recorded_as_they_were(
    m: RecorderModel,
    next: RecorderModel,
    states: Vec<WorldState>,
    commands: Vec<WorldCommand>,
    debug: Seq<ReplayDebugSnapshot>,
    i: int,
)
    requires
        m.has_frame_more(next, states, commands, debug),
    ensures
        next.frames.len() == m.frames.len() + 1,
        0 <= i < m.frames.len() ==> next.frames[i] == m.frames[i],
        next.frames.last().states == states,
        next.frames.last().commands == commands,
        next.frames.last().debug@ == debug,
        states@.len() > 0 ==> next.frames.last().frame == states@[0].frame,
        states@.len() > 0 ==> next.frames.last().sim_time == states@[0].sim_time,
        states@.len() == 0 ==> next.frames.last().frame == 0,
        next.metadata == m.metadata,
        next.events.len() == m.events.len() + next.frames.last().events@.len(),
        0 <= i < m.events.len() ==> next.events[i] == m.events[i],
        0 <= i < next.frames.last().events@.len() ==> next.events[m.events.len() + i]
            == next.frames.last().events@[i],
{
    if 0 <= i < m.frames.len() {
        assert(next.frames.drop_last()[i] == next.frames[i]);
    }
}

/// A finished log is what was recorded, frame by frame and event by event.
pub proof fn law_a_finished_log_is_what_was_recorded(m: RecorderModel, log: ReplayLog, i: int)
    requires
        m.is_finished_as(log),
    ensures
        log.metadata == m.metadata,
        log.frames@.len() == m.frames.len(),
        0 <= i < m.frames.len() ==> log.frames@[i] == m.frames[i],
        log.events@.len() == m.events.len(),
        0 <= i < m.events.len() ==> log.events@[i] == m.events[i],
{
}

/// Whether an event tells of a goal of the world of `state`, at the time of that state, under the name
/// of the team that scored.
pub open spec fn is_goal_in(e: EventModel, state: WorldState) -> bool {
    &&& e.frame == state.frame
    &&& e.sim_time == state.sim_time
    &&& e.world_id == Some(state.world_id)
    &&& e.details is None
    &&& (e.kind is GoalBlue && state.goal_blue && e.label == "Blue goal"@) || (e.kind is GoalYellow
        && state.goal_yellow && e.label == "Yellow goal"@)
}

pub open spec fn is_goal_in_one_of(e: EventModel, states: Seq<WorldState>) -> bool {
    exists|i: int| 0 <= i < states.len() && is_goal_in(e, #[trigger] states[i])
}

/// Every goal that a frame tells of was scored in one of its states, by the team that it names.
pub proof fn law_goals_are_those_of_the_states(
    blue: Seq<bool>,
    yellow: Seq<bool>,
    states: Seq<WorldState>,
    k: int,
)
    requires
        0 <= k < goal_notes(blue, yellow, states).events.len(),
    ensures
        is_goal_in_one_of(goal_notes(blue, yellow, states).events[k], states),
    decreases states.len(),
{
    let short = states.drop_last();
    let before = goal_notes(blue, yellow, short);
    let e = goal_notes(blue, yellow, states).events[k];
    if k < before.events.len() {
        law_goals_are_those_of_the_states(blue, yellow, short, k);
        let i = choose|i: int| 0 <= i < short.len() && is_goal_in(e, #[trigger] short[i]);
        assert(is_goal_in(e, states[i]));
    } else {
        let state = states[states.len() - 1];
        assert(e == goals_of_state(before.blue, before.yellow, state)[k - before.events.len()]);
        assert(is_goal_in(e, states[states.len() - 1]));
    }
}

/// A goal is told of one of a frame's worlds exactly where its flag is up and was down before, and the
/// log keeps flags of that world.
pub proof fn law_goals_are_told_when_a_flag_goes_up(
    blue: Seq<bool>,
    yellow: Seq<bool>,
    states: Seq<WorldState>,
    i: int,
)
    requires
        distinct_worlds(states),
        0 <= i < states.len(),
        states[i].world_id < blue.len(),
        states[i].world_id < yellow.len(),
    ensures
        ({
            let s = states[i];
            let w = s.world_id as int;
            let notes = goal_notes(blue, yellow, states);
            &&& tells_of_goal(notes.events, s.world_id, ReplayEventKind::GoalBlue) == (s.goal_blue
                && !blue[w])
            &&& tells_of_goal(notes.events, s.world_id, ReplayEventKind::GoalYellow) == (
            s.goal_yellow && !yellow[w])
            &&& notes.blue[w] == s.goal_blue
            &&& notes.yellow[w] == s.goal_yellow
        }),
{
    law_goal_events_are_rises(blue, yellow, states, i);
}

/// Whether one of the inputs is what robot `id` of `team` was told in world `world_id`.
pub open spec fn tells_input(
    inputs: Seq<RobotInputInfo>,
    world_id: usize,
    team: TeamColor,
    id: usize,
    input: String,
) -> bool {
    inputs.contains(RobotInputInfo { world_id, team, id, input })
}

proof fn lemma_in_either<A>(a: Seq<A>, b: Seq<A>, x: A)
    ensures
        a.contains(x) ==> (a + b).contains(x),
        b.contains(x) ==> (a + b).contains(x),
{
    if a.contains(x) {
        let i = choose|i: int| 0 <= i < a.len() && a[i] == x;
        assert((a + b)[i] == x);
    }
    if b.contains(x) {
        let i = choose|i: int| 0 <= i < b.len() && b[i] == x;
        assert((a + b)[a.len() + i] == x);
    }
}

/// Every command of a frame is told in its words, of the robot that it is for, in the world that has
/// its place and of the team that it was given.
pub proof fn law_every_command_is_told(
    commands: Seq<WorldCommand>,
    command_texts: Seq<CommandTexts>,
    w: int,
    i: int,
)
    requires
        texts_fit(commands, command_texts),
        0 <= w < commands.len() <= usize::MAX,
    ensures
        0 <= i < commands[w].blue@.len() ==> tells_input(
            inputs_of(commands, command_texts),
            w as usize,
            TeamColor::Blue,
            commands[w].blue@[i].id,
            command_texts[w].blue@[i],
        ),
        0 <= i < commands[w].yellow@.len() ==> tells_input(
            inputs_of(commands, command_texts),
            w as usize,
            TeamColor::Yellow,
            commands[w].yellow@[i].id,
            command_texts[w].yellow@[i],
        ),
{
    lemma_every_command_is_told(commands, command_texts, w, i);
}

proof fn lemma_every_command_is_told(
    commands: Seq<WorldCommand>,
    command_texts: Seq<CommandTexts>,
    w: int,
    i: int,
)
    requires
        0 <= w < commands.len() <= usize::MAX,
    ensures
        0 <= i < commands[w].blue@.len() ==> tells_input(
            inputs_of(commands, command_texts),
            w as usize,
            TeamColor::Blue,
            commands[w].blue@[i].id,
            command_texts[w].blue@[i],
        ),
        0 <= i < commands[w].yellow@.len() ==> tells_input(
            inputs_of(commands, command_texts),
            w as usize,
            TeamColor::Yellow,
            commands[w].yellow@[i].id,
            command_texts[w].yellow@[i],
        ),
    decreases commands.len(),
{
    let n = commands.len() - 1;
    let before = inputs_of(commands.drop_last(), command_texts);
    let blue = team_inputs(
        n as usize,
        TeamColor::Blue,
        commands[n].blue@,
        command_texts[n].blue@,
    );
    let yellow = team_inputs(
        n as usize,
        TeamColor::Yellow,
        commands[n].yellow@,
        command_texts[n].yellow@,
    );
    let b = RobotInputInfo {
        world_id: w as usize,
        team: TeamColor::Blue,
        id: commands[w].blue@[i].id,
        input: command_texts[w].blue@[i],
    };
    let y = RobotInputInfo {
        world_id: w as usize,
        team: TeamColor::Yellow,
        id: commands[w].yellow@[i].id,
        input: command_texts[w].yellow@[i],
    };
    if w < n {
        lemma_every_command_is_told(commands.drop_last(), command_texts, w, i);
    } else {
        if 0 <= i < commands[n].blue@.len() {
            assert(blue[i] == b);
        }
        if 0 <= i < commands[n].yellow@.len() {
            assert(yellow[i] == y);
        }
    }
    lemma_in_either(before, blue, b);
    lemma_in_either(before + blue, yellow, b);
    lemma_in_either(before, blue, y);
    lemma_in_either(before + blue, yellow, y);
}

/// Every robot that a frame's debug data tells of is told of by its message, or by its task where it
/// has no message or an empty one; the commands are told only where the debug data tells of none.
pub proof fn law_debug_data_is_told_before_commands(
    frame: ReplayFrame,
    command_texts: Seq<CommandTexts>,
    k: int,
    i: int,
)
    ensures
        0 <= k < frame.debug@.len() && 0 <= i < frame.debug@[k].robots@.len() ==> {
            let robot = frame.debug@[k].robots@[i];
            &&& robot.message is Some && robot.message->0@.len() > 0 ==> tells_input(
                shown_inputs(frame, command_texts),
                frame.debug@[k].world_id,
                robot.team,
                robot.id,
                robot.message->0,
            )
            &&& robot.message is None || robot.message->0@.len() == 0 ==> tells_input(
                shown_inputs(frame, command_texts),
                frame.debug@[k].world_id,
                robot.team,
                robot.id,
                robot.task,
            )
        },
        (forall|j: int|
            0 <= j < frame.debug@.len() ==> (#[trigger] frame.debug@[j]).robots@.len() == 0)
            ==> shown_inputs(frame, command_texts) == inputs_of(frame.commands@, command_texts),
{
    if 0 <= k < frame.debug@.len() && 0 <= i < frame.debug@[k].robots@.len() {
        lemma_every_robot_is_told_of(frame.debug@, k, i);
        let all = inputs_of_debug(frame.debug@);
        let x = input_of_debug(frame.debug@[k].world_id, frame.debug@[k].robots@[i]);
        let p = choose|p: int| 0 <= p < all.len() && all[p] == x;
        assert(all.len() > 0);
    }
    if forall|j: int|
        0 <= j < frame.debug@.len() ==> (#[trigger] frame.debug@[j]).robots@.len() == 0 {
        lemma_nothing_is_told(frame.debug@);
    }
}

proof fn lemma_every_robot_is_told_of(debug: Seq<ReplayDebugSnapshot>, k: int, i: int)
    requires
        0 <= k < debug.len(),
        0 <= i < debug[k].robots@.len(),
    ensures
        inputs_of_debug(debug).contains(input_of_debug(debug[k].world_id, debug[k].robots@[i])),
    decreases debug.len(),
{
    let before = inputs_of_debug(debug.drop_last());
    let more = inputs_of_robots(debug.last().world_id, debug.last().robots@);
    let x = input_of_debug(debug[k].world_id, debug[k].robots@[i]);
    if k < debug.len() - 1 {
        lemma_every_robot_is_told_of(debug.drop_last(), k, i);
    } else {
        assert(more[i] == x);
    }
    lemma_in_either(before, more, x);
}

proof fn lemma_nothing_is_told(debug: Seq<ReplayDebugSnapshot>)
    requires
        forall|j: int| 0 <= j < debug.len() ==> (#[trigger] debug[j]).robots@.len() == 0,
    ensures
        inputs_of_debug(debug).len() == 0,
    decreases debug.len(),
{
    if debug.len() > 0 {
        let short = debug.drop_last();
        assert forall|j: int| 0 <= j < short.len() implies (#[trigger] short[j]).robots@.len() == 0 by {
            assert(short[j] == debug[j]);
        }
        lemma_nothing_is_told(short);
        assert(debug[debug.len() - 1].robots@.len() == 0);
    }
}

/// What is said of an event is said of its own parts.
pub proof fn law_events_are_seen_as_they_are(e: ReplayEvent)
    ensures
        e@.frame == e.frame,
        e@.sim_time == e.sim_time,
        e@.world_id == e.world_id,
        e@.kind == e.kind,
        e@.label == e.label@,
        e@.details is Some == e.details is Some,
        e.details is Some ==> e@.details->0 == e.details->0@,
{
}

} // verus!
