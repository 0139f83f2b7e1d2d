//! What the viewer publishes: the frame for the browser and the snapshot for the interface.

use vstd::prelude::*;
use serde_json::Value;
use crate::control::WebControlState;
use crate::debug;
use crate::debug::{replay_frame_debug_snapshot, DebugBoard, DebugModel, ViewerDebugSnapshot};
use crate::developer::DeveloperSnapshot;
use crate::layers;
use crate::number;
use crate::number::Double;
use crate::replay;
use crate::replay::{
    copy_events, replay_robot_inputs, CommandTexts, ReplayEvent, ReplayFrame, RobotInputInfo,
};
use crate::snapshot;
use crate::snapshot::{
    canonical_referee, canonical_simhark_snapshot, RefereeModel, Score, SystemSnapshot,
};
use crate::state::{FieldConfig, WorldState};
use crate::text;
use crate::trackers;
use crate::trackers::PublishedGameState;
use crate::viewer::{ViewerModel, ViewerServer};
use crate::worlds;
use crate::worlds::{selected_state, state_by_world_id};

verus! {

/// `core::slice::from_ref` makes a slice of the one value that it is handed.
pub assume_specification<T>[ core::slice::from_ref::<T> ](s: &T) -> (r: &[T])
    ensures
        r@ == seq![*s],
;

#[derive(Debug, Clone, Copy, PartialEq, Eq, Structural)]
pub struct GoalSummary {
    pub blue: u32,
    pub yellow: u32,
    pub blue_active: bool,
    pub yellow_active: bool,
}

#[derive(Debug, Clone, Copy, PartialEq, Eq, Structural)]
pub struct ControlSnapshot {
    pub web_enabled: bool,
    pub running: bool,
    /// In percent of the plain speed.
    pub speed_percent: usize,
}

#[derive(Debug, Clone, Copy, PartialEq, Eq, Structural)]
pub struct ReplayStatus {
    pub enabled: bool,
    pub frame_index: usize,
    pub frame_count: usize,
    pub base_speed: Double,
}

/// The status of a frame that is no replay's.
pub open spec fn no_replay() -> ReplayStatus {
    ReplayStatus {
        enabled: false,
        frame_index: 0,
        frame_count: 0,
        base_speed: Double { bits: number::ONE_BITS },
    }
}

/// The frame for the browser. States are told by their places in the list that is published.
pub struct ViewerFrame<'a> {
    pub world_count: usize,
    pub selected_world: usize,
    pub selected_worlds: Vec<usize>,
    pub field: FieldConfig,
    pub robot_radius: Double,
    pub ball_radius: Double,
    /// The state whose ball's path is predicted, and that is shown where only one is.
    pub state: usize,
    pub states: Vec<usize>,
    pub game_state: Option<PublishedGameState<'a>>,
    pub test_suite: Option<&'a Value>,
    pub developer: Option<&'a DeveloperSnapshot>,
    pub goals: GoalSummary,
    pub control: ControlSnapshot,
    pub replay: ReplayStatus,
    pub events: Vec<ReplayEvent>,
    pub robot_inputs: Vec<RobotInputInfo>,
    pub debug: Option<ViewerDebugSnapshot>,
}

/// A part of a frame that the snapshot carries too, as a property.
#[derive(Debug, Clone, Copy, PartialEq, Eq, Structural)]
pub enum FramePart {
    SelectedWorld,
    SelectedWorlds,
    Running,
    Speed,
    TestSuite,
    Developer,
    Debug,
    ReplayEnabled,
    FrameIndex,
    FrameCount,
    BaseSpeed,
    Events,
    RobotInputs,
}

pub struct Property {
    pub name: &'static str,
    pub part: FramePart,
}

pub open spec fn property_views(list: Seq<Property>) -> Seq<(Seq<char>, FramePart)> {
    Seq::new(list.len(), |i: int| (list[i].name@, list[i].part))
}

/// The properties of a live publish.
pub open spec fn live_property_list() -> Seq<(Seq<char>, FramePart)> {
    seq![
        ("selected_world"@, FramePart::SelectedWorld),
        ("selected_worlds"@, FramePart::SelectedWorlds),
        ("control.running"@, FramePart::Running),
        ("control.speed"@, FramePart::Speed),
        ("test_suite"@, FramePart::TestSuite),
        ("developer"@, FramePart::Developer),
        ("debug"@, FramePart::Debug),
    ]
}

/// The properties of a replayed frame.
pub open spec fn replay_property_list() -> Seq<(Seq<char>, FramePart)> {
    seq![
        ("replay.enabled"@, FramePart::ReplayEnabled),
        ("replay.frame_index"@, FramePart::FrameIndex),
        ("replay.frame_count"@, FramePart::FrameCount),
        ("replay.base_speed"@, FramePart::BaseSpeed),
        ("replay.events"@, FramePart::Events),
        ("replay.robot_inputs"@, FramePart::RobotInputs),
        ("debug"@, FramePart::Debug),
    ]
}

fn live_properties() -> (r: Vec<Property>)
    ensures
        property_views(r@) == live_property_list(),
{
    let mut list: Vec<Property> = Vec::new();
    list.push(Property { name: "selected_world", part: FramePart::SelectedWorld });
    list.push(Property { name: "selected_worlds", part: FramePart::SelectedWorlds });
    list.push(Property { name: "control.running", part: FramePart::Running });
    list.push(Property { name: "control.speed", part: FramePart::Speed });
    list.push(Property { name: "test_suite", part: FramePart::TestSuite });
    list.push(Property { name: "developer", part: FramePart::Developer });
    list.push(Property { name: "debug", part: FramePart::Debug });
    assert(property_views(list@) =~= live_property_list());
    list
}

fn replay_properties() -> (r: Vec<Property>)
    ensures
        property_views(r@) == replay_property_list(),
{
    let mut list: Vec<Property> = Vec::new();
    list.push(Property { name: "replay.enabled", part: FramePart::ReplayEnabled });
    list.push(Property { name: "replay.frame_index", part: FramePart::FrameIndex });
    list.push(Property { name: "replay.frame_count", part: FramePart::FrameCount });
    list.push(Property { name: "replay.base_speed", part: FramePart::BaseSpeed });
    list.push(Property { name: "replay.events", part: FramePart::Events });
    list.push(Property { name: "replay.robot_inputs", part: FramePart::RobotInputs });
    list.push(Property { name: "debug", part: FramePart::Debug });
    assert(property_views(list@) =~= replay_property_list());
    list
}

/// All that one publish gives out.
pub struct Publication<'a> {
    pub frame: ViewerFrame<'a>,
    pub snapshot: SystemSnapshot,
    pub properties: Vec<Property>,
}

// ---------------------------------------------------------------------------
// What is shown

/// The places in `states` of the worlds `shown` that have a state there, in the order of `shown`.
pub open spec fn places_of(states: Seq<WorldState>, shown: Seq<usize>) -> Seq<usize>
    decreases shown.len(),
{
    if shown.len() == 0 {
        Seq::empty()
    } else {
        let before = places_of(states, shown.drop_last());
        let i = worlds::state_index(states, shown.last());
        if i < states.len() {
            before.push(i as usize)
        } else {
            before
        }
    }
}

/// The states to show: those of the shown worlds, or `chosen` alone where they have none.
pub open spec fn shown_states(states: Seq<WorldState>, shown: Seq<usize>, chosen: usize) -> Seq<
    usize,
> {
    let places = places_of(states, shown);
    if places.len() == 0 {
        seq![chosen]
    } else {
        places
    }
}

fn states_to_show(states: &[WorldState], shown: &Vec<usize>, chosen: usize) -> (r: Vec<usize>)
    ensures
        r@ == shown_states(states@, shown@, chosen),
{
    let mut places: Vec<usize> = Vec::new();
    let mut i: usize = 0;
    while i < shown.len()
        invariant
            i <= shown@.len(),
            places@ == places_of(states@, shown@.take(i as int)),
        decreases shown@.len() - i,
    {
        proof {
            assert(shown@.take(i + 1).drop_last() == shown@.take(i as int));
            assert(shown@.take(i + 1).last() == shown@[i as int]);
        }
        match state_by_world_id(states, shown[i]) {
            Some(place) => places.push(place),
            None => {},
        }
        i += 1;
    }
    assert(shown@.take(i as int) == shown@);
    if places.len() == 0 {
        places.push(chosen);
        assert(places@ =~= seq![chosen]);
    }
    places
}

pub open spec fn debug_view(d: Option<ViewerDebugSnapshot>) -> Option<DebugModel> {
    match d {
        Some(d) => Some(d@),
        None => None,
    }
}

/// The frame's part of what the viewer keeps.
pub open spec fn shows_viewer(f: ViewerFrame<'_>, m: ViewerModel) -> bool {
    &&& f.world_count == m.setup.world_count
    &&& f.selected_world == m.shown_world()
    &&& f.selected_worlds@ == worlds::shown_worlds(m.client.selected_worlds, m.setup.world_count)
    &&& f.field == m.setup.field
    &&& f.robot_radius == m.setup.robot_radius
    &&& f.ball_radius == m.setup.ball_radius
    &&& trackers::is_published(m.game_state, f.game_state)
    &&& match (f.test_suite, m.test_suite) {
        (Some(shown), Some(kept)) => *shown == kept,
        (None, None) => true,
        _ => false,
    }
    &&& match (f.developer, m.developer) {
        (Some(shown), Some(kept)) => shown@ == kept,
        (None, None) => true,
        _ => false,
    }
    &&& f.control == control_shown(m.client.control)
}

pub open spec fn control_shown(c: WebControlState) -> ControlSnapshot {
    ControlSnapshot {
        web_enabled: c.enabled,
        running: c.keeps_stepping(),
        speed_percent: c.speed_percent,
    }
}

/// The frame's part of the states that are published, of which `chosen` is the selected one.
pub open spec fn shows_states(
    f: ViewerFrame<'_>,
    m: ViewerModel,
    states: Seq<WorldState>,
    chosen: int,
    debug: Map<usize, DebugModel>,
) -> bool {
    &&& f.state as int == chosen
    &&& f.states@ == shown_states(
        states,
        worlds::shown_worlds(m.client.selected_worlds, m.setup.world_count),
        chosen as usize,
    )
    &&& f.goals == (GoalSummary {
        blue: m.goals.blue,
        yellow: m.goals.yellow,
        blue_active: states[chosen].goal_blue,
        yellow_active: states[chosen].goal_yellow,
    })
    &&& debug_view(f.debug) == snapshot::debug_of(debug, states[chosen].world_id)
}

/// The referee's state that goes with what the viewer keeps.
pub open spec fn referee_shown(m: ViewerModel) -> Option<RefereeModel> {
    match m.game_state.info {
        Some(info) => Some(
            snapshot::referee_of(
                text::text_view(info.stage),
                info.command@,
                info.command_counter,
                m.score(),
            ),
        ),
        None => None,
    }
}

pub open spec fn is_snapshot(
    s: SystemSnapshot,
    m: ViewerModel,
    states: Seq<WorldState>,
    debug: Map<usize, DebugModel>,
) -> bool {
    &&& snapshot::world_views(s.worlds@) == snapshot::published_worlds(
        states,
        m.setup.field,
        m.score(),
        referee_shown(m),
        debug,
    )
    &&& layers::layer_views(s.debug_layers@) == layers::layer_tree()
    &&& layers::item_views(s.debug_items@) == layers::debug_items(debug, states)
}

/// What a live publish of `states` gives out, once the viewer has become `m`.
pub open spec fn is_live_publication(
    p: Publication<'_>,
    m: ViewerModel,
    states: Seq<WorldState>,
    chosen: int,
) -> bool {
    &&& shows_viewer(p.frame, m)
    &&& shows_states(p.frame, m, states, chosen, m.debug)
    &&& p.frame.replay == no_replay()
    &&& p.frame.events@.len() == 0
    &&& p.frame.robot_inputs@.len() == 0
    &&& is_snapshot(p.snapshot, m, states, m.debug)
    &&& property_views(p.properties@) == live_property_list()
}

/// The debug data that goes with a replayed frame. A live snapshot wins over a recorded one, so a
/// controller that is stepped beside the replay is not overwritten by history.
pub open spec fn replayed_debug(
    live: Map<usize, DebugModel>,
    recorded: Seq<replay::ReplayDebugSnapshot>,
    states: Seq<WorldState>,
) -> Map<usize, DebugModel>
    decreases states.len(),
{
    if states.len() == 0 {
        Map::empty()
    } else {
        let before = replayed_debug(live, recorded, states.drop_last());
        let world_id = states.last().world_id;
        if live.contains_key(world_id) {
            before.insert(world_id, live[world_id])
        } else {
            match debug::recorded_at(recorded, world_id) {
                Some(m) => before.insert(world_id, m),
                None => before,
            }
        }
    }
}

/// What publishing a replayed frame gives out, once the viewer has become `m`.
pub open spec fn is_replay_publication(
    p: Publication<'_>,
    m: ViewerModel,
    frame: ReplayFrame,
    chosen: int,
    status: ReplayStatus,
    timeline: Seq<ReplayEvent>,
    command_texts: Seq<CommandTexts>,
) -> bool {
    let debug = replayed_debug(m.debug, frame.debug@, frame.states@);
    &&& shows_viewer(p.frame, m)
    &&& shows_states(p.frame, m, frame.states@, chosen, debug)
    &&& p.frame.replay == status
    &&& p.frame.events@ == timeline
    &&& p.frame.robot_inputs@ == replay::shown_inputs(frame, command_texts)
    &&& is_snapshot(p.snapshot, m, frame.states@, debug)
    &&& property_views(p.properties@) == replay_property_list()
}

/// The viewer once it has seen the goal flags of the state that it shows.
pub open spec fn after_publish(m: ViewerModel, states: Seq<WorldState>) -> ViewerModel {
    match worlds::chosen_state(states, m.shown_world()) {
        Some(i) => ViewerModel {
            goals: m.goals.observed(states[i].goal_blue, states[i].goal_yellow),
            ..m
        },
        None => m,
    }
}

/// Whether the goal counters have room for what the shown state says.
pub open spec fn can_publish(m: ViewerModel, states: Seq<WorldState>) -> bool {
    worlds::chosen_state(states, m.shown_world()) matches Some(i) ==> m.goals.has_room(
        states[i].goal_blue,
        states[i].goal_yellow,
    )
}

/// The debug data to publish with a replayed frame.
fn debug_for_replay(live: &DebugBoard, frame: &ReplayFrame) -> (r: DebugBoard)
    ensures
        r@ == replayed_debug(live@, frame.debug@, frame.states@),
{
    let mut board = DebugBoard::new();
    let mut i: usize = 0;
    while i < frame.states.len()
        invariant
            i <= frame.states@.len(),
            board@ == replayed_debug(live@, frame.debug@, frame.states@.take(i as int)),
        decreases frame.states@.len() - i,
    {
        let world_id: usize = frame.states[i].world_id;
        proof {
            assert(frame.states@.take(i + 1).drop_last() == frame.states@.take(i as int));
            assert(frame.states@.take(i + 1).last() == frame.states@[i as int]);
        }
        match live.get(world_id) {
            Some(snapshot) => board.set(world_id, snapshot.copy()),
            None => match replay_frame_debug_snapshot(world_id, frame) {
                Some(snapshot) => board.set(world_id, snapshot),
                None => {},
            },
        }
        i += 1;
    }
    assert(frame.states@.take(i as int) == frame.states@);
    board
}

impl ViewerServer {
    fn frame<'a>(
        &'a self,
        states: &[WorldState],
        chosen: usize,
        debug: &DebugBoard,
        status: ReplayStatus,
        events: Vec<ReplayEvent>,
        robot_inputs: Vec<RobotInputInfo>,
    ) -> (f: ViewerFrame<'a>)
        requires
            chosen < states@.len(),
        ensures
            shows_viewer(f, self@),
            shows_states(f, self@, states@, chosen as int, debug@),
            f.replay == status,
            f.events == events,
            f.robot_inputs == robot_inputs,
    {
        let selected_worlds = self.selected_worlds();
        let shown = states_to_show(states, &selected_worlds, chosen);
        ViewerFrame {
            world_count: self.setup.world_count,
            selected_world: self.selected_world(),
            selected_worlds,
            field: self.setup.field,
            robot_radius: self.setup.robot_radius,
            ball_radius: self.setup.ball_radius,
            state: chosen,
            states: shown,
            game_state: self.game_state.snapshot(),
            test_suite: match &self.test_suite {
                Some(suite) => Some(suite),
                None => None,
            },
            developer: match &self.developer {
                Some(d) => Some(d),
                None => None,
            },
            goals: GoalSummary {
                blue: self.goals.blue,
                yellow: self.goals.yellow,
                blue_active: states[chosen].goal_blue,
                yellow_active: states[chosen].goal_yellow,
            },
            control: ControlSnapshot {
                web_enabled: self.client.control.enabled,
                running: self.is_running(),
                speed_percent: self.client.control.speed_percent,
            },
            replay: status,
            events,
            robot_inputs,
            debug: match debug.get(states[chosen].world_id) {
                Some(snapshot) => Some(snapshot.copy()),
                None => None,
            },
        }
    }

    fn snapshot(&self, states: &[WorldState], debug: &DebugBoard) -> (s: SystemSnapshot)
        ensures
            is_snapshot(s, self@, states@, debug@),
    {
        let score = Score { blue: self.goals.blue, yellow: self.goals.yellow };
        let referee = canonical_referee(&self.game_state.snapshot(), score);
        canonical_simhark_snapshot(states, &self.setup.field, score, &referee, debug)
    }

    /// Publishes one state.
    pub fn publish<'a>(&'a mut self, state: &WorldState) -> (r: Option<Publication<'a>>)
        requires
            can_publish(old(self)@, seq![*state]),
        ensures
            final(self)@ == after_publish(old(self)@, seq![*state]),
            r matches Some(p) && is_live_publication(p, final(self)@, seq![*state], 0),
    {
        self.publish_states(core::slice::from_ref(state))
    }

    /// Publishes the states of the worlds; nothing where there are none.
    pub fn publish_states<'a>(&'a mut self, states: &[WorldState]) -> (r: Option<Publication<'a>>)
        requires
            can_publish(old(self)@, states@),
        ensures
            final(self)@ == after_publish(old(self)@, states@),
            match r {
                Some(p) => worlds::chosen_state(states@, old(self)@.shown_world()) matches Some(
                    chosen,
                ) && is_live_publication(p, final(self)@, states@, chosen),
                None => states@.len() == 0,
            },
    {
        let chosen: usize = match selected_state(states, self.selected_world()) {
            Some(i) => i,
            None => {
                return None;
            },
        };
        self.goals.observe(states[chosen].goal_blue, states[chosen].goal_yellow);
        let this: &'a ViewerServer = &*self;
        let status = ReplayStatus {
            enabled: false,
            frame_index: 0,
            frame_count: 0,
            base_speed: Double { bits: number::ONE_BITS },
        };
        let frame = this.frame(states, chosen, &this.debug, status, Vec::new(), Vec::new());
        let snapshot = this.snapshot(states, &this.debug);
        Some(Publication { frame, snapshot, properties: live_properties() })
    }

    /// Publishes a frame of a replay; nothing where it has no states. `command_texts` are the
    /// frame's commands in words.
    pub fn publish_replay_frame<'a>(
        &'a mut self,
        replay_frame: &ReplayFrame,
        frame_index: usize,
        frame_count: usize,
        timeline: &[ReplayEvent],
        base_speed: Double,
        command_texts: &Vec<CommandTexts>,
    ) -> (r: Option<Publication<'a>>)
        requires
            can_publish(old(self)@, replay_frame.states@),
            replay::texts_fit(replay_frame.commands@, command_texts@),
        ensures
            final(self)@ == after_publish(old(self)@, replay_frame.states@),
            match r {
                Some(p) => worlds::chosen_state(
                    replay_frame.states@,
                    old(self)@.shown_world(),
                ) matches Some(chosen) && is_replay_publication(
                    p,
                    final(self)@,
                    *replay_frame,
                    chosen,
                    ReplayStatus { enabled: true, frame_index, frame_count, base_speed },
                    timeline@,
                    command_texts@,
                ),
                None => replay_frame.states@.len() == 0,
            },
    {
        let states = replay_frame.states.as_slice();
        let chosen: usize = match selected_state(states, self.selected_world()) {
            Some(i) => i,
            None => {
                return None;
            },
        };
        self.goals.observe(states[chosen].goal_blue, states[chosen].goal_yellow);
        let this: &'a ViewerServer = &*self;
        let debug = debug_for_replay(&this.debug, replay_frame);
        let robot_inputs = replay_robot_inputs(replay_frame, command_texts);
        let status = ReplayStatus { enabled: true, frame_index, frame_count, base_speed };
        let frame = this.frame(
            states,
            chosen,
            &debug,
            status,
            copy_events(timeline),
            robot_inputs,
        );
        let snapshot = this.snapshot(states, &debug);
        Some(Publication { frame, snapshot, properties: replay_properties() })
    }
}

/// A replayed frame's debug data is told of the worlds in the frame alone: what is live where
/// there is something live, else what was recorded.
pub proof fn law_live_debug_data_wins(
    live: Map<usize, DebugModel>,
    recorded: Seq<replay::ReplayDebugSnapshot>,
    states: Seq<WorldState>,
    world_id: usize,
)
    ensures
        snapshot::debug_of(replayed_debug(live, recorded, states), world_id) == (
        if !worlds::has_state(states, world_id) {
            None
        } else if live.contains_key(world_id) {
            Some(live[world_id])
        } else {
            debug::recorded_at(recorded, world_id)
        }),
    decreases states.len(),
{
    if states.len() > 0 {
        let short = states.drop_last();
        law_live_debug_data_wins(live, recorded, short, world_id);
        if worlds::has_state(short, world_id) {
            let i = choose|i: int| 0 <= i < short.len() && (#[trigger] short[i]).world_id == world_id;
            assert(states[i].world_id == world_id);
        }
        if worlds::has_state(states, world_id) && states.last().world_id != world_id {
            let i = choose|i: int|
                0 <= i < states.len() && (#[trigger] states[i]).world_id == world_id;
            assert(short[i].world_id == world_id);
        }
        if states.last().world_id == world_id {
            assert(states[states.len() - 1].world_id == world_id);
        }
    }
}

// ---------------------------------------------------------------------------
// Laws

/// Whether the browser's frame has a state for world `id`.
pub open spec fn has_place_of(f: ViewerFrame<'_>, states: Seq<WorldState>, id: usize) -> bool {
    exists|j: int|
        0 <= j < f.states@.len() && (#[trigger] f.states@[j]) < states.len() && states[f.states@[j] as int].world_id
            == id
}

proof fn lemma_places_of(states: Seq<WorldState>, shown: Seq<usize>)
    requires
        states.len() <= usize::MAX,
    ensures
        forall|j: int|
            0 <= j < places_of(states, shown).len() ==> (#[trigger] places_of(states, shown)[j])
                < states.len() && shown.contains(
                states[places_of(states, shown)[j] as int].world_id,
            ),
    decreases shown.len(),
{
    if shown.len() > 0 {
        let short = shown.drop_last();
        lemma_places_of(states, short);
        let all = places_of(states, shown);
        let before = places_of(states, short);
        worlds::law_the_first_state_of_a_world(states, shown.last());
        let i = worlds::state_index(states, shown.last());
        assert forall|j: int| 0 <= j < all.len() implies (#[trigger] all[j]) < states.len()
            && shown.contains(states[all[j] as int].world_id) by {
            if j < before.len() {
                assert(all[j] == before[j]);
                let id = states[before[j] as int].world_id;
                let k = choose|k: int| 0 <= k < short.len() && short[k] == id;
                assert(shown[k] == id);
            } else {
                assert(all[j] == i as usize);
                assert(shown[shown.len() - 1] == states[i].world_id);
            }
        }
    }
}

proof fn lemma_place_is_there(states: Seq<WorldState>, shown: Seq<usize>, i: int) -> (j: int)
    requires
        states.len() <= usize::MAX,
        0 <= i < shown.len(),
        worlds::has_state(states, shown[i]),
    ensures
        0 <= j < places_of(states, shown).len(),
        places_of(states, shown)[j] < states.len(),
        states[places_of(states, shown)[j] as int].world_id == shown[i],
    decreases shown.len(),
{
    let short = shown.drop_last();
    worlds::law_the_first_state_of_a_world(states, shown.last());
    if i < shown.len() - 1 {
        let j = lemma_place_is_there(states, short, i);
        assert(places_of(states, shown)[j] == places_of(states, short)[j]);
        j
    } else {
        let p = choose|p: int| 0 <= p < states.len() && (#[trigger] states[p]).world_id == shown[i];
        assert(worlds::state_index(states, shown.last()) < states.len());
        places_of(states, short).len() as int
    }
}

/// The browser is shown every world that is to be shown and has a state, and no other, unless none of
/// them has one: then it is shown the selected state alone.
pub proof fn law_the_worlds_to_show_are_shown(
    f: ViewerFrame<'_>,
    m: ViewerModel,
    states: Seq<WorldState>,
    chosen: int,
    debug: Map<usize, DebugModel>,
    i: int,
)
    requires
        shows_viewer(f, m),
        shows_states(f, m, states, chosen, debug),
        0 <= chosen < states.len() <= usize::MAX,
    ensures
        0 <= i < f.selected_worlds@.len() && worlds::has_state(states, f.selected_worlds@[i])
            ==> has_place_of(f, states, f.selected_worlds@[i]),
        0 <= i < f.states@.len() ==> f.states@[i] < states.len(),
        0 <= i < f.states@.len() ==> f.selected_worlds@.contains(
            states[f.states@[i] as int].world_id,
        ) || (f.states@.len() == 1 && f.states@[0] == f.state),
        f.states@.len() > 0,
{
    let shown = f.selected_worlds@;
    lemma_places_of(states, shown);
    if 0 <= i < shown.len() && worlds::has_state(states, shown[i]) {
        let j = lemma_place_is_there(states, shown, i);
        assert(f.states@[j] < states.len() && states[f.states@[j] as int].world_id == shown[i]);
    }
}

/// The browser's frame tells the score that the viewer has counted, whose goal the selected state
/// shows, whether the run goes on and how fast, and the sizes that the viewer was made with.
pub proof fn law_the_frame_tells_how_things_stand(
    f: ViewerFrame<'_>,
    m: ViewerModel,
    states: Seq<WorldState>,
    chosen: int,
    debug: Map<usize, DebugModel>,
)
    requires
        shows_viewer(f, m),
        shows_states(f, m, states, chosen, debug),
    ensures
        f.state as int == chosen,
        f.goals.blue == m.goals.blue,
        f.goals.yellow == m.goals.yellow,
        f.goals.blue_active == states[chosen].goal_blue,
        f.goals.yellow_active == states[chosen].goal_yellow,
        f.control.web_enabled == m.client.control.enabled,
        f.control.running == (!m.client.control.enabled || m.client.control.running),
        f.control.speed_percent == m.client.control.speed_percent,
        f.world_count == m.setup.world_count,
        f.field == m.setup.field,
        f.robot_radius == m.setup.robot_radius,
        f.ball_radius == m.setup.ball_radius,
        m.client.selected_world < m.setup.world_count ==> f.selected_world
            == m.client.selected_world,
        f.test_suite is Some == m.test_suite is Some,
        f.developer is Some == m.developer is Some,
        f.game_state is Some == m.game_state.info is Some,
        f.debug is Some == debug.contains_key(states[chosen].world_id),
        f.debug is Some ==> f.debug->0@ == debug[states[chosen].world_id],
{
}

/// A live frame is no replay: it has no events, no inputs and no place in a recording. A replayed one
/// has the place, the speed and the events that it is published with.
pub proof fn law_live_frames_and_replayed_ones(
    live: Publication<'_>,
    replayed: Publication<'_>,
    m: ViewerModel,
    frame: ReplayFrame,
    chosen: int,
    status: ReplayStatus,
    timeline: Seq<ReplayEvent>,
    command_texts: Seq<CommandTexts>,
)
    requires
        is_live_publication(live, m, frame.states@, chosen),
        is_replay_publication(replayed, m, frame, chosen, status, timeline, command_texts),
    ensures
        !live.frame.replay.enabled,
        live.frame.replay.frame_count == 0 && live.frame.replay.frame_index == 0,
        live.frame.replay.base_speed.bits == 0x3ff0_0000_0000_0000,
        live.frame.events@.len() == 0 && live.frame.robot_inputs@.len() == 0,
        live.properties@.len() == 7,
        replayed.frame.replay == status,
        replayed.frame.events@ == timeline,
        replayed.properties@.len() == 7,
        live.frame.states@ == replayed.frame.states@,
        live.frame.goals == replayed.frame.goals,
        live.frame.control == replayed.frame.control,
{
    assert(property_views(live.properties@).len() == live.properties@.len());
    assert(property_views(replayed.properties@).len() == replayed.properties@.len());
}

/// Publishing counts a goal that the shown state shows and that was not shown before, for the team
/// that scored it, and changes nothing else of the viewer.
pub proof fn law_publishing_counts_goals(m: ViewerModel, states: Seq<WorldState>, i: int)
    requires
        worlds::chosen_state(states, m.shown_world()) == Some(i),
        can_publish(m, states),
    ensures
        ({
            let after = after_publish(m, states);
            let state = states[i];
            &&& after.goals.blue == m.goals.blue + (if state.goal_blue && !m.goals.last_blue {
                1int
            } else {
                0
            })
            &&& after.goals.yellow == m.goals.yellow + (if state.goal_yellow
                && !m.goals.last_yellow {
                1int
            } else {
                0
            })
            &&& after.goals.last_blue == state.goal_blue
            &&& after.goals.last_yellow == state.goal_yellow
            &&& after.client == m.client
            &&& after.setup == m.setup
            &&& after.game_state == m.game_state
            &&& after.debug == m.debug
            &&& after.developer == m.developer
            &&& after.session_terminal == m.session_terminal
        }),
{
}

/// The referee's state is published only where one is known, with the score that the viewer counted.
pub proof fn law_the_referee_is_shown_with_the_score(m: ViewerModel)
    ensures
        referee_shown(m) is Some == m.game_state.info is Some,
        referee_shown(m) is Some ==> referee_shown(m)->0.score.blue == m.goals.blue && referee_shown(
            m,
        )->0.score.yellow == m.goals.yellow,
{
}

/// Each state that is published has its world in the snapshot, with the score that the viewer has
/// counted and the referee's state that it knows; every robot of the state is there as it is.
pub proof fn law_the_publication_shows_the_worlds(
    s: SystemSnapshot,
    m: ViewerModel,
    states: Seq<WorldState>,
    debug: Map<usize, DebugModel>,
    i: int,
    k: int,
)
    requires
        is_snapshot(s, m, states, debug),
        0 <= i < states.len(),
    ensures
        s.worlds@.len() == states.len(),
        s.worlds@[i].score.blue == m.goals.blue,
        s.worlds@[i].score.yellow == m.goals.yellow,
        s.worlds@[i].referee is Some == m.game_state.info is Some,
        s.worlds@[i].frame == states[i].frame,
        s.worlds@[i].ball.state == states[i].ball,
        s.worlds@[i].field.field_length == m.setup.field.field_length,
        s.worlds@[i].field.field_width == m.setup.field.field_width,
        0 <= k < states[i].blue_robots@.len() ==> snapshot::is_shown_among(
            s.worlds@[i].robots@,
            states[i].blue_robots@[k],
        ),
        0 <= k < states[i].yellow_robots@.len() ==> snapshot::is_shown_among(
            s.worlds@[i].robots@,
            states[i].yellow_robots@[k],
        ),
        s.debug_layers@.len() == 11,
{
    snapshot::law_the_snapshot_shows_every_world(
        s.worlds@,
        states,
        m.setup.field,
        m.score(),
        referee_shown(m),
        debug,
        i,
    );
    snapshot::law_the_snapshot_shows_every_robot(
        s.worlds@,
        states,
        m.setup.field,
        m.score(),
        referee_shown(m),
        debug,
        i,
    );
    assert(layers::layer_views(s.debug_layers@).len() == s.debug_layers@.len());
}

/// A snapshot carries parts of its frame as properties, each under its own name: a live one the
/// selection, the run and what the application shows, a replayed one where it is in the recording.
pub proof fn law_properties_are_named_for_their_parts()
    ensures
        live_property_list().len() == 7,
        live_property_list()[0] == ("selected_world"@, FramePart::SelectedWorld),
        live_property_list()[1] == ("selected_worlds"@, FramePart::SelectedWorlds),
        live_property_list()[2] == ("control.running"@, FramePart::Running),
        live_property_list()[3] == ("control.speed"@, FramePart::Speed),
        live_property_list()[4] == ("test_suite"@, FramePart::TestSuite),
        live_property_list()[5] == ("developer"@, FramePart::Developer),
        live_property_list()[6] == ("debug"@, FramePart::Debug),
        replay_property_list().len() == 7,
        replay_property_list()[0] == ("replay.enabled"@, FramePart::ReplayEnabled),
        replay_property_list()[1] == ("replay.frame_index"@, FramePart::FrameIndex),
        replay_property_list()[2] == ("replay.frame_count"@, FramePart::FrameCount),
        replay_property_list()[3] == ("replay.base_speed"@, FramePart::BaseSpeed),
        replay_property_list()[4] == ("replay.events"@, FramePart::Events),
        replay_property_list()[5] == ("replay.robot_inputs"@, FramePart::RobotInputs),
        replay_property_list()[6] == ("debug"@, FramePart::Debug),
{
}

} // verus!
