//! What a viewer counts while a match goes on: goals, and how often each game state was entered.

use vstd::prelude::*;
use crate::table::Table;
use crate::text;

verus! {

/// Counts goals: a goal flag that goes up counts once, however long it stays up.
#[derive(Debug, Clone, Copy, PartialEq, Eq, Structural)]
pub struct GoalTracker {
    pub blue: u32,
    pub yellow: u32,
    pub last_blue: bool,
    pub last_yellow: bool,
}

impl GoalTracker {
    pub open spec fn initial() -> GoalTracker {
        GoalTracker { blue: 0, yellow: 0, last_blue: false, last_yellow: false }
    }

    pub fn new() -> (t: GoalTracker)
        ensures
            t == GoalTracker::initial(),
    {
        GoalTracker { blue: 0, yellow: 0, last_blue: false, last_yellow: false }
    }

    /// Whether the counters have room for what comes next.
    pub open spec fn has_room(self, goal_blue: bool, goal_yellow: bool) -> bool {
        &&& goal_blue && !self.last_blue ==> self.blue < u32::MAX
        &&& goal_yellow && !self.last_yellow ==> self.yellow < u32::MAX
    }

    pub open spec fn observed(self, goal_blue: bool, goal_yellow: bool) -> GoalTracker {
        GoalTracker {
            blue: if goal_blue && !self.last_blue {
                (self.blue + 1) as u32
            } else {
                self.blue
            },
            yellow: if goal_yellow && !self.last_yellow {
                (self.yellow + 1) as u32
            } else {
                self.yellow
            },
            last_blue: goal_blue,
            last_yellow: goal_yellow,
        }
    }

    /// Takes note of the goal flags of one frame.
    pub fn observe(&mut self, goal_blue: bool, goal_yellow: bool)
        requires
            old(self).has_room(goal_blue, goal_yellow),
        ensures
            *final(self) == old(self).observed(goal_blue, goal_yellow),
    {
        if goal_blue && !self.last_blue {
            self.blue += 1;
        }
        if goal_yellow && !self.last_yellow {
            self.yellow += 1;
        }
        self.last_blue = goal_blue;
        self.last_yellow = goal_yellow;
    }
}

/// How often a flag goes up in the course of `flags`, given what it was before.
pub open spec fn rises(before: bool, flags: Seq<bool>) -> nat
    decreases flags.len(),
{
    if flags.len() == 0 {
        0
    } else {
        let last = flags.last();
        let previous = if flags.len() == 1 {
            before
        } else {
            flags[flags.len() - 2]
        };
        rises(before, flags.drop_last()) + if last && !previous {
            1nat
        } else {
            0nat
        }
    }
}

/// The tracker after a whole run of frames.
pub open spec fn observed_all(t: GoalTracker, blue: Seq<bool>, yellow: Seq<bool>) -> GoalTracker
    decreases blue.len(),
{
    if blue.len() == 0 {
        t
    } else {
        observed_all(t, blue.drop_last(), yellow.drop_last()).observed(blue.last(), yellow.last())
    }
}

/// A goal that is shown for many frames counts once: the score is the number of times that the
/// goal flag went up.
pub proof fn law_goals_are_rises(t: GoalTracker, blue: Seq<bool>, yellow: Seq<bool>)
    requires
        blue.len() == yellow.len(),
        t.blue + blue.len() <= u32::MAX,
        t.yellow + yellow.len() <= u32::MAX,
    ensures
        observed_all(t, blue, yellow).blue == t.blue + rises(t.last_blue, blue),
        observed_all(t, blue, yellow).yellow == t.yellow + rises(t.last_yellow, yellow),
        observed_all(t, blue, yellow).last_blue == (if blue.len() == 0 {
            t.last_blue
        } else {
            blue.last()
        }),
        observed_all(t, blue, yellow).last_yellow == (if yellow.len() == 0 {
            t.last_yellow
        } else {
            yellow.last()
        }),
        rises(t.last_blue, blue) <= blue.len(),
        rises(t.last_yellow, yellow) <= yellow.len(),
    decreases blue.len(),
{
    if blue.len() > 0 {
        law_goals_are_rises(t, blue.drop_last(), yellow.drop_last());
        if blue.len() > 1 {
            assert(blue.drop_last().last() == blue[blue.len() - 2]);
            assert(yellow.drop_last().last() == yellow[yellow.len() - 2]);
        }
    }
}

/// Game-state info pushed to the viewer alongside world state.
///
/// Any source can be put in this form: a referee of its own, the SSL game controller, a replay.
#[derive(Debug)]
pub struct GameStateInfo {
    /// Current command, in UPPER_SNAKE_CASE (such as `FORCE_START`).
    pub command: String,
    /// Monotonic command counter from the game controller.
    pub command_counter: u32,
    /// Stage label, such as `NORMAL_FIRST_HALF`.
    pub stage: Option<String>,
    pub blue_name: Option<String>,
    pub yellow_name: Option<String>,
}

pub struct GameStateTracker {
    info: Option<GameStateInfo>,
    counts: Table<String, u32>,
    last_command: Option<String>,
    last_counter: Option<u32>,
}

/// What the tracker knows: the latest info, and how often each command was entered.
pub struct GameStateModel {
    pub info: Option<GameStateInfo>,
    pub counts: Map<Seq<char>, u32>,
    pub last_command: Option<Seq<char>>,
    pub last_counter: Option<u32>,
}

impl View for GameStateTracker {
    type V = GameStateModel;

    closed spec fn view(&self) -> GameStateModel {
        GameStateModel {
            info: self.info,
            counts: self.counts@,
            last_command: text::text_view(self.last_command),
            last_counter: self.last_counter,
        }
    }
}

impl GameStateModel {
    pub open spec fn initial() -> GameStateModel {
        GameStateModel { info: None, counts: Map::empty(), last_command: None, last_counter: None }
    }

    /// Whether `info` is a new game state: another command, or the same one called again.
    pub open spec fn is_entry(self, info: GameStateInfo) -> bool {
        self.last_command != Some(info.command@) || self.last_counter != Some(info.command_counter)
    }

    pub open spec fn count_of(self, command: Seq<char>) -> u32 {
        if self.counts.contains_key(command) {
            self.counts[command]
        } else {
            0
        }
    }

    pub open spec fn has_room(self, info: GameStateInfo) -> bool {
        self.is_entry(info) ==> self.count_of(info.command@) < u32::MAX
    }

    pub open spec fn updated(self, info: GameStateInfo) -> GameStateModel {
        GameStateModel {
            info: Some(info),
            counts: if self.is_entry(info) {
                self.counts.insert(info.command@, (self.count_of(info.command@) + 1) as u32)
            } else {
                self.counts
            },
            last_command: Some(info.command@),
            last_counter: Some(info.command_counter),
        }
    }
}

/// The game state as it is published.
pub struct PublishedGameState<'a> {
    pub command: &'a str,
    pub command_counter: u32,
    pub stage: Option<&'a str>,
    pub blue_name: Option<&'a str>,
    pub yellow_name: Option<&'a str>,
    pub state_counts: &'a Table<String, u32>,
}

/// Whether `r` is what is published of a game state.
pub open spec fn is_published(m: GameStateModel, r: Option<PublishedGameState<'_>>) -> bool {
    match (r, m.info) {
        (Some(p), Some(info)) => {
            &&& p.command@ == info.command@
            &&& p.command_counter == info.command_counter
            &&& slice_view(p.stage) == text::text_view(info.stage)
            &&& slice_view(p.blue_name) == text::text_view(info.blue_name)
            &&& slice_view(p.yellow_name) == text::text_view(info.yellow_name)
            &&& p.state_counts@ == m.counts
        },
        (None, None) => true,
        _ => false,
    }
}

pub open spec fn slice_view(t: Option<&str>) -> Option<Seq<char>> {
    match t {
        Some(s) => Some(s@),
        None => None,
    }
}

/// A text that may be absent, as a borrowed one.
pub fn borrow_text(t: &Option<String>) -> (r: Option<&str>)
    ensures
        slice_view(r) == text::text_view(*t),
{
    match t {
        Some(s) => Some(s.as_str()),
        None => None,
    }
}

impl GameStateTracker {
    pub fn new() -> (t: GameStateTracker)
        ensures
            t@ == GameStateModel::initial(),
    {
        GameStateTracker { info: None, counts: Table::new(), last_command: None, last_counter: None }
    }

    /// Takes the latest info; an entered game state is counted.
    pub fn update(&mut self, info: GameStateInfo)
        requires
            old(self)@.has_room(info),
        ensures
            final(self)@ == old(self)@.updated(info),
    {
        let command_changed = match &self.last_command {
            Some(last) => *last != info.command,
            None => true,
        };
        let counter_advanced = match self.last_counter {
            Some(previous) => info.command_counter != previous,
            None => true,
        };
        assert((command_changed || counter_advanced) == self@.is_entry(info));
        if command_changed || counter_advanced {
            let count: u32 = match self.counts.get(&info.command) {
                Some(n) => *n,
                None => 0,
            };
            self.counts.insert(info.command.clone(), count + 1);
        }
        self.last_command = Some(info.command.clone());
        self.last_counter = Some(info.command_counter);
        self.info = Some(info);
    }

    /// The game state to publish, once there was one.
    pub fn snapshot(&self) -> (r: Option<PublishedGameState<'_>>)
        ensures
            is_published(self@, r),
    {
        match &self.info {
            Some(info) => Some(
                PublishedGameState {
                    command: info.command.as_str(),
                    command_counter: info.command_counter,
                    stage: borrow_text(&info.stage),
                    blue_name: borrow_text(&info.blue_name),
                    yellow_name: borrow_text(&info.yellow_name),
                    state_counts: &self.counts,
                },
            ),
            None => None,
        }
    }
}

/// Pushing the same info again and again counts it once.
pub proof fn law_repeated_info_counts_once(m: GameStateModel, info: GameStateInfo)
    ensures
        m.updated(info).updated(info).counts == m.updated(info).counts,
        !m.updated(info).is_entry(info),
{
}

/// Entering a game state raises its own count by one and no other.
pub proof fn law_entry_counts_its_command(m: GameStateModel, info: GameStateInfo, other: Seq<char>)
    requires
        m.is_entry(info),
        m.has_room(info),
    ensures
        m.updated(info).count_of(info.command@) == m.count_of(info.command@) + 1,
        other != info.command@ ==> m.updated(info).count_of(other) == m.count_of(other),
{
}

/// A goal flag that goes up counts for its own team, and both flags are remembered as they are.
pub proof fn law_goals_count_for_their_team(t: GoalTracker, goal_blue: bool, goal_yellow: bool)
    requires
        t.blue < u32::MAX,
        t.yellow < u32::MAX,
    ensures
        t.observed(goal_blue, goal_yellow).blue == t.blue + (if goal_blue && !t.last_blue {
            1int
        } else {
            0
        }),
        t.observed(goal_blue, goal_yellow).yellow == t.yellow + (if goal_yellow && !t.last_yellow {
            1int
        } else {
            0
        }),
        t.observed(goal_blue, goal_yellow).last_blue == goal_blue,
        t.observed(goal_blue, goal_yellow).last_yellow == goal_yellow,
        GoalTracker::initial().blue == 0,
        GoalTracker::initial().yellow == 0,
        !GoalTracker::initial().last_blue,
        !GoalTracker::initial().last_yellow,
{
}

/// What is published of a game state is the info that was pushed last, each part in its place, and
/// how often each command was entered. An info is a new game state where its command or its counter
/// differs from the last.
pub proof fn law_the_latest_info_is_published(
    m: GameStateModel,
    info: GameStateInfo,
    r: Option<PublishedGameState<'_>>,
)
    requires
        is_published(m.updated(info), r),
    ensures
        r matches Some(p) && {
            &&& p.command@ == info.command@
            &&& p.command_counter == info.command_counter
            &&& info.stage is Some <==> p.stage is Some
            &&& info.stage matches Some(stage) ==> p.stage->0@ == stage@
            &&& info.blue_name is Some <==> p.blue_name is Some
            &&& info.blue_name matches Some(name) ==> p.blue_name->0@ == name@
            &&& info.yellow_name is Some <==> p.yellow_name is Some
            &&& info.yellow_name matches Some(name) ==> p.yellow_name->0@ == name@
            &&& p.state_counts@ == m.updated(info).counts
        },
        !m.is_entry(info) ==> m.updated(info).counts == m.counts,
        m.is_entry(info) <==> m.last_command != Some(info.command@) || m.last_counter != Some(
            info.command_counter,
        ),
        m.updated(info).last_command == Some(info.command@),
        m.updated(info).last_counter == Some(info.command_counter),
{
}

/// The first time that a command is entered counts one, every later time one more; the counts start
/// empty, and what is not entered is not counted.
pub proof fn law_commands_are_counted_from_one(m: GameStateModel, info: GameStateInfo)
    ensures
        ({
            let entered = m.last_command != Some(info.command@) || m.last_counter != Some(
                info.command_counter,
            );
            let next = m.updated(info);
            &&& entered && !m.counts.contains_key(info.command@) ==> next.counts.contains_key(
                info.command@,
            ) && next.counts[info.command@] == 1
            &&& entered && m.counts.contains_key(info.command@) && m.counts[info.command@]
                < u32::MAX ==> next.counts[info.command@] == m.counts[info.command@] + 1
            &&& !entered ==> next.counts == m.counts
            &&& forall|c: Seq<char>|
                c != info.command@ ==> #[trigger] next.counts.contains_key(c)
                    == m.counts.contains_key(c)
        }),
        GameStateModel::initial().counts.dom() == Set::<Seq<char>>::empty(),
        GameStateModel::initial().info is None,
        GameStateModel::initial().last_command is None,
        GameStateModel::initial().last_counter is None,
{
}

} // verus!
