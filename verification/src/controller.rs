//! Team controllers: which AI drives a side, and what it is told of the game.

use vstd::prelude::*;
use vstd::pervasive::unreached;
use serde_json::Value;
use crate::debug::ViewerDebugSnapshot;
use crate::developer::{DeveloperRequest, DeveloperRun};
use crate::number::Double;
use crate::state::{MoveCommand, RobotCommand, TeamColor, WorldConfig, WorldState};
use crate::text;
use crate::text::{copy_text, lower_text, same_text, split_text_once};

verus! {

/// Referee state resolved relative to a team, as the match director decides it.
#[derive(Debug, Clone, Copy, PartialEq, Eq, Structural)]
pub enum GameCommand {
    Halt,
    Stop,
    Running,
    FreeKickUs,
    FreeKickThem,
    PrepareKickoffUs,
    PrepareKickoffThem,
}

/// Identifies which AI a side should use.
#[derive(Debug, Clone)]
pub enum TeamKind {
    /// The current non-ML role/skill AI, run inside CrashPilot.
    Bangka,
    /// The tuned Bangka-line AI, run inside CrashPilot.
    Bongka { params: Option<String> },
    /// A sibling Bangka-line AI, run inside CrashPilot.
    Ungabunga { params: Option<String> },
    /// Frozen snapshot of Bangka, a fixed sparring partner for deterministic benchmarking.
    Bangka1,
    /// Frozen snapshot of the first Bangka, a fixed sparring partner for deterministic
    /// benchmarking.
    BangkaLegacy,
    /// CrashPilot's machine-learning AI.
    CrashPilot { model: Option<String> },
    /// Dehumanized connected directly to the simulator, without CrashPilot or ORCA.
    Dehumanized,
    /// No-op side: keeps robots idle with zero wheel velocity.
    Dummy,
    /// The real Sumatra, an external AI driven over the SimNet protocol.
    Sumatra,
}

/// A team kind by its meaning: which AI, and the characters of its argument.
pub enum KindModel {
    Bangka,
    Bongka(Option<Seq<char>>),
    Ungabunga(Option<Seq<char>>),
    Bangka1,
    BangkaLegacy,
    CrashPilot(Option<Seq<char>>),
    Dehumanized,
    Dummy,
    Sumatra,
}

impl View for TeamKind {
    type V = KindModel;

    open spec fn view(&self) -> KindModel {
        match *self {
            TeamKind::Bangka => KindModel::Bangka,
            TeamKind::Bongka { params } => KindModel::Bongka(text::text_view(params)),
            TeamKind::Ungabunga { params } => KindModel::Ungabunga(text::text_view(params)),
            TeamKind::Bangka1 => KindModel::Bangka1,
            TeamKind::BangkaLegacy => KindModel::BangkaLegacy,
            TeamKind::CrashPilot { model } => KindModel::CrashPilot(text::text_view(model)),
            TeamKind::Dehumanized => KindModel::Dehumanized,
            TeamKind::Dummy => KindModel::Dummy,
            TeamKind::Sumatra => KindModel::Sumatra,
        }
    }
}

/// The kind that a name in lower case stands for, with `arg` for its argument.
pub open spec fn kind_named(name: Seq<char>, arg: Option<Seq<char>>) -> Option<KindModel> {
    if name == "bangka"@ || name == "us"@ || name == "new"@ {
        Some(KindModel::Bangka)
    } else if name == "bongka"@ {
        Some(KindModel::Bongka(arg))
    } else if name == "ungabunga"@ {
        Some(KindModel::Ungabunga(arg))
    } else if name == "bangka1"@ {
        Some(KindModel::Bangka1)
    } else if name == "legacy"@ || name == "bangka0"@ || name == "baseline"@ {
        Some(KindModel::BangkaLegacy)
    } else if name == "crashpilot"@ || name == "cp"@ || name == "ml"@ || name == "ai"@ {
        Some(KindModel::CrashPilot(arg))
    } else if name == "dehumanized"@ || name == "dehumanized-direct"@ || name == "deh"@ {
        Some(KindModel::Dehumanized)
    } else if name == "dummy"@ || name == "noop"@ || name == "none"@ || name == "idle"@ {
        Some(KindModel::Dummy)
    } else if name == "sumatra"@ || name == "real"@ || name == "tigers"@ {
        Some(KindModel::Sumatra)
    } else {
        None
    }
}

/// The name and the argument in `<name>[:<argument>]`; the name is in lower case.
pub open spec fn kind_parts(s: Seq<char>) -> (Seq<char>, Option<Seq<char>>) {
    match text::split_once(s, ':') {
        Some((name, arg)) => (text::lowered(name), Some(arg)),
        None => (text::lowered(s), None),
    }
}

pub open spec fn kind_label(kind: KindModel) -> Seq<char> {
    match kind {
        KindModel::Bangka => "bangka"@,
        KindModel::Bongka(_) => "bongka"@,
        KindModel::Ungabunga(_) => "ungabunga"@,
        KindModel::Bangka1 => "bangka1"@,
        KindModel::BangkaLegacy => "legacy"@,
        KindModel::CrashPilot(_) => "crashpilot"@,
        KindModel::Dehumanized => "dehumanized"@,
        KindModel::Dummy => "dummy"@,
        KindModel::Sumatra => "sumatra"@,
    }
}

/// Whether an AI runs outside this process.
pub open spec fn runs_outside(kind: KindModel) -> bool {
    kind is Sumatra
}

/// Whether an AI goes through CrashPilot.
pub open spec fn goes_through_crashpilot(kind: KindModel) -> bool {
    !(kind is Dehumanized || kind is Dummy || kind is Sumatra)
}

impl TeamKind {
    /// The kind that `<name>[:<argument>]` names; the case of the name does not matter.
    pub fn parse(s: &str) -> (r: Result<TeamKind, String>)
        ensures
            match kind_named(kind_parts(s@).0, kind_parts(s@).1) {
                Some(kind) => r matches Ok(k) && k@ == kind,
                None => r matches Err(e) && e@ == "unknown team kind: "@ + kind_parts(s@).0,
            },
    {
        let (name, arg): (String, Option<String>) = match split_text_once(s, ':') {
            Some((n, a)) => (lower_text(n.as_str()), Some(a)),
            None => (lower_text(s), None),
        };
        assert(kind_parts(s@) == (name@, text::text_view(arg)));
        let n = name.as_str();
        if same_text(n, "bangka") || same_text(n, "us") || same_text(n, "new") {
            Ok(TeamKind::Bangka)
        } else if same_text(n, "bongka") {
            Ok(TeamKind::Bongka { params: arg })
        } else if same_text(n, "ungabunga") {
            Ok(TeamKind::Ungabunga { params: arg })
        } else if same_text(n, "bangka1") {
            Ok(TeamKind::Bangka1)
        } else if same_text(n, "legacy") || same_text(n, "bangka0") || same_text(n, "baseline") {
            Ok(TeamKind::BangkaLegacy)
        } else if same_text(n, "crashpilot") || same_text(n, "cp") || same_text(n, "ml")
            || same_text(n, "ai") {
            Ok(TeamKind::CrashPilot { model: arg })
        } else if same_text(n, "dehumanized") || same_text(n, "dehumanized-direct")
            || same_text(n, "deh") {
            Ok(TeamKind::Dehumanized)
        } else if same_text(n, "dummy") || same_text(n, "noop") || same_text(n, "none")
            || same_text(n, "idle") {
            Ok(TeamKind::Dummy)
        } else if same_text(n, "sumatra") || same_text(n, "real") || same_text(n, "tigers") {
            Ok(TeamKind::Sumatra)
        } else {
            let mut e = "unknown team kind: ".to_owned();
            e.append(n);
            Err(e)
        }
    }

    pub fn label(&self) -> (r: &'static str)
        ensures
            r@ == kind_label(self@),
    {
        match self {
            TeamKind::Bangka => "bangka",
            TeamKind::Bongka { .. } => "bongka",
            TeamKind::Ungabunga { .. } => "ungabunga",
            TeamKind::Bangka1 => "bangka1",
            TeamKind::BangkaLegacy => "legacy",
            TeamKind::CrashPilot { .. } => "crashpilot",
            TeamKind::Dehumanized => "dehumanized",
            TeamKind::Dummy => "dummy",
            TeamKind::Sumatra => "sumatra",
        }
    }

    /// True for AIs that run outside this process, over SimNet.
    pub fn is_external(&self) -> (r: bool)
        ensures
            r == runs_outside(self@),
    {
        match self {
            TeamKind::Sumatra => true,
            _ => false,
        }
    }

    /// True for sides in this process that go through CrashPilot and therefore inherit its limit
    /// on the number of robots.
    pub fn uses_crashpilot_binding(&self) -> (r: bool)
        ensures
            r == goes_through_crashpilot(self@),
    {
        match self {
            TeamKind::Dehumanized | TeamKind::Dummy | TeamKind::Sumatra => false,
            _ => true,
        }
    }

    pub fn copy(&self) -> (r: TeamKind)
        ensures
            r@ == self@,
    {
        match self {
            TeamKind::Bangka => TeamKind::Bangka,
            TeamKind::Bongka { params } => TeamKind::Bongka { params: copy_text(params) },
            TeamKind::Ungabunga { params } => TeamKind::Ungabunga { params: copy_text(params) },
            TeamKind::Bangka1 => TeamKind::Bangka1,
            TeamKind::BangkaLegacy => TeamKind::BangkaLegacy,
            TeamKind::CrashPilot { model } => TeamKind::CrashPilot { model: copy_text(model) },
            TeamKind::Dehumanized => TeamKind::Dehumanized,
            TeamKind::Dummy => TeamKind::Dummy,
            TeamKind::Sumatra => TeamKind::Sumatra,
        }
    }
}

proof fn lemma_plain_name(s: Seq<char>)
    requires
        forall|i: int| 0 <= i < s.len() ==> #[trigger] s[i] != ':' && !('A' <= s[i] && s[i] <= 'Z'),
    ensures
        kind_parts(s) == (s, None::<Seq<char>>),
{
    text::lemma_first_at_unique(s, ':', s.len() as int);
    assert(text::lowered(s) =~= s);
}

/// A kind's label names that kind, with no argument.
pub proof fn law_label_names_its_kind(kind: KindModel)
    ensures
        kind_named(kind_parts(kind_label(kind)).0, kind_parts(kind_label(kind)).1) == Some(
            without_argument(kind),
        ),
{
    reveal_strlit("bangka");
    reveal_strlit("us");
    reveal_strlit("new");
    reveal_strlit("bongka");
    reveal_strlit("ungabunga");
    reveal_strlit("bangka1");
    reveal_strlit("legacy");
    reveal_strlit("bangka0");
    reveal_strlit("baseline");
    reveal_strlit("crashpilot");
    reveal_strlit("cp");
    reveal_strlit("ml");
    reveal_strlit("ai");
    reveal_strlit("dehumanized");
    reveal_strlit("dehumanized-direct");
    reveal_strlit("deh");
    reveal_strlit("dummy");
    reveal_strlit("noop");
    reveal_strlit("none");
    reveal_strlit("idle");
    reveal_strlit("sumatra");
    reveal_strlit("real");
    reveal_strlit("tigers");
    let s = kind_label(kind);
    lemma_plain_name(s);
    let names = seq![
        "bangka"@,
        "us"@,
        "new"@,
        "bongka"@,
        "ungabunga"@,
        "bangka1"@,
        "legacy"@,
        "bangka0"@,
        "baseline"@,
        "crashpilot"@,
        "cp"@,
        "ml"@,
        "ai"@,
        "dehumanized"@,
        "dehumanized-direct"@,
        "deh"@,
        "dummy"@,
        "noop"@,
        "none"@,
        "idle"@,
        "sumatra"@,
        "real"@,
        "tigers"@,
    ];
    assert forall|k: int| 0 <= k < names.len() && s == #[trigger] names[k] implies s.len()
        == names[k].len() && s[0] == names[k][0] && s[1] == names[k][1] by {}
}

pub open spec fn without_argument(kind: KindModel) -> KindModel {
    match kind {
        KindModel::Bongka(_) => KindModel::Bongka(None),
        KindModel::Ungabunga(_) => KindModel::Ungabunga(None),
        KindModel::CrashPilot(_) => KindModel::CrashPilot(None),
        other => other,
    }
}

// ---------------------------------------------------------------------------
// Controllers

/// What drives one side of a match.
pub trait Controller {
    fn name(&self) -> &str;

    /// What the developer console can do with the controller.
    fn developer_schema(&self) -> (r: Option<Value>)
        default_ensures
            r is None,
    {
        None
    }

    /// The lifecycle of what the developer runs on this side, where the controller has one.
    fn developer_run(&self) -> (r: Option<DeveloperRun>)
        default_ensures
            r is None,
    {
        None
    }

    fn apply_developer_request(
        &mut self,
        _request: &DeveloperRequest,
        _world: &WorldState,
        _color: TeamColor,
        _gc: GameCommand,
    ) -> (r: Result<String, String>)
        default_ensures
            r matches Err(e) && e@ == "this controller does not expose developer actions"@,
    {
        Err("this controller does not expose developer actions".to_owned())
    }

    fn debug_snapshot(&self) -> (r: Option<ViewerDebugSnapshot>)
        default_ensures
            r is None,
    {
        None
    }

    /// The commands of the side's robots for the next frame.
    fn act(
        &mut self,
        state: &WorldState,
        cfg: &WorldConfig,
        color: TeamColor,
        gc: GameCommand,
    ) -> Vec<RobotCommand>;
}

/// What a controller that does nothing is called.
pub open spec fn dummy_name() -> Seq<char> {
    "dummy"@
}

/// What a controller is called that Dehumanized drives directly.
pub open spec fn direct_name() -> Seq<char> {
    "dehumanized"@
}

/// Keeps every robot in a zero-drive idle state.
pub struct DummyController {
    pub num_robots: u8,
}

/// A command that holds a robot still.
pub open spec fn idle_command(id: usize) -> RobotCommand {
    RobotCommand {
        id,
        move_command: Some(
            MoveCommand::WheelVelocity(
                [Double { bits: 0 }, Double { bits: 0 }, Double { bits: 0 }, Double { bits: 0 }],
            ),
        ),
        kick_speed: Double { bits: 0 },
        kick_angle: Double { bits: 0 },
        dribbler_on: false,
    }
}

/// The commands of a side of `n` robots that does nothing.
pub open spec fn idle_commands(n: nat) -> Seq<RobotCommand> {
    Seq::new(n, |id: int| idle_command(id as usize))
}

impl Controller for DummyController {
    fn name(&self) -> (r: &str)
        ensures
            r@ == dummy_name(),
    {
        "dummy"
    }

    fn act(
        &mut self,
        _state: &WorldState,
        _cfg: &WorldConfig,
        _color: TeamColor,
        _gc: GameCommand,
    ) -> (r: Vec<RobotCommand>)
        ensures
            r@ == idle_commands(old(self).num_robots as nat),
            *final(self) == *old(self),
    {
        let n: usize = self.num_robots as usize;
        let mut commands: Vec<RobotCommand> = Vec::new();
        let mut id: usize = 0;
        while id < n
            invariant
                id <= n,
                n == self.num_robots,
                *self == *old(self),
                commands@ == idle_commands(id as nat),
            decreases n - id,
        {
            commands.push(
                RobotCommand {
                    id,
                    move_command: Some(
                        MoveCommand::WheelVelocity(
                            [Double::zero(), Double::zero(), Double::zero(), Double::zero()],
                        ),
                    ),
                    kick_speed: Double::zero(),
                    kick_angle: Double::zero(),
                    dribbler_on: false,
                },
            );
            id += 1;
            assert(commands@ =~= idle_commands(id as nat));
        }
        commands
    }
}

/// The referee command that CrashPilot is given: `HALT`, or `FORCE_START`, which keeps it playing.
/// The match director sees to the positions at kickoff.
pub open spec fn referee_code(gc: GameCommand) -> i32 {
    if gc is Halt {
        0
    } else {
        3
    }
}

pub fn referee_for(gc: GameCommand) -> (r: i32)
    ensures
        r == referee_code(gc),
{
    match gc {
        GameCommand::Halt => 0,
        _ => 3,
    }
}

#[derive(Debug, Clone, Copy, PartialEq, Eq, Structural)]
pub enum FieldSide {
    PositiveX,
    NegativeX,
}

/// How a CrashPilot of one side starts the game.
#[derive(Debug, Clone, Copy, PartialEq, Eq, Structural)]
pub struct GameStart {
    pub team: TeamColor,
    pub side: FieldSide,
}

pub open spec fn start_of(color: TeamColor) -> GameStart {
    GameStart {
        team: color,
        side: match color {
            TeamColor::Yellow => FieldSide::PositiveX,
            TeamColor::Blue => FieldSide::NegativeX,
        },
    }
}

/// Yellow has the half with positive x, blue the other.
pub fn start_crash_pilot(color: TeamColor) -> (r: GameStart)
    ensures
        r == start_of(color),
{
    match color {
        TeamColor::Yellow => GameStart { team: TeamColor::Yellow, side: FieldSide::PositiveX },
        TeamColor::Blue => GameStart { team: TeamColor::Blue, side: FieldSide::NegativeX },
    }
}

/// The AIs that the program was built with.
#[derive(Debug, Clone, Copy, PartialEq, Eq, Structural)]
pub struct BuiltIn {
    pub bangka: bool,
    pub bongka: bool,
    pub ungabunga: bool,
    pub artificial_incompetence: bool,
    pub dehumanized: bool,
}

/// An AI that runs inside CrashPilot.
#[derive(Debug)]
pub enum PilotAi {
    Bangka,
    Bongka { params: Option<String> },
    Ungabunga { params: Option<String> },
    Bangka1,
    LegacyBangka,
    /// The machine-learning AI, from the model file that is named, or its own.
    Learned { model: Option<String> },
}

/// What to build for a side.
#[derive(Debug)]
pub enum ControllerPlan {
    Dummy { num_robots: u8 },
    Dehumanized { num_robots: u8 },
    CrashPilot { ai: PilotAi, name: &'static str, start: GameStart, num_robots: u8 },
}

pub open spec fn pilot_ai_of(kind: KindModel, ai: PilotAi) -> bool {
    match (kind, ai) {
        (KindModel::Bangka, PilotAi::Bangka) => true,
        (KindModel::Bongka(arg), PilotAi::Bongka { params }) => text::text_view(params) == arg,
        (KindModel::Ungabunga(arg), PilotAi::Ungabunga { params }) => text::text_view(params)
            == arg,
        (KindModel::Bangka1, PilotAi::Bangka1) => true,
        (KindModel::BangkaLegacy, PilotAi::LegacyBangka) => true,
        (KindModel::CrashPilot(arg), PilotAi::Learned { model }) => text::text_view(model) == arg,
        _ => false,
    }
}

/// Whether a plan is that of a kind, for a side of this color with as many robots.
pub open spec fn is_plan_of(
    plan: ControllerPlan,
    kind: KindModel,
    color: TeamColor,
    num_robots: u8,
) -> bool {
    match plan {
        ControllerPlan::Dummy { num_robots: n } => kind is Dummy && n == num_robots,
        ControllerPlan::Dehumanized { num_robots: n } => kind is Dehumanized && n == num_robots,
        ControllerPlan::CrashPilot { ai, name, start, num_robots: n } => {
            &&& pilot_ai_of(kind, ai)
            &&& name@ == kind_label(kind)
            &&& start == start_of(color)
            &&& n == num_robots
        },
    }
}

/// Why a kind of controller that runs in this process cannot be built here.
pub open spec fn unbuildable(kind: KindModel, built_in: BuiltIn) -> Option<Seq<char>> {
    match kind {
        KindModel::Dummy | KindModel::Sumatra => None,
        KindModel::Dehumanized => if built_in.dehumanized {
            None
        } else {
            Some("Dehumanized is disabled; build with `--features dehumanized` to enable"@)
        },
        KindModel::Bangka => if built_in.bangka {
            None
        } else {
            Some("Bangka is disabled; build with `--features bangka` to enable"@)
        },
        KindModel::Bongka(_) => if built_in.bongka {
            None
        } else {
            Some("Bongka is disabled; build with `--features bongka` to enable"@)
        },
        KindModel::Ungabunga(_) | KindModel::Bangka1 | KindModel::BangkaLegacy => {
            if built_in.ungabunga {
                None
            } else {
                Some("Ungabunga is disabled; build with `--features ungabunga` to enable"@)
            }
        },
        KindModel::CrashPilot(_) => if built_in.artificial_incompetence {
            None
        } else {
            Some(
                "CrashPilot is disabled; build with `--features artificial_incompetence` to enable"@,
            )
        },
    }
}

/// What to build for a side, or why it cannot be built here.
///
/// External kinds are not for building: `run_match` routes them elsewhere.
pub fn build_controller(
    kind: &TeamKind,
    color: TeamColor,
    num_robots: u8,
    built_in: BuiltIn,
) -> (r: Result<ControllerPlan, &'static str>)
    requires
        !(kind@ is Sumatra),
    ensures
        match unbuildable(kind@, built_in) {
            Some(message) => r matches Err(e) && e@ == message,
            None => r matches Ok(plan) && is_plan_of(plan, kind@, color, num_robots),
        },
{
    let start = start_crash_pilot(color);
    match kind {
        TeamKind::Dummy => Ok(ControllerPlan::Dummy { num_robots }),
        TeamKind::Dehumanized => if built_in.dehumanized {
            Ok(ControllerPlan::Dehumanized { num_robots })
        } else {
            Err("Dehumanized is disabled; build with `--features dehumanized` to enable")
        },
        TeamKind::Bangka => if built_in.bangka {
            Ok(
                ControllerPlan::CrashPilot {
                    ai: PilotAi::Bangka,
                    name: "bangka",
                    start,
                    num_robots,
                },
            )
        } else {
            Err("Bangka is disabled; build with `--features bangka` to enable")
        },
        TeamKind::Bongka { params } => if built_in.bongka {
            Ok(
                ControllerPlan::CrashPilot {
                    ai: PilotAi::Bongka { params: copy_text(params) },
                    name: "bongka",
                    start,
                    num_robots,
                },
            )
        } else {
            Err("Bongka is disabled; build with `--features bongka` to enable")
        },
        TeamKind::Ungabunga { params } => if built_in.ungabunga {
            Ok(
                ControllerPlan::CrashPilot {
                    ai: PilotAi::Ungabunga { params: copy_text(params) },
                    name: "ungabunga",
                    start,
                    num_robots,
                },
            )
        } else {
            Err("Ungabunga is disabled; build with `--features ungabunga` to enable")
        },
        TeamKind::Bangka1 => if built_in.ungabunga {
            Ok(
                ControllerPlan::CrashPilot {
                    ai: PilotAi::Bangka1,
                    name: "bangka1",
                    start,
                    num_robots,
                },
            )
        } else {
            Err("Ungabunga is disabled; build with `--features ungabunga` to enable")
        },
        TeamKind::BangkaLegacy => if built_in.ungabunga {
            Ok(
                ControllerPlan::CrashPilot {
                    ai: PilotAi::LegacyBangka,
                    name: "legacy",
                    start,
                    num_robots,
                },
            )
        } else {
            Err("Ungabunga is disabled; build with `--features ungabunga` to enable")
        },
        TeamKind::CrashPilot { model } => if built_in.artificial_incompetence {
            Ok(
                ControllerPlan::CrashPilot {
                    ai: PilotAi::Learned { model: copy_text(model) },
                    name: "crashpilot",
                    start,
                    num_robots,
                },
            )
        } else {
            Err("CrashPilot is disabled; build with `--features artificial_incompetence` to enable")
        },
        TeamKind::Sumatra => unreached(),
    }
}

impl ControllerPlan {
    pub open spec fn name_spec(self) -> Seq<char> {
        match self {
            ControllerPlan::Dummy { .. } => dummy_name(),
            ControllerPlan::Dehumanized { .. } => direct_name(),
            ControllerPlan::CrashPilot { name, .. } => name@,
        }
    }

    /// What the controller will be called.
    pub fn name(&self) -> (r: &'static str)
        ensures
            r@ == self.name_spec(),
    {
        match self {
            ControllerPlan::Dummy { .. } => "dummy",
            ControllerPlan::Dehumanized { .. } => "dehumanized",
            ControllerPlan::CrashPilot { name, .. } => name,
        }
    }
}

/// A built controller is called by its kind's label, whatever its side and its number of robots.
pub proof fn law_controllers_are_called_by_their_kind(
    plan: ControllerPlan,
    kind: KindModel,
    color: TeamColor,
    num_robots: u8,
)
    requires
        is_plan_of(plan, kind, color, num_robots),
    ensures
        plan.name_spec() == kind_label(kind),
{
}

// ---------------------------------------------------------------------------
// Laws

/// Every AI has the names that it is asked for by; those that take an argument get it as it is.
pub proof fn law_names_of_kinds(arg: Option<Seq<char>>)
    ensures
        kind_named("bangka"@, arg) == Some(KindModel::Bangka),
        kind_named("us"@, arg) == Some(KindModel::Bangka),
        kind_named("new"@, arg) == Some(KindModel::Bangka),
        kind_named("bongka"@, arg) == Some(KindModel::Bongka(arg)),
        kind_named("ungabunga"@, arg) == Some(KindModel::Ungabunga(arg)),
        kind_named("bangka1"@, arg) == Some(KindModel::Bangka1),
        kind_named("legacy"@, arg) == Some(KindModel::BangkaLegacy),
        kind_named("bangka0"@, arg) == Some(KindModel::BangkaLegacy),
        kind_named("baseline"@, arg) == Some(KindModel::BangkaLegacy),
        kind_named("crashpilot"@, arg) == Some(KindModel::CrashPilot(arg)),
        kind_named("cp"@, arg) == Some(KindModel::CrashPilot(arg)),
        kind_named("ml"@, arg) == Some(KindModel::CrashPilot(arg)),
        kind_named("ai"@, arg) == Some(KindModel::CrashPilot(arg)),
        kind_named("dehumanized"@, arg) == Some(KindModel::Dehumanized),
        kind_named("dehumanized-direct"@, arg) == Some(KindModel::Dehumanized),
        kind_named("deh"@, arg) == Some(KindModel::Dehumanized),
        kind_named("dummy"@, arg) == Some(KindModel::Dummy),
        kind_named("noop"@, arg) == Some(KindModel::Dummy),
        kind_named("none"@, arg) == Some(KindModel::Dummy),
        kind_named("idle"@, arg) == Some(KindModel::Dummy),
        kind_named("sumatra"@, arg) == Some(KindModel::Sumatra),
        kind_named("real"@, arg) == Some(KindModel::Sumatra),
        kind_named("tigers"@, arg) == Some(KindModel::Sumatra),
{
    lemma_names_differ();
}

proof fn lemma_names_differ()
    ensures
        "bangka"@.len() == 6,
        "us"@.len() == 2,
        "new"@.len() == 3,
        "bongka"@.len() == 6,
        "ungabunga"@.len() == 9,
        "bangka1"@.len() == 7,
        "legacy"@.len() == 6,
        "bangka0"@.len() == 7,
        "baseline"@.len() == 8,
        "crashpilot"@.len() == 10,
        "cp"@.len() == 2,
        "ml"@.len() == 2,
        "ai"@.len() == 2,
        "dehumanized"@.len() == 11,
        "dehumanized-direct"@.len() == 18,
        "deh"@.len() == 3,
        "dummy"@.len() == 5,
        "noop"@.len() == 4,
        "none"@.len() == 4,
        "idle"@.len() == 4,
        "sumatra"@.len() == 7,
        "real"@.len() == 4,
        "tigers"@.len() == 6,
        "bangka"@ != "bongka"@,
        "bangka"@ != "legacy"@,
        "bangka"@ != "tigers"@,
        "us"@ != "cp"@,
        "us"@ != "ml"@,
        "us"@ != "ai"@,
        "new"@ != "deh"@,
        "bongka"@ != "legacy"@,
        "bongka"@ != "tigers"@,
        "bangka1"@ != "bangka0"@,
        "bangka1"@ != "sumatra"@,
        "legacy"@ != "tigers"@,
        "bangka0"@ != "sumatra"@,
        "cp"@ != "ml"@,
        "cp"@ != "ai"@,
        "ml"@ != "ai"@,
        "noop"@ != "none"@,
        "noop"@ != "idle"@,
        "noop"@ != "real"@,
        "none"@ != "idle"@,
        "none"@ != "real"@,
        "idle"@ != "real"@,
{
    reveal_strlit("bangka");
    reveal_strlit("us");
    reveal_strlit("new");
    reveal_strlit("bongka");
    reveal_strlit("ungabunga");
    reveal_strlit("bangka1");
    reveal_strlit("legacy");
    reveal_strlit("bangka0");
    reveal_strlit("baseline");
    reveal_strlit("crashpilot");
    reveal_strlit("cp");
    reveal_strlit("ml");
    reveal_strlit("ai");
    reveal_strlit("dehumanized");
    reveal_strlit("dehumanized-direct");
    reveal_strlit("deh");
    reveal_strlit("dummy");
    reveal_strlit("noop");
    reveal_strlit("none");
    reveal_strlit("idle");
    reveal_strlit("sumatra");
    reveal_strlit("real");
    reveal_strlit("tigers");
    assert("bangka"@[1] != "bongka"@[1]);
    assert("bangka"@[0] != "legacy"@[0]);
    assert("bangka"@[0] != "tigers"@[0]);
    assert("us"@[0] != "cp"@[0]);
    assert("us"@[0] != "ml"@[0]);
    assert("us"@[0] != "ai"@[0]);
    assert("new"@[0] != "deh"@[0]);
    assert("bongka"@[0] != "legacy"@[0]);
    assert("bongka"@[0] != "tigers"@[0]);
    assert("bangka1"@[6] != "bangka0"@[6]);
    assert("bangka1"@[0] != "sumatra"@[0]);
    assert("legacy"@[0] != "tigers"@[0]);
    assert("bangka0"@[0] != "sumatra"@[0]);
    assert("cp"@[0] != "ml"@[0]);
    assert("cp"@[0] != "ai"@[0]);
    assert("ml"@[0] != "ai"@[0]);
    assert("noop"@[2] != "none"@[2]);
    assert("noop"@[0] != "idle"@[0]);
    assert("noop"@[0] != "real"@[0]);
    assert("none"@[0] != "idle"@[0]);
    assert("none"@[0] != "real"@[0]);
    assert("idle"@[0] != "real"@[0]);
}

/// What stands behind the first colon is the argument, as it is written; what stands before is the
/// name, whose case does not matter.
pub proof fn law_arguments_follow_the_colon(name: Seq<char>, other: Seq<char>, arg: Seq<char>)
    requires
        forall|i: int| 0 <= i < name.len() ==> #[trigger] name[i] != ':',
        forall|i: int| 0 <= i < other.len() ==> #[trigger] other[i] != ':',
        text::lowered(name) == text::lowered(other),
    ensures
        kind_parts(name + seq![':'] + arg).1 == Some(arg),
        kind_parts(name + seq![':'] + arg) == kind_parts(other + seq![':'] + arg),
        kind_parts(name).1 is None,
        kind_parts(name) == kind_parts(other),
        kind_parts(name).0 == kind_parts(name + seq![':'] + arg).0,
{
    text::lemma_first_at_unique(name, ':', name.len() as int);
    text::lemma_first_at_unique(other, ':', other.len() as int);
    let a = name + seq![':'] + arg;
    let b = other + seq![':'] + arg;
    text::lemma_first_at_unique(a, ':', name.len() as int);
    text::lemma_first_at_unique(b, ':', other.len() as int);
    assert(a.take(name.len() as int) =~= name);
    assert(b.take(other.len() as int) =~= other);
    assert(a.skip(name.len() + 1int) =~= arg);
    assert(b.skip(other.len() + 1int) =~= arg);
}

/// Sumatra alone runs outside this process. Of the others, those that CrashPilot runs are built inside
/// it, for the color and the number of robots of their side; Dehumanized and the side that does nothing
/// are built as they are.
pub proof fn law_sides_are_built_as_their_kind(
    plan: ControllerPlan,
    kind: KindModel,
    color: TeamColor,
    num_robots: u8,
)
    requires
        is_plan_of(plan, kind, color, num_robots),
    ensures
        !runs_outside(kind),
        plan is CrashPilot == goes_through_crashpilot(kind),
        plan is Dummy == kind is Dummy,
        plan is Dehumanized == kind is Dehumanized,
        plan matches ControllerPlan::CrashPilot { ai, name, start, num_robots: n } ==> {
            &&& n == num_robots
            &&& start.team == color
            &&& start.side is PositiveX == color is Yellow
            &&& ai is Bangka == kind is Bangka
            &&& ai is Bongka == kind is Bongka
            &&& ai is Ungabunga == kind is Ungabunga
            &&& ai is Bangka1 == kind is Bangka1
            &&& ai is LegacyBangka == kind is BangkaLegacy
            &&& ai is Learned == kind is CrashPilot
        },
        plan matches ControllerPlan::Dummy { num_robots: n } ==> n == num_robots,
        plan matches ControllerPlan::Dehumanized { num_robots: n } ==> n == num_robots,
{
}

/// A kind that takes an argument passes it on to its AI.
pub proof fn law_arguments_are_passed_on(plan: ControllerPlan, arg: Seq<char>, color: TeamColor, n: u8)
    ensures
        is_plan_of(plan, KindModel::Bongka(Some(arg)), color, n) ==> (
        plan matches ControllerPlan::CrashPilot { ai: PilotAi::Bongka { params: Some(p) }, .. }
            && p@ == arg),
        is_plan_of(plan, KindModel::Ungabunga(Some(arg)), color, n) ==> (
        plan matches ControllerPlan::CrashPilot { ai: PilotAi::Ungabunga { params: Some(p) }, .. }
            && p@ == arg),
        is_plan_of(plan, KindModel::CrashPilot(Some(arg)), color, n) ==> (
        plan matches ControllerPlan::CrashPilot { ai: PilotAi::Learned { model: Some(p) }, .. }
            && p@ == arg),
{
}

/// What is built in can be built; a side that does nothing always can.
pub proof fn law_what_can_be_built(built_in: BuiltIn, arg: Option<Seq<char>>)
    ensures
        unbuildable(KindModel::Dummy, built_in) is None,
        unbuildable(KindModel::Dehumanized, built_in) is None == built_in.dehumanized,
        unbuildable(KindModel::Bangka, built_in) is None == built_in.bangka,
        unbuildable(KindModel::Bongka(arg), built_in) is None == built_in.bongka,
        unbuildable(KindModel::Ungabunga(arg), built_in) is None == built_in.ungabunga,
        unbuildable(KindModel::Bangka1, built_in) is None == built_in.ungabunga,
        unbuildable(KindModel::BangkaLegacy, built_in) is None == built_in.ungabunga,
        unbuildable(KindModel::CrashPilot(arg), built_in) is None
            == built_in.artificial_incompetence,
{
}

/// A side that does nothing has one command for each of its robots, under its id: no wheel turns, and
/// nothing is kicked or dribbled.
pub proof fn law_idle_robots_stand_still(n: nat, i: int)
    requires
        0 <= i < n <= usize::MAX,
    ensures
        idle_commands(n).len() == n,
        idle_commands(n)[i].id == i,
        idle_commands(n)[i].move_command matches Some(MoveCommand::WheelVelocity(wheels))
            && wheels[0].bits == 0 && wheels[1].bits == 0 && wheels[2].bits == 0 && wheels[3].bits
            == 0,
        idle_commands(n)[i].kick_speed.bits == 0,
        idle_commands(n)[i].kick_angle.bits == 0,
        !idle_commands(n)[i].dribbler_on,
{
}

/// CrashPilot is halted where the game is, and plays in every other state of it.
pub proof fn law_crashpilot_halts_with_the_game(gc: GameCommand)
    ensures
        referee_code(gc) == 0 <==> gc is Halt,
        referee_code(gc) == 3 <==> !(gc is Halt),
{
}

/// The two sides play towards each other: yellow has the positive half, blue the negative.
pub proof fn law_sides_of_the_field(color: TeamColor)
    ensures
        start_of(color).team == color,
        start_of(TeamColor::Yellow).side is PositiveX,
        start_of(TeamColor::Blue).side is NegativeX,
{
}

/// What is said of a kind is said of its own AI, with its own argument.
pub proof fn law_kinds_are_seen_as_they_are(kind: TeamKind)
    ensures
        kind is Bangka == kind@ is Bangka,
        kind is Bongka == kind@ is Bongka,
        kind is Ungabunga == kind@ is Ungabunga,
        kind is Bangka1 == kind@ is Bangka1,
        kind is BangkaLegacy == kind@ is BangkaLegacy,
        kind is CrashPilot == kind@ is CrashPilot,
        kind is Dehumanized == kind@ is Dehumanized,
        kind is Dummy == kind@ is Dummy,
        kind is Sumatra == kind@ is Sumatra,
        kind matches TeamKind::Bongka { params: Some(arg) } ==> kind@ == KindModel::Bongka(
            Some(arg@),
        ),
        kind matches TeamKind::Ungabunga { params: Some(arg) } ==> kind@ == KindModel::Ungabunga(
            Some(arg@),
        ),
        kind matches TeamKind::CrashPilot { model: Some(arg) } ==> kind@ == KindModel::CrashPilot(
            Some(arg@),
        ),
{
}

} // verus!
