//! What a match is played with, and which way it is run.

use vstd::prelude::*;
use crate::controller;
use crate::controller::{KindModel, TeamKind};
use crate::number;
use crate::number::Double;
use crate::state::WorldConfig;
use crate::text;
use crate::text::{concat_text, copy_text};

verus! {

/// Everything needed to play one match.
pub struct MatchConfig {
    pub blue: TeamKind,
    pub yellow: TeamKind,
    /// Available blue robots; as many as the division has where it is `None`.
    pub blue_bots: Option<usize>,
    /// Available yellow robots; as many as the division has where it is `None`.
    pub yellow_bots: Option<usize>,
    pub seconds: Double,
    pub div: char,
    pub seed: u64,
    pub log: Option<String>,
    pub replay: Option<String>,
    /// Record canonical interface state and events.
    pub interface_recording: bool,
    pub log_every: u64,
    pub quiet: bool,
    /// Open the live web viewer.
    pub viewer: bool,
    /// Pace the simulation to about 60 frames a second of wall-clock time.
    pub realtime: bool,
    /// Run an unlimited, viewer-backed development match with live controls.
    pub dev: bool,
    /// Recover a ball that has made no progress by teleporting it to the centre.
    pub teleport_ball_on_no_progress: bool,
    /// Print the robot commands at a throttled interval.
    pub print_commands: bool,
    /// Frame interval for command printing.
    pub print_commands_every: u64,
    /// Warn when a close slow ball is not acquired or a fast reachable pickup point is idle.
    pub validate_pickup: bool,
}

/// The length of a match where none is asked for: 60 seconds.
pub const DEFAULT_SECONDS_BITS: u64 = 0x404e_0000_0000_0000;

/// A match's configuration, its texts by their characters.
pub struct ConfigModel {
    pub blue: KindModel,
    pub yellow: KindModel,
    pub blue_bots: Option<usize>,
    pub yellow_bots: Option<usize>,
    pub seconds: Double,
    pub div: char,
    pub seed: u64,
    pub log: Option<Seq<char>>,
    pub replay: Option<Seq<char>>,
    pub interface_recording: bool,
    pub log_every: u64,
    pub quiet: bool,
    pub viewer: bool,
    pub realtime: bool,
    pub dev: bool,
    pub teleport_ball_on_no_progress: bool,
    pub print_commands: bool,
    pub print_commands_every: u64,
    pub validate_pickup: bool,
}

impl View for MatchConfig {
    type V = ConfigModel;

    open spec fn view(&self) -> ConfigModel {
        ConfigModel {
            blue: self.blue@,
            yellow: self.yellow@,
            blue_bots: self.blue_bots,
            yellow_bots: self.yellow_bots,
            seconds: self.seconds,
            div: self.div,
            seed: self.seed,
            log: text::text_view(self.log),
            replay: text::text_view(self.replay),
            interface_recording: self.interface_recording,
            log_every: self.log_every,
            quiet: self.quiet,
            viewer: self.viewer,
            realtime: self.realtime,
            dev: self.dev,
            teleport_ball_on_no_progress: self.teleport_ball_on_no_progress,
            print_commands: self.print_commands,
            print_commands_every: self.print_commands_every,
            validate_pickup: self.validate_pickup,
        }
    }
}

impl ConfigModel {
    /// Bangka against Bangka for 60 seconds in division b.
    pub open spec fn initial() -> ConfigModel {
        ConfigModel {
            blue: KindModel::Bangka,
            yellow: KindModel::Bangka,
            blue_bots: None,
            yellow_bots: None,
            seconds: Double { bits: DEFAULT_SECONDS_BITS },
            div: 'b',
            seed: 1,
            log: None,
            replay: None,
            interface_recording: false,
            log_every: 2,
            quiet: false,
            viewer: false,
            realtime: false,
            dev: false,
            teleport_ball_on_no_progress: true,
            print_commands: false,
            print_commands_every: 60,
            validate_pickup: false,
        }
    }
}

impl Default for MatchConfig {
    fn default() -> (c: MatchConfig)
        ensures
            c@ == ConfigModel::initial(),
    {
        MatchConfig {
            blue: TeamKind::Bangka,
            yellow: TeamKind::Bangka,
            blue_bots: None,
            yellow_bots: None,
            seconds: Double { bits: DEFAULT_SECONDS_BITS },
            div: 'b',
            seed: 1,
            log: None,
            replay: None,
            interface_recording: false,
            log_every: 2,
            quiet: false,
            viewer: false,
            realtime: false,
            dev: false,
            teleport_ball_on_no_progress: true,
            print_commands: false,
            print_commands_every: 60,
            validate_pickup: false,
        }
    }
}

/// The two divisions' worlds, as the simulator defines them.
#[derive(Debug, Clone, Copy, PartialEq, Eq, Structural)]
pub struct Divisions {
    pub a: WorldConfig,
    pub b: WorldConfig,
}

/// The world of a division; every division but `a` is `b`.
pub open spec fn division_world(div: char, seed: u64, divisions: Divisions) -> WorldConfig {
    WorldConfig {
        seed,
        ..if div == 'a' || div == 'A' {
            divisions.a
        } else {
            divisions.b
        }
    }
}

/// The world that a match in division `div` is played in.
pub fn world_config(div: char, seed: u64, divisions: &Divisions) -> (r: WorldConfig)
    ensures
        r == division_world(div, seed, *divisions),
{
    let mut cfg = if div == 'a' || div == 'A' {
        divisions.a
    } else {
        divisions.b
    };
    cfg.seed = seed;
    cfg
}

#[derive(Debug, Clone, Copy, PartialEq, Eq, Structural)]
pub struct TeamBotCounts {
    pub blue: usize,
    pub yellow: usize,
}

pub open spec fn bots_or(configured: Option<usize>, default: usize) -> usize {
    match configured {
        Some(n) => n,
        None => default,
    }
}

/// Robots that stand on the field: a side without robots of its own still has the division's.
pub open spec fn physical_bots(configured: Option<usize>, default: usize) -> usize {
    match configured {
        Some(n) => if n == 0 {
            default
        } else {
            n
        },
        None => default,
    }
}

pub fn physical_bot_count(configured: Option<usize>, default: usize) -> (r: usize)
    ensures
        r == physical_bots(configured, default),
{
    match configured {
        Some(n) => if n == 0 {
            default
        } else {
            n
        },
        None => default,
    }
}

impl MatchConfig {
    pub fn copy(&self) -> (r: MatchConfig)
        ensures
            r@ == self@,
    {
        MatchConfig {
            blue: self.blue.copy(),
            yellow: self.yellow.copy(),
            blue_bots: self.blue_bots,
            yellow_bots: self.yellow_bots,
            seconds: self.seconds,
            div: self.div,
            seed: self.seed,
            log: copy_text(&self.log),
            replay: copy_text(&self.replay),
            interface_recording: self.interface_recording,
            log_every: self.log_every,
            quiet: self.quiet,
            viewer: self.viewer,
            realtime: self.realtime,
            dev: self.dev,
            teleport_ball_on_no_progress: self.teleport_ball_on_no_progress,
            print_commands: self.print_commands,
            print_commands_every: self.print_commands_every,
            validate_pickup: self.validate_pickup,
        }
    }

    pub open spec fn bots(self, default: usize) -> TeamBotCounts {
        TeamBotCounts {
            blue: bots_or(self.blue_bots, default),
            yellow: bots_or(self.yellow_bots, default),
        }
    }

    pub open spec fn physical(self, default: usize) -> TeamBotCounts {
        TeamBotCounts {
            blue: physical_bots(self.blue_bots, default),
            yellow: physical_bots(self.yellow_bots, default),
        }
    }

    /// How many robots each side's AI drives.
    pub fn bot_counts(&self, default: usize) -> (r: TeamBotCounts)
        ensures
            r == self.bots(default),
    {
        TeamBotCounts {
            blue: match self.blue_bots {
                Some(n) => n,
                None => default,
            },
            yellow: match self.yellow_bots {
                Some(n) => n,
                None => default,
            },
        }
    }

    /// How many robots each side has on the field.
    pub fn physical_bot_counts(&self, default: usize) -> (r: TeamBotCounts)
        ensures
            r == self.physical(default),
    {
        TeamBotCounts {
            blue: physical_bot_count(self.blue_bots, default),
            yellow: physical_bot_count(self.yellow_bots, default),
        }
    }
}

// ---------------------------------------------------------------------------
// Which way a match is run

/// What the program was built with.
#[derive(Debug, Clone, Copy, PartialEq, Eq, Structural)]
pub struct Abilities {
    pub viewer: bool,
    pub sumatra: bool,
}

#[derive(Debug, Clone, Copy, PartialEq, Eq, Structural)]
pub enum Route {
    /// Not played: a development match needs the viewer.
    NeedsViewer,
    /// Not played: a development match cannot have Sumatra in it.
    NoSumatraInDevelopment,
    /// Not played: Sumatra is not built in.
    NeedsSumatra,
    /// Through SimNet, with Sumatra.
    Sumatra,
    /// Both sides in this process.
    InProcess,
}

/// Whether a side that has robots is external.
pub open spec fn plays_externally(mc: MatchConfig, default_bots: usize) -> bool {
    let bots = mc.bots(default_bots);
    (bots.blue > 0 && mc.blue@ is Sumatra) || (bots.yellow > 0 && mc.yellow@ is Sumatra)
}

pub open spec fn route_of(mc: MatchConfig, default_bots: usize, abilities: Abilities) -> Route {
    if mc.dev && !abilities.viewer {
        Route::NeedsViewer
    } else if plays_externally(mc, default_bots) {
        if mc.dev {
            Route::NoSumatraInDevelopment
        } else if abilities.sumatra {
            Route::Sumatra
        } else {
            Route::NeedsSumatra
        }
    } else {
        Route::InProcess
    }
}

/// Which way a match is run.
pub fn route(mc: &MatchConfig, default_bots: usize, abilities: Abilities) -> (r: Route)
    ensures
        r == route_of(*mc, default_bots, abilities),
{
    if mc.dev && !abilities.viewer {
        return Route::NeedsViewer;
    }
    let bots = mc.bot_counts(default_bots);
    let external = (bots.blue > 0 && mc.blue.is_external()) || (bots.yellow > 0
        && mc.yellow.is_external());
    if external {
        if mc.dev {
            Route::NoSumatraInDevelopment
        } else if abilities.sumatra {
            Route::Sumatra
        } else {
            Route::NeedsSumatra
        }
    } else {
        Route::InProcess
    }
}

impl Route {
    pub open spec fn refusal_spec(self) -> Option<Seq<char>> {
        match self {
            Route::NeedsViewer => Some(
                "development matches require building match-runner with `--features viewer`"@,
            ),
            Route::NoSumatraInDevelopment => Some(
                "--dev does not support matches containing Sumatra; use in-process AIs only"@,
            ),
            Route::NeedsSumatra => Some(
                "sumatra matches require building match-runner with `--features sumatra` and setting SIMHARK_SUMATRA_REPO_ROOT"@,
            ),
            Route::Sumatra | Route::InProcess => None,
        }
    }

    /// What to say of a match that is not played.
    pub fn refusal(self) -> (r: Option<&'static str>)
        ensures
            match r {
                Some(message) => self.refusal_spec() == Some(message@),
                None => self.refusal_spec() is None,
            },
    {
        match self {
            Route::NeedsViewer => Some(
                "development matches require building match-runner with `--features viewer`",
            ),
            Route::NoSumatraInDevelopment => Some(
                "--dev does not support matches containing Sumatra; use in-process AIs only",
            ),
            Route::NeedsSumatra => Some(
                "sumatra matches require building match-runner with `--features sumatra` and setting SIMHARK_SUMATRA_REPO_ROOT",
            ),
            Route::Sumatra | Route::InProcess => None,
        }
    }
}

/// A match without external sides that play is run in this process, if the viewer is there for a
/// development match; a development match never goes to Sumatra.
pub proof fn law_routes(mc: MatchConfig, default_bots: usize, abilities: Abilities)
    ensures
        ({
            let r = route_of(mc, default_bots, abilities);
            &&& r is InProcess <==> !plays_externally(mc, default_bots) && (mc.dev
                ==> abilities.viewer)
            &&& r is Sumatra ==> !mc.dev && plays_externally(mc, default_bots)
            &&& r.refusal_spec() is None <==> (r is InProcess || r is Sumatra)
        }),
{
}

pub open spec fn side_label(team: Seq<char>, name: Seq<char>) -> Seq<char> {
    team + ":"@ + name
}

/// What a side goes by in a report: its color and what it is called.
pub fn side_title(team: &str, name: &str) -> (r: String)
    ensures
        r@ == side_label(team@, name@),
{
    concat_text(concat_text(team, ":").as_str(), name)
}

/// What a side is called: a side without robots by its kind, else its controller's name.
pub open spec fn side_name_of(kind: KindModel, controller: Option<Seq<char>>, bots: usize) -> Seq<
    char,
> {
    if bots == 0 {
        controller::kind_label(kind) + ":0bots"@
    } else {
        match controller {
            Some(name) => name,
            None => controller::kind_label(kind),
        }
    }
}

pub fn side_name(kind: &TeamKind, controller: Option<&str>, bots: usize) -> (r: String)
    ensures
        r@ == side_name_of(
            kind@,
            match controller {
                Some(name) => Some(name@),
                None => None,
            },
            bots,
        ),
{
    if bots == 0 {
        return concat_text(kind.label(), ":0bots");
    }
    match controller {
        Some(name) => name.to_owned(),
        None => kind.label().to_owned(),
    }
}

// ---------------------------------------------------------------------------
// The plan of a match in this process

#[derive(Debug, Clone, Copy, PartialEq, Eq, Structural)]
pub struct MatchPlan {
    /// The world, with as many robots as the larger side has on the field.
    pub world: WorldConfig,
    pub bots: TeamBotCounts,
    pub physical: TeamBotCounts,
    /// How long the match lasts; a development match has no end.
    pub duration: Double,
    pub opens_viewer: bool,
    pub paces: bool,
    pub records_replay: bool,
    pub writes_log: bool,
    pub recovers_ball: bool,
}

/// The frames a second that a replay of a match is recorded at.
pub const REPLAY_TICK_HZ_BITS: u64 = 0x404e_0000_0000_0000;

pub open spec fn plan_of(mc: MatchConfig, divisions: Divisions) -> MatchPlan {
    let cfg = division_world(mc.div, mc.seed, divisions);
    let physical = mc.physical(cfg.robots_per_team);
    MatchPlan {
        world: WorldConfig {
            robots_per_team: if physical.blue >= physical.yellow {
                physical.blue
            } else {
                physical.yellow
            },
            ..cfg
        },
        bots: mc.bots(cfg.robots_per_team),
        physical,
        duration: if mc.dev {
            Double { bits: number::INFINITY_BITS }
        } else {
            mc.seconds
        },
        opens_viewer: (mc.viewer || mc.dev) && (mc.replay is None || mc.interface_recording),
        paces: mc.replay is None && (mc.realtime || mc.viewer || mc.dev),
        records_replay: mc.replay is Some,
        writes_log: mc.log is Some,
        recovers_ball: mc.teleport_ball_on_no_progress,
    }
}

/// The plan of a match that both sides play in this process.
pub fn plan_match(mc: &MatchConfig, divisions: &Divisions) -> (r: MatchPlan)
    ensures
        r == plan_of(*mc, *divisions),
{
    let mut world = world_config(mc.div, mc.seed, divisions);
    let default_bots: usize = world.robots_per_team;
    let bots = mc.bot_counts(default_bots);
    let physical = mc.physical_bot_counts(default_bots);
    world.robots_per_team = if physical.blue >= physical.yellow {
        physical.blue
    } else {
        physical.yellow
    };
    MatchPlan {
        world,
        bots,
        physical,
        duration: if mc.dev {
            Double { bits: number::INFINITY_BITS }
        } else {
            mc.seconds
        },
        opens_viewer: (mc.viewer || mc.dev) && (mc.replay.is_none() || mc.interface_recording),
        paces: mc.replay.is_none() && (mc.realtime || mc.viewer || mc.dev),
        records_replay: mc.replay.is_some(),
        writes_log: mc.log.is_some(),
        recovers_ball: mc.teleport_ball_on_no_progress,
    }
}

/// Every robot that an AI drives is on the field, and the field has room for both sides.
pub proof fn law_driven_robots_are_on_the_field(mc: MatchConfig, divisions: Divisions)
    ensures
        ({
            let plan = plan_of(mc, divisions);
            &&& plan.bots.blue <= plan.physical.blue <= plan.world.robots_per_team
            &&& plan.bots.yellow <= plan.physical.yellow <= plan.world.robots_per_team
        }),
{
}

/// A match that is recorded as a replay runs as fast as it can, and shows no viewer unless the
/// interface is recorded too.
pub proof fn law_replays_are_precomputed(mc: MatchConfig, divisions: Divisions)
    requires
        mc.replay is Some,
    ensures
        !plan_of(mc, divisions).paces,
        plan_of(mc, divisions).opens_viewer ==> mc.interface_recording,
{
}

/// The line that says where the viewer is.
pub open spec fn viewer_line_of(dev: bool, url: Seq<char>) -> Seq<char> {
    if dev {
        "dev viewer: "@ + url + "/dev"@
    } else {
        "viewer: "@ + url
    }
}

pub fn viewer_line(dev: bool, url: &str) -> (r: String)
    ensures
        r@ == viewer_line_of(dev, url@),
{
    if dev {
        concat_text(concat_text("dev viewer: ", url).as_str(), "/dev")
    } else {
        concat_text("viewer: ", url)
    }
}

// ---------------------------------------------------------------------------
// Laws

/// Where nothing is asked for, Bangka plays Bangka for a minute in division b with the division's
/// robots, with ball recovery and without a viewer, a log or a replay.
pub proof fn law_matches_by_default()
    ensures
        ({
            let c = ConfigModel::initial();
            &&& c.blue is Bangka && c.yellow is Bangka
            &&& c.blue_bots is None && c.yellow_bots is None
            &&& c.seconds.bits == 0x404e_0000_0000_0000
            &&& c.div == 'b' && c.seed == 1
            &&& c.log is None && c.replay is None && c.log_every == 2
            &&& !c.interface_recording && !c.quiet && !c.viewer && !c.realtime && !c.dev
            &&& c.teleport_ball_on_no_progress
            &&& !c.print_commands && c.print_commands_every == 60
            &&& !c.validate_pickup
        }),
{
}

/// A match is played in the world of its division, with its own seed; any division but `a` is `b`.
pub proof fn law_divisions(div: char, seed: u64, divisions: Divisions)
    ensures
        ({
            let w = division_world(div, seed, divisions);
            let of = if div == 'a' || div == 'A' {
                divisions.a
            } else {
                divisions.b
            };
            &&& w.seed == seed
            &&& w.field == of.field
            &&& w.robots_per_team == of.robots_per_team
            &&& w.blue_robots == of.blue_robots
            &&& w.yellow_robots == of.yellow_robots
            &&& w.ball_radius == of.ball_radius
            &&& w.ball_friction == of.ball_friction
            &&& w.gravity == of.gravity
        }),
{
}

/// A side has the robots that it is given, and the division's where it is given none; a side that is
/// to have no robots has the division's on the field, and drives none of them.
pub proof fn law_robots_of_a_side(mc: MatchConfig, default: usize)
    ensures
        mc.blue_bots is None ==> mc.bots(default).blue == default && mc.physical(default).blue
            == default,
        mc.yellow_bots is None ==> mc.bots(default).yellow == default && mc.physical(default).yellow
            == default,
        mc.blue_bots matches Some(n) ==> mc.bots(default).blue == n,
        mc.yellow_bots matches Some(n) ==> mc.bots(default).yellow == n,
        mc.blue_bots matches Some(n) ==> n > 0 ==> mc.physical(default).blue == n,
        mc.yellow_bots matches Some(n) ==> n > 0 ==> mc.physical(default).yellow == n,
        mc.blue_bots == Some(0usize) ==> mc.physical(default).blue == default,
        mc.yellow_bots == Some(0usize) ==> mc.physical(default).yellow == default,
{
}

/// The plan of a match does what its configuration asks for.
pub proof fn law_plans_do_what_is_asked(mc: MatchConfig, divisions: Divisions)
    ensures
        ({
            let plan = plan_of(mc, divisions);
            let of = if mc.div == 'a' || mc.div == 'A' {
                divisions.a
            } else {
                divisions.b
            };
            &&& plan.world.seed == mc.seed
            &&& plan.world.field == of.field
            &&& plan.world.gravity == of.gravity
            &&& plan.world.robots_per_team == plan.physical.blue || plan.world.robots_per_team
                == plan.physical.yellow
            &&& plan.world.robots_per_team >= plan.physical.blue
            &&& plan.world.robots_per_team >= plan.physical.yellow
            &&& plan.bots == mc.bots(of.robots_per_team)
            &&& plan.physical == mc.physical(of.robots_per_team)
            &&& mc.dev ==> plan.duration.bits == 0x7ff0_0000_0000_0000
            &&& !mc.dev ==> plan.duration == mc.seconds
            &&& plan.records_replay == mc.replay is Some
            &&& plan.writes_log == mc.log is Some
            &&& plan.recovers_ball == mc.teleport_ball_on_no_progress
            &&& mc.replay is None ==> plan.opens_viewer == (mc.viewer || mc.dev)
            &&& mc.replay is None ==> plan.paces == (mc.realtime || mc.viewer || mc.dev)
            &&& mc.replay is Some ==> !plan.paces
            &&& mc.replay is Some ==> plan.opens_viewer == ((mc.viewer || mc.dev)
                && mc.interface_recording)
        }),
{
}

/// Only a side that has robots and that Sumatra plays takes a match out of this process. Such a match
/// is no development match and needs Sumatra built in, and a development match needs the viewer.
pub proof fn law_where_a_match_is_played(mc: MatchConfig, bots: usize, abilities: Abilities)
    ensures
        ({
            let external = (mc.blue@ is Sumatra && mc.blue_bots != Some(0usize) && (
            mc.blue_bots is Some || bots > 0)) || (mc.yellow@ is Sumatra && mc.yellow_bots != Some(
                0usize,
            ) && (mc.yellow_bots is Some || bots > 0));
            let r = route_of(mc, bots, abilities);
            &&& mc.dev && !abilities.viewer <==> r is NeedsViewer
            &&& !mc.dev && external && abilities.sumatra <==> r is Sumatra
            &&& !mc.dev && external && !abilities.sumatra <==> r is NeedsSumatra
            &&& mc.dev && abilities.viewer && external <==> r is NoSumatraInDevelopment
            &&& !external && (!mc.dev || abilities.viewer) <==> r is InProcess
        }),
{
}

/// A side goes by its controller's name, or by its kind's where it has none; a side without robots
/// goes by its kind and says so.
pub proof fn law_names_of_sides(kind: KindModel, name: Seq<char>, bots: usize)
    ensures
        bots > 0 ==> side_name_of(kind, Some(name), bots) == name,
        bots > 0 ==> side_name_of(kind, None, bots) == controller::kind_label(kind),
        side_name_of(kind, Some(name), 0) == controller::kind_label(kind) + ":0bots"@,
        side_label(name, controller::kind_label(kind)).take(name.len() as int) == name,
        side_label(name, controller::kind_label(kind)).skip(name.len() + 1int)
            == controller::kind_label(kind),
{
    reveal_strlit(":");
}

/// The viewer's line ends with its address, and that of a development match leads to the console.
pub proof fn law_the_viewer_is_told_of(url: Seq<char>)
    ensures
        viewer_line_of(false, url) == "viewer: "@ + url,
        viewer_line_of(true, url) == "dev viewer: "@ + url + "/dev"@,
{
}

/// What is said of a configuration is said of its own parts, each of its own.
pub proof fn law_a_configuration_is_seen_as_it_is(c: MatchConfig)
    ensures
        c@.blue == c.blue@,
        c@.yellow == c.yellow@,
        c@.blue_bots == c.blue_bots,
        c@.yellow_bots == c.yellow_bots,
        c@.seconds == c.seconds,
        c@.div == c.div,
        c@.seed == c.seed,
        c@.log is Some == c.log is Some,
        c.log is Some ==> c@.log->0 == c.log->0@,
        c@.replay is Some == c.replay is Some,
        c.replay is Some ==> c@.replay->0 == c.replay->0@,
        c@.interface_recording == c.interface_recording,
        c@.log_every == c.log_every,
        c@.quiet == c.quiet,
        c@.viewer == c.viewer,
        c@.realtime == c.realtime,
        c@.dev == c.dev,
        c@.teleport_ball_on_no_progress == c.teleport_ball_on_no_progress,
        c@.print_commands == c.print_commands,
        c@.print_commands_every == c.print_commands_every,
        c@.validate_pickup == c.validate_pickup,
{
}

/// What is said of a match that is not played tells why: the viewer that it needs, the AI that it cannot
/// have, or the one that is not built in.
pub proof fn law_refusals_tell_why()
    ensures
        Route::NeedsViewer.refusal_spec() == Some(
            "development matches require building match-runner with `--features viewer`"@,
        ),
        Route::NoSumatraInDevelopment.refusal_spec() == Some(
            "--dev does not support matches containing Sumatra; use in-process AIs only"@,
        ),
        Route::NeedsSumatra.refusal_spec() is Some,
        Route::Sumatra.refusal_spec() is None,
        Route::InProcess.refusal_spec() is None,
{
}

} // verus!
