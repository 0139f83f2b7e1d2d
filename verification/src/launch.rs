//! Matches launched from the start center.

use vstd::prelude::*;
use crate::args;
use crate::client::{CommandStatus, SimharkCommand, SystemCommand};
use crate::config;
use crate::config::{ConfigModel, MatchConfig};
use crate::controller::{KindModel, TeamKind};
use crate::number::Double;
use crate::text;
use crate::text::{chars_of, concat_text, decimal_text, lower_char};

verus! {

/// A match as the start center describes it.
#[derive(Debug)]
pub struct MatchConfiguration {
    pub blue_controller: String,
    pub yellow_controller: String,
    pub blue_robots: u32,
    pub yellow_robots: u32,
    pub duration_ns: Option<u64>,
    pub division: String,
    pub batch_count: u32,
    pub seed: u64,
    pub precompute: bool,
    pub development: bool,
    pub record: bool,
}

/// A configuration that was found fine: the matches that it asks for.
pub struct Launch {
    pub blue: TeamKind,
    pub yellow: TeamKind,
    pub blue_robots: usize,
    pub yellow_robots: usize,
    pub seconds: Double,
    pub division: char,
    pub seed: u64,
    pub precompute: bool,
    pub development: bool,
    pub record: bool,
    /// How many matches to play, one at least.
    pub count: u32,
}

/// The length of a match: what was asked for, which is `asked` in seconds, or 60 seconds.
pub open spec fn seconds_of(c: MatchConfiguration, asked: Double) -> Double {
    if c.duration_ns is Some {
        asked
    } else {
        Double { bits: config::DEFAULT_SECONDS_BITS }
    }
}

pub open spec fn division_of(c: MatchConfiguration) -> char {
    if c.division@.len() > 0 {
        text::lower(c.division@[0])
    } else {
        'b'
    }
}

/// Why a configuration is refused. A duration in nanoseconds is positive unless it is zero, and
/// always finite.
pub open spec fn launch_refusal(c: MatchConfiguration, max_robots: usize) -> Option<Seq<char>> {
    match args::kind_in(c.blue_controller@) {
        Err(e) => Some(e),
        Ok(_) => match args::kind_in(c.yellow_controller@) {
            Err(e) => Some(e),
            Ok(_) => if c.blue_robots > max_robots || c.yellow_robots > max_robots {
                Some("robot count exceeds "@ + text::decimal(max_robots as nat))
            } else if c.duration_ns == Some(0u64) {
                Some("duration must be positive and finite"@)
            } else if division_of(c) != 'a' && division_of(c) != 'b' {
                Some("division must be A or B"@)
            } else {
                None
            },
        },
    }
}

/// Whether `l` is what a configuration that is not refused comes to.
pub open spec fn is_launch(l: Launch, c: MatchConfiguration, asked: Double) -> bool {
    &&& args::kind_in(c.blue_controller@) == Ok::<KindModel, Seq<char>>(l.blue@)
    &&& args::kind_in(c.yellow_controller@) == Ok::<KindModel, Seq<char>>(l.yellow@)
    &&& l.blue_robots == c.blue_robots
    &&& l.yellow_robots == c.yellow_robots
    &&& l.seconds == seconds_of(c, asked)
    &&& l.division == division_of(c)
    &&& l.seed == c.seed
    &&& l.precompute == c.precompute
    &&& l.development == c.development
    &&& l.record == c.record
    &&& l.count == (if c.batch_count < 1 {
        1
    } else {
        c.batch_count
    })
}

/// Checks a configuration. `asked` is its duration in seconds, where it has one.
pub fn run_configured_matches(c: &MatchConfiguration, asked: Double, max_robots: usize) -> (r: Result<
    Launch,
    String,
>)
    ensures
        match launch_refusal(*c, max_robots) {
            Some(refusal) => r matches Err(e) && e@ == refusal,
            None => r matches Ok(l) && is_launch(l, *c, asked),
        },
{
    let blue = match TeamKind::parse(c.blue_controller.as_str()) {
        Ok(kind) => kind,
        Err(e) => {
            return Err(e);
        },
    };
    let yellow = match TeamKind::parse(c.yellow_controller.as_str()) {
        Ok(kind) => kind,
        Err(e) => {
            return Err(e);
        },
    };
    if c.blue_robots as usize > max_robots || c.yellow_robots as usize > max_robots {
        return Err(concat_text("robot count exceeds ", decimal_text(max_robots as u64).as_str()));
    }
    let seconds = match c.duration_ns {
        Some(duration) => {
            if duration == 0 {
                return Err("duration must be positive and finite".to_owned());
            }
            asked
        },
        None => Double { bits: config::DEFAULT_SECONDS_BITS },
    };
    let letters = chars_of(c.division.as_str());
    let division = if letters.len() > 0 {
        lower_char(letters[0])
    } else {
        'b'
    };
    if division != 'a' && division != 'b' {
        return Err("division must be A or B".to_owned());
    }
    Ok(
        Launch {
            blue,
            yellow,
            blue_robots: c.blue_robots as usize,
            yellow_robots: c.yellow_robots as usize,
            seconds,
            division,
            seed: c.seed,
            precompute: c.precompute,
            development: c.development,
            record: c.record,
            count: if c.batch_count < 1 {
                1
            } else {
                c.batch_count
            },
        },
    )
}

impl Launch {
    pub open spec fn config_of(self, index: nat) -> ConfigModel {
        ConfigModel {
            blue: self.blue@,
            yellow: self.yellow@,
            blue_bots: Some(self.blue_robots),
            yellow_bots: Some(self.yellow_robots),
            seconds: self.seconds,
            div: self.division,
            seed: args::seed_of(self.seed, index),
            viewer: true,
            realtime: !self.precompute,
            dev: self.development,
            interface_recording: self.record,
            ..ConfigModel::initial()
        }
    }

    /// Match `index` of a launch: with a viewer, in real time unless it is to be precomputed.
    pub fn match_config(&self, index: u32) -> (r: MatchConfig)
        ensures
            r@ == self.config_of(index as nat),
    {
        let mut mc = MatchConfig::default();
        mc.blue = self.blue.copy();
        mc.yellow = self.yellow.copy();
        mc.blue_bots = Some(self.blue_robots);
        mc.yellow_bots = Some(self.yellow_robots);
        mc.seconds = self.seconds;
        mc.div = self.division;
        mc.seed = self.seed.wrapping_add(index as u64);
        mc.viewer = true;
        mc.realtime = !self.precompute;
        mc.dev = self.development;
        mc.interface_recording = self.record;
        mc
    }
}

/// What a launch plays is fit to play: it was asked to last a positive time or lasts as long as
/// matches do, neither side has more robots than a team can have, and its division is one of the
/// two.
pub proof fn law_launched_matches_are_sound(
    c: MatchConfiguration,
    asked: Double,
    max_robots: usize,
    l: Launch,
)
    requires
        launch_refusal(c, max_robots) is None,
        is_launch(l, c, asked),
    ensures
        l.blue_robots <= max_robots,
        l.yellow_robots <= max_robots,
        match c.duration_ns {
            Some(duration) => duration > 0 && l.seconds == asked,
            None => l.seconds.bits == config::DEFAULT_SECONDS_BITS,
        },
        l.division == 'a' || l.division == 'b',
        l.count >= 1,
{
}

// ---------------------------------------------------------------------------
// The start center

/// What the start center waits for.
pub enum CenterEvent {
    /// The operator has interrupted the program.
    Interrupted,
    /// The interface is gone.
    Closed,
    Command(SystemCommand),
}

/// How the start center goes on. Where a command came, it is acknowledged first.
pub enum CenterStep {
    Quit,
    /// The host is started anew.
    Again { acknowledge: Option<(CommandStatus, &'static str)> },
    /// The host makes way for the match.
    Launch { configuration: MatchConfiguration, status: CommandStatus, message: &'static str },
}

pub open spec fn is_step(event: CenterEvent, r: CenterStep) -> bool {
    match event {
        CenterEvent::Interrupted => r is Quit,
        CenterEvent::Closed => r matches CenterStep::Again { acknowledge } && acknowledge is None,
        CenterEvent::Command(SystemCommand::Simhark(SimharkCommand::LaunchMatch(c))) => {
            r matches CenterStep::Launch { configuration, status, message } && configuration == c
                && status is Applied && message@
                == "validated; rebuilding host for match session"@
        },
        CenterEvent::Command(_) => r matches CenterStep::Again { acknowledge: Some(a) }
            && a.0 is Rejected && a.1@ == "match-runner only accepts launch_match"@,
    }
}

/// How the start center goes on: only a launch is accepted.
pub fn center_step(event: CenterEvent) -> (r: CenterStep)
    ensures
        is_step(event, r),
{
    match event {
        CenterEvent::Interrupted => CenterStep::Quit,
        CenterEvent::Closed => CenterStep::Again { acknowledge: None },
        CenterEvent::Command(SystemCommand::Simhark(SimharkCommand::LaunchMatch(configuration))) => {
            CenterStep::Launch {
                configuration,
                status: CommandStatus::Applied,
                message: "validated; rebuilding host for match session",
            }
        },
        CenterEvent::Command(_) => CenterStep::Again {
            acknowledge: Some(
                (CommandStatus::Rejected, "match-runner only accepts launch_match"),
            ),
        },
    }
}

// ---------------------------------------------------------------------------
// Laws

/// A launch plays what was configured: each side with its own AI and its own robots, for the time, in
/// the division and with the seed that was asked for, as often as was asked for and once at least.
pub proof fn law_launches_play_what_was_configured(l: Launch, c: MatchConfiguration, asked: Double)
    requires
        is_launch(l, c, asked),
    ensures
        args::kind_in(c.blue_controller@) is Ok,
        args::kind_in(c.blue_controller@)->Ok_0 == l.blue@,
        args::kind_in(c.yellow_controller@) is Ok,
        args::kind_in(c.yellow_controller@)->Ok_0 == l.yellow@,
        l.blue_robots == c.blue_robots,
        l.yellow_robots == c.yellow_robots,
        c.duration_ns is Some ==> l.seconds == asked,
        c.duration_ns is None ==> l.seconds.bits == 0x404e_0000_0000_0000,
        c.division@.len() > 0 ==> l.division == text::lower(c.division@[0]),
        c.division@.len() == 0 ==> l.division == 'b',
        l.seed == c.seed,
        l.precompute == c.precompute,
        l.development == c.development,
        l.record == c.record,
        c.batch_count > 0 ==> l.count == c.batch_count,
        c.batch_count == 0 ==> l.count == 1,
{
}

/// A configuration is refused where an AI is unknown, a side has more robots than a team can have, the
/// match lasts no time or the division is none of the two, and only there.
pub proof fn law_what_is_not_launched(c: MatchConfiguration, max_robots: usize)
    ensures
        launch_refusal(c, max_robots) is Some <==> {
            ||| args::kind_in(c.blue_controller@) is Err
            ||| args::kind_in(c.yellow_controller@) is Err
            ||| c.blue_robots > max_robots
            ||| c.yellow_robots > max_robots
            ||| c.duration_ns == Some(0u64)
            ||| (c.division@.len() > 0 && text::lower(c.division@[0]) != 'a' && text::lower(
                c.division@[0],
            ) != 'b')
        },
{
}

/// A launched match has a viewer and is played by the sides of its launch, in real time unless it is
/// to be precomputed; the matches of a launch have seeds one behind the other.
pub proof fn law_launched_matches(l: Launch, index: nat)
    ensures
        ({
            let c = l.config_of(index);
            &&& c.blue == l.blue@ && c.yellow == l.yellow@
            &&& c.blue_bots == Some(l.blue_robots) && c.yellow_bots == Some(l.yellow_robots)
            &&& c.seconds == l.seconds
            &&& c.div == l.division
            &&& l.seed + index <= u64::MAX ==> c.seed == l.seed + index
            &&& c.viewer
            &&& c.realtime == !l.precompute
            &&& c.dev == l.development
            &&& c.interface_recording == l.record
            &&& c.log is None && c.replay is None
            &&& c.teleport_ball_on_no_progress
            &&& !c.quiet && !c.print_commands && !c.validate_pickup
        }),
{
}

/// The start center launches the match that it is asked to launch, turns down whatever else it is asked
/// for, starts anew when the interface goes and quits when it is interrupted.
pub proof fn law_the_start_center_launches_matches(
    r: CenterStep,
    c: MatchConfiguration,
    command: SystemCommand,
)
    ensures
        is_step(CenterEvent::Interrupted, r) ==> r is Quit,
        is_step(CenterEvent::Closed, r) ==> r is Again,
        is_step(
            CenterEvent::Command(SystemCommand::Simhark(SimharkCommand::LaunchMatch(c))),
            r,
        ) ==> (r matches CenterStep::Launch { configuration, status, .. } && configuration == c
            && status is Applied),
        is_step(CenterEvent::Command(command), r) && !(command matches SystemCommand::Simhark(
            SimharkCommand::LaunchMatch(_),
        )) ==> (r matches CenterStep::Again { acknowledge: Some(a) } && a.0 is Rejected),
{
}

} // verus!
