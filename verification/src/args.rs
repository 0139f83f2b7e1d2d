//! The arguments of `match-sim`, and the matches that they ask for.

use vstd::prelude::*;
use crate::config::{ConfigModel, MatchConfig};
use crate::controller;
use crate::controller::{KindModel, TeamKind};
use crate::names;
use crate::names::{default_replay_path, log_path, suffix_path};
use crate::number::Double;
use crate::report;
use crate::requests;
use crate::requests::parse_usize;
use crate::text;
use crate::text::{chars_of, concat_text, decimal_text, parse_unsigned, same_text};

verus! {

/// Stands for a replay path that is still to be made up.
pub open spec fn made_up_path() -> Seq<char> {
    "__simhark_default_replay_path__"@
}

/// What `match-sim` was asked for.
pub struct Args {
    pub mc: MatchConfig,
    pub matches: usize,
    pub summary: Option<String>,
}

pub struct ArgsModel {
    pub mc: ConfigModel,
    pub matches: usize,
    pub summary: Option<Seq<char>>,
}

impl View for Args {
    type V = ArgsModel;

    open spec fn view(&self) -> ArgsModel {
        ArgsModel { mc: self.mc@, matches: self.matches, summary: text::text_view(self.summary) }
    }
}

impl ArgsModel {
    pub open spec fn initial() -> ArgsModel {
        ArgsModel { mc: ConfigModel::initial(), matches: 1, summary: None }
    }

    pub open spec fn with(self, mc: ConfigModel) -> ArgsModel {
        ArgsModel { mc, ..self }
    }
}

/// What the program knows beside its arguments.
#[derive(Debug, Clone, Copy, PartialEq, Eq, Structural)]
pub struct Surroundings {
    /// Whether the viewer is built in.
    pub viewer: bool,
    pub max_robots_per_team: usize,
    /// The time in seconds.
    pub timestamp: u64,
}

/// What the arguments come to.
pub enum Parsed {
    /// The help text is asked for.
    Help,
    Run(Args),
}

pub enum ParsedModel {
    Help,
    Run(ArgsModel),
}

impl View for Parsed {
    type V = ParsedModel;

    open spec fn view(&self) -> ParsedModel {
        match *self {
            Parsed::Help => ParsedModel::Help,
            Parsed::Run(args) => ParsedModel::Run(args@),
        }
    }
}

// ---------------------------------------------------------------------------
// One option

/// The options that take a value.
pub open spec fn takes_value(flag: Seq<char>) -> bool {
    ||| flag == "--blue"@
    ||| flag == "--yellow"@
    ||| flag == "--blue-bots"@
    ||| flag == "--yellow-bots"@
    ||| flag == "--seconds"@
    ||| flag == "--div"@
    ||| flag == "--seed"@
    ||| flag == "--matches"@
    ||| flag == "--log"@
    ||| flag == "--summary"@
    ||| flag == "--log-every"@
    ||| flag == "--print-commands-every"@
}

pub open spec fn kind_in(value: Seq<char>) -> Result<KindModel, Seq<char>> {
    let parts = controller::kind_parts(value);
    match controller::kind_named(parts.0, parts.1) {
        Some(kind) => Ok(kind),
        None => Err("unknown team kind: "@ + parts.0),
    }
}

/// A number of robots: no more than a team can have.
pub open spec fn bots_in(value: Seq<char>, flag: Seq<char>, max: usize) -> Result<usize, Seq<char>> {
    match requests::usize_number(value) {
        Some(bots) => if bots > max {
            Err(
                flag + " must be <= "@ + text::decimal(max as nat) + ", got "@ + text::decimal(
                    bots as nat,
                ),
            )
        } else {
            Ok(bots)
        },
        None => Err("bad "@ + flag),
    }
}

/// An option with its value; `number` is the value as a number with decimals, if it is one.
pub open spec fn with_value(
    m: ArgsModel,
    flag: Seq<char>,
    value: Seq<char>,
    number: Option<Double>,
    max: usize,
) -> Result<ArgsModel, Seq<char>> {
    if flag == "--blue"@ {
        match kind_in(value) {
            Ok(blue) => Ok(m.with(ConfigModel { blue, ..m.mc })),
            Err(e) => Err(e),
        }
    } else if flag == "--yellow"@ {
        match kind_in(value) {
            Ok(yellow) => Ok(m.with(ConfigModel { yellow, ..m.mc })),
            Err(e) => Err(e),
        }
    } else if flag == "--blue-bots"@ {
        match bots_in(value, flag, max) {
            Ok(n) => Ok(m.with(ConfigModel { blue_bots: Some(n), ..m.mc })),
            Err(e) => Err(e),
        }
    } else if flag == "--yellow-bots"@ {
        match bots_in(value, flag, max) {
            Ok(n) => Ok(m.with(ConfigModel { yellow_bots: Some(n), ..m.mc })),
            Err(e) => Err(e),
        }
    } else if flag == "--seconds"@ {
        match number {
            Some(seconds) => Ok(m.with(ConfigModel { seconds, ..m.mc })),
            None => Err("bad --seconds"@),
        }
    } else if flag == "--div"@ {
        Ok(
            m.with(
                ConfigModel {
                    div: if value.len() > 0 {
                        value[0]
                    } else {
                        'b'
                    },
                    ..m.mc
                },
            ),
        )
    } else if flag == "--seed"@ {
        match report::u64_number(value) {
            Some(seed) => Ok(m.with(ConfigModel { seed, ..m.mc })),
            None => Err("bad --seed"@),
        }
    } else if flag == "--matches"@ {
        match requests::usize_number(value) {
            Some(matches) => Ok(ArgsModel { matches, ..m }),
            None => Err("bad --matches"@),
        }
    } else if flag == "--log"@ {
        Ok(m.with(ConfigModel { log: Some(value), ..m.mc }))
    } else if flag == "--summary"@ {
        Ok(ArgsModel { summary: Some(value), ..m })
    } else if flag == "--log-every"@ {
        match report::u64_number(value) {
            Some(log_every) => Ok(m.with(ConfigModel { log_every, ..m.mc })),
            None => Err("bad --log-every"@),
        }
    } else {
        match report::u64_number(value) {
            Some(every) => Ok(m.with(ConfigModel { print_commands_every: every, ..m.mc })),
            None => Err("bad --print-commands-every"@),
        }
    }
}

/// An option without a value.
pub open spec fn with_flag(m: ArgsModel, flag: Seq<char>, viewer: bool) -> Result<
    ArgsModel,
    Seq<char>,
> {
    if flag == "--record-interface"@ {
        Ok(m.with(ConfigModel { interface_recording: true, viewer: true, ..m.mc }))
    } else if flag == "--print-commands"@ {
        Ok(m.with(ConfigModel { print_commands: true, ..m.mc }))
    } else if flag == "--validate-pickup"@ {
        Ok(m.with(ConfigModel { validate_pickup: true, ..m.mc }))
    } else if flag == "--viewer"@ {
        Ok(m.with(ConfigModel { viewer: true, ..m.mc }))
    } else if flag == "--realtime"@ {
        Ok(m.with(ConfigModel { realtime: true, ..m.mc }))
    } else if flag == "--dev"@ {
        if viewer {
            Ok(
                m.with(
                    ConfigModel {
                        dev: true,
                        viewer: true,
                        realtime: true,
                        teleport_ball_on_no_progress: false,
                        ..m.mc
                    },
                ),
            )
        } else {
            Err("--dev requires building match-runner with `--features viewer`"@)
        }
    } else if flag == "--quiet"@ {
        Ok(m.with(ConfigModel { quiet: true, ..m.mc }))
    } else {
        Err("unknown argument: "@ + flag)
    }
}

pub open spec fn asks_for_help(flag: Seq<char>) -> bool {
    flag == "-h"@ || flag == "--help"@
}

/// The arguments from place `i` on, where those before have come to `m`.
pub open spec fn options(
    args: Seq<Seq<char>>,
    numbers: Seq<Option<Double>>,
    i: int,
    m: ArgsModel,
    s: Surroundings,
) -> Result<ParsedModel, Seq<char>>
    decreases args.len() - i,
{
    if i < 0 || i >= args.len() {
        Ok(ParsedModel::Run(m))
    } else if takes_value(args[i]) {
        if i + 1 >= args.len() {
            Err("missing value for "@ + args[i])
        } else {
            match with_value(m, args[i], args[i + 1], numbers[i + 1], s.max_robots_per_team) {
                Ok(next) => options(args, numbers, i + 2, next, s),
                Err(e) => Err(e),
            }
        }
    } else if args[i] == "--replay"@ {
        if i + 1 < args.len() && !text::starts_with(args[i + 1], "-"@) {
            options(
                args,
                numbers,
                i + 2,
                m.with(ConfigModel { replay: Some(args[i + 1]), ..m.mc }),
                s,
            )
        } else {
            options(
                args,
                numbers,
                i + 1,
                m.with(ConfigModel { replay: Some(made_up_path()), ..m.mc }),
                s,
            )
        }
    } else if asks_for_help(args[i]) {
        Ok(ParsedModel::Help)
    } else {
        match with_flag(m, args[i], s.viewer) {
            Ok(next) => options(args, numbers, i + 1, next, s),
            Err(e) => Err(e),
        }
    }
}

/// Why options that are fine one by one do not go together.
pub open spec fn conflict(m: ArgsModel) -> Option<Seq<char>> {
    if m.mc.dev && m.mc.replay is Some {
        Some("--dev cannot be combined with --replay"@)
    } else if m.mc.dev && m.matches != 1 {
        Some("--dev cannot be combined with --matches"@)
    } else if m.mc.dev && (m.mc.blue is Sumatra || m.mc.yellow is Sumatra) {
        Some("--dev supports in-process AIs only; Sumatra cannot be hot-swapped"@)
    } else {
        None
    }
}

/// The path of a replay that none was given for is made up.
pub open spec fn with_replay_path(m: ArgsModel, timestamp: u64) -> ArgsModel {
    if m.mc.replay == Some(made_up_path()) {
        m.with(
            ConfigModel {
                replay: Some(
                    names::default_path(
                        controller::kind_label(m.mc.blue),
                        controller::kind_label(m.mc.yellow),
                        m.mc.div,
                        m.mc.seed,
                        timestamp,
                    ),
                ),
                ..m.mc
            },
        )
    } else {
        m
    }
}

/// What the arguments come to.
pub open spec fn parsed(
    args: Seq<Seq<char>>,
    numbers: Seq<Option<Double>>,
    s: Surroundings,
) -> Result<ParsedModel, Seq<char>> {
    match options(args, numbers, 0, ArgsModel::initial(), s) {
        Ok(ParsedModel::Run(m)) => match conflict(m) {
            Some(e) => Err(e),
            None => Ok(ParsedModel::Run(with_replay_path(m, s.timestamp))),
        },
        other => other,
    }
}

pub open spec fn is_result<T: View>(r: Result<T, String>, expected: Result<T::V, Seq<char>>) -> bool {
    match (r, expected) {
        (Ok(value), Ok(model)) => value@ == model,
        (Err(e), Err(message)) => e@ == message,
        _ => false,
    }
}

// ---------------------------------------------------------------------------
// Reading them

/// The number of robots that an option gives.
pub fn parse_bots(value: &str, flag: &str, max: usize) -> (r: Result<usize, String>)
    ensures
        match (r, bots_in(value@, flag@, max)) {
            (Ok(n), Ok(expected)) => n == expected,
            (Err(e), Err(message)) => e@ == message,
            _ => false,
        },
{
    match parse_usize(value) {
        Some(bots) => if bots > max {
            let head = concat_text(flag, " must be <= ");
            let head = concat_text(head.as_str(), decimal_text(max as u64).as_str());
            let head = concat_text(head.as_str(), ", got ");
            Err(concat_text(head.as_str(), decimal_text(bots as u64).as_str()))
        } else {
            Ok(bots)
        },
        None => Err(concat_text("bad ", flag)),
    }
}

fn takes_a_value(flag: &str) -> (r: bool)
    ensures
        r == takes_value(flag@),
{
    same_text(flag, "--blue") || same_text(flag, "--yellow") || same_text(flag, "--blue-bots")
        || same_text(flag, "--yellow-bots") || same_text(flag, "--seconds") || same_text(
        flag,
        "--div",
    ) || same_text(flag, "--seed") || same_text(flag, "--matches") || same_text(flag, "--log")
        || same_text(flag, "--summary") || same_text(flag, "--log-every") || same_text(
        flag,
        "--print-commands-every",
    )
}

fn set_value(
    args: &mut Args,
    flag: &str,
    value: &String,
    number: Option<Double>,
    max: usize,
) -> (r: Result<(), String>)
    requires
        takes_value(flag@),
    ensures
        match with_value(old(args)@, flag@, value@, number, max) {
            Ok(next) => r is Ok && final(args)@ == next,
            Err(message) => r matches Err(e) && e@ == message,
        },
{
    if same_text(flag, "--blue") {
        match TeamKind::parse(value.as_str()) {
            Ok(kind) => {
                args.mc.blue = kind;
                Ok(())
            },
            Err(e) => Err(e),
        }
    } else if same_text(flag, "--yellow") {
        match TeamKind::parse(value.as_str()) {
            Ok(kind) => {
                args.mc.yellow = kind;
                Ok(())
            },
            Err(e) => Err(e),
        }
    } else if same_text(flag, "--blue-bots") {
        match parse_bots(value.as_str(), flag, max) {
            Ok(n) => {
                args.mc.blue_bots = Some(n);
                Ok(())
            },
            Err(e) => Err(e),
        }
    } else if same_text(flag, "--yellow-bots") {
        match parse_bots(value.as_str(), flag, max) {
            Ok(n) => {
                args.mc.yellow_bots = Some(n);
                Ok(())
            },
            Err(e) => Err(e),
        }
    } else if same_text(flag, "--seconds") {
        match number {
            Some(seconds) => {
                args.mc.seconds = seconds;
                Ok(())
            },
            None => Err("bad --seconds".to_owned()),
        }
    } else if same_text(flag, "--div") {
        let v = chars_of(value.as_str());
        args.mc.div = if v.len() > 0 {
            v[0]
        } else {
            'b'
        };
        Ok(())
    } else if same_text(flag, "--seed") {
        match parse_unsigned(value.as_str(), u64::MAX) {
            Some(seed) => {
                args.mc.seed = seed;
                Ok(())
            },
            None => Err("bad --seed".to_owned()),
        }
    } else if same_text(flag, "--matches") {
        match parse_usize(value.as_str()) {
            Some(matches) => {
                args.matches = matches;
                Ok(())
            },
            None => Err("bad --matches".to_owned()),
        }
    } else if same_text(flag, "--log") {
        args.mc.log = Some(value.clone());
        Ok(())
    } else if same_text(flag, "--summary") {
        args.summary = Some(value.clone());
        Ok(())
    } else if same_text(flag, "--log-every") {
        match parse_unsigned(value.as_str(), u64::MAX) {
            Some(every) => {
                args.mc.log_every = every;
                Ok(())
            },
            None => Err("bad --log-every".to_owned()),
        }
    } else {
        match parse_unsigned(value.as_str(), u64::MAX) {
            Some(every) => {
                args.mc.print_commands_every = every;
                Ok(())
            },
            None => Err("bad --print-commands-every".to_owned()),
        }
    }
}

fn set_flag(args: &mut Args, flag: &str, viewer: bool) -> (r: Result<(), String>)
    ensures
        match with_flag(old(args)@, flag@, viewer) {
            Ok(next) => r is Ok && final(args)@ == next,
            Err(message) => r matches Err(e) && e@ == message,
        },
{
    if same_text(flag, "--record-interface") {
        args.mc.interface_recording = true;
        args.mc.viewer = true;
    } else if same_text(flag, "--print-commands") {
        args.mc.print_commands = true;
    } else if same_text(flag, "--validate-pickup") {
        args.mc.validate_pickup = true;
    } else if same_text(flag, "--viewer") {
        args.mc.viewer = true;
    } else if same_text(flag, "--realtime") {
        args.mc.realtime = true;
    } else if same_text(flag, "--dev") {
        if !viewer {
            return Err(
                "--dev requires building match-runner with `--features viewer`".to_owned(),
            );
        }
        args.mc.dev = true;
        args.mc.viewer = true;
        args.mc.realtime = true;
        // Development matches start without ball recovery; the console can switch it on.
        args.mc.teleport_ball_on_no_progress = false;
    } else if same_text(flag, "--quiet") {
        args.mc.quiet = true;
    } else {
        return Err(concat_text("unknown argument: ", flag));
    }
    Ok(())
}

/// The value of the option at place `i`.
pub fn next_arg(args: &[String], i: usize) -> (r: Result<usize, String>)
    requires
        i < args@.len(),
    ensures
        match r {
            Ok(k) => k == i + 1 && k < args@.len(),
            Err(e) => i + 1 == args@.len() && e@ == "missing value for "@ + args@[i as int]@,
        },
{
    if i < args.len() - 1 {
        Ok(i + 1)
    } else {
        Err(concat_text("missing value for ", args[i].as_str()))
    }
}

/// The place of a path behind the option at place `i`, if there is one: what starts with a dash is
/// none.
pub fn optional_path_arg(args: &[String], i: usize) -> (r: Option<usize>)
    requires
        i < args@.len(),
    ensures
        r is Some <==> i + 1 < args@.len() && !text::starts_with(args@[i + 1]@, "-"@),
        r matches Some(k) ==> k == i + 1,
{
    if i < args.len() - 1 {
        match text::strip_text_prefix(args[i + 1].as_str(), "-") {
            Some(_) => None,
            None => Some(i + 1),
        }
    } else {
        None
    }
}

fn parse_options(args: &[String], numbers: &[Option<Double>], s: Surroundings) -> (r: Result<
    Parsed,
    String,
>)
    requires
        numbers@.len() == args@.len(),
    ensures
        is_result(r, options(text::texts(args@), numbers@, 0, ArgsModel::initial(), s)),
{
    let ghost all = text::texts(args@);
    let mut result = Args { mc: MatchConfig::default(), matches: 1, summary: None };
    let mut i: usize = 0;
    let n: usize = args.len();
    while i < n
        invariant
            n as nat == args@.len(),
            numbers@.len() == args@.len(),
            all == text::texts(args@),
            i <= n,
            options(all, numbers@, 0, ArgsModel::initial(), s) == options(
                all,
                numbers@,
                i as int,
                result@,
                s,
            ),
        decreases n - i,
    {
        let flag = args[i].as_str();
        assert(all[i as int] == flag@);
        if takes_a_value(flag) {
            let k: usize = match next_arg(args, i) {
                Ok(k) => k,
                Err(e) => {
                    return Err(e);
                },
            };
            assert(all[i + 1] == args@[i + 1]@);
            match set_value(&mut result, flag, &args[k], numbers[k], s.max_robots_per_team) {
                Ok(()) => {},
                Err(e) => {
                    return Err(e);
                },
            }
            i = k + 1;
        } else if same_text(flag, "--replay") {
            match optional_path_arg(args, i) {
                Some(k) => {
                    assert(all[i + 1] == args@[i + 1]@);
                    result.mc.replay = Some(args[k].clone());
                    i = k + 1;
                },
                None => {
                    assert(i + 1 < n ==> all[i + 1] == args@[i + 1]@);
                    result.mc.replay = Some("__simhark_default_replay_path__".to_owned());
                    i += 1;
                },
            }
        } else if same_text(flag, "-h") || same_text(flag, "--help") {
            return Ok(Parsed::Help);
        } else {
            match set_flag(&mut result, flag, s.viewer) {
                Ok(()) => {},
                Err(e) => {
                    return Err(e);
                },
            }
            i += 1;
        }
    }
    Ok(Parsed::Run(result))
}

/// Reads the arguments; `numbers` has each of them as a number with decimals, where it is one.
pub fn parse(args: &[String], numbers: &[Option<Double>], s: Surroundings) -> (r: Result<
    Parsed,
    String,
>)
    requires
        numbers@.len() == args@.len(),
    ensures
        is_result(r, parsed(text::texts(args@), numbers@, s)),
{
    let mut result = match parse_options(args, numbers, s) {
        Ok(Parsed::Run(result)) => result,
        Ok(Parsed::Help) => {
            return Ok(Parsed::Help);
        },
        Err(e) => {
            return Err(e);
        },
    };
    if result.mc.dev && result.mc.replay.is_some() {
        return Err("--dev cannot be combined with --replay".to_owned());
    }
    if result.mc.dev && result.matches != 1 {
        return Err("--dev cannot be combined with --matches".to_owned());
    }
    if result.mc.dev && (result.mc.blue.is_external() || result.mc.yellow.is_external()) {
        return Err(
            "--dev supports in-process AIs only; Sumatra cannot be hot-swapped".to_owned(),
        );
    }
    let made_up = match &result.mc.replay {
        Some(path) => same_text(path.as_str(), "__simhark_default_replay_path__"),
        None => false,
    };
    if made_up {
        let path = default_replay_path(
            result.mc.blue.label(),
            result.mc.yellow.label(),
            result.mc.div,
            result.mc.seed,
            s.timestamp,
        );
        result.mc.replay = Some(path);
    }
    Ok(Parsed::Run(result))
}

/// What is parsed never asks for a development match together with a replay, with several matches
/// or with Sumatra; and a development match always has the viewer and starts without ball recovery.
pub proof fn law_development_matches(
    args: Seq<Seq<char>>,
    numbers: Seq<Option<Double>>,
    s: Surroundings,
)
    ensures
        parsed(args, numbers, s) matches Ok(ParsedModel::Run(m)) ==> (m.mc.dev ==> {
            &&& m.mc.replay is None
            &&& m.matches == 1
            &&& !(m.mc.blue is Sumatra)
            &&& !(m.mc.yellow is Sumatra)
            &&& m.mc.viewer
            &&& m.mc.realtime
            &&& !m.mc.teleport_ball_on_no_progress
            &&& s.viewer
        }),
{
    lemma_development(args, numbers, 0, ArgsModel::initial(), s);
}

/// Recording the interface brings the viewer.
pub proof fn law_recording_brings_the_viewer(
    args: Seq<Seq<char>>,
    numbers: Seq<Option<Double>>,
    s: Surroundings,
)
    ensures
        parsed(args, numbers, s) matches Ok(ParsedModel::Run(m)) ==> (m.mc.interface_recording
            ==> m.mc.viewer),
{
    lemma_development(args, numbers, 0, ArgsModel::initial(), s);
}

pub open spec fn is_development(m: ArgsModel, s: Surroundings) -> bool {
    &&& m.mc.dev ==> m.mc.viewer && m.mc.realtime && !m.mc.teleport_ball_on_no_progress && s.viewer
    &&& m.mc.interface_recording ==> m.mc.viewer
}

proof fn lemma_development(
    args: Seq<Seq<char>>,
    numbers: Seq<Option<Double>>,
    i: int,
    m: ArgsModel,
    s: Surroundings,
)
    requires
        is_development(m, s),
    ensures
        options(args, numbers, i, m, s) matches Ok(ParsedModel::Run(r)) ==> is_development(r, s),
    decreases args.len() - i,
{
    if 0 <= i < args.len() {
        if takes_value(args[i]) {
            if i + 1 < args.len() {
                match with_value(m, args[i], args[i + 1], numbers[i + 1], s.max_robots_per_team) {
                    Ok(next) => {
                        lemma_development(args, numbers, i + 2, next, s);
                    },
                    Err(_) => {},
                }
            }
        } else if args[i] == "--replay"@ {
            if i + 1 < args.len() && !text::starts_with(args[i + 1], "-"@) {
                lemma_development(
                    args,
                    numbers,
                    i + 2,
                    m.with(ConfigModel { replay: Some(args[i + 1]), ..m.mc }),
                    s,
                );
            } else {
                lemma_development(
                    args,
                    numbers,
                    i + 1,
                    m.with(ConfigModel { replay: Some(made_up_path()), ..m.mc }),
                    s,
                );
            }
        } else if !asks_for_help(args[i]) {
            match with_flag(m, args[i], s.viewer) {
                Ok(next) => {
                    lemma_development(args, numbers, i + 1, next, s);
                },
                Err(_) => {},
            }
        }
    }
}

// ---------------------------------------------------------------------------
// Several matches

/// The seed of match `i`, going round at the end of `u64`.
pub open spec fn seed_of(seed: u64, i: nat) -> u64 {
    if seed + i > u64::MAX {
        (seed + i - u64::MAX - 1) as u64
    } else {
        (seed + i) as u64
    }
}

/// The matches of a batch have seeds of their own, one behind the other.
pub proof fn law_seeds_differ(seed: u64, i: nat, j: nat)
    requires
        i <= usize::MAX,
        j <= usize::MAX,
        i != j,
    ensures
        seed_of(seed, i) != seed_of(seed, j),
        seed + i <= u64::MAX ==> seed_of(seed, i) == seed + i,
{
}

/// Match `i` of those asked for. Each has a seed of its own, and each of several has files of its
/// own.
pub open spec fn is_match_of_batch(r: ConfigModel, m: ArgsModel, i: nat) -> bool {
    &&& r == (ConfigModel {
        seed: seed_of(m.mc.seed, i),
        log: r.log,
        replay: r.replay,
        ..m.mc
    })
    &&& r.log == (match m.mc.log {
        Some(base) if m.matches > 1 => Some(names::numbered_log(base, i)),
        other => other,
    })
    &&& match m.mc.replay {
        Some(base) if m.matches > 1 => r.replay matches Some(path) && names::is_numbered(
            base,
            i,
            path,
        ),
        other => r.replay == other,
    }
}

impl Args {
    /// Match `i` of those asked for.
    pub fn match_of_batch(&self, i: usize) -> (r: MatchConfig)
        ensures
            is_match_of_batch(r@, self@, i as nat),
    {
        let mut mc = self.mc.copy();
        mc.seed = self.mc.seed.wrapping_add(i as u64);
        if self.matches > 1 {
            match &self.mc.log {
                Some(base) => {
                    mc.log = Some(log_path(base.as_str(), i));
                },
                None => {},
            }
            match &self.mc.replay {
                Some(base) => {
                    mc.replay = Some(suffix_path(base.as_str(), i));
                },
                None => {},
            }
        }
        mc
    }
}

// ---------------------------------------------------------------------------
// Laws

proof fn lemma_options_differ()
    ensures
        "--blue"@.len() == 6,
        "--yellow"@.len() == 8,
        "--blue-bots"@.len() == 11,
        "--yellow-bots"@.len() == 13,
        "--seconds"@.len() == 9,
        "--div"@.len() == 5,
        "--seed"@.len() == 6,
        "--matches"@.len() == 9,
        "--log"@.len() == 5,
        "--summary"@.len() == 9,
        "--log-every"@.len() == 11,
        "--print-commands-every"@.len() == 22,
        "--record-interface"@.len() == 18,
        "--print-commands"@.len() == 16,
        "--validate-pickup"@.len() == 17,
        "--viewer"@.len() == 8,
        "--realtime"@.len() == 10,
        "--dev"@.len() == 5,
        "--quiet"@.len() == 7,
        "-h"@.len() == 2,
        "--help"@.len() == 6,
        "--replay"@.len() == 8,
        "--blue"@ != "--seed"@,
        "--blue"@ != "--help"@,
        "--yellow"@ != "--viewer"@,
        "--yellow"@ != "--replay"@,
        "--blue-bots"@ != "--log-every"@,
        "--seconds"@ != "--matches"@,
        "--seconds"@ != "--summary"@,
        "--div"@ != "--log"@,
        "--div"@ != "--dev"@,
        "--seed"@ != "--help"@,
        "--matches"@ != "--summary"@,
        "--log"@ != "--dev"@,
        "--viewer"@ != "--replay"@,
{
    reveal_strlit("--blue");
    reveal_strlit("--yellow");
    reveal_strlit("--blue-bots");
    reveal_strlit("--yellow-bots");
    reveal_strlit("--seconds");
    reveal_strlit("--div");
    reveal_strlit("--seed");
    reveal_strlit("--matches");
    reveal_strlit("--log");
    reveal_strlit("--summary");
    reveal_strlit("--log-every");
    reveal_strlit("--print-commands-every");
    reveal_strlit("--record-interface");
    reveal_strlit("--print-commands");
    reveal_strlit("--validate-pickup");
    reveal_strlit("--viewer");
    reveal_strlit("--realtime");
    reveal_strlit("--dev");
    reveal_strlit("--quiet");
    reveal_strlit("-h");
    reveal_strlit("--help");
    reveal_strlit("--replay");
    assert("--blue"@[2] != "--seed"@[2]);
    assert("--blue"@[2] != "--help"@[2]);
    assert("--yellow"@[2] != "--viewer"@[2]);
    assert("--yellow"@[2] != "--replay"@[2]);
    assert("--blue-bots"@[2] != "--log-every"@[2]);
    assert("--seconds"@[2] != "--matches"@[2]);
    assert("--seconds"@[3] != "--summary"@[3]);
    assert("--div"@[2] != "--log"@[2]);
    assert("--div"@[3] != "--dev"@[3]);
    assert("--seed"@[2] != "--help"@[2]);
    assert("--matches"@[2] != "--summary"@[2]);
    assert("--log"@[2] != "--dev"@[2]);
    assert("--viewer"@[2] != "--replay"@[2]);
}

/// Whether two configurations differ in nothing but what the sides are and how many robots they have,
/// how long the match lasts, and where and with what seed it is played.
pub open spec fn same_flags(a: ConfigModel, b: ConfigModel) -> bool {
    &&& a.interface_recording == b.interface_recording
    &&& a.quiet == b.quiet
    &&& a.viewer == b.viewer
    &&& a.realtime == b.realtime
    &&& a.dev == b.dev
    &&& a.teleport_ball_on_no_progress == b.teleport_ball_on_no_progress
    &&& a.print_commands == b.print_commands
    &&& a.validate_pickup == b.validate_pickup
}

pub open spec fn same_sides(a: ConfigModel, b: ConfigModel) -> bool {
    &&& a.blue == b.blue
    &&& a.yellow == b.yellow
    &&& a.blue_bots == b.blue_bots
    &&& a.yellow_bots == b.yellow_bots
}

pub open spec fn same_game(a: ConfigModel, b: ConfigModel) -> bool {
    &&& a.seconds == b.seconds
    &&& a.div == b.div
    &&& a.seed == b.seed
}

pub open spec fn same_records(a: ConfigModel, b: ConfigModel) -> bool {
    &&& a.log == b.log
    &&& a.replay == b.replay
    &&& a.log_every == b.log_every
    &&& a.print_commands_every == b.print_commands_every
}

/// The sides are told by `--blue` and `--yellow`, each of its own color; a name that no AI has is
/// refused.
pub proof fn law_sides_are_asked_for(m: ArgsModel, value: Seq<char>, n: Option<Double>, max: usize)
    ensures
        ({
            let r = with_value(m, "--blue"@, value, n, max);
            &&& r is Ok == kind_in(value) is Ok
            &&& r matches Ok(next) ==> kind_in(value) == Ok::<KindModel, Seq<char>>(next.mc.blue)
                && next.mc.yellow == m.mc.yellow && next.mc.blue_bots == m.mc.blue_bots
                && same_game(next.mc, m.mc) && same_records(next.mc, m.mc) && same_flags(
                next.mc,
                m.mc,
            ) && next.matches == m.matches && next.summary == m.summary
        }),
        ({
            let r = with_value(m, "--yellow"@, value, n, max);
            &&& r is Ok == kind_in(value) is Ok
            &&& r matches Ok(next) ==> kind_in(value) == Ok::<KindModel, Seq<char>>(next.mc.yellow)
                && next.mc.blue == m.mc.blue && next.mc.yellow_bots == m.mc.yellow_bots
                && same_game(next.mc, m.mc) && same_records(next.mc, m.mc) && same_flags(
                next.mc,
                m.mc,
            ) && next.matches == m.matches && next.summary == m.summary
        }),
{
    lemma_options_differ();
}

/// The numbers of robots are told by `--blue-bots` and `--yellow-bots`, and are refused where a team
/// cannot have as many.
pub proof fn law_robots_are_asked_for(m: ArgsModel, bots: usize, n: Option<Double>, max: usize)
    ensures
        ({
            let r = with_value(m, "--blue-bots"@, text::decimal(bots as nat), n, max);
            &&& r is Ok == (bots <= max)
            &&& r matches Ok(next) ==> next.mc.blue_bots == Some(bots) && next.mc.yellow_bots
                == m.mc.yellow_bots && next.mc.blue == m.mc.blue && next.mc.yellow == m.mc.yellow
                && same_game(next.mc, m.mc) && same_records(next.mc, m.mc) && same_flags(
                next.mc,
                m.mc,
            ) && next.matches == m.matches
        }),
        ({
            let r = with_value(m, "--yellow-bots"@, text::decimal(bots as nat), n, max);
            &&& r is Ok == (bots <= max)
            &&& r matches Ok(next) ==> next.mc.yellow_bots == Some(bots) && next.mc.blue_bots
                == m.mc.blue_bots && next.mc.blue == m.mc.blue && next.mc.yellow == m.mc.yellow
                && same_game(next.mc, m.mc) && same_records(next.mc, m.mc) && same_flags(
                next.mc,
                m.mc,
            ) && next.matches == m.matches
        }),
{
    text::law_decimal_round_trip(bots as nat, usize::MAX as nat);
    lemma_options_differ();
}

/// The length of a match, its division, its seed and how many are played are told by the options of
/// these names, each of which changes nothing else.
pub proof fn law_games_are_asked_for(
    m: ArgsModel,
    value: Seq<char>,
    number: Double,
    seed: u64,
    count: usize,
    max: usize,
)
    ensures
        ({
            let r = with_value(m, "--seconds"@, value, Some(number), max);
            &&& r matches Ok(next) && next.mc.seconds == number && next.mc.div == m.mc.div
                && next.mc.seed == m.mc.seed && same_sides(next.mc, m.mc) && same_records(
                next.mc,
                m.mc,
            ) && same_flags(next.mc, m.mc) && next.matches == m.matches
        }),
        with_value(m, "--seconds"@, value, None, max) is Err,
        ({
            let r = with_value(m, "--div"@, value, None, max);
            &&& r matches Ok(next) && (value.len() > 0 ==> next.mc.div == value[0]) && (value.len()
                == 0 ==> next.mc.div == 'b') && next.mc.seed == m.mc.seed && next.mc.seconds
                == m.mc.seconds && same_sides(next.mc, m.mc) && same_records(next.mc, m.mc)
                && same_flags(next.mc, m.mc) && next.matches == m.matches
        }),
        ({
            let r = with_value(m, "--seed"@, text::decimal(seed as nat), None, max);
            &&& r matches Ok(next) && next.mc.seed == seed && next.mc.div == m.mc.div
                && next.mc.seconds == m.mc.seconds && same_sides(next.mc, m.mc) && same_records(
                next.mc,
                m.mc,
            ) && same_flags(next.mc, m.mc) && next.matches == m.matches
        }),
        ({
            let r = with_value(m, "--matches"@, text::decimal(count as nat), None, max);
            &&& r matches Ok(next) && next.matches == count && next.mc == m.mc && next.summary
                == m.summary
        }),
{
    text::law_decimal_round_trip(seed as nat, u64::MAX as nat);
    text::law_decimal_round_trip(count as nat, usize::MAX as nat);
    lemma_options_differ();
}

/// What is written down and how often is told by the options of these names.
pub proof fn law_records_are_asked_for(m: ArgsModel, value: Seq<char>, every: u64, max: usize)
    ensures
        ({
            let r = with_value(m, "--log"@, value, None, max);
            &&& r matches Ok(next) && next.mc.log == Some(value) && next.mc.replay == m.mc.replay
                && next.mc.log_every == m.mc.log_every && same_sides(next.mc, m.mc) && same_game(
                next.mc,
                m.mc,
            ) && same_flags(next.mc, m.mc) && next.summary == m.summary
        }),
        ({
            let r = with_value(m, "--summary"@, value, None, max);
            &&& r matches Ok(next) && next.summary == Some(value) && next.mc == m.mc && next.matches
                == m.matches
        }),
        ({
            let r = with_value(m, "--log-every"@, text::decimal(every as nat), None, max);
            &&& r matches Ok(next) && next.mc.log_every == every && next.mc.print_commands_every
                == m.mc.print_commands_every && next.mc.log == m.mc.log && same_sides(
                next.mc,
                m.mc,
            ) && same_game(next.mc, m.mc) && same_flags(next.mc, m.mc)
        }),
        ({
            let r = with_value(m, "--print-commands-every"@, text::decimal(every as nat), None, max);
            &&& r matches Ok(next) && next.mc.print_commands_every == every && next.mc.log_every
                == m.mc.log_every && next.mc.log == m.mc.log && same_sides(next.mc, m.mc)
                && same_game(next.mc, m.mc) && same_flags(next.mc, m.mc)
        }),
{
    text::law_decimal_round_trip(every as nat, u64::MAX as nat);
    lemma_options_differ();
}

/// Whether one flag is up that may have been down, and the rest of a configuration is as it was.
pub open spec fn same_but_flags(a: ArgsModel, b: ArgsModel) -> bool {
    &&& same_sides(a.mc, b.mc)
    &&& same_game(a.mc, b.mc)
    &&& same_records(a.mc, b.mc)
    &&& a.matches == b.matches
    &&& a.summary == b.summary
}

/// Each option without a value switches on what it names.
pub proof fn law_flags_switch_on_what_they_name(m: ArgsModel, viewer: bool)
    ensures
        with_flag(m, "--record-interface"@, viewer) matches Ok(next) && same_but_flags(next, m)
            && next.mc.interface_recording && next.mc.viewer && next.mc.quiet == m.mc.quiet
            && next.mc.realtime == m.mc.realtime && next.mc.dev == m.mc.dev,
        with_flag(m, "--print-commands"@, viewer) matches Ok(next) && same_but_flags(next, m)
            && next.mc.print_commands && next.mc.validate_pickup == m.mc.validate_pickup
            && next.mc.viewer == m.mc.viewer && next.mc.quiet == m.mc.quiet && next.mc.dev
            == m.mc.dev,
        with_flag(m, "--validate-pickup"@, viewer) matches Ok(next) && same_but_flags(next, m)
            && next.mc.validate_pickup && next.mc.print_commands == m.mc.print_commands
            && next.mc.viewer == m.mc.viewer && next.mc.quiet == m.mc.quiet && next.mc.dev
            == m.mc.dev,
        with_flag(m, "--viewer"@, viewer) matches Ok(next) && same_but_flags(next, m)
            && next.mc.viewer && next.mc.realtime == m.mc.realtime && next.mc.dev == m.mc.dev
            && next.mc.interface_recording == m.mc.interface_recording,
        with_flag(m, "--realtime"@, viewer) matches Ok(next) && same_but_flags(next, m)
            && next.mc.realtime && next.mc.viewer == m.mc.viewer && next.mc.dev == m.mc.dev,
        with_flag(m, "--quiet"@, viewer) matches Ok(next) && same_but_flags(next, m)
            && next.mc.quiet && next.mc.viewer == m.mc.viewer && next.mc.dev == m.mc.dev,
        with_flag(m, "--dev"@, viewer) is Ok == viewer,
        with_flag(m, "--dev"@, true) matches Ok(next) && same_but_flags(next, m) && next.mc.dev
            && next.mc.viewer && next.mc.realtime && !next.mc.teleport_ball_on_no_progress
            && next.mc.quiet == m.mc.quiet,
{
    lemma_options_differ();
}

/// An option with its value comes to what the value says; a replay may have a path of its own, and
/// has one made up where none follows, or another option does. Help is given wherever it is asked for
/// first.
pub proof fn law_options_are_read(
    flag: Seq<char>,
    value: Seq<char>,
    numbers: Seq<Option<Double>>,
    s: Surroundings,
)
    ensures
        takes_value(flag) ==> options(seq![flag, value], numbers, 0, ArgsModel::initial(), s) == (
        match with_value(ArgsModel::initial(), flag, value, numbers[1], s.max_robots_per_team) {
            Ok(m) => Ok::<ParsedModel, Seq<char>>(ParsedModel::Run(m)),
            Err(e) => Err::<ParsedModel, Seq<char>>(e),
        }),
        takes_value(flag) ==> options(seq![flag], numbers, 0, ArgsModel::initial(), s) is Err,
        options(Seq::empty(), numbers, 0, ArgsModel::initial(), s) == Ok::<ParsedModel, Seq<char>>(
            ParsedModel::Run(ArgsModel::initial()),
        ),
{
    reveal_with_fuel(options, 3);
}

/// Help is asked for by `-h` and by `--help`.
pub proof fn law_help_is_given(rest: Seq<Seq<char>>, numbers: Seq<Option<Double>>, s: Surroundings)
    ensures
        parsed(seq!["-h"@] + rest, numbers, s) == Ok::<ParsedModel, Seq<char>>(ParsedModel::Help),
        parsed(seq!["--help"@] + rest, numbers, s) == Ok::<ParsedModel, Seq<char>>(
            ParsedModel::Help,
        ),
{
    lemma_options_differ();
    assert((seq!["-h"@] + rest)[0] == "-h"@);
    assert((seq!["--help"@] + rest)[0] == "--help"@);
}

/// A replay goes to the path that follows the option, unless that is another option; then, and where
/// nothing follows, a path is made up of the sides, the division, the seed and the time.
pub proof fn law_replays_are_asked_for(path: Seq<char>, numbers: Seq<Option<Double>>, s: Surroundings)
    requires
        !text::starts_with(path, "-"@),
        path != made_up_path(),
    ensures
        parsed(seq!["--replay"@, path], numbers, s) matches Ok(ParsedModel::Run(m)) && m.mc.replay
            == Some(path) && same_flags(m.mc, ConfigModel::initial()) && same_sides(
            m.mc,
            ConfigModel::initial(),
        ) && same_game(m.mc, ConfigModel::initial()),
        parsed(seq!["--replay"@], numbers, s) matches Ok(ParsedModel::Run(m)) && m.mc.replay == Some(
            names::default_path("bangka"@, "bangka"@, 'b', 1, s.timestamp),
        ),
{
    lemma_options_differ();
    reveal_with_fuel(options, 3);
}

/// A match of a batch is played as all of them are, but with a seed of its own and into files of its
/// own; a single match has the files that were named.
pub proof fn law_matches_of_a_batch(r: ConfigModel, m: ArgsModel, i: nat)
    requires
        is_match_of_batch(r, m, i),
    ensures
        same_sides(r, m.mc),
        same_flags(r, m.mc),
        r.seconds == m.mc.seconds && r.div == m.mc.div,
        r.log_every == m.mc.log_every,
        m.mc.seed + i <= u64::MAX ==> r.seed == m.mc.seed + i,
        r.log is Some == m.mc.log is Some,
        r.replay is Some == m.mc.replay is Some,
        m.matches <= 1 ==> r.log == m.mc.log && r.replay == m.mc.replay,
{
}

/// What is said of arguments is said of their own parts.
pub proof fn law_arguments_are_seen_as_they_are(a: Args, p: Parsed)
    ensures
        a@.mc.blue == a.mc.blue@,
        a@.mc.yellow == a.mc.yellow@,
        a@.mc.seed == a.mc.seed,
        a@.matches == a.matches,
        a@.summary is Some == a.summary is Some,
        a.summary is Some ==> a@.summary->0 == a.summary->0@,
        p is Help == p@ is Help,
        p matches Parsed::Run(args) ==> p@ == ParsedModel::Run(args@),
{
}

} // verus!
