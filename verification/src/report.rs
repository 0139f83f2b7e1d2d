//! What a match prints while it goes on: the robots' commands, and the state of the world.
//!
//! Numbers come in as texts where they are printed with decimals.

use vstd::prelude::*;
use crate::config::MatchConfig;
use crate::number::Double;
use crate::state::{MoveCommand, RobotCommand, RobotState};
use crate::text;
use crate::text::{concat_text, decimal_text, join_texts, parse_unsigned, split_text_once};

verus! {

// ---------------------------------------------------------------------------
// When something is printed

pub open spec fn u64_number(s: Seq<char>) -> Option<u64> {
    match text::unsigned_number(s, u64::MAX as nat) {
        Some(n) => Some(n as u64),
        None => None,
    }
}

/// The frames that `<first>:<last>` names.
pub open spec fn frame_range(value: Seq<char>) -> Option<(u64, u64)> {
    match text::split_once(value, ':') {
        Some((start, end)) => match (u64_number(start), u64_number(end)) {
            (Some(a), Some(b)) => Some((a, b)),
            _ => None,
        },
        None => None,
    }
}

pub fn parse_frame_range(value: &str) -> (r: Option<(u64, u64)>)
    ensures
        r == frame_range(value@),
{
    match split_text_once(value, ':') {
        Some((start, end)) => match parse_unsigned(start.as_str(), u64::MAX) {
            Some(a) => match parse_unsigned(end.as_str(), u64::MAX) {
                Some(b) => Some((a, b)),
                None => None,
            },
            None => None,
        },
        None => None,
    }
}

/// How much is printed of a frame's state.
#[derive(Debug, Clone, Copy, PartialEq, Eq, Structural)]
pub enum StateReport {
    Nothing,
    Summary,
    /// The summary, and each yellow robot.
    WithRobots,
}

/// A summary is printed every so many frames.
pub const SUMMARY_EVERY: u64 = 120;

pub open spec fn in_window(frame: u64, window: Option<Seq<char>>) -> bool {
    match window {
        Some(value) => match frame_range(value) {
            Some((start, end)) => start <= frame <= end,
            None => false,
        },
        None => false,
    }
}

/// What `MATCH_DEBUG_FRAMES`, set to `window`, and `MATCH_DEBUG`, set or not, ask for.
pub open spec fn report_of(frame: u64, window: Option<Seq<char>>, debug_set: bool) -> StateReport {
    if in_window(frame, window) {
        StateReport::WithRobots
    } else if debug_set && frame as int % SUMMARY_EVERY as int == 0 {
        StateReport::Summary
    } else {
        StateReport::Nothing
    }
}

pub fn maybe_debug_match_state(frame: u64, window: Option<&str>, debug_set: bool) -> (r: StateReport)
    ensures
        r == report_of(
            frame,
            match window {
                Some(w) => Some(w@),
                None => None,
            },
            debug_set,
        ),
{
    let inside = match window {
        Some(value) => match parse_frame_range(value) {
            Some((start, end)) => frame >= start && frame <= end,
            None => false,
        },
        None => false,
    };
    if inside {
        StateReport::WithRobots
    } else if debug_set && frame % SUMMARY_EVERY == 0 {
        StateReport::Summary
    } else {
        StateReport::Nothing
    }
}

/// Whether the robots' commands are printed at `frame`. `asked` is whether `MATCH_PRINT_COMMANDS`
/// is set.
pub open spec fn prints_commands(mc: MatchConfig, asked: bool, frame: u64) -> bool {
    let every = if mc.print_commands_every < 1 {
        1int
    } else {
        mc.print_commands_every as int
    };
    (mc.print_commands || asked) && frame as int % every == 0
}

pub fn maybe_print_commands(mc: &MatchConfig, asked: bool, frame: u64) -> (r: bool)
    ensures
        r == prints_commands(*mc, asked, frame),
{
    if !mc.print_commands && !asked {
        return false;
    }
    let every: u64 = if mc.print_commands_every < 1 {
        1
    } else {
        mc.print_commands_every
    };
    frame % every == 0
}

// ---------------------------------------------------------------------------
// The state of the world

/// The first of the smallest distances. A distance that is no number is taken to be as near as any
/// other.
pub open spec fn nearest(distances: Seq<Double>) -> Option<int>
    decreases distances.len(),
{
    if distances.len() == 0 {
        None
    } else {
        match nearest(distances.drop_last()) {
            Some(i) => if distances.last().less(distances[i]) {
                Some(distances.len() - 1)
            } else {
                Some(i)
            },
            None => Some(0),
        }
    }
}

pub fn nearest_of(distances: &[Double]) -> (r: Option<usize>)
    ensures
        match r {
            Some(i) => nearest(distances@) == Some(i as int) && i < distances@.len(),
            None => nearest(distances@) is None && distances@.len() == 0,
        },
{
    let mut best: Option<usize> = None;
    let mut k: usize = 0;
    while k < distances.len()
        invariant
            k <= distances@.len(),
            match best {
                Some(i) => nearest(distances@.take(k as int)) == Some(i as int) && i < k,
                None => k == 0,
            },
        decreases distances@.len() - k,
    {
        proof {
            let longer = distances@.take(k + 1);
            assert(longer.drop_last() == distances@.take(k as int));
            assert(longer.last() == distances@[k as int]);
        }
        match best {
            Some(i) => {
                assert(distances@.take(k as int)[i as int] == distances@[i as int]);
                if distances[k].is_less(distances[i]) {
                    best = Some(k);
                }
            },
            None => {
                best = Some(0);
            },
        }
        k += 1;
    }
    assert(distances@.take(k as int) == distances@);
    best
}

/// Where all distances are numbers, none is smaller than the nearest one.
pub proof fn law_nearest_is_smallest(distances: Seq<Double>)
    requires
        forall|i: int| 0 <= i < distances.len() ==> !(#[trigger] distances[i]).is_nan_spec(),
    ensures
        distances.len() > 0 ==> nearest(distances) is Some,
        nearest(distances) matches Some(n) ==> 0 <= n < distances.len() && forall|i: int|
            0 <= i < distances.len() ==> !(#[trigger] distances[i]).less(distances[n]),
    decreases distances.len(),
{
    if distances.len() > 0 {
        let short = distances.drop_last();
        assert forall|i: int| 0 <= i < short.len() implies !(#[trigger] short[i]).is_nan_spec() by {
            assert(short[i] == distances[i]);
        }
        law_nearest_is_smallest(short);
        match nearest(short) {
            Some(n) => {
                assert forall|i: int| 0 <= i < distances.len() implies !(
                #[trigger] distances[i]).less(distances[nearest(distances)->0]) by {
                    if i < short.len() {
                        assert(short[i] == distances[i]);
                        assert(short[n] == distances[n]);
                    }
                }
            },
            None => {},
        }
    }
}

pub open spec fn count_infrared(robots: Seq<RobotState>) -> nat
    decreases robots.len(),
{
    if robots.len() == 0 {
        0
    } else {
        count_infrared(robots.drop_last()) + if robots.last().infrared {
            1nat
        } else {
            0nat
        }
    }
}

pub open spec fn count_dribbling(robots: Seq<RobotState>) -> nat
    decreases robots.len(),
{
    if robots.len() == 0 {
        0
    } else {
        count_dribbling(robots.drop_last()) + if robots.last().dribbler_on {
            1nat
        } else {
            0nat
        }
    }
}

/// How many robots see the ball, and how many dribble.
pub fn count_robots(robots: &Vec<RobotState>) -> (r: (usize, usize))
    ensures
        r.0 == count_infrared(robots@),
        r.1 == count_dribbling(robots@),
{
    let mut infrared: usize = 0;
    let mut dribbling: usize = 0;
    let mut i: usize = 0;
    while i < robots.len()
        invariant
            infrared <= i <= robots@.len(),
            dribbling <= i,
            infrared == count_infrared(robots@.take(i as int)),
            dribbling == count_dribbling(robots@.take(i as int)),
        decreases robots@.len() - i,
    {
        proof {
            let longer = robots@.take(i + 1);
            assert(longer.drop_last() == robots@.take(i as int));
            assert(longer.last() == robots@[i as int]);
        }
        if robots[i].infrared {
            infrared += 1;
        }
        if robots[i].dribbler_on {
            dribbling += 1;
        }
        i += 1;
    }
    assert(robots@.take(i as int) == robots@);
    (infrared, dribbling)
}

/// What a summary says of one side.
#[derive(Debug, Clone, Copy, PartialEq, Eq, Structural)]
pub struct SideSummary {
    pub infrared: usize,
    pub dribbling: usize,
    /// The robot nearest to the ball, and its distance.
    pub nearest_id: usize,
    pub nearest_distance: Double,
}

/// What a summary says of a side without robots near the ball: no robot, no distance.
pub open spec fn summary_of(robots: Seq<RobotState>, distances: Seq<Double>) -> SideSummary {
    SideSummary {
        infrared: count_infrared(robots) as usize,
        dribbling: count_dribbling(robots) as usize,
        nearest_id: match nearest(distances) {
            Some(i) => robots[i].id,
            None => usize::MAX,
        },
        nearest_distance: match nearest(distances) {
            Some(i) => distances[i],
            None => Double { bits: crate::number::INFINITY_BITS },
        },
    }
}

/// What a summary says of one side, given each robot's distance to the ball.
pub fn summarize_side(robots: &Vec<RobotState>, distances: &[Double]) -> (r: SideSummary)
    requires
        distances@.len() == robots@.len(),
    ensures
        r == summary_of(robots@, distances@),
{
    let (infrared, dribbling) = count_robots(robots);
    match nearest_of(distances) {
        Some(i) => SideSummary {
            infrared,
            dribbling,
            nearest_id: robots[i].id,
            nearest_distance: distances[i],
        },
        None => SideSummary {
            infrared,
            dribbling,
            nearest_id: usize::MAX,
            nearest_distance: Double { bits: crate::number::INFINITY_BITS },
        },
    }
}

// ---------------------------------------------------------------------------
// Commands

/// What counts as kicking: more than a millionth of a metre a second.
pub const KICK_THRESHOLD_BITS: u64 = 0x3eb0_c6f7_a0b5_ed8d;

pub open spec fn kicks(command: RobotCommand) -> bool {
    (Double { bits: KICK_THRESHOLD_BITS }).less(command.kick_speed.unsigned())
}

/// Whether a command moves, kicks or dribbles.
pub open spec fn is_active(command: RobotCommand) -> bool {
    command.move_command is Some || kicks(command) || command.dribbler_on
}

pub fn command_is_active(command: &RobotCommand) -> (r: bool)
    ensures
        r == is_active(*command),
{
    command.move_command.is_some() || (Double { bits: KICK_THRESHOLD_BITS }).is_less(
        command.kick_speed.abs(),
    ) || command.dribbler_on
}

/// The numbers of a command as they are printed: those of the motion in order, with two decimals
/// (one for wheels), the kick's speed with two and its angle with none.
pub struct CommandNumbers {
    pub motion: Vec<String>,
    pub kick_speed: String,
    pub kick_angle: String,
}

pub open spec fn motion_numbers(command: MoveCommand) -> nat {
    match command {
        MoveCommand::LocalVelocity { .. } => 3,
        MoveCommand::GlobalVelocity { .. } => 3,
        MoveCommand::WheelVelocity(_) => 4,
    }
}

pub open spec fn numbers_fit(command: RobotCommand, numbers: CommandNumbers) -> bool {
    command.move_command matches Some(m) ==> numbers.motion@.len() == motion_numbers(m)
}

pub open spec fn motion_text(command: MoveCommand, numbers: Seq<String>) -> Seq<char> {
    match command {
        MoveCommand::LocalVelocity { .. } => "local f="@ + numbers[0]@ + " l="@ + numbers[1]@
            + " w="@ + numbers[2]@,
        MoveCommand::GlobalVelocity { .. } => "global vx="@ + numbers[0]@ + " vy="@ + numbers[1]@
            + " w="@ + numbers[2]@,
        MoveCommand::WheelVelocity(_) => "wheels ["@ + numbers[0]@ + ","@ + numbers[1]@ + ","@
            + numbers[2]@ + ","@ + numbers[3]@ + "]"@,
    }
}

fn then_text(head: String, middle: &str, tail: &str) -> (r: String)
    ensures
        r@ == head@ + middle@ + tail@,
{
    concat_text(concat_text(head.as_str(), middle).as_str(), tail)
}

pub fn format_move_command(command: &MoveCommand, numbers: &Vec<String>) -> (r: String)
    requires
        numbers@.len() == motion_numbers(*command),
    ensures
        r@ == motion_text(*command, numbers@),
{
    match command {
        MoveCommand::LocalVelocity { .. } => {
            let head = concat_text("local f=", numbers[0].as_str());
            let head = then_text(head, " l=", numbers[1].as_str());
            then_text(head, " w=", numbers[2].as_str())
        },
        MoveCommand::GlobalVelocity { .. } => {
            let head = concat_text("global vx=", numbers[0].as_str());
            let head = then_text(head, " vy=", numbers[1].as_str());
            then_text(head, " w=", numbers[2].as_str())
        },
        MoveCommand::WheelVelocity(_) => {
            let head = concat_text("wheels [", numbers[0].as_str());
            let head = then_text(head, ",", numbers[1].as_str());
            let head = then_text(head, ",", numbers[2].as_str());
            let head = then_text(head, ",", numbers[3].as_str());
            concat_text(head.as_str(), "]")
        },
    }
}

pub open spec fn command_text(command: RobotCommand, numbers: CommandNumbers) -> Seq<char> {
    let motion = match command.move_command {
        Some(m) => motion_text(m, numbers.motion@),
        None => "hold"@,
    };
    "#"@ + text::decimal(command.id as nat) + " "@ + motion + (if command.dribbler_on {
        " drib"@
    } else {
        Seq::empty()
    }) + (if kicks(command) {
        " kick="@ + numbers.kick_speed@ + "m/s@"@ + numbers.kick_angle@ + "deg"@
    } else {
        Seq::empty()
    })
}

pub fn format_robot_command(command: &RobotCommand, numbers: &CommandNumbers) -> (r: String)
    requires
        numbers_fit(*command, *numbers),
    ensures
        r@ == command_text(*command, *numbers),
{
    let motion = match &command.move_command {
        Some(m) => format_move_command(m, &numbers.motion),
        None => "hold".to_owned(),
    };
    let id = decimal_text(command.id as u64);
    let mut line = then_text(concat_text("#", id.as_str()), " ", motion.as_str());
    let ghost so_far = line@;
    if command.dribbler_on {
        line = concat_text(line.as_str(), " drib");
    }
    assert(line@ =~= so_far + (if command.dribbler_on {
        " drib"@
    } else {
        Seq::empty()
    }));
    let ghost so_far = line@;
    if (Double { bits: KICK_THRESHOLD_BITS }).is_less(command.kick_speed.abs()) {
        let kick = then_text(
            concat_text(" kick=", numbers.kick_speed.as_str()),
            "m/s@",
            numbers.kick_angle.as_str(),
        );
        let kick = concat_text(kick.as_str(), "deg");
        line = concat_text(line.as_str(), kick.as_str());
    } else {
        assert(so_far =~= so_far + Seq::<char>::empty());
    }
    line
}

/// The place of the first command for robot `id`.
pub open spec fn command_place(commands: Seq<RobotCommand>, id: usize) -> Option<int>
    decreases commands.len(),
{
    if commands.len() == 0 {
        None
    } else {
        match command_place(commands.drop_last(), id) {
            Some(i) => Some(i),
            None => if commands.last().id == id {
                Some(commands.len() - 1)
            } else {
                None
            },
        }
    }
}

pub fn find_command(commands: &[RobotCommand], id: usize) -> (r: Option<usize>)
    ensures
        match r {
            Some(i) => command_place(commands@, id) == Some(i as int) && i < commands@.len(),
            None => command_place(commands@, id) is None,
        },
{
    let mut found: Option<usize> = None;
    let mut k: usize = 0;
    while k < commands.len()
        invariant
            k <= commands@.len(),
            match found {
                Some(i) => command_place(commands@.take(k as int), id) == Some(i as int) && i < k,
                None => command_place(commands@.take(k as int), id) is None,
            },
        decreases commands@.len() - k,
    {
        proof {
            let longer = commands@.take(k + 1);
            assert(longer.drop_last() == commands@.take(k as int));
            assert(longer.last() == commands@[k as int]);
        }
        if found.is_none() && commands[k].id == id {
            found = Some(k);
        }
        k += 1;
    }
    assert(commands@.take(k as int) == commands@);
    found
}

pub open spec fn all_numbers_fit(commands: Seq<RobotCommand>, numbers: Seq<CommandNumbers>) -> bool {
    &&& numbers.len() == commands.len()
    &&& forall|i: int| 0 <= i < commands.len() ==> numbers_fit(commands[i], #[trigger] numbers[i])
}

pub open spec fn text_of_robot(
    commands: Seq<RobotCommand>,
    numbers: Seq<CommandNumbers>,
    id: usize,
) -> Seq<char> {
    match command_place(commands, id) {
        Some(i) => command_text(commands[i], numbers[i]),
        None => "<missing>"@,
    }
}

/// The command of robot `id` as it is printed.
pub fn format_optional_robot_command(
    commands: &[RobotCommand],
    numbers: &Vec<CommandNumbers>,
    id: usize,
) -> (r: String)
    requires
        all_numbers_fit(commands@, numbers@),
    ensures
        r@ == text_of_robot(commands@, numbers@, id),
{
    match find_command(commands, id) {
        Some(i) => format_robot_command(&commands[i], &numbers[i]),
        None => "<missing>".to_owned(),
    }
}

/// The commands that do something, as they are printed.
pub open spec fn active_texts(commands: Seq<RobotCommand>, numbers: Seq<CommandNumbers>) -> Seq<
    Seq<char>,
>
    decreases commands.len(),
{
    if commands.len() == 0 {
        Seq::empty()
    } else {
        let before = active_texts(commands.drop_last(), numbers);
        let i = commands.len() - 1;
        if is_active(commands[i]) {
            before.push(command_text(commands[i], numbers[i]))
        } else {
            before
        }
    }
}

pub open spec fn team_line(
    team: Seq<char>,
    commands: Seq<RobotCommand>,
    numbers: Seq<CommandNumbers>,
) -> Seq<char> {
    let active = active_texts(commands, numbers);
    "  "@ + team + ": "@ + (if active.len() == 0 {
        "<none>"@
    } else {
        text::joined(active, " | "@)
    })
}

/// The line of one side's commands.
pub fn print_team_commands(
    team: &str,
    commands: &[RobotCommand],
    numbers: &Vec<CommandNumbers>,
) -> (r: String)
    requires
        all_numbers_fit(commands@, numbers@),
    ensures
        r@ == team_line(team@, commands@, numbers@),
{
    let mut active: Vec<String> = Vec::new();
    let mut i: usize = 0;
    assert(text::texts(active@) =~= Seq::<Seq<char>>::empty());
    while i < commands.len()
        invariant
            all_numbers_fit(commands@, numbers@),
            i <= commands@.len(),
            text::texts(active@) == active_texts(commands@.take(i as int), numbers@),
        decreases commands@.len() - i,
    {
        proof {
            let longer = commands@.take(i + 1);
            assert(longer.drop_last() == commands@.take(i as int));
            assert(longer.last() == commands@[i as int]);
            assert(numbers_fit(commands@[i as int], numbers@[i as int]));
        }
        if command_is_active(&commands[i]) {
            let ghost before = text::texts(active@);
            let line = format_robot_command(&commands[i], &numbers[i]);
            active.push(line);
            assert(text::texts(active@) =~= before.push(line@));
        }
        i += 1;
    }
    assert(commands@.take(i as int) == commands@);
    let head = concat_text(concat_text("  ", team).as_str(), ": ");
    if active.len() == 0 {
        concat_text(head.as_str(), "<none>")
    } else {
        let list = join_texts(active.as_slice(), " | ");
        concat_text(head.as_str(), list.as_str())
    }
}

// ---------------------------------------------------------------------------
// Laws

/// `<first>:<last>` names the frames from the first to the last, both of which belong to them.
pub proof fn law_windows_of_frames(first: u64, last: u64, frame: u64)
    ensures
        frame_range(text::decimal(first as nat) + seq![':'] + text::decimal(last as nat)) == Some(
            (first, last),
        ),
        in_window(
            frame,
            Some(text::decimal(first as nat) + seq![':'] + text::decimal(last as nat)),
        ) == (first <= frame && frame <= last),
        !in_window(frame, None),
{
    let a = text::decimal(first as nat);
    let b = text::decimal(last as nat);
    let s = a + seq![':'] + b;
    text::lemma_decimal_digits(first as nat);
    text::law_decimal_round_trip(first as nat, u64::MAX as nat);
    text::law_decimal_round_trip(last as nat, u64::MAX as nat);
    assert forall|j: int| 0 <= j < a.len() implies s[j] != ':' by {
        assert(s[j] == a[j]);
    }
    text::lemma_first_at_unique(s, ':', a.len() as int);
    assert(s.take(a.len() as int) =~= a);
    assert(s.skip(a.len() + 1int) =~= b);
}

/// A frame in the window is told of with its robots; another is told of in short where that is asked
/// for and the frame's number is a multiple of 120, and is not told of otherwise.
pub proof fn law_what_is_told_of_a_frame(
    frame: u64,
    window: Option<Seq<char>>,
    debug_set: bool,
    k: u64,
)
    ensures
        in_window(frame, window) ==> report_of(frame, window, debug_set) is WithRobots,
        !in_window(frame, window) && !debug_set ==> report_of(frame, window, debug_set) is Nothing,
        !in_window(frame, window) && debug_set && frame == 120 * k ==> report_of(
            frame,
            window,
            debug_set,
        ) is Summary,
        !in_window(frame, window) && 120 * k < frame < 120 * k + 120 ==> report_of(
            frame,
            window,
            debug_set,
        ) is Nothing,
{
}

/// Commands are told every so many frames, where the match or its surroundings ask for them; every
/// frame, where they are asked for every so many as none.
pub proof fn law_when_commands_are_told(mc: MatchConfig, asked: bool, frame: u64)
    ensures
        !mc.print_commands && !asked ==> !prints_commands(mc, asked, frame),
        mc.print_commands || asked ==> prints_commands(mc, asked, 0),
        (mc.print_commands || asked) && mc.print_commands_every <= 1 ==> prints_commands(
            mc,
            asked,
            frame,
        ),
        (mc.print_commands || asked) && frame == mc.print_commands_every ==> prints_commands(
            mc,
            asked,
            frame,
        ),
        0 < frame < mc.print_commands_every ==> !prints_commands(mc, asked, frame),
{
    let every = mc.print_commands_every as int;
    if every > 0 {
        vstd::arithmetic::div_mod::lemma_mod_self_0(every);
        if frame < every {
            vstd::arithmetic::div_mod::lemma_small_mod(frame as nat, every as nat);
        }
        vstd::arithmetic::div_mod::lemma_small_mod(0, every as nat);
    }
}

/// Of several that are equally near the first is the nearest: every one before it is farther off.
pub proof fn law_the_first_of_the_nearest(distances: Seq<Double>)
    requires
        forall|i: int| 0 <= i < distances.len() ==> !(#[trigger] distances[i]).is_nan_spec(),
    ensures
        nearest(distances) matches Some(n) ==> forall|i: int|
            0 <= i < n ==> distances[n].less(#[trigger] distances[i]),
        distances.len() == 0 ==> nearest(distances) is None,
    decreases distances.len(),
{
    if distances.len() > 0 {
        let short = distances.drop_last();
        assert forall|i: int| 0 <= i < short.len() implies !(#[trigger] short[i]).is_nan_spec() by {
            assert(short[i] == distances[i]);
        }
        law_the_first_of_the_nearest(short);
        law_nearest_is_smallest(short);
        match nearest(short) {
            Some(n) => {
                let k = nearest(distances)->0;
                assert forall|i: int| 0 <= i < k implies distances[k].less(
                    #[trigger] distances[i],
                ) by {
                    assert(short[i] == distances[i]);
                    assert(short[n] == distances[n]);
                    assert(!distances[i].is_nan_spec() && !distances[n].is_nan_spec()
                        && !distances[k].is_nan_spec());
                }
            },
            None => {},
        }
    }
}

/// A robot is counted as seeing the ball where it does, and as dribbling where it does.
pub proof fn law_robots_are_counted(robots: Seq<RobotState>, robot: RobotState)
    ensures
        count_infrared(Seq::empty()) == 0,
        count_dribbling(Seq::empty()) == 0,
        count_infrared(robots.push(robot)) == count_infrared(robots) + (if robot.infrared {
            1nat
        } else {
            0
        }),
        count_dribbling(robots.push(robot)) == count_dribbling(robots) + (if robot.dribbler_on {
            1nat
        } else {
            0
        }),
        count_infrared(robots) <= robots.len(),
        count_dribbling(robots) <= robots.len(),
    decreases robots.len(),
{
    assert(robots.push(robot).drop_last() =~= robots);
    if robots.len() > 0 {
        law_robots_are_counted(robots.drop_last(), robot);
    }
}

/// A summary counts the side's robots that see the ball and those that dribble, and names the robot
/// nearest to the ball with its own distance; a side without robots has none at no distance.
pub proof fn law_summaries(robots: Seq<RobotState>, distances: Seq<Double>)
    requires
        robots.len() <= usize::MAX,
    ensures
        summary_of(robots, distances).infrared as nat == count_infrared(robots),
        summary_of(robots, distances).dribbling as nat == count_dribbling(robots),
        nearest(distances) matches Some(i) ==> summary_of(robots, distances).nearest_id
            == robots[i].id && summary_of(robots, distances).nearest_distance == distances[i],
        distances.len() == 0 ==> summary_of(robots, distances).nearest_distance.bits
            == 0x7ff0_0000_0000_0000 && summary_of(robots, distances).nearest_id == usize::MAX,
{
    if robots.len() > 0 {
        law_robots_are_counted(robots, robots[0]);
    }
}

/// A command does something where it moves, dribbles or kicks harder than a millionth of a metre a
/// second, and only then.
pub proof fn law_commands_that_do_something(c: RobotCommand)
    ensures
        c.move_command is Some ==> is_active(c),
        c.dribbler_on ==> is_active(c),
        kicks(c) ==> is_active(c),
        c.move_command is None && !c.dribbler_on && c.kick_speed.bits == 0 ==> !is_active(c),
        kicks(c) == (Double { bits: 0x3eb0_c6f7_a0b5_ed8d }).less(c.kick_speed.unsigned()),
{
}

/// A motion is told with its numbers in their order, under the names that they have in its frame.
pub proof fn law_motions_are_told_with_their_numbers(m: MoveCommand, n: Seq<String>)
    ensures
        m is LocalVelocity ==> motion_numbers(m) == 3 && motion_text(m, n) == "local f="@ + n[0]@
            + " l="@ + n[1]@ + " w="@ + n[2]@,
        m is GlobalVelocity ==> motion_numbers(m) == 3 && motion_text(m, n) == "global vx="@
            + n[0]@ + " vy="@ + n[1]@ + " w="@ + n[2]@,
        m is WheelVelocity ==> motion_numbers(m) == 4 && motion_text(m, n) == "wheels ["@ + n[0]@
            + ","@ + n[1]@ + ","@ + n[2]@ + ","@ + n[3]@ + "]"@,
{
}

/// A command is told under its robot's number, with its motion, and with its dribbler and its kick
/// where it has them.
pub proof fn law_commands_are_told_with_what_they_do(c: RobotCommand, n: CommandNumbers)
    ensures
        ({
            let head = "#"@ + text::decimal(c.id as nat) + " "@;
            let motion = if c.move_command is Some {
                motion_text(c.move_command->0, n.motion@)
            } else {
                "hold"@
            };
            let kick = " kick="@ + n.kick_speed@ + "m/s@"@ + n.kick_angle@ + "deg"@;
            &&& !c.dribbler_on && !kicks(c) ==> command_text(c, n) == head + motion
            &&& c.dribbler_on && !kicks(c) ==> command_text(c, n) == head + motion + " drib"@
            &&& !c.dribbler_on && kicks(c) ==> command_text(c, n) == head + motion + kick
            &&& c.dribbler_on && kicks(c) ==> command_text(c, n) == head + motion + " drib"@ + kick
        }),
{
    let head = "#"@ + text::decimal(c.id as nat) + " "@;
    let motion = if c.move_command is Some {
        motion_text(c.move_command->0, n.motion@)
    } else {
        "hold"@
    };
    let none = Seq::<char>::empty();
    assert(head + motion + none =~= head + motion);
    assert(head + motion + " drib"@ + none =~= head + motion + " drib"@);
}

/// A robot's command is the first that is for it.
pub proof fn law_the_first_command_for_a_robot(commands: Seq<RobotCommand>, id: usize)
    ensures
        match command_place(commands, id) {
            Some(i) => 0 <= i < commands.len() && commands[i].id == id && forall|j: int|
                0 <= j < i ==> (#[trigger] commands[j]).id != id,
            None => forall|j: int| 0 <= j < commands.len() ==> (#[trigger] commands[j]).id != id,
        },
    decreases commands.len(),
{
    if commands.len() > 0 {
        let short = commands.drop_last();
        law_the_first_command_for_a_robot(short, id);
        assert forall|j: int| 0 <= j < short.len() implies #[trigger] commands[j] == short[j] by {}
    }
}

/// A robot that has no command is told of as missing one.
pub proof fn law_missing_commands(
    commands: Seq<RobotCommand>,
    numbers: Seq<CommandNumbers>,
    id: usize,
    i: int,
)
    ensures
        (forall|j: int| 0 <= j < commands.len() ==> (#[trigger] commands[j]).id != id)
            ==> text_of_robot(commands, numbers, id) == "<missing>"@,
        0 <= i < commands.len() && commands[i].id == id && (forall|j: int|
            0 <= j < i ==> (#[trigger] commands[j]).id != id) ==> text_of_robot(
            commands,
            numbers,
            id,
        ) == command_text(commands[i], numbers[i]),
{
    law_the_first_command_for_a_robot(commands, id);
    if 0 <= i < commands.len() && commands[i].id == id && (forall|j: int|
        0 <= j < i ==> (#[trigger] commands[j]).id != id) {
        let k = command_place(commands, id)->0;
        assert(commands[k].id == id);
        assert(k == i) by {
            if k < i {
                assert(commands[k].id != id);
            }
        }
    }
}

/// A side's line has every command that does something and no other, in their order, or says that there
/// is none.
pub proof fn law_lines_of_sides(
    team: Seq<char>,
    commands: Seq<RobotCommand>,
    numbers: Seq<CommandNumbers>,
    command: RobotCommand,
)
    ensures
        active_texts(Seq::empty(), numbers).len() == 0,
        is_active(command) ==> active_texts(commands.push(command), numbers) == active_texts(
            commands,
            numbers,
        ).push(command_text(command, numbers[commands.len() as int])),
        !is_active(command) ==> active_texts(commands.push(command), numbers) == active_texts(
            commands,
            numbers,
        ),
        active_texts(commands, numbers).len() == 0 ==> team_line(team, commands, numbers) == "  "@
            + team + ": "@ + "<none>"@,
        active_texts(commands, numbers).len() > 0 ==> team_line(team, commands, numbers) == "  "@
            + team + ": "@ + text::joined(active_texts(commands, numbers), " | "@),
{
    assert(commands.push(command).drop_last() =~= commands);
}

} // verus!
