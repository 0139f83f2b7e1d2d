//! Edits that a viewer's user makes to a world, as the browser writes them.

use vstd::prelude::*;
use crate::number::Double;
use crate::state::{RobotKey, TeamColor};
use crate::text::{
    parse_unsigned, same_text, split_text, strip_text_prefix, texts, trim_text,
};
use crate::text;
#[allow(unused_imports)]
use crate::text::{after_prefix, pieces, trimmed, unsigned_number};

verus! {

/// A robot put elsewhere by dragging it in the viewer.
#[derive(Debug, Clone, Copy, PartialEq, Eq, Structural)]
pub struct RobotMoveRequest {
    pub world_id: usize,
    pub team: TeamColor,
    pub id: usize,
    pub x: Double,
    pub y: Double,
}

/// A robot turned by dragging its heading handle in the viewer.
#[derive(Debug, Clone, Copy, PartialEq, Eq, Structural)]
pub struct RobotRotateRequest {
    pub world_id: usize,
    pub team: TeamColor,
    pub id: usize,
    pub orientation: Double,
}

/// A robot switched on or off in the viewer.
#[derive(Debug, Clone, Copy, PartialEq, Eq, Structural)]
pub struct RobotPresenceRequest {
    pub world_id: usize,
    pub team: TeamColor,
    pub id: usize,
    pub present: bool,
}

/// The ball put elsewhere by dragging it in the viewer.
#[derive(Debug, Clone, Copy, PartialEq, Eq, Structural)]
pub struct BallMoveRequest {
    pub world_id: usize,
    pub x: Double,
    pub y: Double,
}

impl RobotMoveRequest {
    pub open spec fn key_spec(self) -> RobotKey {
        RobotKey { world_id: self.world_id, team: self.team, id: self.id }
    }

    pub fn key(&self) -> (k: RobotKey)
        ensures
            k == self.key_spec(),
    {
        RobotKey { world_id: self.world_id, team: self.team, id: self.id }
    }
}

impl RobotRotateRequest {
    pub open spec fn key_spec(self) -> RobotKey {
        RobotKey { world_id: self.world_id, team: self.team, id: self.id }
    }

    pub fn key(&self) -> (k: RobotKey)
        ensures
            k == self.key_spec(),
    {
        RobotKey { world_id: self.world_id, team: self.team, id: self.id }
    }
}

impl RobotPresenceRequest {
    pub open spec fn key_spec(self) -> RobotKey {
        RobotKey { world_id: self.world_id, team: self.team, id: self.id }
    }

    pub fn key(&self) -> (k: RobotKey)
        ensures
            k == self.key_spec(),
    {
        RobotKey { world_id: self.world_id, team: self.team, id: self.id }
    }
}

// ---------------------------------------------------------------------------
// The grammar: fields between colons

pub open spec fn usize_number(s: Seq<char>) -> Option<usize> {
    match unsigned_number(s, usize::MAX as nat) {
        Some(n) => Some(n as usize),
        None => None,
    }
}

pub open spec fn team_named(s: Seq<char>) -> Option<TeamColor> {
    if s == "Blue"@ {
        Some(TeamColor::Blue)
    } else if s == "Yellow"@ {
        Some(TeamColor::Yellow)
    } else {
        None
    }
}

pub open spec fn truth_named(s: Seq<char>) -> Option<bool> {
    if s == "true"@ {
        Some(true)
    } else if s == "false"@ {
        Some(false)
    } else {
        None
    }
}

/// The fields that follow `prefix`, where there are exactly `count` of them.
pub open spec fn fields(message: Seq<char>, prefix: Seq<char>, count: nat) -> Option<Seq<Seq<char>>> {
    match after_prefix(message, prefix) {
        Some(value) => if pieces(value, ':').len() == count {
            Some(pieces(value, ':'))
        } else {
            None
        },
        None => None,
    }
}

/// The robot that three fields (world, team, number) name.
pub open spec fn robot_named(f: Seq<Seq<char>>) -> Option<RobotKey> {
    match (usize_number(f[0]), team_named(f[1]), usize_number(f[2])) {
        (Some(world_id), Some(team), Some(id)) => Some(RobotKey { world_id, team, id }),
        _ => None,
    }
}

/// The robot and the two coordinate texts of `robot:move:<world>:<team>:<id>:<x>:<y>`.
pub open spec fn robot_move_parts(message: Seq<char>) -> Option<(RobotKey, Seq<char>, Seq<char>)> {
    match fields(message, "robot:move:"@, 5) {
        Some(f) => match robot_named(f) {
            Some(key) => Some((key, f[3], f[4])),
            None => None,
        },
        None => None,
    }
}

/// The robot and the angle text of `robot:rotate:<world>:<team>:<id>:<angle>`.
pub open spec fn robot_rotate_parts(message: Seq<char>) -> Option<(RobotKey, Seq<char>)> {
    match fields(message, "robot:rotate:"@, 4) {
        Some(f) => match robot_named(f) {
            Some(key) => Some((key, f[3])),
            None => None,
        },
        None => None,
    }
}

/// The world and the two coordinate texts of `ball:move:<world>:<x>:<y>`.
pub open spec fn ball_move_parts(message: Seq<char>) -> Option<(usize, Seq<char>, Seq<char>)> {
    match fields(message, "ball:move:"@, 3) {
        Some(f) => match usize_number(f[0]) {
            Some(world_id) => Some((world_id, f[1], f[2])),
            None => None,
        },
        None => None,
    }
}

/// The texts in a message that stand for floating-point numbers, in order.
pub open spec fn number_texts(message: Seq<char>) -> Seq<Seq<char>> {
    match after_prefix(message, "speed:"@) {
        Some(value) => seq![trimmed(value)],
        None => match robot_move_parts(message) {
            Some((_, x, y)) => seq![x, y],
            None => match robot_rotate_parts(message) {
                Some((_, angle)) => seq![angle],
                None => match ball_move_parts(message) {
                    Some((_, x, y)) => seq![x, y],
                    None => Seq::empty(),
                },
            },
        },
    }
}

pub open spec fn finite(n: Option<Double>) -> Option<Double> {
    match n {
        Some(d) => if d.is_finite_spec() {
            Some(d)
        } else {
            None
        },
        None => None,
    }
}

/// What a `robot:move:` message asks for, given what its number texts were read as.
pub open spec fn robot_move_request(
    message: Seq<char>,
    numbers: Seq<Option<Double>>,
) -> Option<RobotMoveRequest> {
    match robot_move_parts(message) {
        Some((key, _, _)) => match (finite(numbers[0]), finite(numbers[1])) {
            (Some(x), Some(y)) => Some(
                RobotMoveRequest { world_id: key.world_id, team: key.team, id: key.id, x, y },
            ),
            _ => None,
        },
        None => None,
    }
}

/// What a `robot:rotate:` message asks for, given what its number text was read as.
pub open spec fn robot_rotate_request(
    message: Seq<char>,
    numbers: Seq<Option<Double>>,
) -> Option<RobotRotateRequest> {
    match robot_rotate_parts(message) {
        Some((key, _)) => match finite(numbers[0]) {
            Some(orientation) => Some(
                RobotRotateRequest { world_id: key.world_id, team: key.team, id: key.id, orientation },
            ),
            None => None,
        },
        None => None,
    }
}

/// What a `robot:presence:<world>:<team>:<id>:<true|false>` message asks for.
pub open spec fn robot_presence_request(message: Seq<char>) -> Option<RobotPresenceRequest> {
    match fields(message, "robot:presence:"@, 4) {
        Some(f) => match (robot_named(f), truth_named(f[3])) {
            (Some(key), Some(present)) => Some(
                RobotPresenceRequest { world_id: key.world_id, team: key.team, id: key.id, present },
            ),
            _ => None,
        },
        None => None,
    }
}

/// What a `ball:move:` message asks for, given what its number texts were read as.
pub open spec fn ball_move_request(
    message: Seq<char>,
    numbers: Seq<Option<Double>>,
) -> Option<BallMoveRequest> {
    match ball_move_parts(message) {
        Some((world_id, _, _)) => match (finite(numbers[0]), finite(numbers[1])) {
            (Some(x), Some(y)) => Some(BallMoveRequest { world_id, x, y }),
            _ => None,
        },
        None => None,
    }
}

// ---------------------------------------------------------------------------
// Reading

/// The number in `s`, where it is one that fits in a `usize`.
pub fn parse_usize(s: &str) -> (r: Option<usize>)
    ensures
        r == usize_number(s@),
{
    match parse_unsigned(s, usize::MAX as u64) {
        Some(n) => Some(n as usize),
        None => None,
    }
}

pub fn parse_team(s: &str) -> (r: Option<TeamColor>)
    ensures
        r == team_named(s@),
{
    if same_text(s, "Blue") {
        Some(TeamColor::Blue)
    } else if same_text(s, "Yellow") {
        Some(TeamColor::Yellow)
    } else {
        None
    }
}

fn parse_truth(s: &str) -> (r: Option<bool>)
    ensures
        r == truth_named(s@),
{
    if same_text(s, "true") {
        Some(true)
    } else if same_text(s, "false") {
        Some(false)
    } else {
        None
    }
}

fn split_fields(message: &str, prefix: &str, count: usize) -> (r: Option<Vec<String>>)
    ensures
        match r {
            Some(f) => fields(message@, prefix@, count as nat) == Some(texts(f@)) && f@.len() == count,
            None => fields(message@, prefix@, count as nat) is None,
        },
{
    match strip_text_prefix(message, prefix) {
        Some(value) => {
            let f = split_text(value.as_str(), ':');
            assert(texts(f@).len() == f@.len());
            if f.len() == count {
                Some(f)
            } else {
                None
            }
        },
        None => None,
    }
}

fn parse_robot(f: &Vec<String>) -> (r: Option<RobotKey>)
    requires
        f@.len() >= 3,
    ensures
        r == robot_named(texts(f@)),
{
    let world_id: Option<usize> = parse_usize(f[0].as_str());
    let team = parse_team(f[1].as_str());
    let id: Option<usize> = parse_usize(f[2].as_str());
    match (world_id, team, id) {
        (Some(world_id), Some(team), Some(id)) => Some(RobotKey { world_id, team, id }),
        _ => None,
    }
}

fn finite_number(n: Option<Double>) -> (r: Option<Double>)
    ensures
        r == finite(n),
{
    match n {
        Some(d) => {
            if d.is_finite() {
                Some(d)
            } else {
                None
            }
        },
        None => None,
    }
}

fn robot_move_texts(message: &str) -> (r: Option<(RobotKey, String, String)>)
    ensures
        match r {
            Some((k, x, y)) => robot_move_parts(message@) == Some((k, x@, y@)),
            None => robot_move_parts(message@) is None,
        },
{
    match split_fields(message, "robot:move:", 5) {
        Some(f) => match parse_robot(&f) {
            Some(key) => Some((key, f[3].clone(), f[4].clone())),
            None => None,
        },
        None => None,
    }
}

fn robot_rotate_texts(message: &str) -> (r: Option<(RobotKey, String)>)
    ensures
        match r {
            Some((k, a)) => robot_rotate_parts(message@) == Some((k, a@)),
            None => robot_rotate_parts(message@) is None,
        },
{
    match split_fields(message, "robot:rotate:", 4) {
        Some(f) => match parse_robot(&f) {
            Some(key) => Some((key, f[3].clone())),
            None => None,
        },
        None => None,
    }
}

fn ball_move_texts(message: &str) -> (r: Option<(usize, String, String)>)
    ensures
        match r {
            Some((w, x, y)) => ball_move_parts(message@) == Some((w, x@, y@)),
            None => ball_move_parts(message@) is None,
        },
{
    match split_fields(message, "ball:move:", 3) {
        Some(f) => match parse_usize(f[0].as_str()) {
            Some(world_id) => Some((world_id, f[1].clone(), f[2].clone())),
            None => None,
        },
        None => None,
    }
}

/// The texts in a message that have to be read as floating-point numbers before the message can be
/// handled.
pub fn texts_of_numbers(message: &str) -> (r: Vec<String>)
    ensures
        texts(r@) == number_texts(message@),
        r@.len() == number_texts(message@).len(),
{
    let mut r: Vec<String> = Vec::new();
    if let Some(value) = strip_text_prefix(message, "speed:") {
        r.push(trim_text(value.as_str()));
    } else if let Some((_, x, y)) = robot_move_texts(message) {
        r.push(x);
        r.push(y);
    } else if let Some((_, angle)) = robot_rotate_texts(message) {
        r.push(angle);
    } else if let Some((_, x, y)) = ball_move_texts(message) {
        r.push(x);
        r.push(y);
    }
    assert(texts(r@) =~= number_texts(message@));
    r
}

/// The move that a message asks for; `numbers` is what `texts_of_numbers(message)` was read as.
pub fn parse_robot_move_request(
    message: &str,
    numbers: &[Option<Double>],
) -> (r: Option<RobotMoveRequest>)
    requires
        numbers@.len() == number_texts(message@).len(),
    ensures
        r == robot_move_request(message@, numbers@),
{
    match robot_move_texts(message) {
        Some((key, _, _)) => {
            proof {
                lemma_edit_is_no_speed(message@);
            }
            match (finite_number(numbers[0]), finite_number(numbers[1])) {
                (Some(x), Some(y)) => Some(
                    RobotMoveRequest { world_id: key.world_id, team: key.team, id: key.id, x, y },
                ),
                _ => None,
            }
        },
        None => None,
    }
}

/// The turn that a message asks for; `numbers` is what `texts_of_numbers(message)` was read as.
pub fn parse_robot_rotate_request(
    message: &str,
    numbers: &[Option<Double>],
) -> (r: Option<RobotRotateRequest>)
    requires
        numbers@.len() == number_texts(message@).len(),
    ensures
        r == robot_rotate_request(message@, numbers@),
{
    match robot_rotate_texts(message) {
        Some((key, _)) => {
            proof {
                lemma_edit_is_no_speed(message@);
            }
            match finite_number(numbers[0]) {
                Some(orientation) => Some(
                    RobotRotateRequest {
                        world_id: key.world_id,
                        team: key.team,
                        id: key.id,
                        orientation,
                    },
                ),
                None => None,
            }
        },
        None => None,
    }
}

/// The switching on or off that a message asks for.
pub fn parse_robot_presence_request(message: &str) -> (r: Option<RobotPresenceRequest>)
    ensures
        r == robot_presence_request(message@),
{
    match split_fields(message, "robot:presence:", 4) {
        Some(f) => match (parse_robot(&f), parse_truth(f[3].as_str())) {
            (Some(key), Some(present)) => Some(
                RobotPresenceRequest { world_id: key.world_id, team: key.team, id: key.id, present },
            ),
            _ => None,
        },
        None => None,
    }
}

/// The move of the ball that a message asks for; `numbers` is what `texts_of_numbers(message)` was
/// read as.
pub fn parse_ball_move_request(
    message: &str,
    numbers: &[Option<Double>],
) -> (r: Option<BallMoveRequest>)
    requires
        numbers@.len() == number_texts(message@).len(),
    ensures
        r == ball_move_request(message@, numbers@),
{
    match ball_move_texts(message) {
        Some((world_id, _, _)) => {
            proof {
                lemma_edit_is_no_speed(message@);
            }
            match (finite_number(numbers[0]), finite_number(numbers[1])) {
                (Some(x), Some(y)) => Some(BallMoveRequest { world_id, x, y }),
                _ => None,
            }
        },
        None => None,
    }
}

/// A message that edits a robot or the ball is of one kind only.
proof fn lemma_edit_is_no_speed(m: Seq<char>)
    ensures
        robot_move_parts(m) matches Some((_, x, y)) ==> number_texts(m) == seq![x, y],
        robot_rotate_parts(m) matches Some((_, a)) ==> number_texts(m) == seq![a],
        ball_move_parts(m) matches Some((_, x, y)) ==> number_texts(m) == seq![x, y],
{
    reveal_strlit("speed:");
    reveal_strlit("robot:move:");
    reveal_strlit("robot:rotate:");
    reveal_strlit("ball:move:");
    if after_prefix(m, "speed:"@) is Some {
        assert(m.take("speed:"@.len() as int)[0] == 's');
        assert(m[0] == 's');
    }
    if after_prefix(m, "robot:move:"@) is Some {
        assert(m.take("robot:move:"@.len() as int)[0] == 'r');
        assert(m.take("robot:move:"@.len() as int)[6] == 'm');
        assert(m[0] == 'r' && m[6] == 'm');
    }
    if after_prefix(m, "robot:rotate:"@) is Some {
        assert(m.take("robot:rotate:"@.len() as int)[0] == 'r');
        assert(m.take("robot:rotate:"@.len() as int)[6] == 'r');
        assert(m[0] == 'r' && m[6] == 'r');
    }
    if after_prefix(m, "ball:move:"@) is Some {
        assert(m.take("ball:move:"@.len() as int)[0] == 'b');
        assert(m[0] == 'b');
    }
}

// ---------------------------------------------------------------------------
// Laws

/// Whether three fields name a robot: its world, its team and its number.
pub open spec fn name_robot(f: Seq<Seq<char>>, world_id: usize, team: TeamColor, id: usize) -> bool {
    &&& unsigned_number(f[0], usize::MAX as nat) == Some(world_id as nat)
    &&& f[1] == (if team is Blue {
        "Blue"@
    } else {
        "Yellow"@
    })
    &&& unsigned_number(f[2], usize::MAX as nat) == Some(id as nat)
}

/// A move comes of a message that names the robot and two finite numbers, and of no other: the first
/// number is where it goes along the field, the second where it goes across.
pub proof fn law_robot_moves_are_what_the_message_says(
    m: Seq<char>,
    numbers: Seq<Option<Double>>,
    r: RobotMoveRequest,
    value: Seq<char>,
)
    ensures
        robot_move_request(m, numbers) == Some(r) ==> {
            &&& text::starts_with(m, "robot:move:"@)
            &&& m == "robot:move:"@ + value ==> pieces(value, ':').len() == 5 && name_robot(
                pieces(value, ':'),
                r.world_id,
                r.team,
                r.id,
            )
            &&& numbers[0] == Some(r.x) && r.x.is_finite_spec()
            &&& numbers[1] == Some(r.y) && r.y.is_finite_spec()
        },
        m == "robot:move:"@ + value && pieces(value, ':').len() == 5 && name_robot(
            pieces(value, ':'),
            r.world_id,
            r.team,
            r.id,
        ) && numbers[0] == Some(r.x) && r.x.is_finite_spec() && numbers[1] == Some(r.y)
            && r.y.is_finite_spec() ==> robot_move_request(m, numbers) == Some(r),
{
    lemma_team_names();
    text::law_prefixes(m, "robot:move:"@, value);
}

proof fn lemma_team_names()
    ensures
        "Blue"@ != "Yellow"@,
        "true"@ != "false"@,
{
    reveal_strlit("Blue");
    reveal_strlit("Yellow");
    reveal_strlit("true");
    reveal_strlit("false");
    assert("Blue"@.len() != "Yellow"@.len());
    assert("true"@.len() != "false"@.len());
}

/// A turn comes of a message that names the robot and a finite angle, and of no other.
pub proof fn law_robot_turns_are_what_the_message_says(
    m: Seq<char>,
    numbers: Seq<Option<Double>>,
    r: RobotRotateRequest,
    value: Seq<char>,
)
    ensures
        robot_rotate_request(m, numbers) == Some(r) ==> {
            &&& text::starts_with(m, "robot:rotate:"@)
            &&& m == "robot:rotate:"@ + value ==> pieces(value, ':').len() == 4 && name_robot(
                pieces(value, ':'),
                r.world_id,
                r.team,
                r.id,
            )
            &&& numbers[0] == Some(r.orientation) && r.orientation.is_finite_spec()
        },
        m == "robot:rotate:"@ + value && pieces(value, ':').len() == 4 && name_robot(
            pieces(value, ':'),
            r.world_id,
            r.team,
            r.id,
        ) && numbers[0] == Some(r.orientation) && r.orientation.is_finite_spec()
            ==> robot_rotate_request(m, numbers) == Some(r),
{
    lemma_team_names();
    text::law_prefixes(m, "robot:rotate:"@, value);
}

/// A switching comes of a message that names the robot and `true` or `false`, and of no other.
pub proof fn law_robot_switches_are_what_the_message_says(
    m: Seq<char>,
    r: RobotPresenceRequest,
    value: Seq<char>,
)
    ensures
        robot_presence_request(m) == Some(r) ==> {
            &&& text::starts_with(m, "robot:presence:"@)
            &&& m == "robot:presence:"@ + value ==> pieces(value, ':').len() == 4 && name_robot(
                pieces(value, ':'),
                r.world_id,
                r.team,
                r.id,
            ) && pieces(value, ':')[3] == (if r.present {
                "true"@
            } else {
                "false"@
            })
        },
        m == "robot:presence:"@ + value && pieces(value, ':').len() == 4 && name_robot(
            pieces(value, ':'),
            r.world_id,
            r.team,
            r.id,
        ) && pieces(value, ':')[3] == (if r.present {
            "true"@
        } else {
            "false"@
        }) ==> robot_presence_request(m) == Some(r),
{
    lemma_team_names();
    text::law_prefixes(m, "robot:presence:"@, value);
}

/// A move of a ball comes of a message that names its world and two finite numbers, and of no other:
/// the first number is where it goes along the field, the second where it goes across.
pub proof fn law_ball_moves_are_what_the_message_says(
    m: Seq<char>,
    numbers: Seq<Option<Double>>,
    r: BallMoveRequest,
    value: Seq<char>,
)
    ensures
        ball_move_request(m, numbers) == Some(r) ==> {
            &&& text::starts_with(m, "ball:move:"@)
            &&& m == "ball:move:"@ + value ==> pieces(value, ':').len() == 3 && unsigned_number(
                pieces(value, ':')[0],
                usize::MAX as nat,
            ) == Some(r.world_id as nat)
            &&& numbers[0] == Some(r.x) && r.x.is_finite_spec()
            &&& numbers[1] == Some(r.y) && r.y.is_finite_spec()
        },
        m == "ball:move:"@ + value && pieces(value, ':').len() == 3 && unsigned_number(
            pieces(value, ':')[0],
            usize::MAX as nat,
        ) == Some(r.world_id as nat) && numbers[0] == Some(r.x) && r.x.is_finite_spec()
            && numbers[1] == Some(r.y) && r.y.is_finite_spec() ==> ball_move_request(m, numbers)
            == Some(r),
{
    text::law_prefixes(m, "ball:move:"@, value);
}

/// The texts that are read as numbers are those at the end of a message: the coordinates of a move,
/// the angle of a turn, the speed.
pub proof fn law_numbers_of_a_message(m: Seq<char>, value: Seq<char>)
    ensures
        m == "speed:"@ + value ==> number_texts(m) == seq![trimmed(value)],
        m == "robot:move:"@ + value && robot_move_parts(m) is Some ==> number_texts(m) == seq![
            pieces(value, ':')[3],
            pieces(value, ':')[4],
        ],
        m == "robot:rotate:"@ + value && robot_rotate_parts(m) is Some ==> number_texts(m) == seq![
            pieces(value, ':')[3],
        ],
        m == "ball:move:"@ + value && ball_move_parts(m) is Some ==> number_texts(m) == seq![
            pieces(value, ':')[1],
            pieces(value, ':')[2],
        ],
{
    lemma_edit_is_no_speed(m);
    if m == "speed:"@ + value {
        text::law_prefixes(m, "speed:"@, value);
    }
    if m == "robot:move:"@ + value && robot_move_parts(m) is Some {
        text::law_prefixes(m, "robot:move:"@, value);
        assert((robot_move_parts(m)->0).1 == pieces(value, ':')[3]);
    }
    if m == "robot:rotate:"@ + value && robot_rotate_parts(m) is Some {
        text::law_prefixes(m, "robot:rotate:"@, value);
        assert((robot_rotate_parts(m)->0).1 == pieces(value, ':')[3]);
    }
    if m == "ball:move:"@ + value && ball_move_parts(m) is Some {
        text::law_prefixes(m, "ball:move:"@, value);
        assert((ball_move_parts(m)->0).1 == pieces(value, ':')[1]);
    }
}

/// The names of teams are those, and the key of a request is the robot that it is for.
pub proof fn law_names_and_keys(
    moved: RobotMoveRequest,
    turned: RobotRotateRequest,
    switched: RobotPresenceRequest,
)
    ensures
        team_named("Blue"@) == Some(TeamColor::Blue),
        team_named("Yellow"@) == Some(TeamColor::Yellow),
        moved.key_spec().world_id == moved.world_id,
        moved.key_spec().team == moved.team,
        moved.key_spec().id == moved.id,
        turned.key_spec().world_id == turned.world_id,
        turned.key_spec().team == turned.team,
        turned.key_spec().id == turned.id,
        switched.key_spec().world_id == switched.world_id,
        switched.key_spec().team == switched.team,
        switched.key_spec().id == switched.id,
{
    lemma_team_names();
}

} // verus!
