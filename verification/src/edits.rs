//! Applying the browser's edits of robots and balls to the simulated worlds.

use vstd::prelude::*;
use crate::client::{ClientModel, ClientState};
use crate::number::Double;
use crate::requests::{
    BallMoveRequest, RobotMoveRequest, RobotPresenceRequest, RobotRotateRequest,
};
use crate::state::{RobotKey, TeamColor, TeleportBall, TeleportRobot};
use crate::table;
use crate::table::Key;

verus! {

/// How far from the middle of the field something may stand.
#[derive(Debug, Clone, Copy, PartialEq, Eq, Structural)]
pub struct Limits {
    pub x: Double,
    pub y: Double,
}

/// What an edit has to know of a world.
pub struct WorldShape {
    /// For each blue robot whether it is on.
    pub blue: Vec<bool>,
    pub yellow: Vec<bool>,
    pub blue_limits: Limits,
    pub yellow_limits: Limits,
    pub ball_limits: Limits,
}

impl WorldShape {
    pub open spec fn robots(self, team: TeamColor) -> Seq<bool> {
        match team {
            TeamColor::Blue => self.blue@,
            TeamColor::Yellow => self.yellow@,
        }
    }

    pub open spec fn limits(self, team: TeamColor) -> Limits {
        match team {
            TeamColor::Blue => self.blue_limits,
            TeamColor::Yellow => self.yellow_limits,
        }
    }
}

/// A change to one world.
#[derive(Debug, Clone, Copy, PartialEq, Eq, Structural)]
pub enum WorldEdit {
    /// Puts a robot or changes it as the teleport says.
    Robot { world_id: usize, teleport: TeleportRobot },
    /// Turns a robot to an angle, which may be more than a full turn. The turn itself is
    /// `turn_teleport` of the angle, normalised.
    Turn { world_id: usize, team: TeamColor, id: usize, orientation: Double },
    /// Switches a robot on, at its place in its team's line of `robot_count` robots, at rest. The
    /// entry itself is `entry_teleport` of that place.
    Enter { world_id: usize, team: TeamColor, id: usize, robot_count: usize },
    Ball { world_id: usize, teleport: TeleportBall },
}

/// What an edit changes: a robot, or a world's ball.
#[derive(Debug, Clone, Copy, PartialEq, Eq, Structural)]
pub enum Entity {
    Robot(RobotKey),
    Ball { world_id: usize },
}

impl WorldEdit {
    pub open spec fn entity_spec(self) -> Entity {
        match self {
            WorldEdit::Robot { world_id, teleport } => Entity::Robot(
                RobotKey { world_id, team: teleport.team, id: teleport.id },
            ),
            WorldEdit::Turn { world_id, team, id, .. } => Entity::Robot(
                RobotKey { world_id, team, id },
            ),
            WorldEdit::Enter { world_id, team, id, .. } => Entity::Robot(
                RobotKey { world_id, team, id },
            ),
            WorldEdit::Ball { world_id, .. } => Entity::Ball { world_id },
        }
    }

    /// What the edit changes.
    pub fn entity(&self) -> (r: Entity)
        ensures
            r == self.entity_spec(),
    {
        match *self {
            WorldEdit::Robot { world_id, teleport } => Entity::Robot(
                RobotKey { world_id, team: teleport.team, id: teleport.id },
            ),
            WorldEdit::Turn { world_id, team, id, .. } => Entity::Robot(
                RobotKey { world_id, team, id },
            ),
            WorldEdit::Enter { world_id, team, id, .. } => Entity::Robot(
                RobotKey { world_id, team, id },
            ),
            WorldEdit::Ball { world_id, .. } => Entity::Ball { world_id },
        }
    }
}

/// The entities that edits change.
pub open spec fn entities(edits: Seq<WorldEdit>) -> Set<Entity> {
    Set::new(
        |e: Entity|
            exists|i: int| 0 <= i < edits.len() && (#[trigger] edits[i]).entity_spec() == e,
    )
}

pub open spec fn robot_exists(worlds: Seq<WorldShape>, key: RobotKey) -> bool {
    key.world_id < worlds.len() && key.id < worlds[key.world_id as int].robots(key.team).len()
}

/// A robot at rest, with nothing else changed.
pub open spec fn resting(id: usize, team: TeamColor) -> TeleportRobot {
    TeleportRobot {
        id,
        team,
        x: None,
        y: None,
        orientation: None,
        vx: Some(Double { bits: 0 }),
        vy: Some(Double { bits: 0 }),
        v_angular: Some(Double { bits: 0 }),
        present: None,
    }
}

/// A move puts the robot, at rest, where it was dragged to, but not off the field; nothing happens
/// where there is no such robot.
pub open spec fn move_edit(worlds: Seq<WorldShape>, r: RobotMoveRequest) -> Option<WorldEdit> {
    if robot_exists(worlds, r.key_spec()) {
        let limits = worlds[r.world_id as int].limits(r.team);
        Some(
            WorldEdit::Robot {
                world_id: r.world_id,
                teleport: TeleportRobot {
                    x: Some(r.x.clamped(limits.x.negated(), limits.x)),
                    y: Some(r.y.clamped(limits.y.negated(), limits.y)),
                    ..resting(r.id, r.team)
                },
            },
        )
    } else {
        None
    }
}

pub open spec fn turn_edit(worlds: Seq<WorldShape>, r: RobotRotateRequest) -> Option<WorldEdit> {
    if robot_exists(worlds, r.key_spec()) {
        Some(
            WorldEdit::Turn {
                world_id: r.world_id,
                team: r.team,
                id: r.id,
                orientation: r.orientation,
            },
        )
    } else {
        None
    }
}

/// Switching a robot to what it already is does nothing.
pub open spec fn presence_edit(
    worlds: Seq<WorldShape>,
    r: RobotPresenceRequest,
) -> Option<WorldEdit> {
    if robot_exists(worlds, r.key_spec()) && worlds[r.world_id as int].robots(r.team)[r.id as int]
        != r.present {
        Some(
            if r.present {
                WorldEdit::Enter {
                    world_id: r.world_id,
                    team: r.team,
                    id: r.id,
                    robot_count: worlds[r.world_id as int].robots(r.team).len() as usize,
                }
            } else {
                WorldEdit::Robot {
                    world_id: r.world_id,
                    teleport: TeleportRobot { present: Some(false), ..resting(r.id, r.team) },
                }
            },
        )
    } else {
        None
    }
}

pub open spec fn ball_edit(worlds: Seq<WorldShape>, r: BallMoveRequest) -> Option<WorldEdit> {
    if r.world_id < worlds.len() {
        let limits = worlds[r.world_id as int].ball_limits;
        Some(
            WorldEdit::Ball {
                world_id: r.world_id,
                teleport: TeleportBall {
                    x: Some(r.x.clamped(limits.x.negated(), limits.x)),
                    y: Some(r.y.clamped(limits.y.negated(), limits.y)),
                    z: Some(Double { bits: 0 }),
                    vx: Some(Double { bits: 0 }),
                    vy: Some(Double { bits: 0 }),
                    vz: Some(Double { bits: 0 }),
                },
            },
        )
    } else {
        None
    }
}

/// What `edit` makes of each of `rows`, in order; rows that it makes nothing of are left out.
pub open spec fn edits_of<K, R>(
    rows: Seq<(K, R)>,
    edit: spec_fn(R) -> Option<WorldEdit>,
) -> Seq<WorldEdit>
    decreases rows.len(),
{
    if rows.len() == 0 {
        Seq::empty()
    } else {
        let before = edits_of(rows.drop_last(), edit);
        match edit(rows.last().1) {
            Some(e) => before.push(e),
            None => before,
        }
    }
}

/// All that the pending requests come to: moves, then turns, then switchings, then ball moves.
pub open spec fn pending_edits(c: ClientState, worlds: Seq<WorldShape>) -> Seq<WorldEdit> {
    edits_of(c.robot_moves.rows(), |r: RobotMoveRequest| move_edit(worlds, r)) + edits_of(
        c.robot_rotations.rows(),
        |r: RobotRotateRequest| turn_edit(worlds, r),
    ) + edits_of(c.robot_presences.rows(), |r: RobotPresenceRequest| presence_edit(worlds, r))
        + edits_of(c.ball_moves.rows(), |r: BallMoveRequest| ball_edit(worlds, r))
}

fn zero() -> (r: Option<Double>)
    ensures
        r == Some(Double { bits: 0 }),
{
    Some(Double { bits: 0 })
}

/// The heading with which a team's robots enter: towards the other half.
pub open spec fn entry_heading(team: TeamColor) -> Double {
    match team {
        TeamColor::Blue => Double { bits: 0 },
        TeamColor::Yellow => Double { bits: HALF_TURN_BITS },
    }
}

/// Half a turn, in radians: pi in double precision.
pub const HALF_TURN_BITS: u64 = 0x4009_21fb_5444_2d18;

/// A robot turned to an angle, where it is.
pub open spec fn turned_in_place(team: TeamColor, id: usize, orientation: Double) -> TeleportRobot {
    TeleportRobot { orientation: Some(orientation), ..resting(id, team) }
}

/// A robot switched on at a place, facing the other half.
pub open spec fn entered_at(team: TeamColor, id: usize, x: Double, y: Double) -> TeleportRobot {
    TeleportRobot {
        x: Some(x),
        y: Some(y),
        orientation: Some(entry_heading(team)),
        present: Some(true),
        ..resting(id, team)
    }
}

/// What turns a robot to the normalised angle `orientation`: it stays where it is, at rest.
pub fn turn_teleport(team: TeamColor, id: usize, orientation: Double) -> (r: TeleportRobot)
    ensures
        r == turned_in_place(team, id, orientation),
{
    TeleportRobot {
        id,
        team,
        x: None,
        y: None,
        orientation: Some(orientation),
        vx: zero(),
        vy: zero(),
        v_angular: zero(),
        present: None,
    }
}

/// What switches a robot on at a place in its team's line: at rest, facing the other half.
pub fn entry_teleport(team: TeamColor, id: usize, x: Double, y: Double) -> (r: TeleportRobot)
    ensures
        r == entered_at(team, id, x, y),
{
    TeleportRobot {
        id,
        team,
        x: Some(x),
        y: Some(y),
        orientation: Some(
            match team {
                TeamColor::Blue => Double { bits: 0 },
                TeamColor::Yellow => Double { bits: HALF_TURN_BITS },
            },
        ),
        vx: zero(),
        vy: zero(),
        v_angular: zero(),
        present: Some(true),
    }
}

fn held(d: Double, limit: Double) -> (r: Option<Double>)
    ensures
        r == Some(d.clamped(limit.negated(), limit)),
{
    Some(d.clamp(limit.negate(), limit))
}

fn robot_count(worlds: &[WorldShape], world_id: usize, team: TeamColor) -> (n: usize)
    requires
        world_id < worlds@.len(),
    ensures
        n as nat == worlds@[world_id as int].robots(team).len(),
{
    match team {
        TeamColor::Blue => worlds[world_id].blue.len(),
        TeamColor::Yellow => worlds[world_id].yellow.len(),
    }
}

fn moved(worlds: &[WorldShape], r: RobotMoveRequest) -> (e: Option<WorldEdit>)
    ensures
        e == move_edit(worlds@, r),
{
    if r.world_id >= worlds.len() || r.id >= robot_count(worlds, r.world_id, r.team) {
        return None;
    }
    let limits = match r.team {
        TeamColor::Blue => worlds[r.world_id].blue_limits,
        TeamColor::Yellow => worlds[r.world_id].yellow_limits,
    };
    Some(
        WorldEdit::Robot {
            world_id: r.world_id,
            teleport: TeleportRobot {
                id: r.id,
                team: r.team,
                x: held(r.x, limits.x),
                y: held(r.y, limits.y),
                orientation: None,
                vx: zero(),
                vy: zero(),
                v_angular: zero(),
                present: None,
            },
        },
    )
}

fn turned(worlds: &[WorldShape], r: RobotRotateRequest) -> (e: Option<WorldEdit>)
    ensures
        e == turn_edit(worlds@, r),
{
    if r.world_id >= worlds.len() || r.id >= robot_count(worlds, r.world_id, r.team) {
        return None;
    }
    Some(
        WorldEdit::Turn { world_id: r.world_id, team: r.team, id: r.id, orientation: r.orientation },
    )
}

fn switched(worlds: &[WorldShape], r: RobotPresenceRequest) -> (e: Option<WorldEdit>)
    ensures
        e == presence_edit(worlds@, r),
{
    if r.world_id >= worlds.len() {
        return None;
    }
    let count: usize = robot_count(worlds, r.world_id, r.team);
    if r.id >= count {
        return None;
    }
    let is_on = match r.team {
        TeamColor::Blue => worlds[r.world_id].blue[r.id],
        TeamColor::Yellow => worlds[r.world_id].yellow[r.id],
    };
    if is_on == r.present {
        return None;
    }
    if r.present {
        Some(
            WorldEdit::Enter { world_id: r.world_id, team: r.team, id: r.id, robot_count: count },
        )
    } else {
        Some(
            WorldEdit::Robot {
                world_id: r.world_id,
                teleport: TeleportRobot {
                    id: r.id,
                    team: r.team,
                    x: None,
                    y: None,
                    orientation: None,
                    vx: zero(),
                    vy: zero(),
                    v_angular: zero(),
                    present: Some(false),
                },
            },
        )
    }
}

fn ball_moved(worlds: &[WorldShape], r: BallMoveRequest) -> (e: Option<WorldEdit>)
    ensures
        e == ball_edit(worlds@, r),
{
    if r.world_id >= worlds.len() {
        return None;
    }
    let limits = worlds[r.world_id].ball_limits;
    Some(
        WorldEdit::Ball {
            world_id: r.world_id,
            teleport: TeleportBall {
                x: held(r.x, limits.x),
                y: held(r.y, limits.y),
                z: zero(),
                vx: zero(),
                vy: zero(),
                vz: zero(),
            },
        },
    )
}

proof fn lemma_entities_pushed(edits: Seq<WorldEdit>, e: WorldEdit)
    ensures
        entities(edits.push(e)) == entities(edits).insert(e.entity_spec()),
{
    let all = edits.push(e);
    assert forall|x: Entity|
        entities(all).contains(x) == entities(edits).insert(e.entity_spec()).contains(x) by {
        if entities(all).contains(x) {
            let i = choose|i: int| 0 <= i < all.len() && (#[trigger] all[i]).entity_spec() == x;
            if i < edits.len() {
                assert(edits[i].entity_spec() == x);
            }
        }
        if entities(edits).contains(x) {
            let i = choose|i: int| 0 <= i < edits.len() && (#[trigger] edits[i]).entity_spec() == x;
            assert(all[i].entity_spec() == x);
        }
        assert(all[edits.len() as int].entity_spec() == e.entity_spec());
    }
    assert(entities(all) =~= entities(edits).insert(e.entity_spec()));
}

/// How many entities edits change. One that several edits change counts once.
pub fn count_entities(edits: &Vec<WorldEdit>) -> (n: usize)
    ensures
        entities(edits@).finite(),
        n as nat == entities(edits@).len(),
        n <= edits@.len(),
{
    let mut n: usize = 0;
    let mut i: usize = 0;
    assert(entities(edits@.take(0)) =~= Set::<Entity>::empty());
    while i < edits.len()
        invariant
            i <= edits@.len(),
            n <= i,
            entities(edits@.take(i as int)).finite(),
            n as nat == entities(edits@.take(i as int)).len(),
        decreases edits@.len() - i,
    {
        let ghost seen = edits@.take(i as int);
        proof {
            assert(edits@.take(i + 1) =~= seen.push(edits@[i as int]));
            lemma_entities_pushed(seen, edits@[i as int]);
        }
        let entity = edits[i].entity();
        let mut known = false;
        let mut j: usize = 0;
        while j < i
            invariant
                j <= i < edits@.len(),
                seen == edits@.take(i as int),
                entity == edits@[i as int].entity_spec(),
                known ==> entities(seen).contains(entity),
                !known ==> forall|k: int|
                    0 <= k < j ==> (#[trigger] edits@[k]).entity_spec() != entity,
            decreases i - j,
        {
            if edits[j].entity() == entity {
                known = true;
                assert(seen[j as int].entity_spec() == entity);
            }
            j += 1;
        }
        if !known {
            assert(!entities(seen).contains(entity)) by {
                assert forall|k: int| 0 <= k < seen.len() implies (
                #[trigger] seen[k]).entity_spec() != entity by {
                    assert(seen[k] == edits@[k]);
                }
            }
            n += 1;
        }
        i += 1;
    }
    assert(edits@.take(i as int) =~= edits@);
    n
}

/// What the pending edits come to.
pub struct AppliedEdits {
    pub edits: Vec<WorldEdit>,
    /// How many robots and balls change. One that several edits change counts once.
    pub changed: usize,
}

/// Whether every pending request has one row in its table.
pub open spec fn one_row_each(c: ClientState) -> bool {
    &&& table::distinct_keys(c.robot_moves.rows())
    &&& table::distinct_keys(c.robot_rotations.rows())
    &&& table::distinct_keys(c.robot_presences.rows())
    &&& table::distinct_keys(c.ball_moves.rows())
}

/// Takes the pending edits of robots and balls and says what they come to in `worlds`, which has
/// one shape for each world, and how many entities change.
///
/// Applications with a viewer call this once per loop, including while paused, so that dragging
/// stays responsive without advancing the physics.
pub fn apply_robot_move_requests(
    client: &mut ClientState,
    worlds: &[WorldShape],
) -> (r: AppliedEdits)
    ensures
        one_row_each(*old(client)),
        r.edits@ == pending_edits(*old(client), worlds@),
        r.changed as nat == entities(r.edits@).len(),
        final(client)@.robot_moves == Map::<RobotKey, RobotMoveRequest>::empty(),
        final(client)@.robot_rotations == Map::<RobotKey, RobotRotateRequest>::empty(),
        final(client)@.robot_presences == Map::<RobotKey, RobotPresenceRequest>::empty(),
        final(client)@.ball_moves == Map::<usize, BallMoveRequest>::empty(),
        final(client)@.selected_world == old(client)@.selected_world,
        final(client)@.selected_worlds == old(client)@.selected_worlds,
        final(client)@.control == old(client)@.control,
        final(client)@.developer_requests == old(client)@.developer_requests,
{
    let moves = client.robot_moves.take_rows();
    let rotations = client.robot_rotations.take_rows();
    let presences = client.robot_presences.take_rows();
    let balls = client.ball_moves.take_rows();
    let mut edits: Vec<WorldEdit> = Vec::new();
    let ghost f = |r: RobotMoveRequest| move_edit(worlds@, r);
    let mut i: usize = 0;
    while i < moves.len()
        invariant
            i <= moves@.len(),
            f == (|r: RobotMoveRequest| move_edit(worlds@, r)),
            edits@ == edits_of(moves@.take(i as int), f),
        decreases moves@.len() - i,
    {
        assert(moves@.take(i + 1).drop_last() =~= moves@.take(i as int));
        if let Some(e) = moved(worlds, moves[i].1) {
            edits.push(e);
        }
        i += 1;
    }
    assert(moves@.take(i as int) =~= moves@);
    let ghost first = edits@;
    let ghost g = |r: RobotRotateRequest| turn_edit(worlds@, r);
    i = 0;
    assert(edits@ =~= first + edits_of(rotations@.take(0), g));
    while i < rotations.len()
        invariant
            i <= rotations@.len(),
            g == (|r: RobotRotateRequest| turn_edit(worlds@, r)),
            edits@ == first + edits_of(rotations@.take(i as int), g),
        decreases rotations@.len() - i,
    {
        assert(rotations@.take(i + 1).drop_last() =~= rotations@.take(i as int));
        if let Some(e) = turned(worlds, rotations[i].1) {
            edits.push(e);
        }
        i += 1;
        assert(edits@ =~= first + edits_of(rotations@.take(i as int), g));
    }
    assert(rotations@.take(i as int) =~= rotations@);
    let ghost second = edits@;
    let ghost h = |r: RobotPresenceRequest| presence_edit(worlds@, r);
    i = 0;
    assert(edits@ =~= second + edits_of(presences@.take(0), h));
    while i < presences.len()
        invariant
            i <= presences@.len(),
            h == (|r: RobotPresenceRequest| presence_edit(worlds@, r)),
            edits@ == second + edits_of(presences@.take(i as int), h),
        decreases presences@.len() - i,
    {
        assert(presences@.take(i + 1).drop_last() =~= presences@.take(i as int));
        if let Some(e) = switched(worlds, presences[i].1) {
            edits.push(e);
        }
        i += 1;
        assert(edits@ =~= second + edits_of(presences@.take(i as int), h));
    }
    assert(presences@.take(i as int) =~= presences@);
    let ghost third = edits@;
    let ghost k = |r: BallMoveRequest| ball_edit(worlds@, r);
    i = 0;
    assert(edits@ =~= third + edits_of(balls@.take(0), k));
    while i < balls.len()
        invariant
            i <= balls@.len(),
            k == (|r: BallMoveRequest| ball_edit(worlds@, r)),
            edits@ == third + edits_of(balls@.take(i as int), k),
        decreases balls@.len() - i,
    {
        assert(balls@.take(i + 1).drop_last() =~= balls@.take(i as int));
        if let Some(e) = ball_moved(worlds, balls[i].1) {
            edits.push(e);
        }
        i += 1;
        assert(edits@ =~= third + edits_of(balls@.take(i as int), k));
    }
    assert(balls@.take(i as int) =~= balls@);
    let changed: usize = count_entities(&edits);
    AppliedEdits { edits, changed }
}

/// The keys of the pending requests that come to an edit.
pub open spec fn edited_keys<KV, R>(
    pending: Map<KV, R>,
    edit: spec_fn(R) -> Option<WorldEdit>,
) -> Set<KV> {
    Set::new(|k: KV| pending.contains_key(k) && edit(pending[k]) is Some)
}

/// Each pending request that comes to an edit comes to one: there are as many edits as such
/// requests.
pub proof fn law_one_edit_per_request<K: Key, R>(
    rows: Seq<(K, R)>,
    edit: spec_fn(R) -> Option<WorldEdit>,
)
    requires
        table::distinct_keys(rows),
    ensures
        edited_keys(table::rows_map(rows), edit).finite(),
        edits_of(rows, edit).len() == edited_keys(table::rows_map(rows), edit).len(),
    decreases rows.len(),
{
    let all = edited_keys(table::rows_map(rows), edit);
    if rows.len() == 0 {
        assert(all =~= Set::<K::V>::empty());
    } else {
        let init = rows.drop_last();
        let (k, r) = rows.last();
        assert forall|i: int, j: int| 0 <= i < j < init.len() implies (#[trigger] init[i]).0@ != (
        #[trigger] init[j]).0@ by {
            assert(rows[i].0@ != rows[j].0@);
        }
        law_one_edit_per_request(init, edit);
        table::law_rows_are_the_mapping(rows);
        table::law_rows_are_the_mapping(init);
        let before = edited_keys(table::rows_map(init), edit);
        assert(rows[rows.len() - 1].0@ == k@);
        assert(!table::has_key(init, k@)) by {
            assert forall|i: int| 0 <= i < init.len() implies (#[trigger] init[i]).0@ != k@ by {
                assert(rows[i].0@ != rows[rows.len() - 1].0@);
            }
        }
        assert forall|q: K::V| q != k@ implies all.contains(q) == before.contains(q) by {
            if table::has_key(rows, q) {
                let i = table::row_of(rows, q);
                assert(rows[i].0@ == q);
                assert(init[i] == rows[i]);
                assert(table::rows_map(init).contains_key(init[i].0@));
            }
            if table::has_key(init, q) {
                let i = table::row_of(init, q);
                assert(init[i].0@ == q);
                assert(rows[i] == init[i]);
                assert(table::rows_map(rows).contains_key(rows[i].0@));
            }
        }
        assert(!before.contains(k@));
        if edit(r) is Some {
            assert(all =~= before.insert(k@));
        } else {
            assert(all =~= before);
        }
    }
}

/// A table of no requests has no row, and one of one request has one.
pub proof fn law_rows_of_few_requests<K: Key, R>(rows: Seq<(K, R)>, key: K::V, request: R)
    requires
        table::distinct_keys(rows),
    ensures
        table::rows_map(rows) == Map::<K::V, R>::empty() ==> rows.len() == 0,
        table::rows_map(rows) == Map::<K::V, R>::empty().insert(key, request) ==> rows.len() == 1
            && rows[0].0@ == key && rows[0].1 == request,
{
    let m = table::rows_map(rows);
    table::law_rows_are_the_mapping(rows);
    if rows.len() > 0 {
        assert(m.contains_key(rows[0].0@));
    }
    if m == Map::<K::V, R>::empty().insert(key, request) {
        assert(m.contains_key(key));
        assert(table::has_key(rows, key));
        if rows.len() > 1 {
            assert(m.contains_key(rows[1].0@));
            assert(rows[0].0@ != rows[1].0@);
        }
    }
}

/// A client with these requests pending for one robot, and no others.
pub open spec fn pends_for_one_robot(
    c: ClientModel,
    moved: Option<RobotMoveRequest>,
    turned: Option<RobotRotateRequest>,
) -> bool {
    &&& c.robot_moves == (match moved {
        Some(r) => Map::<RobotKey, RobotMoveRequest>::empty().insert(r.key_spec(), r),
        None => Map::empty(),
    })
    &&& c.robot_rotations == (match turned {
        Some(r) => Map::<RobotKey, RobotRotateRequest>::empty().insert(r.key_spec(), r),
        None => Map::empty(),
    })
    &&& c.robot_presences == Map::<RobotKey, RobotPresenceRequest>::empty()
    &&& c.ball_moves == Map::<usize, BallMoveRequest>::empty()
}

/// Where one move of one robot is pending and nothing else, it comes to its one edit, and one
/// entity changes; to none where there is no such robot.
pub proof fn law_one_move_is_one_edit(c: ClientState, worlds: Seq<WorldShape>, r: RobotMoveRequest)
    requires
        one_row_each(c),
        pends_for_one_robot(c@, Some(r), None),
    ensures
        pending_edits(c, worlds) == (match move_edit(worlds, r) {
            Some(e) => seq![e],
            None => Seq::empty(),
        }),
        entities(pending_edits(c, worlds)).len() == (if robot_exists(worlds, r.key_spec()) {
            1nat
        } else {
            0nat
        }),
{
    lemma_few_requests(c, worlds, Some(r), None);
    let edits = pending_edits(c, worlds);
    let none = Seq::<WorldEdit>::empty();
    assert(entities(none) =~= Set::<Entity>::empty());
    match move_edit(worlds, r) {
        Some(e) => {
            assert(edits =~= none.push(e));
            lemma_entities_pushed(none, e);
        },
        None => {},
    }
}

/// A robot that is both moved and turned is one entity: two edits come of it, and one entity
/// changes.
pub proof fn law_moved_and_turned_robot_counts_once(
    c: ClientState,
    worlds: Seq<WorldShape>,
    moved: RobotMoveRequest,
    turned: RobotRotateRequest,
)
    requires
        one_row_each(c),
        pends_for_one_robot(c@, Some(moved), Some(turned)),
        moved.key_spec() == turned.key_spec(),
        robot_exists(worlds, moved.key_spec()),
    ensures
        pending_edits(c, worlds) == seq![
            move_edit(worlds, moved)->0,
            turn_edit(worlds, turned)->0,
        ],
        entities(pending_edits(c, worlds)).len() == 1,
{
    lemma_few_requests(c, worlds, Some(moved), Some(turned));
    let first = move_edit(worlds, moved)->0;
    let second = turn_edit(worlds, turned)->0;
    let none = Seq::<WorldEdit>::empty();
    assert(entities(none) =~= Set::<Entity>::empty());
    assert(pending_edits(c, worlds) =~= none.push(first).push(second));
    lemma_entities_pushed(none, first);
    lemma_entities_pushed(none.push(first), second);
    assert(entities(none).insert(first.entity_spec()).insert(second.entity_spec())
        =~= entities(none).insert(first.entity_spec()));
}

proof fn lemma_few_requests(
    c: ClientState,
    worlds: Seq<WorldShape>,
    moved: Option<RobotMoveRequest>,
    turned: Option<RobotRotateRequest>,
)
    requires
        one_row_each(c),
        pends_for_one_robot(c@, moved, turned),
    ensures
        pending_edits(c, worlds) == (match moved {
            Some(r) => match move_edit(worlds, r) {
                Some(e) => seq![e],
                None => Seq::empty(),
            },
            None => Seq::empty(),
        }) + (match turned {
            Some(r) => match turn_edit(worlds, r) {
                Some(e) => seq![e],
                None => Seq::empty(),
            },
            None => Seq::empty(),
        }),
{
    let f = |r: RobotMoveRequest| move_edit(worlds, r);
    let g = |r: RobotRotateRequest| turn_edit(worlds, r);
    let h = |r: RobotPresenceRequest| presence_edit(worlds, r);
    let k = |r: BallMoveRequest| ball_edit(worlds, r);
    let moves = c.robot_moves.rows();
    let turns = c.robot_rotations.rows();
    match moved {
        Some(r) => {
            law_rows_of_few_requests(moves, r.key_spec(), r);
            lemma_edits_of_one(moves, f);
        },
        None => {
            law_rows_of_few_requests(moves, arbitrary(), arbitrary());
        },
    }
    match turned {
        Some(r) => {
            law_rows_of_few_requests(turns, r.key_spec(), r);
            lemma_edits_of_one(turns, g);
        },
        None => {
            law_rows_of_few_requests(turns, arbitrary(), arbitrary());
        },
    }
    law_rows_of_few_requests(c.robot_presences.rows(), arbitrary(), arbitrary());
    law_rows_of_few_requests(c.ball_moves.rows(), arbitrary(), arbitrary());
    assert(edits_of(c.robot_presences.rows(), h).len() == 0);
    assert(edits_of(c.ball_moves.rows(), k).len() == 0);
    assert(pending_edits(c, worlds) =~= edits_of(moves, f) + edits_of(turns, g));
}

proof fn lemma_edits_of_one<K, R>(rows: Seq<(K, R)>, edit: spec_fn(R) -> Option<WorldEdit>)
    requires
        rows.len() == 1,
    ensures
        edits_of(rows, edit) == (match edit(rows[0].1) {
            Some(e) => seq![e],
            None => Seq::empty(),
        }),
{
    assert(edits_of(rows.drop_last(), edit) =~= Seq::<WorldEdit>::empty());
    assert(edits_of(rows, edit) =~= (match edit(rows[0].1) {
        Some(e) => seq![e],
        None => Seq::empty(),
    }));
}

/// Every row that an edit is made of gives its edit, and no other edit comes.
pub proof fn law_each_row_gives_its_edit<K, R>(
    rows: Seq<(K, R)>,
    edit: spec_fn(R) -> Option<WorldEdit>,
)
    ensures
        forall|i: int|
            0 <= i < rows.len() && edit((#[trigger] rows[i]).1) is Some ==> edits_of(
                rows,
                edit,
            ).contains(edit(rows[i].1)->0),
        forall|e: WorldEdit| #[trigger] edits_of(rows, edit).contains(e) ==> exists|i: int|
            0 <= i < rows.len() && edit((#[trigger] rows[i]).1) == Some(e),
    decreases rows.len(),
{
    if rows.len() > 0 {
        let init = rows.drop_last();
        law_each_row_gives_its_edit(init, edit);
        let all = edits_of(rows, edit);
        let before = edits_of(init, edit);
        assert forall|i: int| 0 <= i < rows.len() && edit((#[trigger] rows[i]).1) is Some implies
            all.contains(edit(rows[i].1)->0) by {
            if i < init.len() {
                assert(init[i] == rows[i]);
                let j = choose|j: int| 0 <= j < before.len() && before[j] == edit(rows[i].1)->0;
                assert(all[j] == before[j]);
            } else {
                assert(all.last() == edit(rows[i].1)->0);
            }
        }
        assert forall|e: WorldEdit| #[trigger] all.contains(e) implies exists|i: int|
            0 <= i < rows.len() && edit((#[trigger] rows[i]).1) == Some(e) by {
            let j = choose|j: int| 0 <= j < all.len() && all[j] == e;
            if j < before.len() {
                assert(before[j] == e);
                assert(before.contains(e));
                let i = choose|i: int| 0 <= i < init.len() && edit((#[trigger] init[i]).1) == Some(
                    e,
                );
                assert(rows[i] == init[i]);
            } else {
                assert(rows[rows.len() - 1] == rows.last());
            }
        }
    }
}

/// A robot that is dragged never ends up off the field.
pub proof fn law_moves_stay_on_the_field(worlds: Seq<WorldShape>, r: RobotMoveRequest)
    requires
        robot_exists(worlds, r.key_spec()),
        !r.x.is_nan_spec(),
        !r.y.is_nan_spec(),
        ({
            let limits = worlds[r.world_id as int].limits(r.team);
            Double { bits: 0 }.at_most(limits.x) && Double { bits: 0 }.at_most(limits.y)
        }),
    ensures
        ({
            let limits = worlds[r.world_id as int].limits(r.team);
            &&& move_edit(worlds, r) matches Some(WorldEdit::Robot { world_id, teleport })
            &&& world_id == r.world_id
            &&& teleport.x matches Some(x)
            &&& limits.x.negated().at_most(x)
            &&& x.at_most(limits.x)
            &&& teleport.y matches Some(y)
            &&& limits.y.negated().at_most(y)
            &&& y.at_most(limits.y)
        }),
{
}

/// Whether something that is dragged to `asked` comes to `to`: to that very number, or to the limit
/// that it lies beyond, on its side.
pub open spec fn is_held_to(to: Option<Double>, asked: Double, limit: Double) -> bool {
    if limit.less(asked) {
        to == Some(limit)
    } else if asked.less(limit.negated()) {
        to == Some(limit.negated())
    } else {
        to == Some(asked)
    }
}

/// Whether a robot is set to rest, whatever else becomes of it.
pub open spec fn is_at_rest(t: TeleportRobot) -> bool {
    &&& t.vx matches Some(vx) && vx.bits == 0
    &&& t.vy matches Some(vy) && vy.bits == 0
    &&& t.v_angular matches Some(w) && w.bits == 0
}

/// Whether an edit carries out a drag of a robot: that robot, at rest, where it was dragged to, each
/// coordinate by its own and held to its own limit; heading and presence stay.
pub open spec fn carries_out_move(e: WorldEdit, r: RobotMoveRequest, limits: Limits) -> bool {
    &&& e matches WorldEdit::Robot { world_id, teleport }
    &&& world_id == r.world_id
    &&& teleport.id == r.id
    &&& teleport.team == r.team
    &&& is_held_to(teleport.x, r.x, limits.x)
    &&& is_held_to(teleport.y, r.y, limits.y)
    &&& is_at_rest(teleport)
    &&& teleport.orientation is None
    &&& teleport.present is None
}

/// Whether an edit carries out a drag of a ball: the ball of that world, at rest on the ground, where
/// it was dragged to, each coordinate by its own and held to its own limit.
pub open spec fn carries_out_ball_move(e: WorldEdit, r: BallMoveRequest, limits: Limits) -> bool {
    &&& e matches WorldEdit::Ball { world_id, teleport }
    &&& world_id == r.world_id
    &&& is_held_to(teleport.x, r.x, limits.x)
    &&& is_held_to(teleport.y, r.y, limits.y)
    &&& teleport.z matches Some(z) && z.bits == 0
    &&& teleport.vx matches Some(vx) && vx.bits == 0
    &&& teleport.vy matches Some(vy) && vy.bits == 0
    &&& teleport.vz matches Some(vz) && vz.bits == 0
}

/// A ball that is dragged is put at rest where it was dragged to, if its world is there: inside the
/// limits at that very point, and else at the limits, one coordinate apart from the other.
pub proof fn law_balls_are_put_where_they_are_dragged(worlds: Seq<WorldShape>, r: BallMoveRequest)
    requires
        r.world_id < worlds.len() ==> {
            let limits = worlds[r.world_id as int].ball_limits;
            (Double { bits: 0 }).at_most(limits.x) && (Double { bits: 0 }).at_most(limits.y)
        },
    ensures
        ball_edit(worlds, r) is Some <==> r.world_id < worlds.len(),
        ball_edit(worlds, r) matches Some(e) ==> carries_out_ball_move(
            e,
            r,
            worlds[r.world_id as int].ball_limits,
        ),
{
}

/// A robot that is dragged is put at rest where it was dragged to, held to its own team's limits, if
/// its world and it are there.
pub proof fn law_robots_are_put_where_they_are_dragged(worlds: Seq<WorldShape>, r: RobotMoveRequest)
    requires
        r.world_id < worlds.len() ==> {
            let w = worlds[r.world_id as int];
            &&& (Double { bits: 0 }).at_most(w.blue_limits.x)
            &&& (Double { bits: 0 }).at_most(w.blue_limits.y)
            &&& (Double { bits: 0 }).at_most(w.yellow_limits.x)
            &&& (Double { bits: 0 }).at_most(w.yellow_limits.y)
        },
    ensures
        move_edit(worlds, r) is Some <==> r.world_id < worlds.len() && match r.team {
            TeamColor::Blue => r.id < worlds[r.world_id as int].blue@.len(),
            TeamColor::Yellow => r.id < worlds[r.world_id as int].yellow@.len(),
        },
        move_edit(worlds, r) matches Some(e) ==> carries_out_move(
            e,
            r,
            match r.team {
                TeamColor::Blue => worlds[r.world_id as int].blue_limits,
                TeamColor::Yellow => worlds[r.world_id as int].yellow_limits,
            },
        ),
{
}

/// A robot that is turned is turned as far as was asked, and no other.
pub proof fn law_robots_are_turned_as_asked(worlds: Seq<WorldShape>, r: RobotRotateRequest)
    ensures
        turn_edit(worlds, r) is Some <==> r.world_id < worlds.len() && match r.team {
            TeamColor::Blue => r.id < worlds[r.world_id as int].blue@.len(),
            TeamColor::Yellow => r.id < worlds[r.world_id as int].yellow@.len(),
        },
        turn_edit(worlds, r) matches Some(e) ==> (e matches WorldEdit::Turn {
            world_id,
            team,
            id,
            orientation,
        } && world_id == r.world_id && team == r.team && id == r.id && orientation == r.orientation),
{
}

/// A robot that is off is switched on at its place in its team's line, and one that is on is switched
/// off where it is; one that is already as asked is left alone.
pub proof fn law_robots_are_switched_as_asked(worlds: Seq<WorldShape>, r: RobotPresenceRequest)
    ensures
        ({
            let is_on = match r.team {
                TeamColor::Blue => worlds[r.world_id as int].blue@,
                TeamColor::Yellow => worlds[r.world_id as int].yellow@,
            };
            &&& presence_edit(worlds, r) is Some <==> r.world_id < worlds.len() && r.id < is_on.len()
                && is_on[r.id as int] != r.present
            &&& presence_edit(worlds, r) is Some && r.present ==> (presence_edit(worlds, r)->0
                matches WorldEdit::Enter { world_id, team, id, robot_count } && world_id
                == r.world_id && team == r.team && id == r.id && robot_count as int
                == is_on.len() as usize)
            &&& presence_edit(worlds, r) is Some && !r.present ==> (presence_edit(worlds, r)->0
                matches WorldEdit::Robot { world_id, teleport } && world_id == r.world_id
                && teleport.id == r.id && teleport.team == r.team && teleport.present == Some(false)
                && teleport.x is None && teleport.y is None && teleport.orientation is None
                && is_at_rest(teleport))
        }),
{
}

/// A turn changes the heading alone and a robot that enters comes to the place that it is given, on
/// and facing the other half, blue along the field and yellow against it; both are at rest.
pub proof fn law_turns_and_entries(team: TeamColor, id: usize, a: Double, b: Double)
    ensures
        ({
            let turn = turned_in_place(team, id, a);
            &&& turn.id == id && turn.team == team
            &&& turn.orientation == Some(a)
            &&& turn.x is None && turn.y is None && turn.present is None
            &&& is_at_rest(turn)
        }),
        ({
            let entry = entered_at(team, id, a, b);
            &&& entry.id == id && entry.team == team
            &&& entry.x == Some(a) && entry.y == Some(b)
            &&& entry.present == Some(true)
            &&& entry.orientation matches Some(heading) && heading.bits == (if team is Blue {
                0
            } else {
                0x4009_21fb_5444_2d18u64
            })
            &&& is_at_rest(entry)
        }),
{
}

/// An edit changes the robot or the ball that it names: two edits change the same entity exactly
/// where world, team and number are the same, or where both are of one world's ball.
pub proof fn law_edits_change_what_they_name(
    world_id: usize,
    team: TeamColor,
    id: usize,
    teleport: TeleportRobot,
    ball: TeleportBall,
    angle: Double,
    count: usize,
)
    requires
        teleport.team == team,
        teleport.id == id,
    ensures
        ({
            let robot = Entity::Robot(RobotKey { world_id, team, id });
            &&& (WorldEdit::Robot { world_id, teleport }).entity_spec() == robot
            &&& (WorldEdit::Turn { world_id, team, id, orientation: angle }).entity_spec() == robot
            &&& (WorldEdit::Enter { world_id, team, id, robot_count: count }).entity_spec() == robot
            &&& (WorldEdit::Ball { world_id, teleport: ball }).entity_spec() == (Entity::Ball {
                world_id,
            })
        }),
{
}

proof fn lemma_pending_row<K: Key, R>(
    rows: Seq<(K, R)>,
    key: K::V,
    edit: spec_fn(R) -> Option<WorldEdit>,
)
    requires
        table::rows_map(rows).contains_key(key),
        edit(table::rows_map(rows)[key]) is Some,
    ensures
        edits_of(rows, edit).contains(edit(table::rows_map(rows)[key])->0),
{
    law_each_row_gives_its_edit(rows, edit);
    assert(table::has_key(rows, key));
    let i = table::row_of(rows, key);
    assert(rows[i].0@ == key);
    assert(edit(rows[i].1) is Some);
}

proof fn lemma_part_is_in_sum(a: Seq<WorldEdit>, b: Seq<WorldEdit>, e: WorldEdit)
    ensures
        a.contains(e) || b.contains(e) <==> (a + b).contains(e),
{
    if a.contains(e) {
        let i = choose|i: int| 0 <= i < a.len() && a[i] == e;
        assert((a + b)[i] == e);
    }
    if b.contains(e) {
        let i = choose|i: int| 0 <= i < b.len() && b[i] == e;
        assert((a + b)[a.len() + i] == e);
    }
    if (a + b).contains(e) {
        let i = choose|i: int| 0 <= i < (a + b).len() && (a + b)[i] == e;
        if i < a.len() {
            assert(a[i] == e);
        } else {
            assert(b[i - a.len()] == e);
        }
    }
}

/// An edit is among all that is pending exactly where it is among the edits of one of the tables.
proof fn lemma_pending_parts(c: ClientState, worlds: Seq<WorldShape>, e: WorldEdit)
    ensures
        pending_edits(c, worlds).contains(e) <==> {
            ||| edits_of(
                c.robot_moves.rows(),
                |r: RobotMoveRequest| move_edit(worlds, r),
            ).contains(e)
            ||| edits_of(
                c.robot_rotations.rows(),
                |r: RobotRotateRequest| turn_edit(worlds, r),
            ).contains(e)
            ||| edits_of(
                c.robot_presences.rows(),
                |r: RobotPresenceRequest| presence_edit(worlds, r),
            ).contains(e)
            ||| edits_of(
                c.ball_moves.rows(),
                |r: BallMoveRequest| ball_edit(worlds, r),
            ).contains(e)
        },
{
    let a = edits_of(c.robot_moves.rows(), |r: RobotMoveRequest| move_edit(worlds, r));
    let b = edits_of(c.robot_rotations.rows(), |r: RobotRotateRequest| turn_edit(worlds, r));
    let d = edits_of(c.robot_presences.rows(), |r: RobotPresenceRequest| presence_edit(worlds, r));
    let f = edits_of(c.ball_moves.rows(), |r: BallMoveRequest| ball_edit(worlds, r));
    lemma_part_is_in_sum(a, b, e);
    lemma_part_is_in_sum(a + b, d, e);
    lemma_part_is_in_sum(a + b + d, f, e);
}

/// Whatever robot was dragged last, to wherever, is put there.
pub proof fn law_pending_moves_are_carried_out(
    c: ClientState,
    worlds: Seq<WorldShape>,
    key: RobotKey,
)
    requires
        c@.robot_moves.contains_key(key),
        ({
            let r = c@.robot_moves[key];
            &&& r.world_id < worlds.len()
            &&& r.id < worlds[r.world_id as int].robots(r.team).len()
            &&& (Double { bits: 0 }).at_most(worlds[r.world_id as int].limits(r.team).x)
            &&& (Double { bits: 0 }).at_most(worlds[r.world_id as int].limits(r.team).y)
        }),
    ensures
        exists|i: int|
            0 <= i < pending_edits(c, worlds).len() && carries_out_move(
                #[trigger] pending_edits(c, worlds)[i],
                c@.robot_moves[key],
                worlds[c@.robot_moves[key].world_id as int].limits(c@.robot_moves[key].team),
            ),
{
    let r = c@.robot_moves[key];
    let e = move_edit(worlds, r)->0;
    lemma_pending_row(c.robot_moves.rows(), key, |r: RobotMoveRequest| move_edit(worlds, r));
    lemma_pending_parts(c, worlds, e);
    let i = choose|i: int| 0 <= i < pending_edits(c, worlds).len() && pending_edits(c, worlds)[i] == e;
    assert(carries_out_move(
        pending_edits(c, worlds)[i],
        r,
        worlds[r.world_id as int].limits(r.team),
    ));
}

/// Whatever ball was dragged last, to wherever, is put there.
pub proof fn law_pending_ball_moves_are_carried_out(
    c: ClientState,
    worlds: Seq<WorldShape>,
    key: usize,
)
    requires
        c@.ball_moves.contains_key(key),
        ({
            let r = c@.ball_moves[key];
            &&& r.world_id < worlds.len()
            &&& (Double { bits: 0 }).at_most(worlds[r.world_id as int].ball_limits.x)
            &&& (Double { bits: 0 }).at_most(worlds[r.world_id as int].ball_limits.y)
        }),
    ensures
        exists|i: int|
            0 <= i < pending_edits(c, worlds).len() && carries_out_ball_move(
                #[trigger] pending_edits(c, worlds)[i],
                c@.ball_moves[key],
                worlds[c@.ball_moves[key].world_id as int].ball_limits,
            ),
{
    let r = c@.ball_moves[key];
    let e = ball_edit(worlds, r)->0;
    lemma_pending_row(c.ball_moves.rows(), key, |r: BallMoveRequest| ball_edit(worlds, r));
    lemma_pending_parts(c, worlds, e);
    let i = choose|i: int| 0 <= i < pending_edits(c, worlds).len() && pending_edits(c, worlds)[i] == e;
    assert(carries_out_ball_move(
        pending_edits(c, worlds)[i],
        r,
        worlds[r.world_id as int].ball_limits,
    ));
}

/// Whatever robot was turned last, however far, is turned so.
pub proof fn law_pending_turns_are_carried_out(
    c: ClientState,
    worlds: Seq<WorldShape>,
    key: RobotKey,
)
    requires
        c@.robot_rotations.contains_key(key),
        ({
            let r = c@.robot_rotations[key];
            &&& r.world_id < worlds.len()
            &&& r.id < worlds[r.world_id as int].robots(r.team).len()
        }),
    ensures
        ({
            let r = c@.robot_rotations[key];
            pending_edits(c, worlds).contains(
                WorldEdit::Turn {
                    world_id: r.world_id,
                    team: r.team,
                    id: r.id,
                    orientation: r.orientation,
                },
            )
        }),
{
    let r = c@.robot_rotations[key];
    lemma_pending_row(c.robot_rotations.rows(), key, |r: RobotRotateRequest| turn_edit(worlds, r));
    lemma_pending_parts(c, worlds, turn_edit(worlds, r)->0);
}

/// Whatever robot was switched last, and is not yet as asked, is switched on or off.
pub proof fn law_pending_switches_are_carried_out(
    c: ClientState,
    worlds: Seq<WorldShape>,
    key: RobotKey,
)
    requires
        c@.robot_presences.contains_key(key),
        ({
            let r = c@.robot_presences[key];
            &&& r.world_id < worlds.len()
            &&& r.id < worlds[r.world_id as int].robots(r.team).len()
            &&& worlds[r.world_id as int].robots(r.team)[r.id as int] != r.present
        }),
    ensures
        exists|i: int|
            0 <= i < pending_edits(c, worlds).len() && match #[trigger] pending_edits(c, worlds)[i] {
                WorldEdit::Enter { world_id, team, id, .. } => {
                    &&& c@.robot_presences[key].present
                    &&& world_id == c@.robot_presences[key].world_id
                    &&& team == c@.robot_presences[key].team
                    &&& id == c@.robot_presences[key].id
                },
                WorldEdit::Robot { world_id, teleport } => {
                    &&& !c@.robot_presences[key].present
                    &&& teleport.present == Some(false)
                    &&& world_id == c@.robot_presences[key].world_id
                    &&& teleport.team == c@.robot_presences[key].team
                    &&& teleport.id == c@.robot_presences[key].id
                },
                _ => false,
            },
{
    let r = c@.robot_presences[key];
    let e = presence_edit(worlds, r)->0;
    lemma_pending_row(
        c.robot_presences.rows(),
        key,
        |r: RobotPresenceRequest| presence_edit(worlds, r),
    );
    lemma_pending_parts(c, worlds, e);
    let i = choose|i: int| 0 <= i < pending_edits(c, worlds).len() && pending_edits(c, worlds)[i] == e;
    assert(pending_edits(c, worlds)[i] == e);
}

} // verus!
