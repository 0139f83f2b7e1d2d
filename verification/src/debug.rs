//! What controllers publish for debugging: their strategy, the task of each robot, overlays on the
//! field.

use vstd::prelude::*;
use crate::number::Double;
use crate::replay::{
    ReplayDebugHoloRobot, ReplayDebugKickLine, ReplayDebugOverlay, ReplayDebugSnapshot,
    ReplayFrame, ReplayRobotDebugInfo,
};
use crate::state::TeamColor;
use crate::table::Table;
use crate::text;
use crate::text::{copy_text, is_empty_text, join_texts};

verus! {

pub struct ViewerDebugSnapshot {
    pub world_id: usize,
    pub strategy: Option<String>,
    pub robots: Vec<RobotDebugInfo>,
    pub overlays: Vec<DebugOverlay>,
}

#[derive(Debug)]
pub struct RobotDebugInfo {
    pub team: TeamColor,
    pub id: usize,
    /// Short task label, such as `Attacker`, `Receiver`, `Marking`.
    pub task: String,
    /// CSS color, preferably `#RRGGBB`.
    pub color: String,
    pub message: Option<String>,
}

#[derive(Debug)]
pub enum DebugOverlay {
    HoloRobot(DebugHoloRobot),
    KickLine(DebugKickLine),
}

#[derive(Debug)]
pub struct DebugHoloRobot {
    pub team: TeamColor,
    pub id: usize,
    pub x: Double,
    pub y: Double,
    pub orientation: Option<Double>,
    pub color: String,
    pub label: Option<String>,
}

#[derive(Debug)]
pub struct DebugKickLine {
    pub team: TeamColor,
    pub id: usize,
    pub from_x: Double,
    pub from_y: Double,
    pub angle: Double,
    pub color: String,
    pub label: Option<String>,
}

#[verifier::ext_equal]
pub struct DebugModel {
    pub world_id: usize,
    pub strategy: Option<String>,
    pub robots: Seq<RobotDebugInfo>,
    pub overlays: Seq<DebugOverlay>,
}

impl View for ViewerDebugSnapshot {
    type V = DebugModel;

    open spec fn view(&self) -> DebugModel {
        DebugModel {
            world_id: self.world_id,
            strategy: self.strategy,
            robots: self.robots@,
            overlays: self.overlays@,
        }
    }
}

/// A recorded snapshot, its lists by their items.
#[verifier::ext_equal]
pub struct RecordedDebugModel {
    pub world_id: usize,
    pub strategy: Option<String>,
    pub robots: Seq<ReplayRobotDebugInfo>,
    pub overlays: Seq<ReplayDebugOverlay>,
}

impl View for ReplayDebugSnapshot {
    type V = RecordedDebugModel;

    open spec fn view(&self) -> RecordedDebugModel {
        RecordedDebugModel {
            world_id: self.world_id,
            strategy: self.strategy,
            robots: self.robots@,
            overlays: self.overlays@,
        }
    }
}

// ---------------------------------------------------------------------------
// Live and recorded

pub open spec fn live_robot(r: ReplayRobotDebugInfo) -> RobotDebugInfo {
    RobotDebugInfo { team: r.team, id: r.id, task: r.task, color: r.color, message: r.message }
}

pub open spec fn recorded_robot(r: RobotDebugInfo) -> ReplayRobotDebugInfo {
    ReplayRobotDebugInfo { team: r.team, id: r.id, task: r.task, color: r.color, message: r.message }
}

pub open spec fn live_overlay(o: ReplayDebugOverlay) -> DebugOverlay {
    match o {
        ReplayDebugOverlay::HoloRobot(h) => DebugOverlay::HoloRobot(
            DebugHoloRobot {
                team: h.team,
                id: h.id,
                x: h.x,
                y: h.y,
                orientation: h.orientation,
                color: h.color,
                label: h.label,
            },
        ),
        ReplayDebugOverlay::KickLine(k) => DebugOverlay::KickLine(
            DebugKickLine {
                team: k.team,
                id: k.id,
                from_x: k.from_x,
                from_y: k.from_y,
                angle: k.angle,
                color: k.color,
                label: k.label,
            },
        ),
    }
}

pub open spec fn recorded_overlay(o: DebugOverlay) -> ReplayDebugOverlay {
    match o {
        DebugOverlay::HoloRobot(h) => ReplayDebugOverlay::HoloRobot(
            ReplayDebugHoloRobot {
                team: h.team,
                id: h.id,
                x: h.x,
                y: h.y,
                orientation: h.orientation,
                color: h.color,
                label: h.label,
            },
        ),
        DebugOverlay::KickLine(k) => ReplayDebugOverlay::KickLine(
            ReplayDebugKickLine {
                team: k.team,
                id: k.id,
                from_x: k.from_x,
                from_y: k.from_y,
                angle: k.angle,
                color: k.color,
                label: k.label,
            },
        ),
    }
}

/// The live form of a recorded snapshot.
pub open spec fn live_snapshot(m: RecordedDebugModel) -> DebugModel {
    DebugModel {
        world_id: m.world_id,
        strategy: m.strategy,
        robots: m.robots.map_values(|r: ReplayRobotDebugInfo| live_robot(r)),
        overlays: m.overlays.map_values(|o: ReplayDebugOverlay| live_overlay(o)),
    }
}

/// The form in which a live snapshot is recorded.
pub open spec fn recorded_snapshot(m: DebugModel) -> RecordedDebugModel {
    RecordedDebugModel {
        world_id: m.world_id,
        strategy: m.strategy,
        robots: m.robots.map_values(|r: RobotDebugInfo| recorded_robot(r)),
        overlays: m.overlays.map_values(|o: DebugOverlay| recorded_overlay(o)),
    }
}

/// Recording a snapshot and showing the record loses nothing, and neither does the other order.
pub proof fn law_recording_keeps_debug_data(live: DebugModel, recorded: RecordedDebugModel)
    ensures
        live_snapshot(recorded_snapshot(live)) == live,
        recorded_snapshot(live_snapshot(recorded)) == recorded,
{
    assert(live_snapshot(recorded_snapshot(live)) =~= live);
    assert(recorded_snapshot(live_snapshot(recorded)) =~= recorded);
}

impl RobotDebugInfo {
    pub fn copy(&self) -> (r: RobotDebugInfo)
        ensures
            r == *self,
    {
        RobotDebugInfo {
            team: self.team,
            id: self.id,
            task: self.task.clone(),
            color: self.color.clone(),
            message: copy_text(&self.message),
        }
    }
}

impl DebugOverlay {
    /// The live form of a recorded overlay.
    pub fn from(overlay: &ReplayDebugOverlay) -> (r: DebugOverlay)
        ensures
            r == live_overlay(*overlay),
    {
        match overlay {
            ReplayDebugOverlay::HoloRobot(h) => DebugOverlay::HoloRobot(
                DebugHoloRobot {
                    team: h.team,
                    id: h.id,
                    x: h.x,
                    y: h.y,
                    orientation: h.orientation,
                    color: h.color.clone(),
                    label: copy_text(&h.label),
                },
            ),
            ReplayDebugOverlay::KickLine(k) => DebugOverlay::KickLine(
                DebugKickLine {
                    team: k.team,
                    id: k.id,
                    from_x: k.from_x,
                    from_y: k.from_y,
                    angle: k.angle,
                    color: k.color.clone(),
                    label: copy_text(&k.label),
                },
            ),
        }
    }

    pub fn copy(&self) -> (r: DebugOverlay)
        ensures
            r == *self,
    {
        let recorded = ReplayDebugOverlay::from(self);
        DebugOverlay::from(&recorded)
    }
}

impl ReplayDebugOverlay {
    /// The form in which a live overlay is recorded.
    pub fn from(overlay: &DebugOverlay) -> (r: ReplayDebugOverlay)
        ensures
            r == recorded_overlay(*overlay),
    {
        match overlay {
            DebugOverlay::HoloRobot(h) => ReplayDebugOverlay::HoloRobot(
                ReplayDebugHoloRobot {
                    team: h.team,
                    id: h.id,
                    x: h.x,
                    y: h.y,
                    orientation: h.orientation,
                    color: h.color.clone(),
                    label: copy_text(&h.label),
                },
            ),
            DebugOverlay::KickLine(k) => ReplayDebugOverlay::KickLine(
                ReplayDebugKickLine {
                    team: k.team,
                    id: k.id,
                    from_x: k.from_x,
                    from_y: k.from_y,
                    angle: k.angle,
                    color: k.color.clone(),
                    label: copy_text(&k.label),
                },
            ),
        }
    }
}

impl ViewerDebugSnapshot {
    /// Nothing to say of world `world_id`.
    pub fn blank(world_id: usize) -> (r: ViewerDebugSnapshot)
        ensures
            r@ == blank_snapshot(world_id),
    {
        let r = ViewerDebugSnapshot {
            world_id,
            strategy: None,
            robots: Vec::new(),
            overlays: Vec::new(),
        };
        assert(r@ =~= blank_snapshot(world_id));
        r
    }

    /// The live form of a recorded snapshot.
    pub fn from(snapshot: &ReplayDebugSnapshot) -> (r: ViewerDebugSnapshot)
        ensures
            r@ == live_snapshot(snapshot@),
    {
        let ghost all = live_snapshot(snapshot@);
        let mut robots: Vec<RobotDebugInfo> = Vec::new();
        let mut i: usize = 0;
        while i < snapshot.robots.len()
            invariant
                i <= snapshot.robots@.len(),
                all == live_snapshot(snapshot@),
                robots@ == all.robots.take(i as int),
            decreases snapshot.robots@.len() - i,
        {
            let robot = &snapshot.robots[i];
            robots.push(
                RobotDebugInfo {
                    team: robot.team,
                    id: robot.id,
                    task: robot.task.clone(),
                    color: robot.color.clone(),
                    message: copy_text(&robot.message),
                },
            );
            i += 1;
            assert(robots@ =~= all.robots.take(i as int));
        }
        let mut overlays: Vec<DebugOverlay> = Vec::new();
        let mut k: usize = 0;
        while k < snapshot.overlays.len()
            invariant
                k <= snapshot.overlays@.len(),
                all == live_snapshot(snapshot@),
                overlays@ == all.overlays.take(k as int),
            decreases snapshot.overlays@.len() - k,
        {
            overlays.push(DebugOverlay::from(&snapshot.overlays[k]));
            k += 1;
            assert(overlays@ =~= all.overlays.take(k as int));
        }
        let r = ViewerDebugSnapshot {
            world_id: snapshot.world_id,
            strategy: copy_text(&snapshot.strategy),
            robots,
            overlays,
        };
        assert(r@ =~= all);
        r
    }

    pub fn copy(&self) -> (r: ViewerDebugSnapshot)
        ensures
            r@ == self@,
    {
        let recorded = ReplayDebugSnapshot::from(self);
        proof {
            law_recording_keeps_debug_data(self@, recorded@);
        }
        ViewerDebugSnapshot::from(&recorded)
    }
}

impl ReplayDebugSnapshot {
    /// The form in which a live snapshot is recorded.
    pub fn from(snapshot: &ViewerDebugSnapshot) -> (r: ReplayDebugSnapshot)
        ensures
            r@ == recorded_snapshot(snapshot@),
    {
        let ghost all = recorded_snapshot(snapshot@);
        let mut robots: Vec<ReplayRobotDebugInfo> = Vec::new();
        let mut i: usize = 0;
        while i < snapshot.robots.len()
            invariant
                i <= snapshot.robots@.len(),
                all == recorded_snapshot(snapshot@),
                robots@ == all.robots.take(i as int),
            decreases snapshot.robots@.len() - i,
        {
            let robot = &snapshot.robots[i];
            robots.push(
                ReplayRobotDebugInfo {
                    team: robot.team,
                    id: robot.id,
                    task: robot.task.clone(),
                    color: robot.color.clone(),
                    message: copy_text(&robot.message),
                },
            );
            i += 1;
            assert(robots@ =~= all.robots.take(i as int));
        }
        let mut overlays: Vec<ReplayDebugOverlay> = Vec::new();
        let mut k: usize = 0;
        while k < snapshot.overlays.len()
            invariant
                k <= snapshot.overlays@.len(),
                all == recorded_snapshot(snapshot@),
                overlays@ == all.overlays.take(k as int),
            decreases snapshot.overlays@.len() - k,
        {
            overlays.push(ReplayDebugOverlay::from(&snapshot.overlays[k]));
            k += 1;
            assert(overlays@ =~= all.overlays.take(k as int));
        }
        let r = ReplayDebugSnapshot {
            world_id: snapshot.world_id,
            strategy: copy_text(&snapshot.strategy),
            robots,
            overlays,
        };
        assert(r@ =~= all);
        r
    }
}

// ---------------------------------------------------------------------------
// The snapshots of all worlds

pub open spec fn blank_snapshot(world_id: usize) -> DebugModel {
    DebugModel { world_id, strategy: None, robots: Seq::empty(), overlays: Seq::empty() }
}

/// The snapshot of world `world_id`, or a blank one.
pub open spec fn snapshot_at(m: Map<usize, DebugModel>, world_id: usize) -> DebugModel {
    if m.contains_key(world_id) {
        m[world_id]
    } else {
        blank_snapshot(world_id)
    }
}

/// Where robot `id` of `team` stands in a list of robots; the list's length where it does not.
pub open spec fn robot_place(robots: Seq<RobotDebugInfo>, team: TeamColor, id: usize) -> int
    decreases robots.len(),
{
    if robots.len() == 0 {
        0
    } else if robots[0].team == team && robots[0].id == id {
        0
    } else {
        1 + robot_place(robots.drop_first(), team, id)
    }
}

/// `robots` with `info` in place of what was said of its robot, or at the end.
pub open spec fn with_robot(robots: Seq<RobotDebugInfo>, info: RobotDebugInfo) -> Seq<
    RobotDebugInfo,
> {
    let i = robot_place(robots, info.team, info.id);
    if 0 <= i < robots.len() {
        robots.update(i, info)
    } else {
        robots.push(info)
    }
}

/// `robots` without what is said of robot `id` of `team`.
pub open spec fn without_robot(robots: Seq<RobotDebugInfo>, team: TeamColor, id: usize) -> Seq<
    RobotDebugInfo,
>
    decreases robots.len(),
{
    if robots.len() == 0 {
        Seq::empty()
    } else {
        let rest = without_robot(robots.drop_last(), team, id);
        if robots.last().team == team && robots.last().id == id {
            rest
        } else {
            rest.push(robots.last())
        }
    }
}

pub proof fn lemma_robot_place(robots: Seq<RobotDebugInfo>, team: TeamColor, id: usize)
    ensures
        0 <= robot_place(robots, team, id) <= robots.len(),
        forall|j: int|
            0 <= j < robot_place(robots, team, id) ==> !((#[trigger] robots[j]).team == team
                && robots[j].id == id),
        robot_place(robots, team, id) < robots.len() ==> robots[robot_place(
            robots,
            team,
            id,
        )].team == team && robots[robot_place(robots, team, id)].id == id,
    decreases robots.len(),
{
    if robots.len() > 0 && !(robots[0].team == team && robots[0].id == id) {
        let rest = robots.drop_first();
        lemma_robot_place(rest, team, id);
        assert forall|j: int| 0 <= j < robot_place(robots, team, id) implies !((
        #[trigger] robots[j]).team == team && robots[j].id == id) by {
            if j > 0 {
                assert(robots[j] == rest[j - 1]);
            }
        }
        if robot_place(robots, team, id) < robots.len() {
            assert(robots[robot_place(robots, team, id)] == rest[robot_place(rest, team, id)]);
        }
    }
}

/// Saying something of a robot and then taking it back leaves what was said of the others.
pub proof fn law_robot_set_then_cleared(robots: Seq<RobotDebugInfo>, info: RobotDebugInfo)
    ensures
        without_robot(with_robot(robots, info), info.team, info.id) == without_robot(
            robots,
            info.team,
            info.id,
        ),
{
    lemma_robot_place(robots, info.team, info.id);
    let i = robot_place(robots, info.team, info.id);
    if i < robots.len() {
        lemma_update_then_without(robots, i, info);
    } else {
        assert(robots.push(info).drop_last() =~= robots);
    }
}

proof fn lemma_update_then_without(robots: Seq<RobotDebugInfo>, i: int, info: RobotDebugInfo)
    requires
        0 <= i < robots.len(),
        robots[i].team == info.team,
        robots[i].id == info.id,
    ensures
        without_robot(robots.update(i, info), info.team, info.id) == without_robot(
            robots,
            info.team,
            info.id,
        ),
    decreases robots.len(),
{
    let new = robots.update(i, info);
    if i == robots.len() - 1 {
        assert(new.drop_last() =~= robots.drop_last());
    } else {
        assert(new.drop_last() =~= robots.drop_last().update(i, info));
        lemma_update_then_without(robots.drop_last(), i, info);
    }
}

/// After taking back what was said of a robot, nothing is said of it.
pub proof fn law_cleared_robot_is_gone(robots: Seq<RobotDebugInfo>, team: TeamColor, id: usize)
    ensures
        forall|j: int|
            0 <= j < without_robot(robots, team, id).len() ==> !((#[trigger] without_robot(
                robots,
                team,
                id,
            )[j]).team == team && without_robot(robots, team, id)[j].id == id),
    decreases robots.len(),
{
    if robots.len() > 0 {
        law_cleared_robot_is_gone(robots.drop_last(), team, id);
    }
}

/// The snapshots with another one, of its world.
pub open spec fn snapshot_set(m: Map<usize, DebugModel>, snapshot: ViewerDebugSnapshot) -> Map<
    usize,
    DebugModel,
> {
    m.insert(snapshot.world_id, snapshot@)
}

/// The snapshots without that of world `world_id`.
pub open spec fn snapshot_cleared(m: Map<usize, DebugModel>, world_id: usize) -> Map<
    usize,
    DebugModel,
> {
    m.remove(world_id)
}

/// The snapshots with another strategy told of world `world_id`.
pub open spec fn strategy_set(m: Map<usize, DebugModel>, world_id: usize, message: String) -> Map<
    usize,
    DebugModel,
> {
    m.insert(world_id, DebugModel { strategy: Some(message), ..snapshot_at(m, world_id) })
}

/// The snapshots with no strategy told of world `world_id`.
pub open spec fn strategy_cleared(m: Map<usize, DebugModel>, world_id: usize) -> Map<
    usize,
    DebugModel,
> {
    if m.contains_key(world_id) {
        m.insert(world_id, DebugModel { strategy: None, ..m[world_id] })
    } else {
        m
    }
}

/// The snapshots with `info` told of its robot in world `world_id`.
pub open spec fn robot_set(m: Map<usize, DebugModel>, world_id: usize, info: RobotDebugInfo) -> Map<
    usize,
    DebugModel,
> {
    m.insert(
        world_id,
        DebugModel {
            robots: with_robot(snapshot_at(m, world_id).robots, info),
            ..snapshot_at(m, world_id)
        },
    )
}

/// The snapshots with nothing told of a robot in world `world_id`.
pub open spec fn robot_cleared(
    m: Map<usize, DebugModel>,
    world_id: usize,
    team: TeamColor,
    id: usize,
) -> Map<usize, DebugModel> {
    if m.contains_key(world_id) {
        m.insert(
            world_id,
            DebugModel { robots: without_robot(m[world_id].robots, team, id), ..m[world_id] },
        )
    } else {
        m
    }
}

/// The debug snapshots of all worlds, each under its world's number.
pub struct DebugBoard {
    pub snapshots: Table<usize, ViewerDebugSnapshot>,
}

impl View for DebugBoard {
    type V = Map<usize, DebugModel>;

    open spec fn view(&self) -> Map<usize, DebugModel> {
        self.snapshots@.map_values(|s: ViewerDebugSnapshot| s@)
    }
}

impl DebugBoard {
    pub fn new() -> (b: DebugBoard)
        ensures
            b@ == Map::<usize, DebugModel>::empty(),
    {
        let b = DebugBoard { snapshots: Table::new() };
        assert(b@ =~= Map::<usize, DebugModel>::empty());
        b
    }

    /// The snapshot of world `world_id`.
    pub fn get(&self, world_id: usize) -> (r: Option<&ViewerDebugSnapshot>)
        ensures
            match r {
                Some(s) => self@.contains_key(world_id) && s@ == self@[world_id],
                None => !self@.contains_key(world_id),
            },
    {
        self.snapshots.get(&world_id)
    }

    pub fn set(&mut self, world_id: usize, snapshot: ViewerDebugSnapshot)
        ensures
            final(self)@ == old(self)@.insert(world_id, snapshot@),
    {
        self.snapshots.insert(world_id, snapshot);
        assert(self@ =~= old(self)@.insert(world_id, snapshot@));
    }

    /// Takes the snapshot of world `world_id` out; a blank one where there was none.
    fn take_or_blank(&mut self, world_id: usize) -> (r: ViewerDebugSnapshot)
        ensures
            r@ == snapshot_at(old(self)@, world_id),
            final(self)@ == old(self)@.remove(world_id),
    {
        let taken = self.snapshots.remove(&world_id);
        assert(self@ =~= old(self)@.remove(world_id));
        match taken {
            Some(s) => s,
            None => ViewerDebugSnapshot::blank(world_id),
        }
    }

    pub fn set_debug_snapshot(&mut self, snapshot: ViewerDebugSnapshot)
        ensures
            final(self)@ == snapshot_set(old(self)@, snapshot),
    {
        let world_id: usize = snapshot.world_id;
        self.set(world_id, snapshot);
    }

    pub fn clear_debug_snapshot(&mut self, world_id: usize)
        ensures
            final(self)@ == snapshot_cleared(old(self)@, world_id),
    {
        let _ = self.take_or_blank(world_id);
    }

    pub fn set_strategy_debug_message(&mut self, world_id: usize, message: String)
        ensures
            final(self)@ == strategy_set(old(self)@, world_id, message),
    {
        let mut snapshot = self.take_or_blank(world_id);
        snapshot.strategy = Some(message);
        self.set(world_id, snapshot);
        assert(self@ =~= old(self)@.insert(
            world_id,
            DebugModel { strategy: Some(message), ..snapshot_at(old(self)@, world_id) },
        ));
    }

    pub fn clear_strategy_debug_message(&mut self, world_id: usize)
        ensures
            final(self)@ == strategy_cleared(old(self)@, world_id),
    {
        if self.get(world_id).is_none() {
            return;
        }
        let mut snapshot = self.take_or_blank(world_id);
        snapshot.strategy = None;
        self.set(world_id, snapshot);
        assert(self@ =~= old(self)@.insert(
            world_id,
            DebugModel { strategy: None, ..old(self)@[world_id] },
        ));
    }

    pub fn set_robot_debug(&mut self, world_id: usize, info: RobotDebugInfo)
        ensures
            final(self)@ == robot_set(old(self)@, world_id, info),
    {
        let mut snapshot = self.take_or_blank(world_id);
        let ghost before = snapshot.robots@;
        proof {
            lemma_robot_place(before, info.team, info.id);
        }
        let mut i: usize = 0;
        while i < snapshot.robots.len() && !(snapshot.robots[i].team == info.team
            && snapshot.robots[i].id == info.id)
            invariant
                i <= snapshot.robots@.len(),
                forall|j: int|
                    0 <= j < i ==> !((#[trigger] snapshot.robots@[j]).team == info.team
                        && snapshot.robots@[j].id == info.id),
            decreases snapshot.robots@.len() - i,
        {
            i += 1;
        }
        if i < snapshot.robots.len() {
            assert(i == robot_place(before, info.team, info.id)) by {
                assert(before[i as int].team == info.team);
                let p = robot_place(before, info.team, info.id);
                assert(p < before.len() ==> before[p].team == info.team);
            }
            snapshot.robots[i] = info;
        } else {
            assert(robot_place(before, info.team, info.id) == before.len());
            snapshot.robots.push(info);
        }
        assert(snapshot.robots@ == with_robot(before, info));
        self.set(world_id, snapshot);
        assert(self@ =~= old(self)@.insert(world_id, snapshot@));
    }

    pub fn clear_robot_debug(&mut self, world_id: usize, team: TeamColor, id: usize)
        ensures
            final(self)@ == robot_cleared(old(self)@, world_id, team, id),
    {
        if self.get(world_id).is_none() {
            return;
        }
        let mut snapshot = self.take_or_blank(world_id);
        let ghost before = snapshot.robots@;
        let mut kept: Vec<RobotDebugInfo> = Vec::new();
        let mut i: usize = 0;
        while i < snapshot.robots.len()
            invariant
                i <= snapshot.robots@.len(),
                kept@ == without_robot(snapshot.robots@.take(i as int), team, id),
            decreases snapshot.robots@.len() - i,
        {
            let robot = &snapshot.robots[i];
            proof {
                let longer = snapshot.robots@.take(i + 1);
                assert(longer.drop_last() == snapshot.robots@.take(i as int));
                assert(longer.last() == *robot);
            }
            if robot.team != team || robot.id != id {
                kept.push(robot.copy());
            }
            i += 1;
        }
        assert(snapshot.robots@.take(i as int) == before);
        snapshot.robots = kept;
        self.set(world_id, snapshot);
        assert(self@ =~= old(self)@.insert(world_id, snapshot@));
    }
}

/// The recorded snapshot of world `world_id` in a frame, in its live form.
pub open spec fn recorded_at(debug: Seq<ReplayDebugSnapshot>, world_id: usize) -> Option<DebugModel>
    decreases debug.len(),
{
    if debug.len() == 0 {
        None
    } else if debug[0].world_id == world_id {
        Some(live_snapshot(debug[0]@))
    } else {
        recorded_at(debug.drop_first(), world_id)
    }
}

pub fn replay_frame_debug_snapshot(world_id: usize, frame: &ReplayFrame) -> (r: Option<
    ViewerDebugSnapshot,
>)
    ensures
        match r {
            Some(s) => recorded_at(frame.debug@, world_id) == Some(s@),
            None => recorded_at(frame.debug@, world_id) is None,
        },
{
    let mut i: usize = 0;
    assert(frame.debug@.skip(0) =~= frame.debug@);
    while i < frame.debug.len()
        invariant
            i <= frame.debug@.len(),
            recorded_at(frame.debug@, world_id) == recorded_at(
                frame.debug@.skip(i as int),
                world_id,
            ),
        decreases frame.debug@.len() - i,
    {
        assert(frame.debug@.skip(i as int).drop_first() =~= frame.debug@.skip(i + 1));
        assert(frame.debug@.skip(i as int)[0] == frame.debug@[i as int]);
        if frame.debug[i].world_id == world_id {
            return Some(ViewerDebugSnapshot::from(&frame.debug[i]));
        }
        i += 1;
    }
    None
}

// ---------------------------------------------------------------------------
// Both sides' controllers together

/// The strategies that say something, blue's first.
pub open spec fn told_strategies(blue: Option<DebugModel>, yellow: Option<DebugModel>) -> Seq<
    Seq<char>,
> {
    told_strategy(blue) + told_strategy(yellow)
}

pub open spec fn told_strategy(side: Option<DebugModel>) -> Seq<Seq<char>> {
    match side {
        Some(m) => match m.strategy {
            Some(s) => if s@.len() > 0 {
                seq![s@]
            } else {
                Seq::empty()
            },
            None => Seq::empty(),
        },
        None => Seq::empty(),
    }
}

pub open spec fn told_robots(side: Option<DebugModel>) -> Seq<RobotDebugInfo> {
    match side {
        Some(m) => m.robots,
        None => Seq::empty(),
    }
}

pub open spec fn told_overlays(side: Option<DebugModel>) -> Seq<DebugOverlay> {
    match side {
        Some(m) => m.overlays,
        None => Seq::empty(),
    }
}

pub open spec fn side_view(side: Option<ViewerDebugSnapshot>) -> Option<DebugModel> {
    match side {
        Some(s) => Some(s@),
        None => None,
    }
}

fn note_strategy(list: &mut Vec<String>, side: &Option<ViewerDebugSnapshot>)
    ensures
        text::texts(final(list)@) == text::texts(old(list)@) + told_strategy(side_view(*side)),
{
    let ghost before = list@;
    match side {
        Some(snapshot) => match &snapshot.strategy {
            Some(strategy) => if !is_empty_text(strategy.as_str()) {
                list.push(strategy.clone());
            },
            None => {},
        },
        None => {},
    }
    assert(text::texts(list@) =~= text::texts(before) + told_strategy(side_view(*side)));
}

/// Whether `s` is what both sides' controllers have to say of a world.
pub open spec fn is_told_by_both(
    s: ViewerDebugSnapshot,
    world_id: usize,
    blue: Option<DebugModel>,
    yellow: Option<DebugModel>,
) -> bool {
    let strategy = text::joined(told_strategies(blue, yellow), " | "@);
    &&& s.world_id == world_id
    &&& text::text_view(s.strategy) == (if strategy.len() == 0 {
        None
    } else {
        Some(strategy)
    })
    &&& s.robots@ == told_robots(blue) + told_robots(yellow)
    &&& s.overlays@ == told_overlays(blue) + told_overlays(yellow)
}

/// What both sides' controllers have to say of world `world_id`, in one snapshot: their strategies
/// one after the other, their robots and their overlays. Nothing where neither has anything to say.
pub fn build_controller_debug_snapshot(
    world_id: usize,
    blue: Option<ViewerDebugSnapshot>,
    yellow: Option<ViewerDebugSnapshot>,
) -> (r: Option<ViewerDebugSnapshot>)
    ensures
        r is None <==> blue is None && yellow is None,
        r matches Some(s) ==> is_told_by_both(s, world_id, side_view(blue), side_view(yellow)),
{
    if blue.is_none() && yellow.is_none() {
        return None;
    }
    let mut strategies: Vec<String> = Vec::new();
    note_strategy(&mut strategies, &blue);
    note_strategy(&mut strategies, &yellow);
    assert(text::texts(strategies@) =~= told_strategies(side_view(blue), side_view(yellow)));
    let joined = join_texts(strategies.as_slice(), " | ");
    let mut robots: Vec<RobotDebugInfo> = Vec::new();
    let mut overlays: Vec<DebugOverlay> = Vec::new();
    match blue {
        Some(mut snapshot) => {
            robots.append(&mut snapshot.robots);
            overlays.append(&mut snapshot.overlays);
        },
        None => {},
    }
    assert(robots@ =~= told_robots(side_view(blue)));
    assert(overlays@ =~= told_overlays(side_view(blue)));
    match yellow {
        Some(mut snapshot) => {
            robots.append(&mut snapshot.robots);
            overlays.append(&mut snapshot.overlays);
        },
        None => {},
    }
    assert(robots@ =~= told_robots(side_view(blue)) + told_robots(side_view(yellow)));
    assert(overlays@ =~= told_overlays(side_view(blue)) + told_overlays(side_view(yellow)));
    let strategy = if is_empty_text(joined.as_str()) {
        None
    } else {
        Some(joined)
    };
    Some(ViewerDebugSnapshot { world_id, strategy, robots, overlays })
}

// ---------------------------------------------------------------------------
// Laws

/// Whether a recorded overlay and a live one are the same: of one kind, of the same robot, at the same
/// place and angle, in the same color and with the same label.
pub open spec fn same_overlay(recorded: ReplayDebugOverlay, live: DebugOverlay) -> bool {
    match (recorded, live) {
        (ReplayDebugOverlay::HoloRobot(a), DebugOverlay::HoloRobot(b)) => {
            &&& a.team == b.team
            &&& a.id == b.id
            &&& a.x == b.x
            &&& a.y == b.y
            &&& a.orientation == b.orientation
            &&& a.color == b.color
            &&& a.label == b.label
        },
        (ReplayDebugOverlay::KickLine(a), DebugOverlay::KickLine(b)) => {
            &&& a.team == b.team
            &&& a.id == b.id
            &&& a.from_x == b.from_x
            &&& a.from_y == b.from_y
            &&& a.angle == b.angle
            &&& a.color == b.color
            &&& a.label == b.label
        },
        _ => false,
    }
}

/// Whether the same is recorded of a robot as is told live.
pub open spec fn same_robot_info(recorded: ReplayRobotDebugInfo, live: RobotDebugInfo) -> bool {
    &&& recorded.team == live.team
    &&& recorded.id == live.id
    &&& recorded.task == live.task
    &&& recorded.color == live.color
    &&& recorded.message == live.message
}

/// Whether a recorded snapshot says what a live one does, item by item.
pub open spec fn same_snapshot(recorded: RecordedDebugModel, live: DebugModel) -> bool {
    &&& recorded.world_id == live.world_id
    &&& recorded.strategy == live.strategy
    &&& recorded.robots.len() == live.robots.len()
    &&& forall|i: int|
        0 <= i < live.robots.len() ==> same_robot_info(recorded.robots[i], #[trigger] live.robots[i])
    &&& recorded.overlays.len() == live.overlays.len()
    &&& forall|i: int|
        0 <= i < live.overlays.len() ==> same_overlay(
            recorded.overlays[i],
            #[trigger] live.overlays[i],
        )
}

/// What is recorded of a snapshot is what it says, and what is shown of a record is what it says.
pub proof fn law_records_say_what_was_live(live: DebugModel, recorded: RecordedDebugModel)
    ensures
        same_snapshot(recorded_snapshot(live), live),
        same_snapshot(recorded, live_snapshot(recorded)),
{
}

/// What is told of a world's strategy is its strategy until it is taken back, and the worlds' other
/// debug data stays.
pub proof fn law_strategies_are_told_and_taken_back(
    m: Map<usize, DebugModel>,
    world_id: usize,
    message: String,
    other: usize,
)
    ensures
        ({
            let told = strategy_set(m, world_id, message);
            &&& told.contains_key(world_id) && told[world_id].strategy == Some(message)
            &&& m.contains_key(world_id) ==> told[world_id].robots == m[world_id].robots
                && told[world_id].overlays == m[world_id].overlays && told[world_id].world_id
                == m[world_id].world_id
            &&& !m.contains_key(world_id) ==> told[world_id].robots.len() == 0
                && told[world_id].overlays.len() == 0 && told[world_id].world_id == world_id
            &&& other != world_id ==> told.contains_key(other) == m.contains_key(other)
            &&& other != world_id && m.contains_key(other) ==> told[other] == m[other]
        }),
        ({
            let cleared = strategy_cleared(m, world_id);
            &&& cleared.contains_key(world_id) == m.contains_key(world_id)
            &&& m.contains_key(world_id) ==> cleared[world_id].strategy is None
                && cleared[world_id].robots == m[world_id].robots && cleared[world_id].overlays
                == m[world_id].overlays
            &&& other != world_id ==> cleared.contains_key(other) == m.contains_key(other)
            &&& other != world_id && m.contains_key(other) ==> cleared[other] == m[other]
        }),
{
}

/// What is told of a robot is found for it, and what is told of other robots and of other worlds
/// stays; once taken back, nothing is told of the robot and the rest stays.
pub proof fn law_robots_are_told_of_and_taken_back(
    m: Map<usize, DebugModel>,
    world_id: usize,
    info: RobotDebugInfo,
    other: usize,
    i: int,
)
    ensures
        ({
            let told = robot_set(m, world_id, info);
            &&& told.contains_key(world_id) && told[world_id].robots.contains(info)
            &&& m.contains_key(world_id) ==> told[world_id].strategy == m[world_id].strategy
                && told[world_id].overlays == m[world_id].overlays
            &&& m.contains_key(world_id) && 0 <= i < m[world_id].robots.len() && !(
            m[world_id].robots[i].team == info.team && m[world_id].robots[i].id == info.id)
                ==> told[world_id].robots.contains(m[world_id].robots[i])
            &&& other != world_id ==> told.contains_key(other) == m.contains_key(other)
            &&& other != world_id && m.contains_key(other) ==> told[other] == m[other]
        }),
        ({
            let cleared = robot_cleared(m, world_id, info.team, info.id);
            &&& cleared.contains_key(world_id) == m.contains_key(world_id)
            &&& m.contains_key(world_id) ==> cleared[world_id].strategy == m[world_id].strategy
                && cleared[world_id].overlays == m[world_id].overlays
            &&& m.contains_key(world_id) && 0 <= i < m[world_id].robots.len() && !(
            m[world_id].robots[i].team == info.team && m[world_id].robots[i].id == info.id)
                ==> cleared[world_id].robots.contains(m[world_id].robots[i])
            &&& m.contains_key(world_id) ==> forall|j: int|
                0 <= j < cleared[world_id].robots.len() ==> !((
                #[trigger] cleared[world_id].robots[j]).team == info.team
                    && cleared[world_id].robots[j].id == info.id)
            &&& other != world_id ==> cleared.contains_key(other) == m.contains_key(other)
            &&& other != world_id && m.contains_key(other) ==> cleared[other] == m[other]
        }),
{
    let robots = snapshot_at(m, world_id).robots;
    let all = with_robot(robots, info);
    lemma_robot_place(robots, info.team, info.id);
    let p = robot_place(robots, info.team, info.id);
    assert(all[p] == info);
    if m.contains_key(world_id) {
        law_cleared_robot_is_gone(robots, info.team, info.id);
        if 0 <= i < robots.len() && !(robots[i].team == info.team && robots[i].id == info.id) {
            assert(all[i] == robots[i]);
            lemma_others_are_kept(robots, info.team, info.id, i);
        }
    }
}

proof fn lemma_others_are_kept(robots: Seq<RobotDebugInfo>, team: TeamColor, id: usize, i: int)
    requires
        0 <= i < robots.len(),
        !(robots[i].team == team && robots[i].id == id),
    ensures
        without_robot(robots, team, id).contains(robots[i]),
    decreases robots.len(),
{
    let rest = without_robot(robots.drop_last(), team, id);
    let all = without_robot(robots, team, id);
    if i < robots.len() - 1 {
        lemma_others_are_kept(robots.drop_last(), team, id, i);
        let j = choose|j: int| 0 <= j < rest.len() && rest[j] == robots[i];
        assert(all[j] == robots[i]);
    } else {
        assert(all[all.len() - 1] == robots[i]);
    }
}

/// What is shown of a recorded frame is what was recorded first of that world.
pub proof fn law_recorded_worlds_are_found(debug: Seq<ReplayDebugSnapshot>, world_id: usize)
    ensures
        match recorded_at(debug, world_id) {
            Some(m) => exists|i: int|
                0 <= i < debug.len() && (#[trigger] debug[i]).world_id == world_id && same_snapshot(
                    debug[i]@,
                    m,
                ) && forall|j: int| 0 <= j < i ==> (#[trigger] debug[j]).world_id != world_id,
            None => forall|i: int| 0 <= i < debug.len() ==> (#[trigger] debug[i]).world_id != world_id,
        },
    decreases debug.len(),
{
    if debug.len() > 0 {
        if debug[0].world_id == world_id {
            law_records_say_what_was_live(live_snapshot(debug[0]@), debug[0]@);
            assert(same_snapshot(debug[0]@, recorded_at(debug, world_id)->0));
        } else {
            let rest = debug.drop_first();
            law_recorded_worlds_are_found(rest, world_id);
            match recorded_at(rest, world_id) {
                Some(m) => {
                    let i = choose|i: int|
                        0 <= i < rest.len() && (#[trigger] rest[i]).world_id == world_id
                            && same_snapshot(rest[i]@, m) && forall|j: int|
                            0 <= j < i ==> (#[trigger] rest[j]).world_id != world_id;
                    assert(debug[i + 1] == rest[i]);
                    assert forall|j: int| 0 <= j < i + 1 implies (#[trigger] debug[j]).world_id
                        != world_id by {
                        if j > 0 {
                            assert(rest[j - 1] == debug[j]);
                        }
                    }
                },
                None => {
                    assert forall|i: int| 0 <= i < debug.len() implies (#[trigger] debug[i]).world_id
                        != world_id by {
                        if i > 0 {
                            assert(rest[i - 1] == debug[i]);
                        }
                    }
                },
            }
        }
    }
}

/// What both controllers say is all there: blue's robots and overlays first, then yellow's, in their
/// order, and the strategies of those that have one, blue's first, with a bar between.
pub proof fn law_both_controllers_are_heard(
    s: ViewerDebugSnapshot,
    world_id: usize,
    blue: DebugModel,
    yellow: DebugModel,
)
    ensures
        is_told_by_both(s, world_id, Some(blue), Some(yellow)) ==> {
            let b = blue.strategy->0@;
            let y = yellow.strategy->0@;
            let blue_says = blue.strategy is Some && b.len() > 0;
            let yellow_says = yellow.strategy is Some && y.len() > 0;
            &&& s.world_id == world_id
            &&& s.robots@ == blue.robots + yellow.robots
            &&& s.overlays@ == blue.overlays + yellow.overlays
            &&& blue_says && yellow_says ==> s.strategy is Some && s.strategy->0@ == b + " | "@ + y
            &&& blue_says && !yellow_says ==> s.strategy is Some && s.strategy->0@ == b
            &&& !blue_says && yellow_says ==> s.strategy is Some && s.strategy->0@ == y
            &&& !blue_says && !yellow_says ==> s.strategy is None
        },
        is_told_by_both(s, world_id, Some(blue), None) ==> s.robots@ == blue.robots && s.overlays@
            == blue.overlays,
        is_told_by_both(s, world_id, None, Some(yellow)) ==> s.robots@ == yellow.robots
            && s.overlays@ == yellow.overlays,
{
    assert(blue.robots + Seq::<RobotDebugInfo>::empty() =~= blue.robots);
    assert(Seq::<RobotDebugInfo>::empty() + yellow.robots =~= yellow.robots);
    assert(blue.overlays + Seq::<DebugOverlay>::empty() =~= blue.overlays);
    assert(Seq::<DebugOverlay>::empty() + yellow.overlays =~= yellow.overlays);
    let parts = told_strategies(Some(blue), Some(yellow));
    reveal_strlit(" | ");
    reveal_with_fuel(text::joined, 3);
    if parts.len() == 2 {
        assert(parts.drop_last() =~= seq![parts[0]]);
    }
}

/// A snapshot is kept for its own world until it is taken back, and the other worlds keep theirs.
pub proof fn law_snapshots_are_kept_for_their_worlds(
    m: Map<usize, DebugModel>,
    snapshot: ViewerDebugSnapshot,
    other: usize,
)
    ensures
        ({
            let w = snapshot.world_id;
            let told = snapshot_set(m, snapshot);
            let taken = snapshot_cleared(m, w);
            &&& told.contains_key(w)
            &&& told[w].world_id == snapshot.world_id
            &&& told[w].strategy == snapshot.strategy
            &&& told[w].robots == snapshot.robots@
            &&& told[w].overlays == snapshot.overlays@
            &&& !taken.contains_key(w)
            &&& other != w ==> told.contains_key(other) == m.contains_key(other)
            &&& other != w ==> taken.contains_key(other) == m.contains_key(other)
            &&& other != w && m.contains_key(other) ==> told[other] == m[other] && taken[other]
                == m[other]
        }),
{
}

/// What is said of debug data, live or recorded, is said of its own parts.
pub proof fn law_debug_data_is_seen_as_it_is(live: ViewerDebugSnapshot, recorded: ReplayDebugSnapshot)
    ensures
        live@.world_id == live.world_id,
        live@.strategy == live.strategy,
        live@.robots == live.robots@,
        live@.overlays == live.overlays@,
        recorded@.world_id == recorded.world_id,
        recorded@.strategy == recorded.strategy,
        recorded@.robots == recorded.robots@,
        recorded@.overlays == recorded.overlays@,
{
}

} // verus!
