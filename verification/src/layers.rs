//! The debug layers, and the items that controllers' debug data puts on them.
//!
//! The renderer knows primitives alone, so whatever a controller publishes becomes one here.

use vstd::prelude::*;
use crate::debug::{DebugBoard, DebugModel, DebugOverlay, RobotDebugInfo, ViewerDebugSnapshot};
use crate::number;
use crate::number::Double;
use crate::state::{team_robots, RobotState, TeamColor, WorldState};
use crate::text;
use crate::text::{concat_text, copy_text, decimal_text};

verus! {

#[derive(Debug)]
pub struct DebugLayer {
    pub id: String,
    pub parent_id: Option<String>,
    pub label: String,
    pub default_visible: bool,
}

pub struct LayerModel {
    pub id: Seq<char>,
    pub parent_id: Option<Seq<char>>,
    pub label: Seq<char>,
    pub default_visible: bool,
}

impl View for DebugLayer {
    type V = LayerModel;

    open spec fn view(&self) -> LayerModel {
        LayerModel {
            id: self.id@,
            parent_id: text::text_view(self.parent_id),
            label: self.label@,
            default_visible: self.default_visible,
        }
    }
}

pub open spec fn layer_views(layers: Seq<DebugLayer>) -> Seq<LayerModel> {
    Seq::new(layers.len(), |i: int| layers[i]@)
}

/// The root of the layer tree.
pub open spec fn root_layer() -> Seq<char> {
    "simhark.debug"@
}

/// The layer of what a team's robots show in `group`.
pub open spec fn team_layer_id(group: Seq<char>, team: TeamColor) -> Seq<char> {
    group_layer_id(group) + "."@ + team.id_spec()
}

pub open spec fn group_layer_id(group: Seq<char>) -> Seq<char> {
    "simhark.debug."@ + group
}

pub open spec fn visible_layer(id: Seq<char>, parent_id: Option<Seq<char>>, label: Seq<char>) -> LayerModel {
    LayerModel { id, parent_id, label, default_visible: true }
}

/// A group of layers' leaf for one team.
pub open spec fn leaf(group: Seq<char>, team: TeamColor) -> LayerModel {
    visible_layer(team_layer_id(group, team), Some(group_layer_id(group)), team.name_spec())
}

/// The stable layer tree. No id depends on content, so a choice of layers can be kept across
/// frames and restarts; the leaves let a whole team be hidden.
pub open spec fn layer_tree() -> Seq<LayerModel> {
    seq![
        visible_layer(root_layer(), None, "Strategy debug"@),
        visible_layer(group_layer_id("strategy"@), Some(root_layer()), "Strategy"@),
        visible_layer(group_layer_id("tasks"@), Some(root_layer()), "Robot tasks"@),
        visible_layer(group_layer_id("holograms"@), Some(root_layer()), "Holograms"@),
        visible_layer(group_layer_id("kicks"@), Some(root_layer()), "Kick lines"@),
        leaf("tasks"@, TeamColor::Blue),
        leaf("tasks"@, TeamColor::Yellow),
        leaf("holograms"@, TeamColor::Blue),
        leaf("holograms"@, TeamColor::Yellow),
        leaf("kicks"@, TeamColor::Blue),
        leaf("kicks"@, TeamColor::Yellow),
    ]
}

pub open spec fn is_layer(id: Seq<char>) -> bool {
    exists|i: int| 0 <= i < layer_tree().len() && (#[trigger] layer_tree()[i]).id == id
}

fn group_layer(group: &str) -> (r: String)
    ensures
        r@ == group_layer_id(group@),
{
    concat_text("simhark.debug.", group)
}

/// The layer of what a team's robots show in `group`.
pub fn team_layer(group: &str, team: TeamColor) -> (r: String)
    ensures
        r@ == team_layer_id(group@, team),
{
    let dotted = concat_text(group_layer(group).as_str(), ".");
    concat_text(dotted.as_str(), team.id())
}

fn layer_in_group(group: &str, label: &str) -> (r: DebugLayer)
    ensures
        r@ == visible_layer(group_layer_id(group@), Some(root_layer()), label@),
{
    DebugLayer {
        id: group_layer(group),
        parent_id: Some("simhark.debug".to_owned()),
        label: label.to_owned(),
        default_visible: true,
    }
}

fn leaf_layer(group: &str, team: TeamColor) -> (r: DebugLayer)
    ensures
        r@ == leaf(group@, team),
{
    DebugLayer {
        id: team_layer(group, team),
        parent_id: Some(group_layer(group)),
        label: team.name().to_owned(),
        default_visible: true,
    }
}

/// The layers that strategy overlays hang off.
pub fn simhark_debug_layers() -> (r: Vec<DebugLayer>)
    ensures
        layer_views(r@) == layer_tree(),
{
    let mut layers: Vec<DebugLayer> = Vec::new();
    layers.push(
        DebugLayer {
            id: "simhark.debug".to_owned(),
            parent_id: None,
            label: "Strategy debug".to_owned(),
            default_visible: true,
        },
    );
    layers.push(layer_in_group("strategy", "Strategy"));
    layers.push(layer_in_group("tasks", "Robot tasks"));
    layers.push(layer_in_group("holograms", "Holograms"));
    layers.push(layer_in_group("kicks", "Kick lines"));
    layers.push(leaf_layer("tasks", TeamColor::Blue));
    layers.push(leaf_layer("tasks", TeamColor::Yellow));
    layers.push(leaf_layer("holograms", TeamColor::Blue));
    layers.push(leaf_layer("holograms", TeamColor::Yellow));
    layers.push(leaf_layer("kicks", TeamColor::Blue));
    layers.push(leaf_layer("kicks", TeamColor::Yellow));
    assert(layer_views(layers@) =~= layer_tree());
    layers
}

/// Every layer but the root hangs off a layer of the tree.
pub proof fn law_parents_are_layers(i: int)
    requires
        0 <= i < layer_tree().len(),
    ensures
        layer_tree()[i].parent_id matches Some(parent) ==> is_layer(parent),
        layer_tree()[i].parent_id is None <==> i == 0,
{
    assert(layer_tree()[0].id == root_layer());
    assert(layer_tree()[2].id == group_layer_id("tasks"@));
    assert(layer_tree()[3].id == group_layer_id("holograms"@));
    assert(layer_tree()[4].id == group_layer_id("kicks"@));
}

// ---------------------------------------------------------------------------
// Items

/// A place on the field, metres. What has to be computed of it is left to who draws.
#[derive(Debug, Clone, Copy, PartialEq, Eq, Structural)]
pub enum Place {
    /// In the middle of the field's length, 0.2 inside its upper touch line.
    StrategyLabel,
    /// 0.16 above a robot at this place.
    TaskLabel { x: Double, y: Double },
    At { x: Double, y: Double },
    /// Where a shot at `angle` leaves the field; one metre on where it does not.
    ShotEnd { from_x: Double, from_y: Double, angle: Double },
}

/// The stroke width of every item, in millimetres.
pub const STROKE_WIDTH_BITS: u64 = 0x4034_0000_0000_0000;

#[derive(Debug)]
pub struct DebugStyle {
    pub stroke: Option<String>,
    pub fill: Option<String>,
    pub stroke_width_mm: Option<Double>,
    pub opacity: Double,
    pub label: Option<String>,
    pub tooltip: Option<String>,
}

pub struct StyleModel {
    pub stroke: Option<Seq<char>>,
    pub fill: Option<Seq<char>>,
    pub stroke_width_mm: Option<Double>,
    pub opacity: Double,
    pub label: Option<Seq<char>>,
    pub tooltip: Option<Seq<char>>,
}

impl View for DebugStyle {
    type V = StyleModel;

    open spec fn view(&self) -> StyleModel {
        StyleModel {
            stroke: text::text_view(self.stroke),
            fill: text::text_view(self.fill),
            stroke_width_mm: self.stroke_width_mm,
            opacity: self.opacity,
            label: text::text_view(self.label),
            tooltip: text::text_view(self.tooltip),
        }
    }
}

pub open spec fn style_of(color: Seq<char>, label: Option<Seq<char>>) -> StyleModel {
    StyleModel {
        stroke: Some(color),
        fill: None,
        stroke_width_mm: Some(Double { bits: STROKE_WIDTH_BITS }),
        opacity: Double { bits: number::ONE_BITS },
        label,
        tooltip: None,
    }
}

/// Drawn in `color`, with a thin opaque stroke.
pub fn debug_style(color: &str, label: Option<String>) -> (r: DebugStyle)
    ensures
        r@ == style_of(color@, text::text_view(label)),
{
    DebugStyle {
        stroke: Some(color.to_owned()),
        fill: None,
        stroke_width_mm: Some(Double { bits: STROKE_WIDTH_BITS }),
        opacity: Double { bits: number::ONE_BITS },
        label,
        tooltip: None,
    }
}

#[derive(Debug)]
pub enum DebugPrimitive {
    Text { at: Place, text: String, style: DebugStyle },
    RobotPose {
        at: Place,
        orientation_rad: Double,
        team: TeamColor,
        robot_id: Option<u32>,
        style: DebugStyle,
    },
    Arrow { from: Place, to: Place, style: DebugStyle },
}

pub enum PrimitiveModel {
    Text { at: Place, text: Seq<char>, style: StyleModel },
    RobotPose {
        at: Place,
        orientation_rad: Double,
        team: TeamColor,
        robot_id: Option<u32>,
        style: StyleModel,
    },
    Arrow { from: Place, to: Place, style: StyleModel },
}

impl View for DebugPrimitive {
    type V = PrimitiveModel;

    open spec fn view(&self) -> PrimitiveModel {
        match *self {
            DebugPrimitive::Text { at, text, style } => PrimitiveModel::Text {
                at,
                text: text@,
                style: style@,
            },
            DebugPrimitive::RobotPose { at, orientation_rad, team, robot_id, style } => {
                PrimitiveModel::RobotPose { at, orientation_rad, team, robot_id, style: style@ }
            },
            DebugPrimitive::Arrow { from, to, style } => PrimitiveModel::Arrow {
                from,
                to,
                style: style@,
            },
        }
    }
}

#[derive(Debug)]
pub struct DebugItem {
    pub id: String,
    pub layer_id: String,
    pub world_id: Option<u32>,
    pub robot_id: Option<u32>,
    pub primitive: DebugPrimitive,
}

pub struct ItemModel {
    pub id: Seq<char>,
    pub layer_id: Seq<char>,
    pub world_id: Option<u32>,
    pub robot_id: Option<u32>,
    pub primitive: PrimitiveModel,
}

impl View for DebugItem {
    type V = ItemModel;

    open spec fn view(&self) -> ItemModel {
        ItemModel {
            id: self.id@,
            layer_id: self.layer_id@,
            world_id: self.world_id,
            robot_id: self.robot_id,
            primitive: self.primitive@,
        }
    }
}

pub open spec fn item_views(items: Seq<DebugItem>) -> Seq<ItemModel> {
    Seq::new(items.len(), |i: int| items[i]@)
}

/// The first robot `id` of `team` that is on, if there is one.
pub open spec fn robot_on(robots: Seq<RobotState>, id: usize) -> Option<RobotState>
    decreases robots.len(),
{
    if robots.len() == 0 {
        None
    } else if robots[0].id == id && robots[0].is_on {
        Some(robots[0])
    } else {
        robot_on(robots.drop_first(), id)
    }
}

/// Where a robot is, if it is on.
pub fn robot_position(state: &WorldState, team: TeamColor, id: usize) -> (r: Option<
    (Double, Double),
>)
    ensures
        r == (match robot_on(state.robots_of(team), id) {
            Some(robot) => Some((robot.x, robot.y)),
            None => None,
        }),
{
    let robots = team_robots(state, team);
    let ghost all = state.robots_of(team);
    assert(all.skip(0) =~= all);
    let mut i: usize = 0;
    while i < robots.len()
        invariant
            robots@ == all,
            all == state.robots_of(team),
            i <= all.len(),
            robot_on(all, id) == robot_on(all.skip(i as int), id),
        decreases all.len() - i,
    {
        assert(all.skip(i as int).drop_first() =~= all.skip(i + 1));
        assert(all.skip(i as int)[0] == all[i as int]);
        if robots[i].id == id && robots[i].is_on {
            return Some((robots[i].x, robots[i].y));
        }
        i += 1;
    }
    None
}

/// The color of a strategy's label.
pub open spec fn strategy_color() -> Seq<char> {
    "#e6edf3"@
}

pub open spec fn strategy_item(world_id: usize, strategy: Seq<char>) -> ItemModel {
    ItemModel {
        id: "simhark.debug.strategy."@ + text::decimal(world_id as nat),
        layer_id: group_layer_id("strategy"@),
        world_id: Some(world_id as u32),
        robot_id: None,
        primitive: PrimitiveModel::Text {
            at: Place::StrategyLabel,
            text: strategy,
            style: style_of(strategy_color(), None),
        },
    }
}

/// What stands beside a robot: its task, and its message where it has one.
pub open spec fn task_label(robot: RobotDebugInfo) -> Seq<char> {
    match robot.message {
        Some(message) => robot.task@ + " · "@ + message@,
        None => robot.task@,
    }
}

pub open spec fn task_item(world_id: usize, robot: RobotDebugInfo, x: Double, y: Double) -> ItemModel {
    ItemModel {
        id: "simhark.debug.task."@ + text::decimal(world_id as nat) + "."@ + robot.team.name_spec()
            + "."@ + text::decimal(robot.id as nat),
        layer_id: team_layer_id("tasks"@, robot.team),
        world_id: Some(world_id as u32),
        robot_id: Some(robot.id as u32),
        primitive: PrimitiveModel::Text {
            at: Place::TaskLabel { x, y },
            text: task_label(robot),
            style: style_of(robot.color@, None),
        },
    }
}

/// The label of each robot that is on the field. A label means something only where its robot is,
/// so a robot that has left the world has none.
pub open spec fn task_items(state: WorldState, robots: Seq<RobotDebugInfo>) -> Seq<ItemModel>
    decreases robots.len(),
{
    if robots.len() == 0 {
        Seq::empty()
    } else {
        let before = task_items(state, robots.drop_last());
        let robot = robots.last();
        match robot_on(state.robots_of(robot.team), robot.id) {
            Some(on) => before.push(task_item(state.world_id, robot, on.x, on.y)),
            None => before,
        }
    }
}

pub open spec fn overlay_id(kind: Seq<char>, world_id: usize, index: int) -> Seq<char> {
    "simhark.debug."@ + kind + "."@ + text::decimal(world_id as nat) + "."@ + text::decimal(
        index as nat,
    )
}

pub open spec fn overlay_item(world_id: usize, index: int, overlay: DebugOverlay) -> ItemModel {
    match overlay {
        DebugOverlay::HoloRobot(holo) => ItemModel {
            id: overlay_id("holo"@, world_id, index),
            layer_id: team_layer_id("holograms"@, holo.team),
            world_id: Some(world_id as u32),
            robot_id: Some(holo.id as u32),
            primitive: PrimitiveModel::RobotPose {
                at: Place::At { x: holo.x, y: holo.y },
                orientation_rad: match holo.orientation {
                    Some(o) => o,
                    None => Double { bits: number::ZERO_BITS },
                },
                team: holo.team,
                robot_id: Some(holo.id as u32),
                style: style_of(holo.color@, text::text_view(holo.label)),
            },
        },
        DebugOverlay::KickLine(kick) => ItemModel {
            id: overlay_id("kick"@, world_id, index),
            layer_id: team_layer_id("kicks"@, kick.team),
            world_id: Some(world_id as u32),
            robot_id: Some(kick.id as u32),
            primitive: PrimitiveModel::Arrow {
                from: Place::At { x: kick.from_x, y: kick.from_y },
                to: Place::ShotEnd { from_x: kick.from_x, from_y: kick.from_y, angle: kick.angle },
                style: style_of(kick.color@, text::text_view(kick.label)),
            },
        },
    }
}

pub open spec fn overlay_items(world_id: usize, overlays: Seq<DebugOverlay>) -> Seq<ItemModel> {
    Seq::new(overlays.len(), |i: int| overlay_item(world_id, i, overlays[i]))
}

pub open spec fn strategy_items(world_id: usize, strategy: Option<String>) -> Seq<ItemModel> {
    match strategy {
        Some(s) => seq![strategy_item(world_id, s@)],
        None => Seq::empty(),
    }
}

/// The items of one world: its strategy, then its robots' tasks, then its overlays.
pub open spec fn world_items(state: WorldState, snapshot: DebugModel) -> Seq<ItemModel> {
    strategy_items(state.world_id, snapshot.strategy) + task_items(state, snapshot.robots)
        + overlay_items(state.world_id, snapshot.overlays)
}

/// The items of all worlds that are published and have debug data, in the order of `states`.
pub open spec fn debug_items(debug: Map<usize, DebugModel>, states: Seq<WorldState>) -> Seq<
    ItemModel,
>
    decreases states.len(),
{
    if states.len() == 0 {
        Seq::empty()
    } else {
        let before = debug_items(debug, states.drop_last());
        let state = states.last();
        if debug.contains_key(state.world_id) {
            before + world_items(state, debug[state.world_id])
        } else {
            before
        }
    }
}

fn dotted(head: &str, tail: &str) -> (r: String)
    ensures
        r@ == head@ + "."@ + tail@,
{
    concat_text(concat_text(head, ".").as_str(), tail)
}

fn build_strategy_item(world_id: usize, strategy: &String) -> (r: DebugItem)
    ensures
        r@ == strategy_item(world_id, strategy@),
{
    let number = decimal_text(world_id as u64);
    DebugItem {
        id: concat_text("simhark.debug.strategy.", number.as_str()),
        layer_id: group_layer("strategy"),
        world_id: Some(#[verifier::truncate] (world_id as u32)),
        robot_id: None,
        primitive: DebugPrimitive::Text {
            at: Place::StrategyLabel,
            text: strategy.clone(),
            style: debug_style("#e6edf3", None),
        },
    }
}

fn build_task_item(world_id: usize, robot: &RobotDebugInfo, x: Double, y: Double) -> (r: DebugItem)
    ensures
        r@ == task_item(world_id, *robot, x, y),
{
    let label = match &robot.message {
        Some(message) => {
            let head = concat_text(robot.task.as_str(), " · ");
            concat_text(head.as_str(), message.as_str())
        },
        None => robot.task.clone(),
    };
    let number = decimal_text(world_id as u64);
    let head = concat_text("simhark.debug.task.", number.as_str());
    let with_team = dotted(head.as_str(), robot.team.name());
    let id_text = decimal_text(robot.id as u64);
    DebugItem {
        id: dotted(with_team.as_str(), id_text.as_str()),
        layer_id: team_layer("tasks", robot.team),
        world_id: Some(#[verifier::truncate] (world_id as u32)),
        robot_id: Some(#[verifier::truncate] (robot.id as u32)),
        primitive: DebugPrimitive::Text {
            at: Place::TaskLabel { x, y },
            text: label,
            style: debug_style(robot.color.as_str(), None),
        },
    }
}

fn build_overlay_item(world_id: usize, index: usize, overlay: &DebugOverlay) -> (r: DebugItem)
    ensures
        r@ == overlay_item(world_id, index as int, *overlay),
{
    let number = decimal_text(world_id as u64);
    let place = decimal_text(index as u64);
    match overlay {
        DebugOverlay::HoloRobot(holo) => {
            let head = dotted(concat_text("simhark.debug.", "holo").as_str(), number.as_str());
            let orientation = match holo.orientation {
                Some(o) => o,
                None => Double::zero(),
            };
            DebugItem {
                id: dotted(head.as_str(), place.as_str()),
                layer_id: team_layer("holograms", holo.team),
                world_id: Some(#[verifier::truncate] (world_id as u32)),
                robot_id: Some(#[verifier::truncate] (holo.id as u32)),
                primitive: DebugPrimitive::RobotPose {
                    at: Place::At { x: holo.x, y: holo.y },
                    orientation_rad: orientation,
                    team: holo.team,
                    robot_id: Some(#[verifier::truncate] (holo.id as u32)),
                    style: debug_style(holo.color.as_str(), copy_text(&holo.label)),
                },
            }
        },
        DebugOverlay::KickLine(kick) => {
            let head = dotted(concat_text("simhark.debug.", "kick").as_str(), number.as_str());
            DebugItem {
                id: dotted(head.as_str(), place.as_str()),
                layer_id: team_layer("kicks", kick.team),
                world_id: Some(#[verifier::truncate] (world_id as u32)),
                robot_id: Some(#[verifier::truncate] (kick.id as u32)),
                primitive: DebugPrimitive::Arrow {
                    from: Place::At { x: kick.from_x, y: kick.from_y },
                    to: Place::ShotEnd {
                        from_x: kick.from_x,
                        from_y: kick.from_y,
                        angle: kick.angle,
                    },
                    style: debug_style(kick.color.as_str(), copy_text(&kick.label)),
                },
            }
        },
    }
}

fn add_world_items(items: &mut Vec<DebugItem>, state: &WorldState, snapshot: &ViewerDebugSnapshot)
    ensures
        item_views(final(items)@) == item_views(old(items)@) + world_items(*state, snapshot@),
{
    let ghost start = item_views(items@);
    let world_id: usize = state.world_id;
    let ghost first = strategy_items(world_id, snapshot.strategy);
    match &snapshot.strategy {
        Some(strategy) => {
            items.push(build_strategy_item(world_id, strategy));
        },
        None => {},
    }
    assert(item_views(items@) =~= start + first);

    let mut i: usize = 0;
    while i < snapshot.robots.len()
        invariant
            world_id == state.world_id,
            i <= snapshot.robots@.len(),
            item_views(items@) == start + first + task_items(
                *state,
                snapshot.robots@.take(i as int),
            ),
        decreases snapshot.robots@.len() - i,
    {
        let robot = &snapshot.robots[i];
        let ghost before = item_views(items@);
        let ghost tasks = task_items(*state, snapshot.robots@.take(i as int));
        proof {
            let longer = snapshot.robots@.take(i + 1);
            assert(longer.drop_last() == snapshot.robots@.take(i as int));
            assert(longer.last() == *robot);
        }
        match robot_position(state, robot.team, robot.id) {
            Some((x, y)) => {
                let item = build_task_item(world_id, robot, x, y);
                items.push(item);
                assert(item_views(items@) =~= before.push(item@));
                assert(before.push(item@) =~= start + first + tasks.push(item@));
            },
            None => {},
        }
        i += 1;
    }
    assert(snapshot.robots@.take(i as int) == snapshot.robots@);

    let ghost so_far = item_views(items@);
    let ghost all = overlay_items(world_id, snapshot.overlays@);
    assert(so_far + all.take(0) =~= so_far);
    let mut k: usize = 0;
    while k < snapshot.overlays.len()
        invariant
            k <= snapshot.overlays@.len(),
            all == overlay_items(world_id, snapshot.overlays@),
            item_views(items@) == so_far + all.take(k as int),
        decreases snapshot.overlays@.len() - k,
    {
        let ghost before = item_views(items@);
        let item = build_overlay_item(world_id, k, &snapshot.overlays[k]);
        items.push(item);
        assert(item_views(items@) =~= before.push(item@));
        k += 1;
        assert(item_views(items@) =~= so_far + all.take(k as int));
    }
    assert(all.take(k as int) =~= all);
}

/// The items that the debug data of the published worlds puts on the layers.
pub fn canonical_debug_items(debug: &DebugBoard, states: &[WorldState]) -> (r: Vec<DebugItem>)
    ensures
        item_views(r@) == debug_items(debug@, states@),
{
    let mut items: Vec<DebugItem> = Vec::new();
    assert(item_views(items@) =~= Seq::<ItemModel>::empty());
    let mut i: usize = 0;
    while i < states.len()
        invariant
            i <= states@.len(),
            item_views(items@) == debug_items(debug@, states@.take(i as int)),
        decreases states@.len() - i,
    {
        let state = &states[i];
        proof {
            let longer = states@.take(i + 1);
            assert(longer.drop_last() == states@.take(i as int));
            assert(longer.last() == *state);
        }
        match debug.get(state.world_id) {
            Some(snapshot) => add_world_items(&mut items, state, snapshot),
            None => {},
        }
        i += 1;
    }
    assert(states@.take(i as int) == states@);
    items
}

// ---------------------------------------------------------------------------
// Laws

pub open spec fn on_layers(items: Seq<ItemModel>) -> bool {
    forall|i: int| 0 <= i < items.len() ==> is_layer((#[trigger] items[i]).layer_id)
}

proof fn lemma_leaves(team: TeamColor)
    ensures
        is_layer(group_layer_id("strategy"@)),
        is_layer(team_layer_id("tasks"@, team)),
        is_layer(team_layer_id("holograms"@, team)),
        is_layer(team_layer_id("kicks"@, team)),
{
    let t = layer_tree();
    assert(t[1].id == group_layer_id("strategy"@));
    match team {
        TeamColor::Blue => {
            assert(t[5].id == team_layer_id("tasks"@, team));
            assert(t[7].id == team_layer_id("holograms"@, team));
            assert(t[9].id == team_layer_id("kicks"@, team));
        },
        TeamColor::Yellow => {
            assert(t[6].id == team_layer_id("tasks"@, team));
            assert(t[8].id == team_layer_id("holograms"@, team));
            assert(t[10].id == team_layer_id("kicks"@, team));
        },
    }
}

proof fn lemma_task_items(state: WorldState, robots: Seq<RobotDebugInfo>)
    ensures
        on_layers(task_items(state, robots)),
    decreases robots.len(),
{
    if robots.len() > 0 {
        lemma_task_items(state, robots.drop_last());
        lemma_leaves(robots.last().team);
    }
}

/// Every item stands on a layer of the tree.
pub proof fn law_items_are_on_layers(debug: Map<usize, DebugModel>, states: Seq<WorldState>)
    ensures
        on_layers(debug_items(debug, states)),
    decreases states.len(),
{
    if states.len() > 0 {
        law_items_are_on_layers(debug, states.drop_last());
        let state = states.last();
        if debug.contains_key(state.world_id) {
            let snapshot = debug[state.world_id];
            lemma_leaves(TeamColor::Blue);
            lemma_leaves(TeamColor::Yellow);
            lemma_task_items(state, snapshot.robots);
        }
    }
}

/// A world without debug data adds nothing.
pub proof fn law_worlds_without_debug_data_add_nothing(states: Seq<WorldState>)
    ensures
        debug_items(Map::empty(), states).len() == 0,
    decreases states.len(),
{
    if states.len() > 0 {
        law_worlds_without_debug_data_add_nothing(states.drop_last());
    }
}

/// Robots that are not on the field get no label.
pub proof fn law_absent_robots_have_no_label(state: WorldState, robots: Seq<RobotDebugInfo>)
    requires
        forall|i: int|
            0 <= i < robots.len() ==> robot_on(
                state.robots_of((#[trigger] robots[i]).team),
                robots[i].id,
            ) is None,
    ensures
        task_items(state, robots).len() == 0,
    decreases robots.len(),
{
    if robots.len() > 0 {
        let short = robots.drop_last();
        assert forall|i: int| 0 <= i < short.len() implies robot_on(
            state.robots_of((#[trigger] short[i]).team),
            short[i].id,
        ) is None by {
            assert(short[i] == robots[i]);
        }
        law_absent_robots_have_no_label(state, short);
        assert(robots.last() == robots[robots.len() - 1]);
    }
}

/// The robot that is taken for number `id` is the first in the list that has the number and is on;
/// there is none only where no robot in the list is both.
pub proof fn law_the_first_robot_that_is_on(robots: Seq<RobotState>, id: usize)
    ensures
        match robot_on(robots, id) {
            Some(robot) => exists|k: int|
                0 <= k < robots.len() && #[trigger] robots[k] == robot && robot.id == id
                    && robot.is_on && forall|j: int|
                    0 <= j < k ==> !((#[trigger] robots[j]).id == id && robots[j].is_on),
            None => forall|k: int|
                0 <= k < robots.len() ==> !((#[trigger] robots[k]).id == id && robots[k].is_on),
        },
    decreases robots.len(),
{
    if robots.len() > 0 && !(robots[0].id == id && robots[0].is_on) {
        let rest = robots.drop_first();
        law_the_first_robot_that_is_on(rest, id);
        match robot_on(rest, id) {
            Some(robot) => {
                let k = choose|k: int|
                    0 <= k < rest.len() && #[trigger] rest[k] == robot && robot.id == id
                        && robot.is_on && forall|j: int|
                        0 <= j < k ==> !((#[trigger] rest[j]).id == id && rest[j].is_on);
                assert(robots[k + 1] == robot);
                assert forall|j: int| 0 <= j < k + 1 implies !((#[trigger] robots[j]).id == id
                    && robots[j].is_on) by {
                    if j > 0 {
                        assert(rest[j - 1] == robots[j]);
                    }
                }
            },
            None => {
                assert forall|k: int| 0 <= k < robots.len() implies !((#[trigger] robots[k]).id == id
                    && robots[k].is_on) by {
                    if k > 0 {
                        assert(rest[k - 1] == robots[k]);
                    }
                }
            },
        }
    } else if robots.len() > 0 {
        assert(robots[0].id == id);
    }
}

/// Whether an item shows a robot's task: a text beside the robot, in its color, on its team's layer,
/// that begins with the task and ends with the message if there is one.
pub open spec fn shows_task(item: ItemModel, world_id: usize, info: RobotDebugInfo, on: RobotState) -> bool {
    &&& world_id <= u32::MAX ==> item.world_id == Some(world_id as u32)
    &&& info.id <= u32::MAX ==> item.robot_id == Some(info.id as u32)
    &&& item.layer_id == "simhark.debug."@ + "tasks"@ + "."@ + (if info.team is Blue {
        "blue"@
    } else {
        "yellow"@
    })
    &&& item.primitive matches PrimitiveModel::Text { at, text, style }
    &&& at == (Place::TaskLabel { x: on.x, y: on.y })
    &&& style.stroke == Some(info.color@)
    &&& text.take(info.task@.len() as int) == info.task@
    &&& info.message is None ==> text == info.task@
    &&& info.message matches Some(message) ==> text.skip(text.len() - message@.len()) == message@
}

/// The label of a robot's task stands beside the robot and says the task.
pub proof fn law_task_labels(world_id: usize, info: RobotDebugInfo, on: RobotState)
    ensures
        shows_task(task_item(world_id, info, on.x, on.y), world_id, info, on),
{
    let text = task_label(info);
    assert(text.take(info.task@.len() as int) =~= info.task@);
    match info.message {
        Some(message) => {
            assert(text.skip(text.len() - message@.len()) =~= message@);
        },
        None => {},
    }
}

/// Whether one of `items` shows the task of `info`, beside a robot of its number and team that is on.
pub open spec fn has_task_label(items: Seq<ItemModel>, state: WorldState, info: RobotDebugInfo) -> bool {
    exists|j: int, k: int|
        0 <= j < items.len() && 0 <= k < state.robots_of(info.team).len() && shows_task(
            #[trigger] items[j],
            state.world_id,
            info,
            #[trigger] state.robots_of(info.team)[k],
        ) && state.robots_of(info.team)[k].id == info.id && state.robots_of(info.team)[k].is_on
}

/// Every robot that debug data speaks of and that is on the field has its label.
pub proof fn law_robots_on_the_field_have_labels(
    state: WorldState,
    robots: Seq<RobotDebugInfo>,
    i: int,
)
    requires
        0 <= i < robots.len(),
        exists|k: int|
            0 <= k < state.robots_of(robots[i].team).len() && (#[trigger] state.robots_of(
                robots[i].team,
            )[k]).id == robots[i].id && state.robots_of(robots[i].team)[k].is_on,
    ensures
        has_task_label(task_items(state, robots), state, robots[i]),
    decreases robots.len(),
{
    let init = robots.drop_last();
    let items = task_items(state, robots);
    if i < init.len() {
        assert(init[i] == robots[i]);
        law_robots_on_the_field_have_labels(state, init, i);
        let before = task_items(state, init);
        let (j, k) = choose|j: int, k: int|
            0 <= j < before.len() && 0 <= k < state.robots_of(robots[i].team).len() && shows_task(
                #[trigger] before[j],
                state.world_id,
                robots[i],
                #[trigger] state.robots_of(robots[i].team)[k],
            ) && state.robots_of(robots[i].team)[k].id == robots[i].id && state.robots_of(
                robots[i].team,
            )[k].is_on;
        assert(items[j] == before[j]);
        assert(shows_task(items[j], state.world_id, robots[i], state.robots_of(robots[i].team)[k]));
    } else {
        let info = robots[i];
        let team = state.robots_of(info.team);
        law_the_first_robot_that_is_on(team, info.id);
        let on = robot_on(team, info.id)->0;
        let k = choose|k: int|
            0 <= k < team.len() && #[trigger] team[k] == on && on.id == info.id && on.is_on;
        law_task_labels(state.world_id, info, on);
        let j = items.len() - 1;
        assert(shows_task(items[j], state.world_id, info, state.robots_of(info.team)[k]));
    }
}

/// A strategy is shown as a text on the layer of strategies, under the number of its world.
pub proof fn law_strategies_are_shown(world_id: usize, strategy: Option<String>)
    ensures
        strategy is None ==> strategy_items(world_id, strategy).len() == 0,
        strategy matches Some(s) ==> {
            let items = strategy_items(world_id, strategy);
            &&& items.len() == 1
            &&& items[0].layer_id == "simhark.debug."@ + "strategy"@
            &&& world_id <= u32::MAX ==> items[0].world_id == Some(world_id as u32)
            &&& items[0].robot_id is None
            &&& items[0].primitive matches PrimitiveModel::Text { at, text, .. } && at
                == Place::StrategyLabel && text == s@
        },
{
}

/// Each overlay becomes one item, in order: a hologram a robot's pose where and how it stands, a kick
/// line an arrow from where it starts along its angle; both in their color, with their label, for
/// their robot and on their team's layer.
pub proof fn law_overlays_are_shown(world_id: usize, overlays: Seq<DebugOverlay>, i: int)
    requires
        0 <= i < overlays.len(),
    ensures
        overlay_items(world_id, overlays).len() == overlays.len(),
        world_id <= u32::MAX ==> overlay_items(world_id, overlays)[i].world_id == Some(
            world_id as u32,
        ),
        match overlays[i] {
            DebugOverlay::HoloRobot(holo) => {
                let item = overlay_items(world_id, overlays)[i];
                &&& holo.id <= u32::MAX ==> item.robot_id == Some(holo.id as u32)
                &&& item.layer_id == "simhark.debug."@ + "holograms"@ + "."@ + (if holo.team is Blue {
                    "blue"@
                } else {
                    "yellow"@
                })
                &&& item.primitive matches PrimitiveModel::RobotPose {
                    at,
                    orientation_rad,
                    team,
                    style,
                    ..
                }
                &&& at == (Place::At { x: holo.x, y: holo.y })
                &&& holo.orientation is Some ==> holo.orientation == Some(orientation_rad)
                &&& holo.orientation is None ==> orientation_rad.bits == 0
                &&& team == holo.team
                &&& style.stroke == Some(holo.color@)
                &&& holo.label matches Some(label) ==> style.label == Some(label@)
            },
            DebugOverlay::KickLine(kick) => {
                let item = overlay_items(world_id, overlays)[i];
                &&& kick.id <= u32::MAX ==> item.robot_id == Some(kick.id as u32)
                &&& item.layer_id == "simhark.debug."@ + "kicks"@ + "."@ + (if kick.team is Blue {
                    "blue"@
                } else {
                    "yellow"@
                })
                &&& item.primitive matches PrimitiveModel::Arrow { from, to, style }
                &&& from == (Place::At { x: kick.from_x, y: kick.from_y })
                &&& to == (Place::ShotEnd {
                    from_x: kick.from_x,
                    from_y: kick.from_y,
                    angle: kick.angle,
                })
                &&& style.stroke == Some(kick.color@)
                &&& kick.label matches Some(label) ==> style.label == Some(label@)
            },
        },
{
}

/// The items of a world are those of its strategy, its robots' tasks and its overlays, one after the
/// other; those of several worlds follow in the order of the worlds, and only of worlds that have
/// debug data.
pub proof fn law_items_are_those_of_their_worlds(
    debug: Map<usize, DebugModel>,
    states: Seq<WorldState>,
    state: WorldState,
)
    ensures
        ({
            let before = debug_items(debug, states);
            let all = debug_items(debug, states.push(state));
            if debug.contains_key(state.world_id) {
                let m = debug[state.world_id];
                all == before + strategy_items(state.world_id, m.strategy) + task_items(
                    state,
                    m.robots,
                ) + overlay_items(state.world_id, m.overlays)
            } else {
                all == before
            }
        }),
        debug_items(debug, Seq::empty()).len() == 0,
{
    assert(states.push(state).drop_last() =~= states);
    if debug.contains_key(state.world_id) {
        let m = debug[state.world_id];
        assert(debug_items(debug, states.push(state)) =~= debug_items(debug, states)
            + strategy_items(state.world_id, m.strategy) + task_items(state, m.robots)
            + overlay_items(state.world_id, m.overlays));
    }
}

/// The layers are the root, four groups under it and a leaf for each team under three of them, the
/// team's own by its name; all of them are shown from the start.
pub proof fn law_the_layers_of_the_tree(i: int)
    requires
        0 <= i < layer_tree().len(),
    ensures
        layer_tree().len() == 11,
        layer_tree()[i].default_visible,
        layer_tree()[0].id == "simhark.debug"@,
        1 <= i < 5 ==> layer_tree()[i].parent_id == Some("simhark.debug"@),
        layer_tree()[1].id == "simhark.debug."@ + "strategy"@,
        layer_tree()[2].id == "simhark.debug."@ + "tasks"@,
        layer_tree()[3].id == "simhark.debug."@ + "holograms"@,
        layer_tree()[4].id == "simhark.debug."@ + "kicks"@,
        i == 5 || i == 7 || i == 9 ==> {
            let group = layer_tree()[i / 2].id;
            &&& layer_tree()[i].parent_id == Some(group)
            &&& layer_tree()[i].id == group + "."@ + "blue"@
            &&& layer_tree()[i].label == "Blue"@
        },
        i == 6 || i == 8 || i == 10 ==> {
            let group = layer_tree()[(i - 1) / 2].id;
            &&& layer_tree()[i].parent_id == Some(group)
            &&& layer_tree()[i].id == group + "."@ + "yellow"@
            &&& layer_tree()[i].label == "Yellow"@
        },
{
}

/// What is said of layers, styles and items is said of their own parts.
pub proof fn law_layers_and_items_are_seen_as_they_are(layer: DebugLayer, style: DebugStyle, item: DebugItem)
    ensures
        layer@.id == layer.id@,
        layer@.parent_id is Some == layer.parent_id is Some,
        layer.parent_id is Some ==> layer@.parent_id->0 == layer.parent_id->0@,
        layer@.label == layer.label@,
        layer@.default_visible == layer.default_visible,
        style@.stroke is Some == style.stroke is Some,
        style.stroke is Some ==> style@.stroke->0 == style.stroke->0@,
        style@.fill is Some == style.fill is Some,
        style.fill is Some ==> style@.fill->0 == style.fill->0@,
        style@.stroke_width_mm == style.stroke_width_mm,
        style@.opacity == style.opacity,
        style@.label is Some == style.label is Some,
        style.label is Some ==> style@.label->0 == style.label->0@,
        style@.tooltip is Some == style.tooltip is Some,
        style.tooltip is Some ==> style@.tooltip->0 == style.tooltip->0@,
        item@.id == item.id@,
        item@.layer_id == item.layer_id@,
        item@.world_id == item.world_id,
        item@.robot_id == item.robot_id,
        item@.primitive == item.primitive@,
{
}

/// What is said of a shape is said of its own parts, and of a shape of its kind.
pub proof fn law_shapes_are_seen_as_they_are(p: DebugPrimitive)
    ensures
        p matches DebugPrimitive::Text { at: a, text: t, style: s } ==> (
        p@ matches PrimitiveModel::Text { at, text, style } && at == a && text == t@ && style == s@),
        p matches DebugPrimitive::RobotPose {
            at: a,
            orientation_rad: o,
            team: c,
            robot_id: i,
            style: s,
        } ==> (p@ matches PrimitiveModel::RobotPose { at, orientation_rad, team, robot_id, style }
            && at == a && orientation_rad == o && team == c && robot_id == i && style == s@),
        p matches DebugPrimitive::Arrow { from: a, to: b, style: s } ==> (
        p@ matches PrimitiveModel::Arrow { from, to, style } && from == a && to == b && style == s@),
{
}

/// Everything is drawn in its own color and with its own label, by an opaque stroke twenty millimetres
/// wide and without a filling.
pub proof fn law_styles(color: Seq<char>, label: Option<Seq<char>>)
    ensures
        style_of(color, label).stroke == Some(color),
        style_of(color, label).label == label,
        style_of(color, label).stroke_width_mm == Some(Double { bits: 0x4034_0000_0000_0000 }),
        style_of(color, label).opacity.bits == 0x3ff0_0000_0000_0000,
        style_of(color, label).fill is None,
        style_of(color, label).tooltip is None,
{
}

/// Every item goes by what it shows and its world: the strategy by the world alone, a task by its robot,
/// an overlay by its place among the overlays.
pub proof fn law_names_of_items(
    world_id: usize,
    strategy: Seq<char>,
    info: RobotDebugInfo,
    x: Double,
    y: Double,
    overlays: Seq<DebugOverlay>,
    i: int,
)
    requires
        0 <= i < overlays.len(),
    ensures
        ({
            let world = text::decimal(world_id as nat);
            let overlay = overlay_items(world_id, overlays)[i];
            &&& strategy_item(world_id, strategy).id == "simhark.debug.strategy."@ + world
            &&& info.team is Blue ==> task_item(world_id, info, x, y).id == "simhark.debug.task."@
                + world + "."@ + "Blue"@ + "."@ + text::decimal(info.id as nat)
            &&& info.team is Yellow ==> task_item(world_id, info, x, y).id == "simhark.debug.task."@
                + world + "."@ + "Yellow"@ + "."@ + text::decimal(info.id as nat)
            &&& overlays[i] is HoloRobot ==> overlay.id == "simhark.debug."@ + "holo"@ + "."@ + world
                + "."@ + text::decimal(i as nat)
            &&& overlays[i] is KickLine ==> overlay.id == "simhark.debug."@ + "kick"@ + "."@ + world
                + "."@ + text::decimal(i as nat)
        }),
{
}

/// A robot's label is its task, with its message behind a dot where it has one; a strategy is written in
/// its own color. A hologram is of its robot, and what has no label is drawn without one.
pub proof fn law_what_is_written(
    world_id: usize,
    strategy: Seq<char>,
    info: RobotDebugInfo,
    overlays: Seq<DebugOverlay>,
    i: int,
)
    requires
        0 <= i < overlays.len(),
    ensures
        info.message is None ==> task_label(info) == info.task@,
        info.message is Some ==> task_label(info) == info.task@ + " · "@ + info.message->0@,
        strategy_item(world_id, strategy).primitive matches PrimitiveModel::Text { style, .. }
            && style.stroke == Some("#e6edf3"@) && style.label is None,
        overlays[i] matches DebugOverlay::HoloRobot(holo) ==> (
        overlay_items(world_id, overlays)[i].primitive matches PrimitiveModel::RobotPose {
            robot_id,
            style,
            ..
        } && (holo.id <= u32::MAX ==> robot_id == Some(holo.id as u32)) && (holo.label is None
            ==> style.label is None)),
        overlays[i] matches DebugOverlay::KickLine(kick) ==> (
        overlay_items(world_id, overlays)[i].primitive matches PrimitiveModel::Arrow { style, .. }
            && (kick.label is None ==> style.label is None)),
{
}

} // verus!
