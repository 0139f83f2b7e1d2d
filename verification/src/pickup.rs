//! Watching whether a side picks up a ball that it could pick up.
//!
//! Distances and speeds are measured outside and handed in; what is decided of them is here.

use vstd::prelude::*;
use crate::config::MatchConfig;
use crate::number;
use crate::number::Double;
use crate::report;
use crate::report::{command_is_active, find_command};
use crate::state::{team_robots, RobotCommand, RobotState, TeamColor, WorldState};

verus! {

/// A ball faster than this is fast: one metre a second.
pub const FAST_BALL_BITS: u64 = number::ONE_BITS;

/// A robot this near to a slow ball should take it: 0.18 m.
pub const SLOW_REACH_BITS: u64 = 0x3fc7_0a3d_70a3_d70a;

/// A robot this near to the ball need not move towards it: 0.05 m.
pub const AT_BALL_BITS: u64 = 0x3fa9_9999_9999_999a;

/// A robot this near to a pickup point need not move towards it: 0.10 m.
pub const AT_POINT_BITS: u64 = 0x3fb9_9999_9999_999a;

/// What counts as moving, and as closing in: 0.03 m/s.
pub const MOVING_BITS: u64 = 0x3f9e_b851_eb85_1eb8;

/// How a robot's command moves it with regard to a point.
#[derive(Debug, Clone, Copy, PartialEq, Eq, Structural)]
pub struct Speeds {
    pub speed: Double,
    /// The speed towards the point.
    pub closing: Double,
    /// Thirty-five hundredths of the speed.
    pub share: Double,
}

/// One robot with regard to a point.
#[derive(Debug, Clone, Copy, PartialEq, Eq, Structural)]
pub struct Measured {
    pub distance: Double,
    /// The distance that an opponent must at least have for the robot to be first.
    pub beaten_from: Double,
    /// How its command moves it; `None` where the command does not say.
    pub speeds: Option<Speeds>,
}

/// Both sides with regard to a point: one entry for every robot, in order.
pub struct PointView {
    pub own: Vec<Measured>,
    pub opponents: Vec<Double>,
}

pub open spec fn distances_of(own: Seq<Measured>) -> Seq<Double> {
    Seq::new(own.len(), |i: int| own[i].distance)
}

/// The nearest robot that is on: the first of those with the smallest distance.
pub open spec fn closest(robots: Seq<RobotState>, distances: Seq<Double>) -> Option<int>
    decreases robots.len(),
{
    if robots.len() == 0 {
        None
    } else {
        let k = robots.len() - 1;
        let before = closest(robots.drop_last(), distances);
        if !robots[k].is_on {
            before
        } else {
            match before {
                Some(i) => if distances[k].less(distances[i]) {
                    Some(k)
                } else {
                    Some(i)
                },
                None => Some(k),
            }
        }
    }
}

proof fn lemma_closest(robots: Seq<RobotState>, distances: Seq<Double>)
    ensures
        closest(robots, distances) matches Some(i) ==> 0 <= i < robots.len() && robots[i].is_on,
    decreases robots.len(),
{
    if robots.len() > 0 {
        lemma_closest(robots.drop_last(), distances);
    }
}

pub fn closest_robot(robots: &Vec<RobotState>, distances: &Vec<Double>) -> (r: Option<usize>)
    requires
        distances@.len() == robots@.len(),
    ensures
        match r {
            Some(i) => closest(robots@, distances@) == Some(i as int) && i < robots@.len()
                && robots@[i as int].is_on,
            None => closest(robots@, distances@) is None,
        },
{
    let mut best: Option<usize> = None;
    let mut k: usize = 0;
    while k < robots.len()
        invariant
            distances@.len() == robots@.len(),
            k <= robots@.len(),
            match best {
                Some(i) => closest(robots@.take(k as int), distances@) == Some(i as int) && i < k
                    && robots@[i as int].is_on,
                None => closest(robots@.take(k as int), distances@) is None,
            },
        decreases robots@.len() - k,
    {
        proof {
            let longer = robots@.take(k + 1);
            assert(longer.drop_last() == robots@.take(k as int));
            assert(longer[k as int] == robots@[k as int]);
        }
        if robots[k].is_on {
            match best {
                Some(i) => {
                    if distances[k].is_less(distances[i]) {
                        best = Some(k);
                    }
                },
                None => {
                    best = Some(k);
                },
            }
        }
        k += 1;
    }
    assert(robots@.take(k as int) == robots@);
    best
}

/// Whether a command takes its robot to a point: near enough it has to do anything at all, farther
/// away it has to close in, or go mostly that way.
pub open spec fn moves_toward(command: RobotCommand, m: Measured, close_enough: Double) -> bool {
    if m.distance.at_most(close_enough) {
        report::is_active(command)
    } else {
        match m.speeds {
            Some(s) => {
                &&& !s.speed.less(Double { bits: MOVING_BITS })
                &&& (Double { bits: MOVING_BITS }).at_most(s.closing) || s.share.at_most(s.closing)
            },
            None => false,
        }
    }
}

pub fn command_moves_toward_point(command: &RobotCommand, m: &Measured, close_enough: Double) -> (r:
    bool)
    ensures
        r == moves_toward(*command, *m, close_enough),
{
    if m.distance.is_at_most(close_enough) {
        return command_is_active(command);
    }
    match m.speeds {
        Some(s) => {
            if s.speed.is_less(Double { bits: MOVING_BITS }) {
                return false;
            }
            (Double { bits: MOVING_BITS }).is_at_most(s.closing) || s.share.is_at_most(s.closing)
        },
        None => false,
    }
}

/// Whether robot `id` is told to take the ball: with its dribbler, moving there.
pub open spec fn tries_to_acquire(commands: Seq<RobotCommand>, id: usize, m: Measured) -> bool {
    match report::command_place(commands, id) {
        Some(i) => commands[i].dribbler_on && moves_toward(
            commands[i],
            m,
            Double { bits: AT_BALL_BITS },
        ),
        None => false,
    }
}

pub fn command_tries_to_acquire(commands: &[RobotCommand], id: usize, m: &Measured) -> (r: bool)
    ensures
        r == tries_to_acquire(commands@, id, *m),
{
    match find_command(commands, id) {
        Some(i) => commands[i].dribbler_on && command_moves_toward_point(
            &commands[i],
            m,
            Double { bits: AT_BALL_BITS },
        ),
        None => false,
    }
}

/// Whether robot `id` is told to go to a point.
pub open spec fn tries_to_reach(commands: Seq<RobotCommand>, id: usize, m: Measured) -> bool {
    match report::command_place(commands, id) {
        Some(i) => moves_toward(commands[i], m, Double { bits: AT_POINT_BITS }),
        None => false,
    }
}

pub fn command_tries_to_reach_point(commands: &[RobotCommand], id: usize, m: &Measured) -> (r: bool)
    ensures
        r == tries_to_reach(commands@, id, *m),
{
    match find_command(commands, id) {
        Some(i) => command_moves_toward_point(&commands[i], m, Double { bits: AT_POINT_BITS }),
        None => false,
    }
}

// ---------------------------------------------------------------------------
// Who could pick up the ball

pub open spec fn view_fits(
    view: PointView,
    own: Seq<RobotState>,
    opponents: Seq<RobotState>,
) -> bool {
    view.own@.len() == own.len() && view.opponents@.len() == opponents.len()
}

/// The robots that count at a point: the side's nearest one, where it is within `reach` and the
/// opponents' nearest one is farther off by enough. Told by their places.
pub open spec fn first_there(
    own: Seq<RobotState>,
    opponents: Seq<RobotState>,
    view: PointView,
    reach: Double,
) -> Option<(int, int)> {
    match (closest(own, distances_of(view.own@)), closest(opponents, view.opponents@)) {
        (Some(i), Some(k)) => if view.own@[i].distance.at_most(reach)
            && view.own@[i].beaten_from.at_most(view.opponents@[k]) {
            Some((i, k))
        } else {
            None
        },
        _ => None,
    }
}

fn own_distances(own: &Vec<Measured>) -> (r: Vec<Double>)
    ensures
        r@ == distances_of(own@),
{
    let mut list: Vec<Double> = Vec::new();
    let mut i: usize = 0;
    while i < own.len()
        invariant
            i <= own@.len(),
            list@ == distances_of(own@).take(i as int),
        decreases own@.len() - i,
    {
        list.push(own[i].distance);
        i += 1;
        assert(list@ =~= distances_of(own@).take(i as int));
    }
    assert(list@ =~= distances_of(own@));
    list
}

fn find_first(
    own: &Vec<RobotState>,
    opponents: &Vec<RobotState>,
    view: &PointView,
    reach: Double,
) -> (r: Option<(usize, usize)>)
    requires
        view_fits(*view, own@, opponents@),
    ensures
        match r {
            Some((i, k)) => {
                &&& first_there(own@, opponents@, *view, reach) == Some((i as int, k as int))
                &&& i < own@.len()
                &&& k < opponents@.len()
            },
            None => first_there(own@, opponents@, *view, reach) is None,
        },
{
    let distances = own_distances(&view.own);
    match (closest_robot(own, &distances), closest_robot(opponents, &view.opponents)) {
        (Some(i), Some(k)) => if view.own[i].distance.is_at_most(reach)
            && view.own[i].beaten_from.is_at_most(view.opponents[k]) {
            Some((i, k))
        } else {
            None
        },
        _ => None,
    }
}

/// Where a fast ball will be after `lead` seconds, and who is how near to there.
pub struct LeadPoint {
    pub lead: Double,
    pub target_x: Double,
    pub target_y: Double,
    /// How far a robot can get until then.
    pub reach: Double,
    pub view: PointView,
}

pub open spec fn leads_fit(
    leads: Seq<LeadPoint>,
    own: Seq<RobotState>,
    opponents: Seq<RobotState>,
) -> bool {
    forall|i: int| 0 <= i < leads.len() ==> view_fits((#[trigger] leads[i]).view, own, opponents)
}

/// The first point at which the side could pick up a fast ball: its place in `leads`, then those
/// of the two robots.
pub open spec fn candidate(
    own: Seq<RobotState>,
    opponents: Seq<RobotState>,
    leads: Seq<LeadPoint>,
) -> Option<(int, int, int)>
    decreases leads.len(),
{
    if leads.len() == 0 {
        None
    } else {
        match candidate(own, opponents, leads.drop_last()) {
            Some(c) => Some(c),
            None => match first_there(own, opponents, leads.last().view, leads.last().reach) {
                Some((i, k)) => Some((leads.len() - 1, i, k)),
                None => None,
            },
        }
    }
}

pub fn predicted_fast_pickup_candidate(
    own: &Vec<RobotState>,
    opponents: &Vec<RobotState>,
    leads: &Vec<LeadPoint>,
) -> (r: Option<(usize, usize, usize)>)
    requires
        leads_fit(leads@, own@, opponents@),
    ensures
        match r {
            Some((l, i, k)) => {
                &&& candidate(own@, opponents@, leads@) == Some((l as int, i as int, k as int))
                &&& l < leads@.len()
                &&& i < own@.len()
                &&& k < opponents@.len()
            },
            None => candidate(own@, opponents@, leads@) is None,
        },
{
    let mut l: usize = 0;
    while l < leads.len()
        invariant
            l <= leads@.len(),
            leads_fit(leads@, own@, opponents@),
            candidate(own@, opponents@, leads@.take(l as int)) is None,
        decreases leads@.len() - l,
    {
        proof {
            let longer = leads@.take(l + 1);
            assert(longer.drop_last() == leads@.take(l as int));
            assert(longer.last() == leads@[l as int]);
        }
        match find_first(own, opponents, &leads[l].view, leads[l].reach) {
            Some((i, k)) => {
                proof {
                    lemma_candidate_stays(own@, opponents@, leads@, l + 1);
                }
                return Some((l, i, k));
            },
            None => {},
        }
        l += 1;
    }
    assert(leads@.take(l as int) == leads@);
    None
}

proof fn lemma_candidate_stays(
    own: Seq<RobotState>,
    opponents: Seq<RobotState>,
    leads: Seq<LeadPoint>,
    n: int,
)
    requires
        0 <= n <= leads.len(),
        candidate(own, opponents, leads.take(n)) is Some,
    ensures
        candidate(own, opponents, leads) == candidate(own, opponents, leads.take(n)),
    decreases leads.len(),
{
    if n < leads.len() {
        let short = leads.drop_last();
        assert(short.take(n) == leads.take(n));
        lemma_candidate_stays(own, opponents, short, n);
    } else {
        assert(leads.take(n) == leads);
    }
}

// ---------------------------------------------------------------------------
// Warning once

/// What is measured for one side at a frame.
pub struct SideView {
    pub ball_speed: Double,
    pub at_ball: PointView,
    pub leads: Vec<LeadPoint>,
}

pub open spec fn side_fits(view: SideView, state: WorldState, team: TeamColor) -> bool {
    let own = state.robots_of(team);
    let opponents = state.robots_of(team.opposite_spec());
    view_fits(view.at_ball, own, opponents) && leads_fit(view.leads@, own, opponents)
}

/// What one side is watched for: the kinds of misses that are going on, and the warnings so far.
#[derive(Debug, Clone, Copy, PartialEq, Eq, Structural)]
pub struct SideWatch {
    pub slow_active: bool,
    pub fast_active: bool,
    pub warnings: u32,
}

/// A ball that a side could pick up and does not. Robots are told by their places.
#[derive(Debug, Clone, Copy, PartialEq, Eq, Structural)]
pub enum Miss {
    /// A close slow ball.
    Slow { robot: usize, opponent: usize },
    /// A fast ball's pickup point.
    Fast { lead: usize, robot: usize, opponent: usize },
}

pub open spec fn is_fast(view: SideView) -> bool {
    (Double { bits: FAST_BALL_BITS }).less(view.ball_speed)
}

/// What a side misses at a frame.
pub open spec fn miss_of(
    state: WorldState,
    team: TeamColor,
    commands: Seq<RobotCommand>,
    view: SideView,
) -> Option<Miss> {
    let own = state.robots_of(team);
    let opponents = state.robots_of(team.opposite_spec());
    if is_fast(view) {
        match candidate(own, opponents, view.leads@) {
            Some((l, i, k)) => if tries_to_reach(commands, own[i].id, view.leads@[l].view.own@[i]) {
                None
            } else {
                Some(Miss::Fast { lead: l as usize, robot: i as usize, opponent: k as usize })
            },
            None => None,
        }
    } else {
        match first_there(own, opponents, view.at_ball, Double { bits: SLOW_REACH_BITS }) {
            Some((i, k)) => if own[i].infrared || tries_to_acquire(
                commands,
                own[i].id,
                view.at_ball.own@[i],
            ) {
                None
            } else {
                Some(Miss::Slow { robot: i as usize, opponent: k as usize })
            },
            None => None,
        }
    }
}

impl SideWatch {
    pub open spec fn initial() -> SideWatch {
        SideWatch { slow_active: false, fast_active: false, warnings: 0 }
    }

    /// Whether a miss is a new one.
    pub open spec fn is_new(self, miss: Option<Miss>) -> bool {
        match miss {
            Some(Miss::Slow { .. }) => !self.slow_active,
            Some(Miss::Fast { .. }) => !self.fast_active,
            None => false,
        }
    }

    /// What to warn of.
    pub open spec fn warned_of(self, miss: Option<Miss>) -> Option<Miss> {
        if self.is_new(miss) {
            miss
        } else {
            None
        }
    }

    pub open spec fn seen(self, miss: Option<Miss>) -> SideWatch {
        SideWatch {
            slow_active: miss matches Some(Miss::Slow { .. }),
            fast_active: miss matches Some(Miss::Fast { .. }),
            warnings: if self.is_new(miss) {
                (self.warnings + 1) as u32
            } else {
                self.warnings
            },
        }
    }

    pub fn new() -> (r: SideWatch)
        ensures
            r == SideWatch::initial(),
    {
        SideWatch { slow_active: false, fast_active: false, warnings: 0 }
    }
}

/// What a side misses at a frame.
pub fn find_miss(
    state: &WorldState,
    team: TeamColor,
    commands: &[RobotCommand],
    view: &SideView,
) -> (r: Option<Miss>)
    requires
        side_fits(*view, *state, team),
    ensures
        r == miss_of(*state, team, commands@, *view),
{
    let own = team_robots(state, team);
    let opponents = team_robots(state, team.opposite());
    if (Double { bits: FAST_BALL_BITS }).is_less(view.ball_speed) {
        match predicted_fast_pickup_candidate(own, opponents, &view.leads) {
            Some((l, i, k)) => {
                assert(view_fits(view.leads@[l as int].view, own@, opponents@));
                if command_tries_to_reach_point(
                    commands,
                    own[i].id,
                    &view.leads[l].view.own[i],
                ) {
                    None
                } else {
                    Some(Miss::Fast { lead: l, robot: i, opponent: k })
                }
            },
            None => None,
        }
    } else {
        match find_first(own, opponents, &view.at_ball, Double { bits: SLOW_REACH_BITS }) {
            Some((i, k)) => if own[i].infrared || command_tries_to_acquire(
                commands,
                own[i].id,
                &view.at_ball.own[i],
            ) {
                None
            } else {
                Some(Miss::Slow { robot: i, opponent: k })
            },
            None => None,
        }
    }
}

/// Watches one side for a frame; gives the miss to warn of, which is one that was not going on.
pub fn validate_pickup_for_team(
    state: &WorldState,
    team: TeamColor,
    commands: &[RobotCommand],
    view: &SideView,
    watch: &mut SideWatch,
) -> (r: Option<Miss>)
    requires
        side_fits(*view, *state, team),
        old(watch).warnings < u32::MAX,
    ensures
        ({
            let miss = miss_of(*state, team, commands@, *view);
            &&& *final(watch) == old(watch).seen(miss)
            &&& r == old(watch).warned_of(miss)
        }),
{
    let miss = find_miss(state, team, commands, view);
    match miss {
        Some(Miss::Slow { .. }) => {
            watch.fast_active = false;
            if watch.slow_active {
                return None;
            }
            watch.warnings = watch.warnings + 1;
            watch.slow_active = true;
            miss
        },
        Some(Miss::Fast { .. }) => {
            watch.slow_active = false;
            if watch.fast_active {
                return None;
            }
            watch.warnings = watch.warnings + 1;
            watch.fast_active = true;
            miss
        },
        None => {
            watch.slow_active = false;
            watch.fast_active = false;
            None
        },
    }
}

/// Watches both sides of a match.
#[derive(Debug, Clone, Copy, PartialEq, Eq, Structural)]
pub struct PickupValidator {
    pub blue: SideWatch,
    pub yellow: SideWatch,
}

impl PickupValidator {
    /// Whether `next` is the validator after what both sides missed at a frame, and `r` what to warn of.
    pub open spec fn has_seen(
        self,
        next: PickupValidator,
        blue: Option<Miss>,
        yellow: Option<Miss>,
        r: (Option<Miss>, Option<Miss>),
    ) -> bool {
        &&& next == (PickupValidator { blue: self.blue.seen(blue), yellow: self.yellow.seen(yellow) })
        &&& r.0 == self.blue.warned_of(blue)
        &&& r.1 == self.yellow.warned_of(yellow)
    }

    pub fn new() -> (r: PickupValidator)
        ensures
            r.blue == SideWatch::initial(),
            r.yellow == SideWatch::initial(),
    {
        PickupValidator { blue: SideWatch::new(), yellow: SideWatch::new() }
    }

    /// Watches both sides for a frame, if the match or `MATCH_VALIDATE_PICKUP`, set or not, asks
    /// for it; gives what to warn of, blue first.
    pub fn maybe_validate(
        &mut self,
        mc: &MatchConfig,
        asked: bool,
        state: &WorldState,
        blue: &[RobotCommand],
        yellow: &[RobotCommand],
        blue_view: &SideView,
        yellow_view: &SideView,
    ) -> (r: (Option<Miss>, Option<Miss>))
        requires
            side_fits(*blue_view, *state, TeamColor::Blue),
            side_fits(*yellow_view, *state, TeamColor::Yellow),
            old(self).blue.warnings < u32::MAX,
            old(self).yellow.warnings < u32::MAX,
        ensures
            mc.validate_pickup || asked ==> old(self).has_seen(
                *final(self),
                miss_of(*state, TeamColor::Blue, blue@, *blue_view),
                miss_of(*state, TeamColor::Yellow, yellow@, *yellow_view),
                r,
            ),
            !(mc.validate_pickup || asked) ==> *final(self) == *old(self) && r.0 is None
                && r.1 is None,
    {
        if !mc.validate_pickup && !asked {
            return (None, None);
        }
        let b = validate_pickup_for_team(state, TeamColor::Blue, blue, blue_view, &mut self.blue);
        let y = validate_pickup_for_team(
            state,
            TeamColor::Yellow,
            yellow,
            yellow_view,
            &mut self.yellow,
        );
        (b, y)
    }
}

/// A miss that goes on is warned of once; one that ends and comes again is warned of again.
pub proof fn law_misses_are_warned_of_once(w: SideWatch, first: Miss, second: Miss)
    requires
        first is Slow <==> second is Slow,
    ensures
        !w.seen(Some(first)).is_new(Some(second)),
        w.seen(Some(first)).seen(None).is_new(Some(second)),
        w.seen(None).warnings == w.warnings,
{
}

/// Only a robot that is on, and no other's, is told of as missing a ball.
pub proof fn law_missing_robot_is_on(
    state: WorldState,
    team: TeamColor,
    commands: Seq<RobotCommand>,
    view: SideView,
)
    requires
        side_fits(view, state, team),
        state.robots_of(team).len() <= usize::MAX,
        state.robots_of(team.opposite_spec()).len() <= usize::MAX,
        view.leads@.len() <= usize::MAX,
    ensures
        miss_of(state, team, commands, view) matches Some(miss) ==> ({
            let robot = match miss {
                Miss::Slow { robot, .. } => robot,
                Miss::Fast { robot, .. } => robot,
            };
            robot < state.robots_of(team).len() && state.robots_of(team)[robot as int].is_on
        }),
{
    let own = state.robots_of(team);
    let opponents = state.robots_of(team.opposite_spec());
    lemma_closest(own, distances_of(view.at_ball.own@));
    lemma_candidate_on(own, opponents, view.leads@);
}

proof fn lemma_candidate_on(
    own: Seq<RobotState>,
    opponents: Seq<RobotState>,
    leads: Seq<LeadPoint>,
)
    ensures
        candidate(own, opponents, leads) matches Some((l, i, k)) ==> 0 <= i < own.len()
            && own[i].is_on,
    decreases leads.len(),
{
    if leads.len() > 0 {
        lemma_candidate_on(own, opponents, leads.drop_last());
        lemma_closest(own, distances_of(leads.last().view.own@));
    }
}

// ---------------------------------------------------------------------------
// Laws

/// The closest robot of a side is one that is on, and there is one where any robot is on. Where all
/// distances are numbers no robot that is on is nearer, and one that is as near stands behind it.
pub proof fn law_the_closest_robot(robots: Seq<RobotState>, distances: Seq<Double>)
    requires
        distances.len() == robots.len(),
        forall|i: int| 0 <= i < distances.len() ==> !(#[trigger] distances[i]).is_nan_spec(),
    ensures
        match closest(robots, distances) {
            Some(n) => {
                &&& 0 <= n < robots.len()
                &&& robots[n].is_on
                &&& forall|i: int|
                    0 <= i < robots.len() && (#[trigger] robots[i]).is_on ==> !distances[i].less(
                        distances[n],
                    )
                &&& forall|i: int|
                    0 <= i < n && (#[trigger] robots[i]).is_on ==> distances[n].less(distances[i])
            },
            None => forall|i: int| 0 <= i < robots.len() ==> !(#[trigger] robots[i]).is_on,
        },
    decreases robots.len(),
{
    if robots.len() > 0 {
        let k = robots.len() - 1;
        let short = robots.drop_last();
        let near = distances.drop_last();
        assert forall|i: int| 0 <= i < near.len() implies !(#[trigger] near[i]).is_nan_spec() by {
            assert(near[i] == distances[i]);
        }
        law_the_closest_robot(short, near);
        lemma_closest_of_more(short, near, distances);
        assert forall|i: int| 0 <= i < k implies #[trigger] robots[i] == short[i] by {}
        assert(!distances[k].is_nan_spec());
        match closest(short, distances) {
            Some(n) => {
                assert(near[n] == distances[n] && !distances[n].is_nan_spec());
                assert forall|i: int| 0 <= i < k && (#[trigger] robots[i]).is_on implies !distances[i].less(
                    distances[n],
                ) && (i < n ==> distances[n].less(distances[i])) by {
                    assert(short[i].is_on);
                    assert(near[i] == distances[i]);
                }
                let m = closest(robots, distances)->0;
                assert forall|i: int| 0 <= i < robots.len() && (#[trigger] robots[i]).is_on implies !distances[i].less(
                    distances[m],
                ) && (i < m ==> distances[m].less(distances[i])) by {
                    assert(!distances[i].is_nan_spec());
                }
            },
            None => {
                assert forall|i: int| 0 <= i < k implies !(#[trigger] robots[i]).is_on by {
                    assert(!short[i].is_on);
                }
            },
        }
    }
}

proof fn lemma_closest_of_more(robots: Seq<RobotState>, near: Seq<Double>, distances: Seq<Double>)
    requires
        robots.len() <= near.len() <= distances.len(),
        forall|i: int| 0 <= i < near.len() ==> #[trigger] near[i] == distances[i],
    ensures
        closest(robots, near) == closest(robots, distances),
    decreases robots.len(),
{
    if robots.len() > 0 {
        lemma_closest_of_more(robots.drop_last(), near, distances);
        lemma_closest(robots.drop_last(), distances);
        assert(near[robots.len() - 1] == distances[robots.len() - 1]);
        match closest(robots.drop_last(), distances) {
            Some(i) => {
                assert(near[i] == distances[i]);
            },
            None => {},
        }
    }
}

/// A robot that is near enough has but to do something. Farther off it has to move at 0.03 metres a
/// second at least, and to close in as fast as that or by its share; a command that does not say how
/// it moves does not take it there.
pub proof fn law_what_takes_a_robot_there(c: RobotCommand, m: Measured, near: Double)
    ensures
        m.distance.at_most(near) ==> moves_toward(c, m, near) == report::is_active(c),
        !m.distance.at_most(near) && m.speeds is None ==> !moves_toward(c, m, near),
        !m.distance.at_most(near) && m.speeds is Some ==> {
            let s = m.speeds->0;
            let slow = Double { bits: 0x3f9e_b851_eb85_1eb8 };
            &&& s.speed.less(slow) ==> !moves_toward(c, m, near)
            &&& !s.speed.less(slow) && slow.at_most(s.closing) ==> moves_toward(c, m, near)
            &&& !s.speed.less(slow) && s.share.at_most(s.closing) ==> moves_toward(c, m, near)
            &&& !slow.at_most(s.closing) && !s.share.at_most(s.closing) ==> !moves_toward(
                c,
                m,
                near,
            )
        },
{
}

/// A robot without a command does nothing about the ball. One with a command takes the ball with its
/// dribbler on, from 0.05 metres without moving; it reaches a point from 0.10 metres without moving.
pub proof fn law_how_a_ball_is_taken(commands: Seq<RobotCommand>, id: usize, m: Measured)
    ensures
        match report::command_place(commands, id) {
            Some(i) => {
                &&& !commands[i].dribbler_on ==> !tries_to_acquire(commands, id, m)
                &&& commands[i].dribbler_on ==> tries_to_acquire(commands, id, m) == moves_toward(
                    commands[i],
                    m,
                    Double { bits: 0x3fa9_9999_9999_999a },
                )
                &&& tries_to_reach(commands, id, m) == moves_toward(
                    commands[i],
                    m,
                    Double { bits: 0x3fb9_9999_9999_999a },
                )
            },
            None => !tries_to_acquire(commands, id, m) && !tries_to_reach(commands, id, m),
        },
{
}

/// A side is first at a point where its closest robot is within reach and the opponents' closest one is
/// farther off than it has to be; a side that has no robot, or no opponent, is not.
pub proof fn law_who_is_first_there(
    own: Seq<RobotState>,
    opponents: Seq<RobotState>,
    view: PointView,
    reach: Double,
)
    ensures
        ({
            let near = closest(own, distances_of(view.own@));
            let far = closest(opponents, view.opponents@);
            &&& first_there(own, opponents, view, reach) is Some <==> near is Some && far is Some
                && view.own@[near->0].distance.at_most(reach)
                && view.own@[near->0].beaten_from.at_most(view.opponents@[far->0])
            &&& first_there(own, opponents, view, reach) matches Some((i, k)) ==> near == Some(i)
                && far == Some(k)
        }),
{
}

/// A fast ball is picked up at the first point where the side is first.
pub proof fn law_the_first_pickup_point(
    own: Seq<RobotState>,
    opponents: Seq<RobotState>,
    leads: Seq<LeadPoint>,
)
    ensures
        match candidate(own, opponents, leads) {
            Some((l, i, k)) => {
                &&& 0 <= l < leads.len()
                &&& first_there(own, opponents, leads[l].view, leads[l].reach) == Some((i, k))
                &&& forall|j: int|
                    0 <= j < l ==> first_there(
                        own,
                        opponents,
                        (#[trigger] leads[j]).view,
                        leads[j].reach,
                    ) is None
            },
            None => forall|j: int|
                0 <= j < leads.len() ==> first_there(
                    own,
                    opponents,
                    (#[trigger] leads[j]).view,
                    leads[j].reach,
                ) is None,
        },
    decreases leads.len(),
{
    if leads.len() > 0 {
        let short = leads.drop_last();
        law_the_first_pickup_point(own, opponents, short);
        assert forall|j: int| 0 <= j < short.len() implies #[trigger] leads[j] == short[j] by {}
    }
}

/// A side misses a slow ball that its first robot, within 0.18 metres, neither has nor goes for, and a
/// fast ball whose pickup point its first robot does not go for. A ball is fast above one metre a
/// second.
pub proof fn law_what_a_side_misses(
    state: WorldState,
    team: TeamColor,
    commands: Seq<RobotCommand>,
    view: SideView,
)
    ensures
        ({
            let own = state.robots_of(team);
            let opponents = state.robots_of(team.opposite_spec());
            let fast = (Double { bits: 0x3ff0_0000_0000_0000 }).less(view.ball_speed);
            let miss = miss_of(state, team, commands, view);
            let slow = first_there(
                own,
                opponents,
                view.at_ball,
                Double { bits: 0x3fc7_0a3d_70a3_d70a },
            );
            let ahead = candidate(own, opponents, view.leads@);
            &&& fast ==> !(miss matches Some(Miss::Slow { .. }))
            &&& !fast ==> !(miss matches Some(Miss::Fast { .. }))
            &&& !fast && slow is None ==> miss is None
            &&& fast && ahead is None ==> miss is None
            &&& !fast && slow is Some ==> {
                let i = (slow->0).0;
                &&& miss is None == (own[i].infrared || tries_to_acquire(
                    commands,
                    own[i].id,
                    view.at_ball.own@[i],
                ))
                &&& miss matches Some(Miss::Slow { robot, opponent }) ==> robot == i as usize
                    && opponent == (slow->0).1 as usize
            }
            &&& fast && ahead is Some ==> {
                let l = (ahead->0).0;
                let i = (ahead->0).1;
                &&& miss is None == tries_to_reach(commands, own[i].id, view.leads@[l].view.own@[i])
                &&& miss matches Some(Miss::Fast { lead, robot, opponent }) ==> lead == l as usize
                    && robot == i as usize && opponent == (ahead->0).2 as usize
            }
        }),
{
}

/// A watch warns of a miss that was not going on, and counts it; it takes note of which kind of miss
/// goes on, and of none where there is none.
pub proof fn law_watches(w: SideWatch, miss: Miss)
    ensures
        ({
            let next = w.seen(Some(miss));
            let active = if miss is Slow {
                w.slow_active
            } else {
                w.fast_active
            };
            &&& w.warned_of(Some(miss)) == (if active {
                None
            } else {
                Some(miss)
            })
            &&& !active && w.warnings < u32::MAX ==> next.warnings == w.warnings + 1
            &&& active ==> next.warnings == w.warnings
            &&& next.slow_active == miss is Slow
            &&& next.fast_active == miss is Fast
        }),
        w.warned_of(None) is None,
        w.seen(None).warnings == w.warnings,
        !w.seen(None).slow_active && !w.seen(None).fast_active,
        SideWatch::initial().warnings == 0,
        !SideWatch::initial().slow_active && !SideWatch::initial().fast_active,
{
}

/// Each side is watched by itself: what one side misses is not told of the other.
pub proof fn law_sides_are_watched_apart(
    v: PickupValidator,
    next: PickupValidator,
    blue: Option<Miss>,
    yellow: Option<Miss>,
    r: (Option<Miss>, Option<Miss>),
)
    requires
        v.has_seen(next, blue, yellow, r),
    ensures
        r.0 is Some ==> r.0 == blue,
        r.1 is Some ==> r.1 == yellow,
        blue is None ==> r.0 is None && next.blue.warnings == v.blue.warnings,
        yellow is None ==> r.1 is None && next.yellow.warnings == v.yellow.warnings,
        next.blue == v.blue.seen(blue),
        next.yellow == v.yellow.seen(yellow),
{
}

} // verus!
