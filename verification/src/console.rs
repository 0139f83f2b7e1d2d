//! The developer console of a match: what it offers, and what comes of its operator's requests.

use vstd::prelude::*;
use serde_json::Value;
use crate::config::TeamBotCounts;
use crate::controller;
use crate::controller::TeamKind;
use crate::developer::{DeveloperRequest, DeveloperResult};
use crate::state::TeamColor;
use crate::text::{concat_text, is_one_of, same_text};

verus! {

// ---------------------------------------------------------------------------
// What the console offers

/// One side as a mode of the console.
#[derive(Debug)]
pub struct ConsoleMode {
    pub id: &'static str,
    pub label: String,
    pub description: String,
}

/// The console's content.
pub enum ConsolePlan {
    /// A development match: either AI can be replaced while the world lives on.
    Development {
        available_ais: Vec<String>,
        blue_ai: Option<String>,
        yellow_ai: Option<String>,
        blue_schema: Option<Value>,
        yellow_schema: Option<Value>,
        teleport_ball_on_no_progress: bool,
    },
    /// One controller's own schema, with a mode for each side that has one.
    Controllers { schema: Value, modes: Vec<ConsoleMode>, initial_mode: &'static str },
}

pub open spec fn is_mode_of(mode: ConsoleMode, team: TeamColor) -> bool {
    &&& mode.id@ == team.id_spec()
    &&& mode.label@ == team.name_spec() + " team"@
    &&& mode.description@ == "Invoke against the "@ + team.name_spec() + " Dehumanized controller"@
}

fn mode_of(team: TeamColor) -> (r: ConsoleMode)
    ensures
        is_mode_of(r, team),
{
    let head = concat_text("Invoke against the ", team.name());
    ConsoleMode {
        id: team.id(),
        label: concat_text(team.name(), " team"),
        description: concat_text(head.as_str(), " Dehumanized controller"),
    }
}

/// The sides that have a schema, blue first.
pub open spec fn sides_with_schema(blue: Option<Value>, yellow: Option<Value>) -> Seq<TeamColor> {
    (if blue is Some {
        seq![TeamColor::Blue]
    } else {
        Seq::empty()
    }) + (if yellow is Some {
        seq![TeamColor::Yellow]
    } else {
        Seq::empty()
    })
}

/// Whether this is the console of a match that is not a development match.
pub open spec fn is_console_of(
    r: Option<ConsolePlan>,
    blue_schema: Option<Value>,
    yellow_schema: Option<Value>,
) -> bool {
    match r {
        Some(plan) => {
            let sides = sides_with_schema(blue_schema, yellow_schema);
            plan matches ConsolePlan::Controllers { schema, modes, initial_mode } && {
                &&& sides.len() > 0
                &&& Some(schema) == (if sides[0] is Blue {
                    blue_schema
                } else {
                    yellow_schema
                })
                &&& initial_mode@ == sides[0].id_spec()
                &&& modes@.len() == sides.len()
                &&& forall|i: int|
                    0 <= i < sides.len() ==> is_mode_of(#[trigger] modes@[i], sides[i])
            }
        },
        None => blue_schema is None && yellow_schema is None,
    }
}

/// The console of a match, or `None` where it offers nothing.
pub fn configure_developer_console(
    dev: bool,
    available_ais: Vec<String>,
    blue_ai: Option<String>,
    yellow_ai: Option<String>,
    blue_schema: Option<Value>,
    yellow_schema: Option<Value>,
    teleport_ball_on_no_progress: bool,
) -> (r: Option<ConsolePlan>)
    ensures
        dev ==> r == Some(
            ConsolePlan::Development {
                available_ais,
                blue_ai,
                yellow_ai,
                blue_schema,
                yellow_schema,
                teleport_ball_on_no_progress,
            },
        ),
        !dev ==> is_console_of(r, blue_schema, yellow_schema),
{
    if dev {
        return Some(
            ConsolePlan::Development {
                available_ais,
                blue_ai,
                yellow_ai,
                blue_schema,
                yellow_schema,
                teleport_ball_on_no_progress,
            },
        );
    }
    let mut modes: Vec<ConsoleMode> = Vec::new();
    if blue_schema.is_some() {
        modes.push(mode_of(TeamColor::Blue));
    }
    if yellow_schema.is_some() {
        modes.push(mode_of(TeamColor::Yellow));
    }
    match blue_schema {
        Some(schema) => Some(
            ConsolePlan::Controllers { schema, modes, initial_mode: TeamColor::Blue.id() },
        ),
        None => match yellow_schema {
            Some(schema) => Some(
                ConsolePlan::Controllers { schema, modes, initial_mode: TeamColor::Yellow.id() },
            ),
            None => None,
        },
    }
}

// ---------------------------------------------------------------------------
// What comes of a request

/// The text that `{:?}` of the standard library makes of `s`: in quotes, with what needs it
/// escaped.
pub uninterp spec fn debug_quoted(s: Seq<char>) -> Seq<char>;

/// The `Debug` format of a `str` is a function of its characters.
#[verifier::external_body]
pub(crate) fn quote_for_debug(s: &str) -> (r: String)
    ensures
        r@ == debug_quoted(s@),
{
    format!("{s:?}")
}

/// What a request comes to.
pub enum RequestPlan {
    /// The side's controller is replaced.
    Swap { kind: TeamKind, color: TeamColor, num_robots: u8, message: String },
    /// The recovery of the ball is switched.
    BallRecovery { enabled: bool, message: String },
    /// The side's controller answers the request.
    Forward { color: TeamColor },
    Refused { message: String },
}

pub open spec fn team_of_target(target: Seq<char>) -> Option<TeamColor> {
    if target == "blue"@ {
        Some(TeamColor::Blue)
    } else if target == "yellow"@ {
        Some(TeamColor::Yellow)
    } else {
        None
    }
}

/// The side that a request's target names.
pub fn target_team(target: &str) -> (r: Option<TeamColor>)
    ensures
        r == team_of_target(target@),
{
    if same_text(target, "blue") {
        Some(TeamColor::Blue)
    } else if same_text(target, "yellow") {
        Some(TeamColor::Yellow)
    } else {
        None
    }
}

pub open spec fn is_available(ai: Seq<char>, available: Seq<String>) -> bool {
    exists|i: int| 0 <= i < available.len() && (#[trigger] available[i])@ == ai
}

pub open spec fn bots_of(bots: TeamBotCounts, team: TeamColor) -> usize {
    match team {
        TeamColor::Blue => bots.blue,
        TeamColor::Yellow => bots.yellow,
    }
}

/// Why a side's AI is not replaced by `ai`, whose text in quotes is `quoted`.
pub open spec fn swap_refusal(
    ai: Seq<char>,
    quoted: Seq<char>,
    target: Seq<char>,
    available: Seq<String>,
    bots: TeamBotCounts,
) -> Option<Seq<char>> {
    let parts = controller::kind_parts(ai);
    if !is_available(ai, available) {
        Some(quoted + " is not an available in-process AI"@)
    } else if controller::kind_named(parts.0, parts.1) is None {
        Some("unknown team kind: "@ + parts.0)
    } else if team_of_target(target) is None {
        Some("unknown team target: "@ + target)
    } else if bots_of(bots, team_of_target(target)->0) == 0 {
        Some(target + " has no active AI robots"@)
    } else {
        None
    }
}

/// Whether `plan` is what a wish to replace a side's AI comes to.
pub open spec fn is_swap(
    plan: RequestPlan,
    ai: Seq<char>,
    quoted: Seq<char>,
    target: Seq<char>,
    available: Seq<String>,
    bots: TeamBotCounts,
) -> bool {
    match swap_refusal(ai, quoted, target, available, bots) {
        Some(refusal) => plan matches RequestPlan::Refused { message } && message@ == refusal,
        None => {
            let parts = controller::kind_parts(ai);
            plan matches RequestPlan::Swap { kind, color, num_robots, message } && {
                &&& Some(kind@) == controller::kind_named(parts.0, parts.1)
                &&& Some(color) == team_of_target(target)
                &&& num_robots == bots_of(bots, color) as u8
                &&& message@ == target + " is now controlled by "@ + ai
            }
        },
    }
}

/// What a wish to replace a side's AI comes to, given the AI's name in quotes.
pub fn plan_swap(
    ai: &str,
    quoted: &str,
    target: &str,
    available: &Vec<String>,
    bots: TeamBotCounts,
) -> (r: RequestPlan)
    ensures
        is_swap(r, ai@, quoted@, target@, available@, bots),
{
    if !is_one_of(ai, available.as_slice()) {
        return RequestPlan::Refused {
            message: concat_text(quoted, " is not an available in-process AI"),
        };
    }
    let kind = match TeamKind::parse(ai) {
        Ok(kind) => kind,
        Err(message) => {
            return RequestPlan::Refused { message };
        },
    };
    let color = match target_team(target) {
        Some(color) => color,
        None => {
            return RequestPlan::Refused { message: concat_text("unknown team target: ", target) };
        },
    };
    let count: usize = match color {
        TeamColor::Blue => bots.blue,
        TeamColor::Yellow => bots.yellow,
    };
    if count == 0 {
        return RequestPlan::Refused { message: concat_text(target, " has no active AI robots") };
    }
    let head = concat_text(target, " is now controlled by ");
    RequestPlan::Swap {
        kind,
        color,
        num_robots: #[verifier::truncate] (count as u8),
        message: concat_text(head.as_str(), ai),
    }
}

/// What a wish to replace a side's AI comes to.
pub fn swap_controller(
    ai: &str,
    target: &str,
    available: &Vec<String>,
    bots: TeamBotCounts,
) -> (r: RequestPlan)
    ensures
        is_swap(r, ai@, debug_quoted(ai@), target@, available@, bots),
{
    let quoted = quote_for_debug(ai);
    plan_swap(ai, quoted.as_str(), target, available, bots)
}

/// The sides that have a controller.
#[derive(Debug, Clone, Copy, PartialEq, Eq, Structural)]
pub struct Manned {
    pub blue: bool,
    pub yellow: bool,
}

pub open spec fn is_manned(manned: Manned, target: Seq<char>) -> bool {
    match team_of_target(target) {
        Some(TeamColor::Blue) => manned.blue,
        Some(TeamColor::Yellow) => manned.yellow,
        None => false,
    }
}

/// What a request that its side's controller answers comes to.
pub open spec fn is_forward(plan: RequestPlan, manned: Manned, target: Seq<char>) -> bool {
    if is_manned(manned, target) {
        plan matches RequestPlan::Forward { color } && Some(color) == team_of_target(target)
    } else {
        plan matches RequestPlan::Refused { message } && message@
            == "no controller is available for target "@ + target
    }
}

pub open spec fn is_out_of_place(plan: RequestPlan) -> bool {
    plan matches RequestPlan::Refused { message } && message@
        == "request is not available in this match mode"@
}

/// What a request comes to. Replacing an AI and switching the ball's recovery are for development
/// matches alone.
pub open spec fn is_planned(
    plan: RequestPlan,
    request: DeveloperRequest,
    dev: bool,
    manned: Manned,
    available: Seq<String>,
    bots: TeamBotCounts,
) -> bool {
    match request {
        DeveloperRequest::SwitchAi { target, ai } => if dev {
            is_swap(plan, ai@, debug_quoted(ai@), target@, available, bots)
        } else {
            is_out_of_place(plan)
        },
        DeveloperRequest::SetBallRecovery { target: _, enabled } => if dev {
            plan matches RequestPlan::BallRecovery { enabled: e, message } && e == enabled
                && message@ == "Ball teleport on no progress "@ + (if enabled {
                "enabled"@
            } else {
                "disabled"@
            })
        } else {
            is_out_of_place(plan)
        },
        DeveloperRequest::Load { .. } | DeveloperRequest::Start { .. }
        | DeveloperRequest::Stop { .. } | DeveloperRequest::Disable { .. } => is_forward(
            plan,
            manned,
            request.target_spec(),
        ),
    }
}

fn plan_forward(manned: Manned, target: &str) -> (r: RequestPlan)
    ensures
        is_forward(r, manned, target@),
{
    match target_team(target) {
        Some(TeamColor::Blue) if manned.blue => RequestPlan::Forward { color: TeamColor::Blue },
        Some(TeamColor::Yellow) if manned.yellow => RequestPlan::Forward {
            color: TeamColor::Yellow,
        },
        _ => RequestPlan::Refused {
            message: concat_text("no controller is available for target ", target),
        },
    }
}

/// What a request comes to.
pub fn plan_request(
    request: &DeveloperRequest,
    dev: bool,
    manned: Manned,
    available: &Vec<String>,
    bots: TeamBotCounts,
) -> (r: RequestPlan)
    ensures
        is_planned(r, *request, dev, manned, available@, bots),
{
    match request {
        DeveloperRequest::SwitchAi { target, ai } => if dev {
            swap_controller(ai.as_str(), target.as_str(), available, bots)
        } else {
            RequestPlan::Refused {
                message: "request is not available in this match mode".to_owned(),
            }
        },
        DeveloperRequest::SetBallRecovery { target: _, enabled } => if dev {
            RequestPlan::BallRecovery {
                enabled: *enabled,
                message: concat_text(
                    "Ball teleport on no progress ",
                    if *enabled {
                        "enabled"
                    } else {
                        "disabled"
                    },
                ),
            }
        } else {
            RequestPlan::Refused {
                message: "request is not available in this match mode".to_owned(),
            }
        },
        DeveloperRequest::Load { .. } | DeveloperRequest::Start { .. }
        | DeveloperRequest::Stop { .. } | DeveloperRequest::Disable { .. } => plan_forward(
            manned,
            request.target(),
        ),
    }
}

/// The entry that a request names.
pub open spec fn entry_of(request: DeveloperRequest) -> Option<String> {
    match request {
        DeveloperRequest::Load { entry, .. } => Some(entry),
        DeveloperRequest::SwitchAi { ai, .. } => Some(ai),
        _ => None,
    }
}

/// Whether `r` is the result of a request that came to `outcome`.
pub open spec fn is_result_of(
    r: DeveloperResult,
    request: DeveloperRequest,
    outcome: Result<String, String>,
) -> bool {
    &&& r.target@ == request.target_spec()
    &&& r.entry == entry_of(request)
    &&& r.ok == outcome is Ok
    &&& r.message == (match outcome {
        Ok(message) => message,
        Err(message) => message,
    })
}

/// The result to show for a request, given what came of it.
pub fn request_result(request: &DeveloperRequest, outcome: Result<String, String>) -> (r:
    DeveloperResult)
    ensures
        is_result_of(r, *request, outcome),
{
    let entry = match request {
        DeveloperRequest::Load { entry, .. } => Some(entry.clone()),
        DeveloperRequest::SwitchAi { ai, .. } => Some(ai.clone()),
        _ => None,
    };
    let ok = outcome.is_ok();
    let message = match outcome {
        Ok(message) => message,
        Err(message) => message,
    };
    DeveloperResult { target: request.target().to_owned(), entry, ok, message }
}

/// Outside a development match nothing replaces an AI or switches the ball's recovery.
pub proof fn law_only_development_changes_the_match(
    plan: RequestPlan,
    request: DeveloperRequest,
    manned: Manned,
    available: Seq<String>,
    bots: TeamBotCounts,
)
    requires
        is_planned(plan, request, false, manned, available, bots),
    ensures
        plan is Forward || plan is Refused,
{
}

/// A side without robots keeps its lack of an AI, whatever is asked for.
pub proof fn law_sides_without_robots_get_no_ai(
    plan: RequestPlan,
    request: DeveloperRequest,
    dev: bool,
    manned: Manned,
    available: Seq<String>,
    bots: TeamBotCounts,
)
    requires
        is_planned(plan, request, dev, manned, available, bots),
    ensures
        plan matches RequestPlan::Swap { color, .. } ==> bots_of(bots, color) > 0,
{
}

// ---------------------------------------------------------------------------
// Laws

/// Outside a development match the console offers what the controllers do: a mode for each side that
/// has a schema, blue's first, and the first of them to begin with. It offers nothing where no side has
/// one.
pub proof fn law_the_console_offers_what_the_sides_do(
    r: Option<ConsolePlan>,
    blue: Option<Value>,
    yellow: Option<Value>,
)
    requires
        is_console_of(r, blue, yellow),
    ensures
        r is None <==> blue is None && yellow is None,
        r matches Some(ConsolePlan::Controllers { schema, modes, initial_mode }) ==> {
            &&& blue is Some ==> schema == blue->0 && initial_mode@ == "blue"@ && modes@[0].id@
                == "blue"@ && modes@[0].label@ == "Blue team"@
            &&& blue is None ==> yellow is Some && schema == yellow->0 && initial_mode@
                == "yellow"@ && modes@.len() == 1 && modes@[0].id@ == "yellow"@
                && modes@[0].label@ == "Yellow team"@
            &&& blue is Some && yellow is Some ==> modes@.len() == 2 && modes@[1].id@ == "yellow"@
                && modes@[1].label@ == "Yellow team"@
            &&& yellow is None ==> modes@.len() == 1
        },
        r matches Some(plan) ==> plan is Controllers,
{
    reveal_strlit("Blue");
    reveal_strlit("Yellow");
    reveal_strlit(" team");
    reveal_strlit("Blue team");
    reveal_strlit("Yellow team");
    assert("Blue team"@ =~= "Blue"@ + " team"@);
    assert("Yellow team"@ =~= "Yellow"@ + " team"@);
    let sides = sides_with_schema(blue, yellow);
    if blue is Some {
        assert(sides[0] is Blue);
    }
    if yellow is Some {
        assert(sides[sides.len() - 1] is Yellow);
    }
}

/// A side's AI is replaced by one that is available, where the side has robots: by the AI that was
/// asked for, on the side that was named, for the robots of that side.
pub proof fn law_sides_get_the_ai_that_was_asked_for(
    plan: RequestPlan,
    ai: Seq<char>,
    quoted: Seq<char>,
    available: Seq<String>,
    bots: TeamBotCounts,
)
    ensures
        is_swap(plan, ai, quoted, "blue"@, available, bots) ==> {
            let parts = controller::kind_parts(ai);
            &&& plan is Swap <==> is_available(ai, available) && controller::kind_named(
                parts.0,
                parts.1,
            ) is Some && bots.blue > 0
            &&& plan is Swap || plan is Refused
            &&& plan matches RequestPlan::Swap { kind, color, num_robots, .. } ==> color is Blue
                && controller::kind_named(parts.0, parts.1) == Some(kind@) && (bots.blue <= 255
                ==> num_robots == bots.blue)
        },
        is_swap(plan, ai, quoted, "yellow"@, available, bots) ==> {
            let parts = controller::kind_parts(ai);
            &&& plan is Swap <==> is_available(ai, available) && controller::kind_named(
                parts.0,
                parts.1,
            ) is Some && bots.yellow > 0
            &&& plan is Swap || plan is Refused
            &&& plan matches RequestPlan::Swap { kind, color, num_robots, .. } ==> color is Yellow
                && controller::kind_named(parts.0, parts.1) == Some(kind@) && (bots.yellow <= 255
                ==> num_robots == bots.yellow)
        },
{
    reveal_strlit("blue");
    reveal_strlit("yellow");
    assert("blue"@.len() != "yellow"@.len());
}

/// Targets name the two sides, and nothing else names one.
pub proof fn law_targets(target: Seq<char>)
    ensures
        team_of_target("blue"@) == Some(TeamColor::Blue),
        team_of_target("yellow"@) == Some(TeamColor::Yellow),
        target != "blue"@ && target != "yellow"@ ==> team_of_target(target) is None,
{
    reveal_strlit("blue");
    reveal_strlit("yellow");
    assert("blue"@.len() != "yellow"@.len());
}

/// What a side is to do itself goes to its controller where it has one, and is refused where it has
/// none.
pub proof fn law_requests_go_to_their_side(plan: RequestPlan, manned: Manned, target: Seq<char>)
    ensures
        is_forward(plan, manned, "blue"@) ==> (plan is Forward == manned.blue) && (
        plan matches RequestPlan::Forward { color } ==> color is Blue),
        is_forward(plan, manned, "yellow"@) ==> (plan is Forward == manned.yellow) && (
        plan matches RequestPlan::Forward { color } ==> color is Yellow),
        target != "blue"@ && target != "yellow"@ && is_forward(plan, manned, target)
            ==> plan is Refused,
{
    law_targets(target);
}

/// In a development match the ball's recovery is switched as asked; loading, starting, stopping and
/// disabling go to the side's controller in every match.
pub proof fn law_what_requests_come_to(
    plan: RequestPlan,
    request: DeveloperRequest,
    dev: bool,
    manned: Manned,
    available: Seq<String>,
    bots: TeamBotCounts,
)
    requires
        is_planned(plan, request, dev, manned, available, bots),
    ensures
        request matches DeveloperRequest::SetBallRecovery { enabled, .. } ==> if dev {
            plan matches RequestPlan::BallRecovery { enabled: e, .. } && e == enabled
        } else {
            plan is Refused
        },
        request is SwitchAi ==> if dev {
            plan is Swap || plan is Refused
        } else {
            plan is Refused
        },
        request is Load || request is Start || request is Stop || request is Disable
            ==> plan is Forward || plan is Refused,
        plan is BallRecovery ==> request is SetBallRecovery,
        plan is Swap ==> request is SwitchAi,
{
}

/// A result is shown for its request's target, good or bad as the request turned out, with what was
/// said of it and the entry or the AI that it named.
pub proof fn law_results_tell_what_came_of_a_request(
    r: DeveloperResult,
    request: DeveloperRequest,
    message: String,
)
    ensures
        is_result_of(r, request, Ok(message)) ==> r.ok && r.message == message,
        is_result_of(r, request, Err(message)) ==> !r.ok && r.message == message,
        is_result_of(r, request, Ok(message)) ==> r.target@ == request.target_spec(),
        is_result_of(r, request, Ok(message)) ==> (request matches DeveloperRequest::Load {
            entry,
            ..
        } ==> r.entry == Some(entry)),
        is_result_of(r, request, Ok(message)) ==> (request matches DeveloperRequest::SwitchAi {
            ai,
            ..
        } ==> r.entry == Some(ai)),
        is_result_of(r, request, Ok(message)) && (request is Start || request is Stop
            || request is Disable || request is SetBallRecovery) ==> r.entry is None,
{
}

} // verus!
