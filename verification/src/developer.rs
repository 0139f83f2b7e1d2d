//! The developer console: what its operator can ask for, and what is shown of the answers.

use vstd::prelude::*;
use serde_json::Value;
use crate::table::Table;
use crate::text::copy_text;

verus! {

/// A JSON value (`serde_json::Value`), carried through as it came.
#[verifier::external_type_specification]
#[verifier::external_body]
pub struct ExValue(Value);

/// Cloning a `serde_json::Value` copies the value in full.
pub assume_specification[ <Value as Clone>::clone ](v: &Value) -> (r: Value)
    ensures
        r == *v,
;

/// Where one target of the AI lab stands.
#[derive(Debug, Clone, Copy, PartialEq, Eq, Structural)]
pub enum DeveloperRunState {
    Idle,
    Loaded,
    Running,
    Finished,
    Stopped,
    Failed,
}

/// An action that the console's operator asked for.
///
/// Loading and starting are separate actions on purpose: registry entries keep state once they are
/// instantiated, so editing a parameter must not restart a run.
#[derive(Debug, Clone)]
pub enum DeveloperRequest {
    Load { target: String, kind: String, entry: String, config: Value, params: Value },
    Start { target: String },
    Stop { target: String },
    Disable { target: String },
    SwitchAi { target: String, ai: String },
    SetBallRecovery { target: String, enabled: bool },
}

impl DeveloperRequest {
    pub open spec fn target_spec(self) -> Seq<char> {
        match self {
            DeveloperRequest::Load { target, .. } => target@,
            DeveloperRequest::Start { target } => target@,
            DeveloperRequest::Stop { target } => target@,
            DeveloperRequest::Disable { target } => target@,
            DeveloperRequest::SwitchAi { target, .. } => target@,
            DeveloperRequest::SetBallRecovery { target, .. } => target@,
        }
    }

    /// The target that the request is for.
    pub fn target(&self) -> (r: &str)
        ensures
            r@ == self.target_spec(),
    {
        match self {
            DeveloperRequest::Load { target, .. } => target.as_str(),
            DeveloperRequest::Start { target } => target.as_str(),
            DeveloperRequest::Stop { target } => target.as_str(),
            DeveloperRequest::Disable { target } => target.as_str(),
            DeveloperRequest::SwitchAi { target, .. } => target.as_str(),
            DeveloperRequest::SetBallRecovery { target, .. } => target.as_str(),
        }
    }
}

/// Number of developer requests kept before new ones are refused.
///
/// The simulation loop drains this queue every iteration, including while paused, so it only fills
/// up if the loop is wedged. Refusing loudly beats growing without bound or dropping the
/// operator's `start`.
pub const DEVELOPER_REQUEST_QUEUE_LIMIT: usize = 64;

/// What putting a request into a queue comes to.
pub open spec fn is_queued(
    before: Seq<DeveloperRequest>,
    request: DeveloperRequest,
    after: Seq<DeveloperRequest>,
    r: Result<(), String>,
) -> bool {
    &&& r is Ok <==> before.len() < DEVELOPER_REQUEST_QUEUE_LIMIT
    &&& r is Ok ==> after == before.push(request)
    &&& r matches Err(message) ==> after == before && message@
        == "the simulation is not draining developer requests"@
}

/// Puts a request at the end of the queue, unless the queue is full.
pub fn queue_developer_request(
    queue: &mut Vec<DeveloperRequest>,
    request: DeveloperRequest,
) -> (r: Result<(), String>)
    ensures
        is_queued(old(queue)@, request, final(queue)@, r),
{
    if queue.len() >= DEVELOPER_REQUEST_QUEUE_LIMIT {
        return Err("the simulation is not draining developer requests".to_owned());
    }
    queue.push(request);
    Ok(())
}

/// Latest direct-invocation result for one developer target.
#[derive(Debug)]
pub struct DeveloperResult {
    pub target: String,
    pub entry: Option<String>,
    pub ok: bool,
    pub message: String,
}

/// Lifecycle of one AI lab target.
#[derive(Debug)]
pub struct DeveloperRun {
    pub target: String,
    pub kind: Option<String>,
    pub entry: Option<String>,
    pub state: DeveloperRunState,
    pub message: String,
    /// Simulation frame on which the run was started; `None` until something is started.
    pub started_frame: Option<u64>,
    pub finished_frame: Option<u64>,
}

impl DeveloperRun {
    pub fn copy(&self) -> (r: DeveloperRun)
        ensures
            r == *self,
    {
        DeveloperRun {
            target: self.target.clone(),
            kind: copy_text(&self.kind),
            entry: copy_text(&self.entry),
            state: self.state,
            message: self.message.clone(),
            started_frame: self.started_frame,
            finished_frame: self.finished_frame,
        }
    }
}

/// The schema-driven developer console as it is published beside the live frame.
pub struct DeveloperSnapshot {
    pub schema: Value,
    pub results: Table<String, DeveloperResult>,
    /// Lifecycle of every target that has one. This lets the console show whether an entry is
    /// merely loaded or actually running.
    pub runs: Table<String, DeveloperRun>,
}

pub struct ConsoleModel {
    pub schema: Value,
    pub results: Map<Seq<char>, DeveloperResult>,
    pub runs: Map<Seq<char>, DeveloperRun>,
}

impl View for DeveloperSnapshot {
    type V = ConsoleModel;

    open spec fn view(&self) -> ConsoleModel {
        ConsoleModel { schema: self.schema, results: self.results@, runs: self.runs@ }
    }
}

pub open spec fn console_view(d: Option<DeveloperSnapshot>) -> Option<ConsoleModel> {
    match d {
        Some(d) => Some(d@),
        None => None,
    }
}

/// The console under a new schema; results and runs stay.
pub open spec fn with_schema(d: Option<ConsoleModel>, schema: Value) -> ConsoleModel {
    match d {
        Some(d) => ConsoleModel { schema, ..d },
        None => ConsoleModel { schema, results: Map::empty(), runs: Map::empty() },
    }
}

/// The console with a target's latest result; nothing where there is no console.
pub open spec fn with_result(d: Option<ConsoleModel>, result: DeveloperResult) -> Option<
    ConsoleModel,
> {
    match d {
        Some(d) => Some(
            ConsoleModel { results: d.results.insert(result.target@, result), ..d },
        ),
        None => None,
    }
}

/// The console with a target's latest lifecycle; nothing where there is no console.
pub open spec fn with_run(d: Option<ConsoleModel>, run: DeveloperRun) -> Option<ConsoleModel> {
    match d {
        Some(d) => Some(ConsoleModel { runs: d.runs.insert(run.target@, run), ..d }),
        None => None,
    }
}

/// The lifecycle published for `target`.
pub open spec fn run_of(d: Option<ConsoleModel>, target: Seq<char>) -> Option<DeveloperRun> {
    match d {
        Some(d) => if d.runs.contains_key(target) {
            Some(d.runs[target])
        } else {
            None
        },
        None => None,
    }
}

/// A published lifecycle is what is then found for its target, and other targets keep theirs.
pub proof fn law_published_run_is_found(
    d: ConsoleModel,
    run: DeveloperRun,
    schema: Value,
    other: Seq<char>,
)
    ensures
        run_of(with_run(Some(d), run), run.target@) == Some(run),
        other != run.target@ ==> run_of(with_run(Some(d), run), other) == run_of(Some(d), other),
        run_of(Some(with_schema(Some(d), schema)), other) == run_of(Some(d), other),
{
}

/// The target of a request is the one that it names, whatever it asks for.
pub proof fn law_requests_name_their_target(
    target: String,
    kind: String,
    entry: String,
    config: Value,
    params: Value,
    enabled: bool,
)
    ensures
        (DeveloperRequest::Load { target, kind, entry, config, params }).target_spec() == target@,
        (DeveloperRequest::Start { target }).target_spec() == target@,
        (DeveloperRequest::Stop { target }).target_spec() == target@,
        (DeveloperRequest::Disable { target }).target_spec() == target@,
        (DeveloperRequest::SwitchAi { target, ai: kind }).target_spec() == target@,
        (DeveloperRequest::SetBallRecovery { target, enabled }).target_spec() == target@,
{
}

/// A result is kept under its target and leaves those of other targets, the runs and the schema; a
/// new schema leaves results and runs. Without a console nothing is kept.
pub proof fn law_results_are_kept_by_target(
    d: ConsoleModel,
    result: DeveloperResult,
    run: DeveloperRun,
    schema: Value,
    other: Seq<char>,
)
    ensures
        with_result(Some(d), result) matches Some(e) && {
            &&& e.results.contains_key(result.target@) && e.results[result.target@] == result
            &&& other != result.target@ ==> e.results.contains_key(other) == d.results.contains_key(
                other,
            )
            &&& other != result.target@ && d.results.contains_key(other) ==> e.results[other]
                == d.results[other]
            &&& e.runs == d.runs
            &&& e.schema == d.schema
        },
        with_run(Some(d), run) matches Some(e) && e.results == d.results && e.schema == d.schema,
        with_schema(Some(d), schema).schema == schema,
        with_schema(Some(d), schema).results == d.results,
        with_schema(Some(d), schema).runs == d.runs,
        with_schema(None, schema).schema == schema,
        !with_schema(None, schema).results.contains_key(other),
        !with_schema(None, schema).runs.contains_key(other),
        with_result(None, result) is None,
        with_run(None, run) is None,
        run_of(None, other) is None,
{
}

/// A request goes behind those that wait, which stay in their order; once 64 wait it is turned down and
/// the queue stays as it is.
pub proof fn law_requests_wait_in_order(
    before: Seq<DeveloperRequest>,
    request: DeveloperRequest,
    after: Seq<DeveloperRequest>,
    r: Result<(), String>,
    i: int,
)
    requires
        is_queued(before, request, after, r),
    ensures
        before.len() < 64 ==> r is Ok && after.len() == before.len() + 1 && after.last() == request,
        before.len() >= 64 ==> r is Err && after == before,
        0 <= i < before.len() ==> after[i] == before[i],
{
}

} // verus!
