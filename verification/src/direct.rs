//! The developer's hold on a side that Dehumanized drives directly: which registry entry is
//! loaded, whether one runs, and what becomes of it.
//!
//! A live instance is an `R`; creating and stepping one is done outside, and what came of it is
//! handed in. An instance writes its commands into the buffer of its run.

use vstd::prelude::*;
use serde_json::Value;
use crate::console;
use crate::console::quote_for_debug;
use crate::controller;
use crate::controller::{GameCommand, KindModel};
use crate::developer::{DeveloperRequest, DeveloperRun, DeveloperRunState};
use crate::layers;
use crate::motion;
use crate::motion::{
    blank_feedback, commands_to_sim, raw_commands, stopped_commands, update_motion_feedback,
    AiCommand, MotionCommand, MotionFeedback, Offset, SlotAim,
};
use crate::state::{RobotCommand, RobotState, TeamColor, WorldState};
use crate::text;
use crate::text::{concat_text, same_text};

verus! {

/// The two registries that an entry can come from.
#[derive(Debug, Clone, Copy, PartialEq, Eq, Structural)]
pub enum EntryKind {
    Skill,
    Play,
}

/// The names of the entries that are registered.
pub struct Registry {
    pub skills: Vec<String>,
    pub plays: Vec<String>,
}

/// The entry that the operator selected. Loading never instantiates anything, so editing
/// parameters cannot disturb a run in progress.
pub struct LoadedEntry {
    /// The kind as it was asked for.
    pub kind: String,
    pub name: String,
    pub registry: EntryKind,
    pub place: usize,
    pub config: Value,
    pub params: Value,
}

/// One live instance, stepped until it finishes, and its commands. They are what it wants for as
/// long as it lives: nothing clears them between two steps.
pub struct EntryRun<R> {
    pub instance: R,
    pub commands: Vec<Option<AiCommand>>,
    pub finished: bool,
}

impl<R> EntryRun<R> {
    /// A run of an instance that left `commands` in its buffer when it was created.
    pub fn new(instance: R, commands: Vec<Option<AiCommand>>) -> (r: EntryRun<R>)
        ensures
            r == (EntryRun { instance, commands, finished: false }),
    {
        EntryRun { instance, commands, finished: false }
    }
}

/// What the developer holds of a side.
pub struct DirectControl<R> {
    pub loaded: Option<LoadedEntry>,
    pub run: Option<EntryRun<R>>,
    pub state: DeveloperRunState,
    pub message: String,
}

pub struct EntryModel {
    pub kind: Seq<char>,
    pub name: Seq<char>,
    pub registry: EntryKind,
    pub place: usize,
    pub config: Value,
    pub params: Value,
}

pub struct ControlModel<R> {
    pub loaded: Option<EntryModel>,
    pub run: Option<EntryRun<R>>,
    pub state: DeveloperRunState,
    pub message: Seq<char>,
}

impl View for LoadedEntry {
    type V = EntryModel;

    open spec fn view(&self) -> EntryModel {
        EntryModel {
            kind: self.kind@,
            name: self.name@,
            registry: self.registry,
            place: self.place,
            config: self.config,
            params: self.params,
        }
    }
}

impl<R> View for DirectControl<R> {
    type V = ControlModel<R>;

    open spec fn view(&self) -> ControlModel<R> {
        ControlModel {
            loaded: match self.loaded {
                Some(entry) => Some(entry@),
                None => None,
            },
            run: self.run,
            state: self.state,
            message: self.message@,
        }
    }
}

impl<R> ControlModel<R> {
    pub open spec fn initial() -> ControlModel<R> {
        ControlModel {
            loaded: None,
            run: None,
            state: DeveloperRunState::Idle,
            message: "No entry loaded"@,
        }
    }

    /// Whether a live instance drives the side.
    pub open spec fn drives(self) -> bool {
        self.run matches Some(run) && !run.finished
    }

    /// Whether `r` tells how things stand.
    pub open spec fn is_told_as(self, r: DeveloperRun) -> bool {
        &&& r.target@.len() == 0
        &&& text::text_view(r.kind) == (match self.loaded {
            Some(entry) => Some(entry.kind),
            None => None,
        })
        &&& text::text_view(r.entry) == (match self.loaded {
            Some(entry) => Some(entry.name),
            None => None,
        })
        &&& r.state == self.state
        &&& r.message@ == self.message
        &&& r.started_frame is None
        &&& r.finished_frame is None
    }

    /// The name of the loaded entry.
    pub open spec fn entry_name(self) -> Seq<char> {
        match self.loaded {
            Some(entry) => entry.name,
            None => "entry"@,
        }
    }

    pub open spec fn in_state(self, state: DeveloperRunState, message: Seq<char>) -> ControlModel<R> {
        ControlModel { state, message, ..self }
    }

    /// With `entry` selected; whatever ran before has ended.
    pub open spec fn with_entry(self, entry: EntryModel) -> ControlModel<R> {
        ControlModel {
            loaded: Some(entry),
            run: None,
            state: DeveloperRunState::Loaded,
            message: entry.name + " is ready to start"@,
        }
    }

    /// Why nothing is started.
    pub open spec fn start_refusal(self) -> Option<Seq<char>> {
        match self.loaded {
            None => Some("load an entry before starting it"@),
            Some(entry) => if self.drives() {
                Some(entry.name + " is already running"@)
            } else {
                None
            },
        }
    }

    /// The commands that the live instance has left.
    pub open spec fn buffer(self) -> Seq<Option<AiCommand>> {
        match self.run {
            Some(run) => run.commands@,
            None => Seq::empty(),
        }
    }

    /// With `commands` in the live instance's buffer.
    pub open spec fn writing(self, commands: Vec<Option<AiCommand>>) -> ControlModel<R> {
        ControlModel {
            run: match self.run {
                Some(run) => Some(EntryRun { commands, ..run }),
                None => None,
            },
            ..self
        }
    }

    /// Once an instance was created.
    pub open spec fn with_run(self, run: EntryRun<R>) -> ControlModel<R> {
        ControlModel {
            run: Some(EntryRun { finished: false, ..run }),
            state: DeveloperRunState::Running,
            message: self.entry_name() + " is driving directly"@,
            ..self
        }
    }

    /// Once something went wrong: the run is over.
    pub open spec fn failed(self, error: Seq<char>) -> ControlModel<R> {
        ControlModel {
            run: None,
            state: DeveloperRunState::Failed,
            message: self.entry_name() + ": "@ + error,
            ..self
        }
    }

    pub open spec fn stopped(self) -> ControlModel<R> {
        ControlModel {
            run: None,
            state: DeveloperRunState::Stopped,
            message: self.entry_name() + " stopped; start it again to re-run"@,
            ..self
        }
    }

    pub open spec fn disabled(self) -> ControlModel<R> {
        ControlModel {
            loaded: None,
            run: None,
            state: DeveloperRunState::Idle,
            message: "Match AI restored"@,
        }
    }

    /// Once the live instance was stepped without fault, and is finished or not.
    pub open spec fn after_step(self, finished: bool) -> ControlModel<R> {
        match self.run {
            Some(run) => {
                let stepped = ControlModel {
                    run: Some(EntryRun { finished, ..run }),
                    ..self
                };
                if finished {
                    stepped.in_state(
                        DeveloperRunState::Finished,
                        self.entry_name() + " finished"@,
                    )
                } else {
                    stepped
                }
            },
            None => self,
        }
    }
}

// ---------------------------------------------------------------------------
// Finding an entry

/// The registry that a kind names.
pub open spec fn kind_of(kind: Seq<char>) -> Option<EntryKind> {
    if kind == "skill"@ || kind == "skills"@ {
        Some(EntryKind::Skill)
    } else if kind == "play"@ || kind == "plays"@ {
        Some(EntryKind::Play)
    } else {
        None
    }
}

/// The place of the first entry called `name`; the list's length where there is none.
pub open spec fn entry_place(names: Seq<String>, name: Seq<char>) -> int
    decreases names.len(),
{
    if names.len() == 0 || names[0]@ == name {
        0
    } else {
        1 + entry_place(names.drop_first(), name)
    }
}

pub open spec fn names_of(registry: Registry, kind: EntryKind) -> Seq<String> {
    match kind {
        EntryKind::Skill => registry.skills@,
        EntryKind::Play => registry.plays@,
    }
}

/// Where an entry is, or why there is none such; `quoted` is its name in quotes.
pub open spec fn found(
    kind: Seq<char>,
    entry: Seq<char>,
    quoted: Seq<char>,
    registry: Registry,
) -> Result<(EntryKind, int), Seq<char>> {
    match kind_of(kind) {
        None => Err("unknown registry kind: "@ + kind),
        Some(k) => {
            let names = names_of(registry, k);
            let place = entry_place(names, entry);
            if place < names.len() {
                Ok((k, place))
            } else {
                Err(quoted + " is not registered in "@ + kind)
            }
        },
    }
}

fn find_name(names: &Vec<String>, name: &str) -> (r: usize)
    ensures
        r as int == entry_place(names@, name@),
        r <= names@.len(),
{
    let mut i: usize = 0;
    assert(names@.skip(0) =~= names@);
    while i < names.len()
        invariant
            i <= names@.len(),
            entry_place(names@, name@) == i + entry_place(names@.skip(i as int), name@),
        decreases names@.len() - i,
    {
        assert(names@.skip(i as int)[0] == names@[i as int]);
        assert(names@.skip(i as int).drop_first() =~= names@.skip(i + 1));
        if same_text(names[i].as_str(), name) {
            return i;
        }
        i += 1;
    }
    assert(names@.skip(i as int).len() == 0);
    i
}

/// Where an entry is, given its name in quotes.
pub fn find_entry(kind: &str, entry: &str, quoted: &str, registry: &Registry) -> (r: Result<
    (EntryKind, usize),
    String,
>)
    ensures
        match (r, found(kind@, entry@, quoted@, *registry)) {
            (Ok(f), Ok(expected)) => f.0 == expected.0 && f.1 as int == expected.1,
            (Err(e), Err(message)) => e@ == message,
            _ => false,
        },
{
    let k = if same_text(kind, "skill") || same_text(kind, "skills") {
        EntryKind::Skill
    } else if same_text(kind, "play") || same_text(kind, "plays") {
        EntryKind::Play
    } else {
        return Err(concat_text("unknown registry kind: ", kind));
    };
    let names = match k {
        EntryKind::Skill => &registry.skills,
        EntryKind::Play => &registry.plays,
    };
    let place: usize = find_name(names, entry);
    if place < names.len() {
        Ok((k, place))
    } else {
        let head = concat_text(quoted, " is not registered in ");
        Err(concat_text(head.as_str(), kind))
    }
}

/// Where an entry is in the registries.
pub fn look_up(kind: &str, entry: &str, registry: &Registry) -> (r: Result<
    (EntryKind, usize),
    String,
>)
    ensures
        match (r, found(kind@, entry@, console::debug_quoted(entry@), *registry)) {
            (Ok(f), Ok(expected)) => f.0 == expected.0 && f.1 as int == expected.1,
            (Err(e), Err(message)) => e@ == message,
            _ => false,
        },
{
    let quoted = quote_for_debug(entry);
    find_entry(kind, entry, quoted.as_str(), registry)
}

// ---------------------------------------------------------------------------
// What the operator does

/// What a load comes to, where the entry was found at `at` and its values were found `valid`.
pub open spec fn after_load<R>(
    c: ControlModel<R>,
    kind: Seq<char>,
    entry: Seq<char>,
    config: Value,
    params: Value,
    at: Result<(EntryKind, int), Seq<char>>,
    valid: Result<(), String>,
) -> Result<ControlModel<R>, Seq<char>> {
    match at {
        Err(message) => Err(message),
        Ok((registry, place)) => match valid {
            Err(error) => Err("invalid "@ + entry + " values: "@ + error@),
            Ok(()) => Ok(
                c.with_entry(
                    EntryModel {
                        kind,
                        name: entry,
                        registry,
                        place: place as usize,
                        config,
                        params,
                    },
                ),
            ),
        },
    }
}

/// What came of what was done outside for a request.
pub enum Answer<R> {
    /// Nothing had to be done.
    Nothing,
    /// Whether a loaded entry's values are fine.
    Validated(Result<(), String>),
    /// The run of the instance that was created.
    Created(Result<EntryRun<R>, String>),
}

/// What has to be done outside for a request.
#[derive(Debug, Clone, Copy, PartialEq, Eq, Structural)]
pub enum Need {
    Nothing,
    /// Check the values of the entry at this place.
    Validate { registry: EntryKind, place: usize },
    /// Create an instance of the loaded entry.
    Create,
}

impl<R> DirectControl<R> {
    pub fn new() -> (c: DirectControl<R>)
        ensures
            c@ == ControlModel::<R>::initial(),
    {
        DirectControl {
            loaded: None,
            run: None,
            state: DeveloperRunState::Idle,
            message: "No entry loaded".to_owned(),
        }
    }

    fn set_state(&mut self, state: DeveloperRunState, message: String) -> (r: String)
        ensures
            r == message,
            final(self)@ == old(self)@.in_state(state, message@),
    {
        self.state = state;
        self.message = message.clone();
        message
    }

    fn entry_name(&self) -> (r: String)
        ensures
            r@ == self@.entry_name(),
    {
        match &self.loaded {
            Some(entry) => entry.name.clone(),
            None => "entry".to_owned(),
        }
    }

    /// Selects an entry without running it. Loading replaces whatever was running: keeping the
    /// earlier instance alive under a new label would be worse than ending it.
    pub fn load(
        &mut self,
        kind: &str,
        entry: &str,
        config: &Value,
        params: &Value,
        at: Result<(EntryKind, usize), String>,
        valid: Result<(), String>,
    ) -> (r: Result<String, String>)
        ensures
            match after_load(
                old(self)@,
                kind@,
                entry@,
                *config,
                *params,
                match at {
                    Ok(f) => Ok((f.0, f.1 as int)),
                    Err(e) => Err(e@),
                },
                valid,
            ) {
                Ok(next) => r matches Ok(m) && final(self)@ == next && m@ == next.message,
                Err(message) => r matches Err(e) && final(self)@ == old(self)@ && e@ == message,
            },
    {
        let (registry, place) = match at {
            Ok(f) => f,
            Err(e) => {
                return Err(e);
            },
        };
        match valid {
            Ok(()) => {},
            Err(error) => {
                let head = concat_text(concat_text("invalid ", entry).as_str(), " values: ");
                return Err(concat_text(head.as_str(), error.as_str()));
            },
        }
        self.run = None;
        self.loaded = Some(
            LoadedEntry {
                kind: kind.to_owned(),
                name: entry.to_owned(),
                registry,
                place,
                config: config.clone(),
                params: params.clone(),
            },
        );
        Ok(self.set_state(DeveloperRunState::Loaded, concat_text(entry, " is ready to start")))
    }

    /// Whether an instance may be created now.
    pub fn may_start(&self) -> (r: Result<(), String>)
        ensures
            match self@.start_refusal() {
                Some(refusal) => r matches Err(e) && e@ == refusal,
                None => r is Ok,
            },
    {
        match &self.loaded {
            None => Err("load an entry before starting it".to_owned()),
            Some(entry) => {
                let live = match &self.run {
                    Some(run) => !run.finished,
                    None => false,
                };
                if live {
                    Err(concat_text(entry.name.as_str(), " is already running"))
                } else {
                    Ok(())
                }
            },
        }
    }

    /// What a start comes to, where creating an instance gave `created`.
    pub open spec fn is_start(
        before: ControlModel<R>,
        created: Result<EntryRun<R>, String>,
        after: ControlModel<R>,
        r: Result<String, String>,
    ) -> bool {
        match before.start_refusal() {
            Some(refusal) => r matches Err(e) && e@ == refusal && after == before,
            None => match created {
                Ok(run) => {
                    &&& after == before.with_run(run)
                    &&& r matches Ok(m) && m@ == after.message
                },
                Err(error) => {
                    &&& after == before.failed(error@)
                    &&& r matches Err(e) && e@ == after.message
                },
            },
        }
    }

    /// Starts the loaded entry with the instance that was created of it.
    pub fn start(&mut self, created: Result<EntryRun<R>, String>) -> (r: Result<String, String>)
        ensures
            DirectControl::is_start(old(self)@, created, final(self)@, r),
    {
        match self.may_start() {
            Ok(()) => {},
            Err(e) => {
                return Err(e);
            },
        }
        let name = self.entry_name();
        match created {
            Ok(run) => {
                self.run = Some(EntryRun::new(run.instance, run.commands));
                Ok(
                    self.set_state(
                        DeveloperRunState::Running,
                        concat_text(name.as_str(), " is driving directly"),
                    ),
                )
            },
            Err(error) => {
                self.run = None;
                let head = concat_text(name.as_str(), ": ");
                Err(
                    self.set_state(
                        DeveloperRunState::Failed,
                        concat_text(head.as_str(), error.as_str()),
                    ),
                )
            },
        }
    }

    /// What a stop comes to.
    pub open spec fn is_stop(
        before: ControlModel<R>,
        after: ControlModel<R>,
        r: Result<String, String>,
    ) -> bool {
        if before.loaded is Some {
            &&& after == before.stopped()
            &&& r matches Ok(m) && m@ == after.message
        } else {
            &&& after == before
            &&& r matches Err(e) && e@ == "nothing is loaded"@
        }
    }

    /// Ends the run but keeps the selection, so it can be started again.
    pub fn stop(&mut self) -> (r: Result<String, String>)
        ensures
            DirectControl::is_stop(old(self)@, final(self)@, r),
    {
        if self.loaded.is_none() {
            return Err("nothing is loaded".to_owned());
        }
        let name = self.entry_name();
        self.run = None;
        Ok(
            self.set_state(
                DeveloperRunState::Stopped,
                concat_text(name.as_str(), " stopped; start it again to re-run"),
            ),
        )
    }

    /// Hands the side back to the match AI.
    pub fn disable(&mut self) -> (r: String)
        ensures
            final(self)@ == old(self)@.disabled(),
            r@ == final(self)@.message,
    {
        self.run = None;
        self.loaded = None;
        self.set_state(DeveloperRunState::Idle, "Match AI restored".to_owned())
    }

    /// Takes note of a fault: the run is over. Gives the message to print.
    pub fn fail_run(&mut self, error: &str) -> (r: String)
        ensures
            final(self)@ == old(self)@.failed(error@),
            r@ == final(self)@.message,
    {
        let name = self.entry_name();
        self.run = None;
        let head = concat_text(name.as_str(), ": ");
        self.set_state(DeveloperRunState::Failed, concat_text(head.as_str(), error))
    }

    fn finish_run(&mut self)
        ensures
            final(self)@ == old(self)@.in_state(
                DeveloperRunState::Finished,
                old(self)@.entry_name() + " finished"@,
            ),
    {
        let name = self.entry_name();
        let _ = self.set_state(
            DeveloperRunState::Finished,
            concat_text(name.as_str(), " finished"),
        );
    }

    /// Whether the live instance drives the side; the match AI does otherwise. A finished run is
    /// never stepped again.
    pub fn drives(&self) -> (r: bool)
        ensures
            r == self@.drives(),
    {
        match &self.run {
            Some(run) => !run.finished,
            None => false,
        }
    }

    /// Takes note of what stepping the live instance gave: whether it is finished, or what went
    /// wrong. Gives the commands to carry out, those in the instance's buffer, past the collision
    /// planner; the buffer stays as the instance left it. Of a fault, gives the message to print,
    /// after which the match AI drives the side.
    pub fn drive(&mut self, stepped: Result<bool, String>) -> (r: Result<
        Vec<Option<AiCommand>>,
        String,
    >)
        requires
            old(self)@.drives(),
        ensures
            match stepped {
                Ok(finished) => {
                    &&& final(self)@ == old(self)@.after_step(finished)
                    &&& r matches Ok(commands) && commands@ == motion::marked(old(self)@.buffer())
                },
                Err(error) => {
                    &&& final(self)@ == old(self)@.failed(error@)
                    &&& r matches Err(m) && m@ == final(self)@.message
                },
            },
    {
        match stepped {
            Ok(finished) => {
                let mut commands: Vec<Option<AiCommand>> = Vec::new();
                match self.run.take() {
                    Some(run) => {
                        commands = raw_commands(&run.commands);
                        self.run = Some(
                            EntryRun { instance: run.instance, commands: run.commands, finished },
                        );
                    },
                    None => {},
                }
                if finished {
                    self.finish_run();
                }
                Ok(commands)
            },
            Err(error) => Err(self.fail_run(error.as_str())),
        }
    }

    /// The lifecycle to publish. Which target it is of and on which frames things happened is for
    /// the match runner to say.
    pub fn developer_run(&self) -> (r: DeveloperRun)
        ensures
            self@.is_told_as(r),
    {
        DeveloperRun {
            target: String::new(),
            kind: match &self.loaded {
                Some(entry) => Some(entry.kind.clone()),
                None => None,
            },
            entry: match &self.loaded {
                Some(entry) => Some(entry.name.clone()),
                None => None,
            },
            state: self.state,
            message: self.message.clone(),
            started_frame: None,
            finished_frame: None,
        }
    }

    /// What has to be done outside before a request can be applied.
    pub open spec fn need_of(c: ControlModel<R>, request: DeveloperRequest, registry: Registry) -> Need {
        match request {
            DeveloperRequest::Load { kind, entry, .. } => match found(
                kind@,
                entry@,
                console::debug_quoted(entry@),
                registry,
            ) {
                Ok((registry, place)) => Need::Validate { registry, place: place as usize },
                Err(_) => Need::Nothing,
            },
            DeveloperRequest::Start { .. } => if c.start_refusal() is None {
                Need::Create
            } else {
                Need::Nothing
            },
            _ => Need::Nothing,
        }
    }

    pub fn need(&self, request: &DeveloperRequest, registry: &Registry) -> (r: Need)
        ensures
            r == DirectControl::need_of(self@, *request, *registry),
    {
        match request {
            DeveloperRequest::Load { kind, entry, .. } => match look_up(
                kind.as_str(),
                entry.as_str(),
                registry,
            ) {
                Ok((registry, place)) => Need::Validate { registry, place },
                Err(_) => Need::Nothing,
            },
            DeveloperRequest::Start { .. } => match self.may_start() {
                Ok(()) => Need::Create,
                Err(_) => Need::Nothing,
            },
            _ => Need::Nothing,
        }
    }

    /// Whether an answer is one to what was needed.
    pub open spec fn answers(need: Need, answer: Answer<R>) -> bool {
        match need {
            Need::Nothing => answer is Nothing,
            Need::Validate { .. } => answer is Validated,
            Need::Create => answer is Created,
        }
    }

    /// What a request comes to.
    pub open spec fn is_applied(
        before: ControlModel<R>,
        request: DeveloperRequest,
        registry: Registry,
        answer: Answer<R>,
        after: ControlModel<R>,
        r: Result<String, String>,
    ) -> bool {
        match request {
            DeveloperRequest::Load { kind, entry, config, params, .. } => match after_load(
                before,
                kind@,
                entry@,
                config,
                params,
                found(kind@, entry@, console::debug_quoted(entry@), registry),
                match answer {
                    Answer::Validated(valid) => valid,
                    _ => Ok(()),
                },
            ) {
                Ok(next) => r matches Ok(m) && after == next && m@ == next.message,
                Err(message) => r matches Err(e) && after == before && e@ == message,
            },
            DeveloperRequest::Start { .. } => match answer {
                Answer::Created(created) => DirectControl::is_start(before, created, after, r),
                _ => {
                    &&& after == before
                    &&& r matches Err(e) && before.start_refusal() == Some(e@)
                },
            },
            DeveloperRequest::Stop { .. } => DirectControl::is_stop(before, after, r),
            DeveloperRequest::Disable { .. } => {
                &&& after == before.disabled()
                &&& r matches Ok(m) && m@ == after.message
            },
            _ => {
                &&& after == before
                &&& r matches Err(e) && e@ == "this request is handled by the match runner"@
            },
        }
    }

    /// Applies a request, given what came of what it needed.
    pub fn apply_developer_request(
        &mut self,
        request: &DeveloperRequest,
        registry: &Registry,
        answer: Answer<R>,
    ) -> (r: Result<String, String>)
        requires
            DirectControl::answers(
                DirectControl::need_of(old(self)@, *request, *registry),
                answer,
            ),
        ensures
            DirectControl::is_applied(
                old(self)@,
                *request,
                *registry,
                answer,
                final(self)@,
                r,
            ),
    {
        match request {
            DeveloperRequest::Load { kind, entry, config, params, .. } => {
                let at = look_up(kind.as_str(), entry.as_str(), registry);
                let valid = match answer {
                    Answer::Validated(valid) => valid,
                    _ => Ok(()),
                };
                self.load(kind.as_str(), entry.as_str(), config, params, at, valid)
            },
            DeveloperRequest::Start { .. } => match answer {
                Answer::Created(created) => self.start(created),
                _ => match self.may_start() {
                    Err(e) => Err(e),
                    Ok(()) => Err(String::new()),
                },
            },
            DeveloperRequest::Stop { .. } => self.stop(),
            DeveloperRequest::Disable { .. } => Ok(self.disable()),
            _ => Err("this request is handled by the match runner".to_owned()),
        }
    }
}

// ---------------------------------------------------------------------------
// The controller of the side

/// How acting begins: a halted side is stopped, and what it was asked for is forgotten.
pub open spec fn is_begun(
    gc: GameCommand,
    num_robots: u8,
    before: Seq<MotionFeedback>,
    after: Seq<MotionFeedback>,
    r: Option<Vec<RobotCommand>>,
) -> bool {
    if gc is Halt {
        &&& r matches Some(commands) && commands@ == motion::stops(num_robots)
        &&& after == Seq::new(motion::SLOTS as nat, |i: int| motion::no_feedback())
    } else {
        r is None && after == before
    }
}

/// What the robots of a side are told.
pub open spec fn told_of(
    num_robots: nat,
    commands: Seq<Option<AiCommand>>,
    robots: Seq<RobotState>,
    aims: Seq<SlotAim>,
) -> Seq<RobotCommand> {
    Seq::new(num_robots, |id: int| motion::told_to(id, commands, robots, aims))
}

/// What is noted of what the robots of a side were asked for.
pub open spec fn noted_of(
    before: Seq<MotionFeedback>,
    commands: Seq<Option<AiCommand>>,
    robots: Seq<RobotState>,
    offsets: Seq<Offset>,
) -> Seq<MotionFeedback> {
    Seq::new(
        before.len(),
        |id: int|
            motion::next_feedback(
                before[id],
                motion::request_in(commands, id),
                layers::robot_on(robots, id as usize) is Some,
                offsets[id],
            ),
    )
}

/// Drives one side: what the developer holds of it, and what its robots were asked for last.
pub struct DirectDehumanizedController<R> {
    pub control: DirectControl<R>,
    pub num_robots: u8,
    pub motion_feedback: Vec<MotionFeedback>,
}

impl<R> DirectDehumanizedController<R> {
    pub fn new(num_robots: u8) -> (c: DirectDehumanizedController<R>)
        ensures
            c.control@ == ControlModel::<R>::initial(),
            c.num_robots == num_robots,
            c.motion_feedback@ == Seq::new(motion::SLOTS as nat, |i: int| motion::no_feedback()),
    {
        DirectDehumanizedController {
            control: DirectControl::new(),
            num_robots,
            motion_feedback: blank_feedback(),
        }
    }

    /// What the controller is called.
    pub fn name(&self) -> (r: &'static str)
        ensures
            r@ == controller::direct_name(),
            r@ == controller::kind_label(KindModel::Dehumanized),
    {
        "dehumanized"
    }

    /// Begins to act. A halted side stops at once and forgets what its robots were asked for; what
    /// the developer runs is left as it is.
    pub fn begin_act(&mut self, gc: GameCommand) -> (r: Option<Vec<RobotCommand>>)
        ensures
            final(self).control == old(self).control,
            final(self).num_robots == old(self).num_robots,
            is_begun(
                gc,
                old(self).num_robots,
                old(self).motion_feedback@,
                final(self).motion_feedback@,
                r,
            ),
    {
        match gc {
            GameCommand::Halt => {
                self.motion_feedback = blank_feedback();
                Some(stopped_commands(self.num_robots))
            },
            _ => None,
        }
    }

    /// Ends acting: the robots are told what the commands come to, and what they were asked for is
    /// noted. `aims` and `offsets` are worked out of the commands and the state.
    pub fn end_act(
        &mut self,
        commands: &Vec<Option<AiCommand>>,
        state: &WorldState,
        color: TeamColor,
        aims: &Vec<SlotAim>,
        offsets: &Vec<Offset>,
    ) -> (r: Vec<RobotCommand>)
        requires
            aims@.len() >= old(self).num_robots,
            forall|i: int|
                0 <= i < aims@.len() ==> motion::zero().at_most(
                    (#[trigger] aims@[i]).aim.max_turn,
                ),
            offsets@.len() == old(self).motion_feedback@.len(),
        ensures
            r@ == told_of(
                old(self).num_robots as nat,
                commands@,
                state.robots_of(color),
                aims@,
            ),
            final(self).control == old(self).control,
            final(self).num_robots == old(self).num_robots,
            final(self).motion_feedback@ == noted_of(
                old(self).motion_feedback@,
                commands@,
                state.robots_of(color),
                offsets@,
            ),
    {
        let told = commands_to_sim(commands, state, color, self.num_robots, aims);
        update_motion_feedback(&mut self.motion_feedback, commands, state, color, offsets);
        told
    }
}

// ---------------------------------------------------------------------------
// Laws

/// Loading an entry does not run it, and the match AI drives the side until it is started.
pub proof fn law_loading_does_not_run<R>(c: ControlModel<R>, entry: EntryModel)
    ensures
        c.with_entry(entry).run is None,
        !c.with_entry(entry).drives(),
        c.with_entry(entry).state is Loaded,
        c.with_entry(entry).start_refusal() is None,
{
}

/// Nothing starts that was not loaded, and nothing starts while something runs; a refused start
/// changes nothing.
pub proof fn law_refused_starts_change_nothing<R>(
    before: ControlModel<R>,
    created: Result<EntryRun<R>, String>,
    after: ControlModel<R>,
    r: Result<String, String>,
)
    requires
        DirectControl::is_start(before, created, after, r),
        before.loaded is None || before.drives(),
    ensures
        r is Err,
        after == before,
{
}

/// A stopped entry stays selected and can be started again.
pub proof fn law_stopping_keeps_the_selection<R>(c: ControlModel<R>)
    requires
        c.loaded is Some,
    ensures
        c.stopped().loaded == c.loaded,
        c.stopped().run is None,
        c.stopped().state is Stopped,
        c.stopped().start_refusal() is None,
{
}

/// A live instance stays the same one from step to step until it is finished; a finished one stays
/// finished and is not stepped again, and its entry can be started anew.
pub proof fn law_a_run_finishes_once<R>(c: ControlModel<R>, finished: bool)
    requires
        c.drives(),
    ensures
        c.after_step(finished).run matches Some(run) && run.instance == c.run->0.instance,
        c.after_step(finished).drives() == !finished,
        !finished ==> c.after_step(false).state == c.state,
        finished ==> c.after_step(true).state is Finished,
        finished && c.loaded is Some ==> c.after_step(true).start_refusal() is None,
{
}

/// A live instance's commands stay until it changes them. What one step left for robot `i` is in the
/// buffer when the next step begins; if that step writes nothing for the robot, it is told the same
/// again, past the collision planner where there is a motion, and the buffer still has it as it was
/// left.
pub proof fn law_commands_stay_until_the_entry_changes_them<R>(
    c: ControlModel<R>,
    first: Vec<Option<AiCommand>>,
    second: Vec<Option<AiCommand>>,
    finished: bool,
    i: int,
)
    requires
        c.drives(),
        0 <= i < first@.len(),
        first@.len() == second@.len(),
        second@[i] == c.writing(first).after_step(false).buffer()[i],
    ensures
        ({
            let waiting = c.writing(first).after_step(false);
            let told = motion::marked(waiting.writing(second).buffer());
            &&& waiting.drives()
            &&& waiting.buffer() == first@
            &&& told[i] == motion::marked(first@)[i]
            &&& told[i] is Some <==> first@[i] is Some
            &&& told[i] matches Some(command) ==> {
                &&& command.motion is Some <==> first@[i]->0.motion is Some
                &&& command.motion matches Some(m) ==> m.raw_movement && m == (MotionCommand {
                    raw_movement: true,
                    ..first@[i]->0.motion->0
                })
                &&& command == (AiCommand { motion: command.motion, ..first@[i]->0 })
            }
            &&& waiting.writing(second).after_step(finished).buffer()[i] == first@[i]
        }),
{
}

/// After a fault, and after disabling, the match AI drives the side; disabling forgets the entry.
pub proof fn law_the_match_ai_takes_over<R>(c: ControlModel<R>, error: Seq<char>)
    ensures
        !c.failed(error).drives(),
        c.failed(error).state is Failed,
        c.failed(error).loaded == c.loaded,
        !c.disabled().drives(),
        c.disabled().state is Idle,
        c.disabled().loaded is None,
{
}

/// What cannot be: a state that says an entry runs while none does, or none runs though one does.
pub open spec fn is_sound<R>(c: ControlModel<R>) -> bool {
    &&& c.drives() <==> c.state is Running
    &&& c.run is Some ==> c.loaded is Some
    &&& c.state is Idle <==> c.loaded is None
}

/// Whatever the operator asks for and whatever comes of it, the state tells whether an entry runs.
pub proof fn law_the_state_tells_what_runs<R>(
    before: ControlModel<R>,
    request: DeveloperRequest,
    registry: Registry,
    answer: Answer<R>,
    after: ControlModel<R>,
    r: Result<String, String>,
)
    requires
        is_sound(before),
        DirectControl::is_applied(before, request, registry, answer, after, r),
    ensures
        is_sound(after),
{
}

/// So does stepping: as long as something drives the side, it stays so.
pub proof fn law_stepping_keeps_the_state_sound<R>(c: ControlModel<R>, finished: bool, error: Seq<char>)
    requires
        is_sound(c),
        c.drives(),
    ensures
        is_sound(ControlModel::<R>::initial()),
        is_sound(c.after_step(finished)),
        is_sound(c.failed(error)),
{
}

/// Whether `names` has `name` first at place `i`.
pub open spec fn is_first_called(names: Seq<String>, i: int, name: Seq<char>) -> bool {
    &&& 0 <= i < names.len()
    &&& names[i]@ == name
    &&& forall|j: int| 0 <= j < i ==> (#[trigger] names[j])@ != name
}

/// An entry's place is that of the first one called so; where none is, it is behind the last.
pub proof fn law_places_of_entries(names: Seq<String>, name: Seq<char>)
    ensures
        0 <= entry_place(names, name) <= names.len(),
        entry_place(names, name) < names.len() ==> is_first_called(
            names,
            entry_place(names, name),
            name,
        ),
        entry_place(names, name) == names.len() ==> forall|j: int|
            0 <= j < names.len() ==> (#[trigger] names[j])@ != name,
    decreases names.len(),
{
    if names.len() > 0 && names[0]@ != name {
        let rest = names.drop_first();
        law_places_of_entries(rest, name);
        let at = entry_place(rest, name);
        if at < rest.len() {
            assert(names[at + 1] == rest[at]);
            assert forall|j: int| 0 <= j < at + 1 implies (#[trigger] names[j])@ != name by {
                if j > 0 {
                    assert(rest[j - 1] == names[j]);
                }
            }
        } else {
            assert forall|j: int| 0 <= j < names.len() implies (#[trigger] names[j])@ != name by {
                if j > 0 {
                    assert(rest[j - 1] == names[j]);
                }
            }
        }
    }
}

/// Skills are found among the skills and plays among the plays, whether one or several are spoken of;
/// there are no other kinds, and what is not registered is not found.
pub proof fn law_entries_are_found_in_their_registry(
    kind: Seq<char>,
    entry: Seq<char>,
    quoted: Seq<char>,
    registry: Registry,
)
    ensures
        kind == "skill"@ || kind == "skills"@ ==> (found(kind, entry, quoted, registry) matches Ok(
            at,
        ) ==> at.0 is Skill && is_first_called(registry.skills@, at.1, entry)),
        kind == "play"@ || kind == "plays"@ ==> (found(kind, entry, quoted, registry) matches Ok(at)
            ==> at.0 is Play && is_first_called(registry.plays@, at.1, entry)),
        kind == "skill"@ || kind == "skills"@ ==> (found(kind, entry, quoted, registry) is Err
            <==> forall|j: int|
            0 <= j < registry.skills@.len() ==> (#[trigger] registry.skills@[j])@ != entry),
        kind == "play"@ || kind == "plays"@ ==> (found(kind, entry, quoted, registry) is Err
            <==> forall|j: int|
            0 <= j < registry.plays@.len() ==> (#[trigger] registry.plays@[j])@ != entry),
        kind != "skill"@ && kind != "skills"@ && kind != "play"@ && kind != "plays"@ ==> found(
            kind,
            entry,
            quoted,
            registry,
        ) is Err,
{
    reveal_strlit("skill");
    reveal_strlit("skills");
    reveal_strlit("play");
    reveal_strlit("plays");
    assert("skill"@[0] == 's' && "skills"@[0] == 's');
    assert("play"@[0] == 'p' && "plays"@[0] == 'p');
    law_places_of_entries(registry.skills@, entry);
    law_places_of_entries(registry.plays@, entry);
}

/// Loading selects the entry that was asked for, with the values that were asked for, and only where
/// it was found and its values are fine.
pub proof fn law_loading_selects_what_was_asked_for<R>(
    c: ControlModel<R>,
    kind: Seq<char>,
    entry: Seq<char>,
    config: Value,
    params: Value,
    registry: EntryKind,
    place: usize,
    error: String,
    message: Seq<char>,
)
    ensures
        ({
            let r = after_load(c, kind, entry, config, params, Ok((registry, place as int)), Ok(()));
            &&& r matches Ok(next) && next.loaded matches Some(e) && e.kind == kind && e.name
                == entry && e.registry == registry && e.place == place && e.config == config
                && e.params == params
            &&& r matches Ok(next) && next.run is None && next.state is Loaded && next.message
                == entry + " is ready to start"@
        }),
        after_load(c, kind, entry, config, params, Ok((registry, place as int)), Err(error)) is Err,
        after_load(c, kind, entry, config, params, Err(message), Ok(())) == Err::<
            ControlModel<R>,
            Seq<char>,
        >(message),
{
}

/// A start runs the instance that was created, with the commands that it left; where none could be
/// created the run has failed, with the reason. The selection stays either way.
pub proof fn law_starting_runs_what_was_created<R>(
    before: ControlModel<R>,
    created: Result<EntryRun<R>, String>,
    after: ControlModel<R>,
    r: Result<String, String>,
)
    requires
        DirectControl::is_start(before, created, after, r),
        before.loaded is Some,
        !before.drives(),
    ensures
        after.loaded == before.loaded,
        created matches Ok(run) ==> r is Ok && after.state is Running && (
        after.run matches Some(live) && live.instance == run.instance && live.commands
            == run.commands && !live.finished),
        created matches Err(error) ==> r is Err && after.state is Failed && after.run is None
            && after.message == before.loaded->0.name + ": "@ + error@,
{
}

/// Stopping ends what runs where something is loaded, and is refused where nothing is.
pub proof fn law_stopping<R>(
    before: ControlModel<R>,
    after: ControlModel<R>,
    r: Result<String, String>,
)
    requires
        DirectControl::is_stop(before, after, r),
    ensures
        r is Ok == before.loaded is Some,
        r is Ok ==> after.run is None && after.state is Stopped && after.loaded == before.loaded,
        r is Err ==> after == before,
{
}

/// What is asked of the side's controller comes to what its name says, and to nothing where the request
/// is not for a controller.
pub proof fn law_requests_are_carried_out<R>(
    before: ControlModel<R>,
    request: DeveloperRequest,
    registry: Registry,
    answer: Answer<R>,
    after: ControlModel<R>,
    r: Result<String, String>,
)
    requires
        DirectControl::is_applied(before, request, registry, answer, after, r),
    ensures
        request is Stop ==> r is Ok == before.loaded is Some,
        request is Stop ==> after.run is None || before.loaded is None,
        request is Disable ==> r is Ok && after.loaded is None && after.run is None
            && after.state is Idle,
        request is SwitchAi || request is SetBallRecovery ==> r is Err && after == before,
        request is Load && r is Ok ==> after.state is Loaded && after.run is None,
        request is Load && r is Err ==> after == before,
        request matches DeveloperRequest::Load { kind, entry, config, params, .. } ==> (r is Ok ==> (
        after.loaded matches Some(e) && e.kind == kind@ && e.name == entry@ && e.config == config
            && e.params == params)),
        request is Start && r is Ok ==> after.state is Running && after.drives(),
{
}

/// What has to be done outside: values are checked of an entry that is there, and an instance is created
/// where one may be started.
pub proof fn law_what_requests_need<R>(
    c: ControlModel<R>,
    request: DeveloperRequest,
    registry: Registry,
)
    ensures
        ({
            let need = DirectControl::need_of(c, request, registry);
            &&& request is Start ==> need is Create == (c.loaded is Some && !c.drives())
            &&& need is Create ==> request is Start
            &&& need is Validate ==> request is Load
            &&& request is Stop || request is Disable || request is SwitchAi
                || request is SetBallRecovery ==> need is Nothing
        }),
{
}

/// How things stand is told of the loaded entry, under its kind and its name.
pub proof fn law_runs_are_told_as_they_are<R>(c: ControlModel<R>, r: DeveloperRun)
    requires
        c.is_told_as(r),
    ensures
        c.loaded matches Some(e) ==> (r.kind is Some && r.kind->0@ == e.kind && r.entry is Some
            && r.entry->0@ == e.name),
        c.loaded is None ==> r.kind is None && r.entry is None,
        r.state == c.state,
        r.message@ == c.message,
        r.started_frame is None && r.finished_frame is None,
        r.target@.len() == 0,
{
}

/// A halted side stands still and forgets what it was asked for; any other goes on with it.
pub proof fn law_halted_sides_stop(
    gc: GameCommand,
    num_robots: u8,
    before: Seq<MotionFeedback>,
    after: Seq<MotionFeedback>,
    r: Option<Vec<RobotCommand>>,
    id: int,
)
    requires
        is_begun(gc, num_robots, before, after, r),
    ensures
        r is Some == gc is Halt,
        gc is Halt ==> r->0@.len() == num_robots,
        gc is Halt && 0 <= id < num_robots ==> motion::stands_still(r->0@[id], id as usize),
        gc is Halt ==> after.len() == 16,
        gc is Halt && 0 <= id < 16 ==> after[id] == motion::no_feedback(),
        !(gc is Halt) ==> after == before,
{
}

/// Every robot of a side is told something: what its own command comes to where it has one and is on
/// the field, and to stand still otherwise.
pub proof fn law_every_robot_is_told(
    num_robots: nat,
    commands: Seq<Option<AiCommand>>,
    robots: Seq<RobotState>,
    aims: Seq<SlotAim>,
    id: int,
)
    requires
        0 <= id < num_robots <= usize::MAX,
    ensures
        told_of(num_robots, commands, robots, aims).len() == num_robots,
        told_of(num_robots, commands, robots, aims)[id].id == id,
        id >= commands.len() || commands[id] is None || layers::robot_on(
            robots,
            id as usize,
        ) is None ==> motion::stands_still(
            told_of(num_robots, commands, robots, aims)[id],
            id as usize,
        ),
{
}

/// What a robot was asked for is noted in its own slot: the request that its command makes now, with
/// the progress kept where it is the same as before and measured from here where it is new.
pub proof fn law_what_was_asked_for_is_noted(
    before: Seq<MotionFeedback>,
    commands: Seq<Option<AiCommand>>,
    robots: Seq<RobotState>,
    offsets: Seq<Offset>,
    id: int,
)
    requires
        0 <= id < before.len() <= usize::MAX,
    ensures
        ({
            let after = noted_of(before, commands, robots, offsets);
            let request = motion::request_in(commands, id);
            &&& after.len() == before.len()
            &&& after[id].request == request
            &&& motion::same_goal(before[id].request, request) ==> after[id].initial_drive_dist_mm
                == before[id].initial_drive_dist_mm
            &&& !motion::same_goal(before[id].request, request) && request is Some
                && layers::robot_on(robots, id as usize) is Some ==> after[id].initial_drive_dist_mm
                == offsets[id].drive_dist_mm
            &&& !motion::same_goal(before[id].request, request) && layers::robot_on(
                robots,
                id as usize,
            ) is None ==> after[id].initial_drive_dist_mm.bits == 0
        }),
{
}

/// What is said of an entry is said of its own parts.
pub proof fn law_an_entry_is_seen_as_it_is(e: LoadedEntry)
    ensures
        e@.kind == e.kind@,
        e@.name == e.name@,
        e@.registry == e.registry,
        e@.place == e.place,
        e@.config == e.config,
        e@.params == e.params,
{
}

/// What is said of what the developer holds is said of its own parts.
pub proof fn law_what_is_held_is_seen_as_it_is<R>(c: DirectControl<R>)
    ensures
        c@.loaded is Some == c.loaded is Some,
        c.loaded is Some ==> c@.loaded->0.name == c.loaded->0.name@ && c@.loaded->0.kind
            == c.loaded->0.kind@,
        c@.run == c.run,
        c@.state == c.state,
        c@.message == c.message@,
{
}

} // verus!
