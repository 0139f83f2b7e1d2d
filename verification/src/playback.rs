//! Playing a replay back: what to play, and how the browser moves through it.

use vstd::prelude::*;
use crate::control::WebControlState;
use crate::names;
use crate::names::path_extension;
use crate::replay::{ReplayEvent, ReplayEventKind};
use crate::requests;
use crate::requests::parse_usize;
use crate::text;
use crate::text::{
    concat_text, is_empty_text, parse_unsigned, same_text, split_lines, split_text_once,
    strip_text_prefix, trim_text,
};
use crate::trackers::GameStateInfo;
use crate::viewer::{ViewerModel, ViewerServer, DEFAULT_PORT};

verus! {

// ---------------------------------------------------------------------------
// Moving through the frames

/// The frame `step` frames on from `index`, but no further than either end.
pub open spec fn stepped_to(index: usize, step: isize, len: usize) -> usize {
    if len == 0 || index + step < 0 {
        0
    } else if index + step >= len {
        (len - 1) as usize
    } else {
        (index + step) as usize
    }
}

pub fn apply_frame_step(index: usize, step: isize, len: usize) -> (r: usize)
    requires
        len <= isize::MAX,
        index <= isize::MAX,
        index + step <= isize::MAX,
    ensures
        r == stepped_to(index, step, len),
{
    if len == 0 {
        return 0;
    }
    let max: isize = (len - 1) as isize;
    let to: isize = index as isize + step;
    if to < 0 {
        0
    } else if to > max {
        max as usize
    } else {
        to as usize
    }
}

/// Where a playback is.
#[derive(Debug, Clone, Copy, PartialEq, Eq, Structural)]
pub struct Playback {
    pub index: usize,
    pub len: usize,
}

/// How long to wait before the next tick.
#[derive(Debug, Clone, Copy, PartialEq, Eq, Structural)]
pub enum Pause {
    /// As long as a frame lasts, at the speed that was asked for.
    Frame,
    /// The 33 milliseconds of a playback that is held.
    Held,
}

pub open spec fn pause_of(running: bool) -> Pause {
    if running {
        Pause::Frame
    } else {
        Pause::Held
    }
}

/// The viewer once a wish to start over is taken.
pub open spec fn viewer_restarted(m: ViewerModel) -> ViewerModel {
    let taken = m.with_control(m.client.control.without_restart());
    if m.client.control.wants_restart() {
        taken.without_goals()
    } else {
        taken
    }
}

pub open spec fn no_further(index: usize, len: usize) -> usize {
    if len == 0 {
        0
    } else if index < len {
        index
    } else {
        (len - 1) as usize
    }
}

impl Playback {
    /// There is a frame, and the playback is at one.
    pub open spec fn wf(self) -> bool {
        self.index < self.len <= isize::MAX
    }

    pub fn new(len: usize) -> (r: Playback)
        requires
            0 < len <= isize::MAX,
        ensures
            r.wf(),
            r == (Playback { index: 0, len }),
    {
        Playback { index: 0, len }
    }

    /// Whether the pending wishes to step and to skip can be counted.
    pub open spec fn can_follow(self, control: WebControlState) -> bool {
        &&& control.frame_skip_requested + (self.len - 1) <= isize::MAX
        &&& control.frame_step_requested + (self.len - 1) <= isize::MAX
    }

    pub open spec fn stepped(self, control: WebControlState) -> Playback {
        Playback {
            index: if control.frame_step_requested != 0 {
                stepped_to(self.index, control.frame_step_requested, self.len)
            } else {
                self.index
            },
            ..self
        }
    }

    pub open spec fn sought(self, control: WebControlState) -> Playback {
        Playback {
            index: match control.seek_request() {
                Some(frame) => no_further(frame, self.len),
                None => self.index,
            },
            ..self
        }
    }

    pub open spec fn skipped(self, control: WebControlState) -> Playback {
        Playback {
            index: if control.frame_skip_requested != 0 {
                stepped_to(self.index, control.frame_skip_requested, self.len)
            } else {
                self.index
            },
            ..self
        }
    }

    /// Goes where the browser wants: to the frame it named, then past those it skips, then by its
    /// steps.
    pub open spec fn moved(self, control: WebControlState) -> Playback {
        self.sought(control).skipped(control).stepped(control)
    }

    /// Takes the browser's steps alone.
    pub fn follow_steps(&mut self, viewer: &mut ViewerServer)
        requires
            old(self).wf(),
            old(self).can_follow(old(viewer)@.client.control),
        ensures
            final(self).wf(),
            *final(self) == old(self).stepped(old(viewer)@.client.control),
            final(viewer)@ == old(viewer)@.with_control(old(viewer)@.client.control.without_step()),
    {
        let step: isize = viewer.take_frame_step_request();
        if step != 0 {
            self.index = apply_frame_step(self.index, step, self.len);
        }
    }

    /// Goes where the browser wants.
    pub fn follow(&mut self, viewer: &mut ViewerServer)
        requires
            old(self).wf(),
            old(self).can_follow(old(viewer)@.client.control),
        ensures
            final(self).wf(),
            *final(self) == old(self).moved(old(viewer)@.client.control),
            final(viewer)@ == old(viewer)@.with_control(
                old(viewer)@.client.control.without_seek().without_skip().without_step(),
            ),
    {
        match viewer.take_frame_seek_request() {
            Some(frame) => {
                self.index = if frame < self.len {
                    frame
                } else {
                    self.len - 1
                };
            },
            None => {},
        }
        let skip: isize = viewer.take_frame_skip_request();
        if skip != 0 {
            self.index = apply_frame_step(self.index, skip, self.len);
        }
        self.follow_steps(viewer);
    }

    pub open spec fn advanced(self, running: bool) -> Playback {
        Playback {
            index: if running {
                no_further((self.index + 1) as usize, self.len)
            } else {
                self.index
            },
            ..self
        }
    }

    /// Goes on to the next frame, once the present one is shown, if the playback runs.
    pub fn advance(&mut self, running: bool) -> (r: Pause)
        requires
            old(self).wf(),
        ensures
            final(self).wf(),
            *final(self) == old(self).advanced(running),
            r == pause_of(running),
    {
        if running {
            if self.index < self.len - 1 {
                self.index = self.index + 1;
            }
            Pause::Frame
        } else {
            Pause::Held
        }
    }

    /// The playback once the browser's wish to start over is granted, where it has one.
    pub open spec fn restarted(self, control: WebControlState) -> Playback {
        if control.wants_restart() {
            Playback { index: 0, ..self }
        } else {
            self
        }
    }

    /// Starts over where the browser has asked for it, with a score of nil.
    pub fn maybe_restart(&mut self, viewer: &mut ViewerServer)
        requires
            old(self).wf(),
        ensures
            final(self).wf(),
            *final(self) == old(self).restarted(old(viewer)@.client.control),
            final(viewer)@ == viewer_restarted(old(viewer)@),
    {
        if viewer.take_restart_request() {
            viewer.reset_goals();
            self.index = 0;
        }
    }
}

/// A playback never leaves its frames, whatever the browser wants of it; it stays at the last one
/// when it gets there, and a held one stays where it is.
pub proof fn law_playback_stays_inside(p: Playback, control: WebControlState)
    requires
        p.wf(),
    ensures
        p.moved(control).wf(),
        p.advanced(true).wf(),
        p.index == p.len - 1 ==> p.advanced(true) == p,
        p.advanced(false) == p,
        p.index < p.len - 1 ==> p.advanced(true).index == p.index + 1,
{
}

/// Stepping forth and back again ends where it began, unless an end is in the way.
pub proof fn law_steps_there_and_back(index: usize, step: isize, len: usize)
    requires
        index < len,
        0 <= index + step < len,
        step > isize::MIN,
    ensures
        stepped_to(stepped_to(index, step, len), (-step) as isize, len) == index,
{
}

// ---------------------------------------------------------------------------
// The game state at a frame

/// The value behind `key` in a list of `<key> <value>` lines.
pub open spec fn detail_in(lines: Seq<Seq<char>>, key: Seq<char>) -> Option<Seq<char>>
    decreases lines.len(),
{
    if lines.len() == 0 {
        None
    } else {
        match text::split_once(lines[0], ' ') {
            Some((k, value)) if k == key => Some(text::trimmed(value)),
            _ => detail_in(lines.drop_first(), key),
        }
    }
}

pub open spec fn detail(details: Seq<char>, key: Seq<char>) -> Option<Seq<char>> {
    detail_in(text::lines(details), key)
}

pub fn parse_detail_value(details: &str, key: &str) -> (r: Option<String>)
    ensures
        text::text_view(r) == detail(details@, key@),
{
    let lines = split_lines(details);
    let ghost all = text::lines(details@);
    let mut i: usize = 0;
    assert(all.skip(0) =~= all);
    while i < lines.len()
        invariant
            i <= lines@.len(),
            text::texts(lines@) == all,
            all == text::lines(details@),
            detail(details@, key@) == detail_in(all.skip(i as int), key@),
        decreases lines@.len() - i,
    {
        assert(text::texts(lines@)[i as int] == lines@[i as int]@);
        assert(all.skip(i as int)[0] == lines@[i as int]@);
        assert(all.skip(i as int).drop_first() =~= all.skip(i + 1));
        match split_text_once(lines[i].as_str(), ' ') {
            Some((k, value)) => {
                if same_text(k.as_str(), key) {
                    return Some(trim_text(value.as_str()));
                }
            },
            None => {},
        }
        i += 1;
    }
    assert(all.skip(i as int).len() == 0);
    None
}

/// Whether an event tells the game state of a frame, or of one before it.
pub open spec fn tells_game_state(event: ReplayEvent, frame_index: usize) -> bool {
    event.kind is Referee && event.frame as usize <= frame_index
}

/// The last event that tells the game state of a frame.
pub open spec fn referee_event(events: Seq<ReplayEvent>, frame_index: usize) -> Option<ReplayEvent>
    decreases events.len(),
{
    if events.len() == 0 {
        None
    } else if tells_game_state(events.last(), frame_index) {
        Some(events.last())
    } else {
        referee_event(events.drop_last(), frame_index)
    }
}

pub open spec fn details_of(event: ReplayEvent) -> Seq<char> {
    match event.details {
        Some(d) => d@,
        None => Seq::empty(),
    }
}

/// The counter that an event's details tell; its frame where they do not.
pub open spec fn counter_of(event: ReplayEvent) -> u32 {
    match detail(details_of(event), "counter"@) {
        Some(value) => match text::unsigned_number(value, u32::MAX as nat) {
            Some(n) => n as u32,
            None => event.frame as u32,
        },
        None => event.frame as u32,
    }
}

pub open spec fn name_in(details: Seq<char>, key: Seq<char>) -> Option<Seq<char>> {
    match detail(details, key) {
        Some(name) => if name.len() > 0 {
            Some(name)
        } else {
            None
        },
        None => None,
    }
}

/// Whether `info` is what a referee event tells.
pub open spec fn is_told_by(info: GameStateInfo, event: ReplayEvent) -> bool {
    &&& info.command == event.label
    &&& info.command_counter == counter_of(event)
    &&& text::text_view(info.stage) == detail(details_of(event), "stage"@)
    &&& text::text_view(info.blue_name) == name_in(details_of(event), "blue"@)
    &&& text::text_view(info.yellow_name) == name_in(details_of(event), "yellow"@)
}

fn name_of(details: &str, key: &str) -> (r: Option<String>)
    ensures
        text::text_view(r) == name_in(details@, key@),
{
    match parse_detail_value(details, key) {
        Some(name) => if is_empty_text(name.as_str()) {
            None
        } else {
            Some(name)
        },
        None => None,
    }
}

fn told_by(event: &ReplayEvent) -> (r: GameStateInfo)
    ensures
        is_told_by(r, *event),
{
    let details = match &event.details {
        Some(d) => d.clone(),
        None => String::new(),
    };
    assert(details@ == details_of(*event));
    let frame: u32 = #[verifier::truncate] (event.frame as u32);
    let command_counter: u32 = match parse_detail_value(details.as_str(), "counter") {
        Some(value) => match parse_unsigned(value.as_str(), u32::MAX as u64) {
            Some(n) => n as u32,
            None => frame,
        },
        None => frame,
    };
    GameStateInfo {
        command: event.label.clone(),
        command_counter,
        stage: parse_detail_value(details.as_str(), "stage"),
        blue_name: name_of(details.as_str(), "blue"),
        yellow_name: name_of(details.as_str(), "yellow"),
    }
}

/// The game state at frame `frame_index`: what the last referee event up to there tells.
pub fn replay_game_state_for_frame(events: &[ReplayEvent], frame_index: usize) -> (r: Option<
    GameStateInfo,
>)
    ensures
        match referee_event(events@, frame_index) {
            Some(event) => r matches Some(info) && is_told_by(info, event),
            None => r is None,
        },
{
    let mut i: usize = events.len();
    assert(events@.take(i as int) =~= events@);
    while i > 0
        invariant
            i <= events@.len(),
            referee_event(events@, frame_index) == referee_event(
                events@.take(i as int),
                frame_index,
            ),
        decreases i,
    {
        let event = &events[i - 1];
        assert(events@.take(i as int).last() == *event);
        assert(events@.take(i as int).drop_last() =~= events@.take(i - 1));
        if event.kind == ReplayEventKind::Referee && (#[verifier::truncate] (event.frame as usize))
            <= frame_index {
            return Some(told_by(event));
        }
        i -= 1;
    }
    None
}

// ---------------------------------------------------------------------------
// What to play

/// Which packets of an SSL log are played.
#[derive(Debug, Clone, Copy, PartialEq, Eq, Structural)]
pub enum VisionLogSource {
    Tracker2020,
    Vision2014,
}

pub struct ServeOptions {
    pub path: String,
    pub viewer_port: u16,
    pub vision_source: VisionLogSource,
}

/// Why the arguments of `serve` are refused.
#[derive(Debug)]
pub enum ServeError {
    MissingPort,
    /// The port is no number that a port can have.
    BadPort(String),
    UnknownOption(String),
    ExtraPath(String),
    MissingPath,
}

/// The options read so far.
pub struct ServeModel {
    pub path: Option<Seq<char>>,
    pub viewer_port: u16,
    pub vision_source: VisionLogSource,
}

impl ServeModel {
    /// Nothing is read yet.
    pub open spec fn initial() -> ServeModel {
        ServeModel {
            path: None,
            viewer_port: DEFAULT_PORT,
            vision_source: VisionLogSource::Tracker2020,
        }
    }
}

pub enum ServeRefusal {
    MissingPort,
    BadPort(Seq<char>),
    UnknownOption(Seq<char>),
    ExtraPath(Seq<char>),
    MissingPath,
}

impl View for ServeError {
    type V = ServeRefusal;

    open spec fn view(&self) -> ServeRefusal {
        match *self {
            ServeError::MissingPort => ServeRefusal::MissingPort,
            ServeError::BadPort(s) => ServeRefusal::BadPort(s@),
            ServeError::UnknownOption(s) => ServeRefusal::UnknownOption(s@),
            ServeError::ExtraPath(s) => ServeRefusal::ExtraPath(s@),
            ServeError::MissingPath => ServeRefusal::MissingPath,
        }
    }
}

impl ServeError {
    pub open spec fn message_spec(self) -> Option<Seq<char>> {
        match self {
            ServeError::MissingPort => Some("missing value for --viewer-port"@),
            ServeError::BadPort(_) => None,
            ServeError::UnknownOption(s) => Some("unknown serve option "@ + s@),
            ServeError::ExtraPath(s) => Some("unexpected extra replay/log path "@ + s@),
            ServeError::MissingPath => Some("missing replay/log path"@),
        }
    }

    /// The error in words; what is wrong with a port is for its reader to say.
    pub fn message(&self) -> (r: Option<String>)
        ensures
            text::text_view(r) == self.message_spec(),
    {
        match self {
            ServeError::MissingPort => Some("missing value for --viewer-port".to_owned()),
            ServeError::BadPort(_) => None,
            ServeError::UnknownOption(s) => Some(concat_text("unknown serve option ", s.as_str())),
            ServeError::ExtraPath(s) => Some(
                concat_text("unexpected extra replay/log path ", s.as_str()),
            ),
            ServeError::MissingPath => Some("missing replay/log path".to_owned()),
        }
    }
}

/// The arguments from place `i` on, where those before have come to `m`.
pub open spec fn serve_options(args: Seq<Seq<char>>, i: int, m: ServeModel) -> Result<
    ServeModel,
    ServeRefusal,
>
    decreases args.len() - i,
{
    if i < 0 || i >= args.len() {
        if m.path is None {
            Err(ServeRefusal::MissingPath)
        } else {
            Ok(m)
        }
    } else if args[i] == "--viewer-port"@ {
        if i + 1 >= args.len() {
            Err(ServeRefusal::MissingPort)
        } else {
            match text::unsigned_number(args[i + 1], u16::MAX as nat) {
                Some(port) => serve_options(
                    args,
                    i + 2,
                    ServeModel { viewer_port: port as u16, ..m },
                ),
                None => Err(ServeRefusal::BadPort(args[i + 1])),
            }
        }
    } else if args[i] == "--vision2014"@ || args[i] == "--raw-vision"@ {
        serve_options(
            args,
            i + 1,
            ServeModel { vision_source: VisionLogSource::Vision2014, ..m },
        )
    } else if text::starts_with(args[i], "--"@) {
        Err(ServeRefusal::UnknownOption(args[i]))
    } else if m.path is Some {
        Err(ServeRefusal::ExtraPath(args[i]))
    } else {
        serve_options(args, i + 1, ServeModel { path: Some(args[i]), ..m })
    }
}

impl ServeOptions {
    /// Reads the arguments of `serve`.
    pub fn parse(args: &[String]) -> (r: Result<ServeOptions, ServeError>)
        ensures
            match (r, serve_options(text::texts(args@), 0, ServeModel::initial())) {
                (Ok(o), Ok(m)) => {
                    &&& m.path == Some(o.path@)
                    &&& m.viewer_port == o.viewer_port
                    &&& m.vision_source == o.vision_source
                },
                (Err(e), Err(refusal)) => e@ == refusal,
                _ => false,
            },
    {
        let ghost all = text::texts(args@);
        let ghost start = ServeModel::initial();
        let mut path: Option<String> = None;
        let mut viewer_port: u16 = DEFAULT_PORT;
        let mut vision_source = VisionLogSource::Tracker2020;
        let n: usize = args.len();
        let mut i: usize = 0;
        while i < n
            invariant
                n as nat == args@.len(),
                all == text::texts(args@),
                start == ServeModel::initial(),
                i <= n,
                serve_options(all, 0, start) == serve_options(
                    all,
                    i as int,
                    ServeModel { path: text::text_view(path), viewer_port, vision_source },
                ),
            decreases n - i,
        {
            let arg = args[i].as_str();
            assert(all[i as int] == arg@);
            if same_text(arg, "--viewer-port") {
                if i >= n - 1 {
                    return Err(ServeError::MissingPort);
                }
                assert(all[i + 1] == args@[i + 1]@);
                match parse_unsigned(args[i + 1].as_str(), u16::MAX as u64) {
                    Some(port) => {
                        viewer_port = port as u16;
                    },
                    None => {
                        return Err(ServeError::BadPort(args[i + 1].clone()));
                    },
                }
                i += 2;
            } else if same_text(arg, "--vision2014") || same_text(arg, "--raw-vision") {
                vision_source = VisionLogSource::Vision2014;
                i += 1;
            } else if strip_text_prefix(arg, "--").is_some() {
                return Err(ServeError::UnknownOption(args[i].clone()));
            } else {
                if path.is_some() {
                    return Err(ServeError::ExtraPath(args[i].clone()));
                }
                path = Some(args[i].clone());
                i += 1;
            }
        }
        match path {
            Some(path) => Ok(ServeOptions { path, viewer_port, vision_source }),
            None => Err(ServeError::MissingPath),
        }
    }
}

pub open spec fn is_replay(path: Seq<char>) -> bool {
    names::extension_in(path) == Some("shreplay"@)
}

/// Whether a path is that of a replay log of our own, by its extension; others are SSL logs.
pub fn is_replay_path(path: &str) -> (r: bool)
    ensures
        names::is_portable(path@) ==> r == is_replay(path@),
{
    match path_extension(path) {
        Some(extension) => same_text(extension.as_str(), "shreplay"),
        None => false,
    }
}

/// What a demonstration is recorded with: a number, or what stands for it.
pub open spec fn number_or(args: Seq<Seq<char>>, i: int, default: usize) -> usize {
    if i < args.len() {
        match requests::usize_number(args[i]) {
            Some(n) => n,
            None => default,
        }
    } else {
        default
    }
}

pub struct DemoOptions {
    pub path: String,
    pub worlds: usize,
    pub steps: usize,
}

/// Whether these are the options that the arguments of `record-demo` come to.
pub open spec fn is_demo_of(o: DemoOptions, args: Seq<Seq<char>>) -> bool {
    &&& o.path@ == (if args.len() > 0 {
        args[0]
    } else {
        "recordings/demo.shreplay"@
    })
    &&& o.worlds == number_or(args, 1, 1)
    &&& o.steps == number_or(args, 2, 1200)
}

impl DemoOptions {
    /// Reads the arguments of `record-demo`; what is missing or no number has a default.
    pub fn parse(args: &[String]) -> (r: DemoOptions)
        ensures
            is_demo_of(r, text::texts(args@)),
    {
        let path = if args.len() > 0 {
            args[0].clone()
        } else {
            "recordings/demo.shreplay".to_owned()
        };
        let mut worlds: usize = 1;
        if args.len() > 1 {
            match parse_usize(args[1].as_str()) {
                Some(n) => {
                    worlds = n;
                },
                None => {},
            }
        }
        let mut steps: usize = 1200;
        if args.len() > 2 {
            match parse_usize(args[2].as_str()) {
                Some(n) => {
                    steps = n;
                },
                None => {},
            }
        }
        DemoOptions { path, worlds, steps }
    }
}

// ---------------------------------------------------------------------------
// Laws

/// A step leads as many frames on as it says, and back where it is negative; at either end of the
/// recording it stops.
pub proof fn law_steps_lead_as_far_as_they_say(index: usize, step: isize, len: usize)
    requires
        len > 0,
    ensures
        0 <= index + step < len ==> stepped_to(index, step, len) as int == index + step,
        index + step < 0 ==> stepped_to(index, step, len) == 0,
        index + step >= len ==> stepped_to(index, step, len) == len - 1,
        stepped_to(index, step, 0) == 0,
{
}

/// The browser gets the frame that it names, or the last where there are not as many; then it is taken
/// past those that it skips and by its steps. With no wish, the playback stays where it is.
pub proof fn law_playback_goes_where_the_browser_wants(p: Playback, control: WebControlState)
    requires
        p.wf(),
    ensures
        ({
            let c = control;
            let from: int = if c.frame_seek_requested < 0 {
                p.index as int
            } else if c.frame_seek_requested < p.len {
                c.frame_seek_requested as int
            } else {
                p.len - 1
            };
            let to = p.moved(c).index as int;
            &&& p.moved(c).len == p.len
            &&& c.frame_skip_requested == 0 && c.frame_step_requested == 0 ==> to == from
            &&& c.frame_step_requested == 0 && 0 <= from + c.frame_skip_requested < p.len ==> to
                == from + c.frame_skip_requested
            &&& c.frame_skip_requested == 0 && 0 <= from + c.frame_step_requested < p.len ==> to
                == from + c.frame_step_requested
            &&& 0 <= from + c.frame_skip_requested < p.len && 0 <= from + c.frame_skip_requested
                + c.frame_step_requested < p.len ==> to == from + c.frame_skip_requested
                + c.frame_step_requested
            &&& c.frame_skip_requested == 0 && from + c.frame_step_requested < 0 ==> to == 0
            &&& c.frame_skip_requested == 0 && from + c.frame_step_requested >= p.len ==> to
                == p.len - 1
        }),
{
}

/// A playback that runs goes on frame by frame and waits as long as a frame lasts; one that is held
/// stays and waits its own time.
pub proof fn law_playback_goes_on_while_it_runs(p: Playback)
    requires
        p.wf(),
    ensures
        p.index + 1 < p.len ==> p.advanced(true).index == p.index + 1,
        p.index + 1 == p.len ==> p.advanced(true).index == p.index,
        p.advanced(true).len == p.len,
        p.advanced(false) == p,
        pause_of(true) is Frame,
        pause_of(false) is Held,
{
}

/// A playback that is to start over goes to its first frame with a score of nil, and the wish is then
/// gone; without such a wish neither the frame nor the score changes.
pub proof fn law_playback_starts_over_on_request(p: Playback, m: ViewerModel)
    ensures
        ({
            let c = m.client.control;
            let next = viewer_restarted(m);
            &&& c.enabled && c.restart_requested ==> p.restarted(c).index == 0
            &&& c.enabled && c.restart_requested ==> next.score().blue == 0 && next.score().yellow
                == 0
            &&& !c.restart_requested ==> p.restarted(c) == p && next.goals == m.goals
            &&& p.restarted(c).len == p.len
            &&& !next.client.control.restart_requested
            &&& next.client.control.running == c.running
            &&& next.client.selected_worlds == m.client.selected_worlds
            &&& next.debug == m.debug
        }),
{
}

/// The value of a key is what follows it on the first line that begins with it, without the space
/// around it; a key that begins no line has no value.
pub proof fn law_details_are_found_by_their_key(lines: Seq<Seq<char>>, key: Seq<char>)
    ensures
        match detail_in(lines, key) {
            Some(value) => exists|i: int| #[trigger]
                is_line_of(lines, i, key) && value == text::trimmed(
                    (text::split_once(lines[i], ' ')->0).1,
                ) && forall|j: int| 0 <= j < i ==> !#[trigger] is_line_of(lines, j, key),
            None => forall|i: int| !#[trigger] is_line_of(lines, i, key),
        },
    decreases lines.len(),
{
    if lines.len() > 0 {
        let rest = lines.drop_first();
        if is_line_of(lines, 0, key) {
            assert(detail_in(lines, key) == Some(
                text::trimmed((text::split_once(lines[0], ' ')->0).1),
            ));
        } else {
            law_details_are_found_by_their_key(rest, key);
            assert(detail_in(lines, key) == detail_in(rest, key));
            assert forall|i: int| is_line_of(lines, i, key) implies #[trigger] is_line_of(
                rest,
                i - 1,
                key,
            ) by {
                if i > 0 {
                    assert(lines[i] == rest[i - 1]);
                }
            }
            match detail_in(rest, key) {
                Some(value) => {
                    let i = choose|i: int| #[trigger]
                        is_line_of(rest, i, key) && value == text::trimmed(
                            (text::split_once(rest[i], ' ')->0).1,
                        ) && forall|j: int| 0 <= j < i ==> !#[trigger] is_line_of(rest, j, key);
                    assert(lines[i + 1] == rest[i]);
                    assert(is_line_of(lines, i + 1, key));
                    assert forall|j: int| 0 <= j < i + 1 implies !#[trigger] is_line_of(
                        lines,
                        j,
                        key,
                    ) by {
                        if is_line_of(lines, j, key) {
                            assert(is_line_of(rest, j - 1, key));
                        }
                    }
                },
                None => {
                    assert forall|i: int| !#[trigger] is_line_of(lines, i, key) by {
                        if is_line_of(lines, i, key) {
                            assert(is_line_of(rest, i - 1, key));
                        }
                    }
                },
            }
        }
    }
}

/// Whether line `i` begins with `key` and a space.
pub open spec fn is_line_of(lines: Seq<Seq<char>>, i: int, key: Seq<char>) -> bool {
    &&& 0 <= i < lines.len()
    &&& text::split_once(lines[i], ' ') is Some
    &&& (text::split_once(lines[i], ' ')->0).0 == key
}

/// Whether an event is one of the referee's, at a frame no later than `frame_index`.
pub open spec fn is_referee_until(events: Seq<ReplayEvent>, i: int, frame_index: usize) -> bool {
    &&& 0 <= i < events.len()
    &&& events[i].kind is Referee
    &&& events[i].frame as usize <= frame_index
}

/// The game state of a frame is told by the last referee event that is no later; where there is none,
/// nothing is told.
pub proof fn law_the_last_referee_event_tells(events: Seq<ReplayEvent>, frame_index: usize)
    ensures
        match referee_event(events, frame_index) {
            Some(e) => exists|i: int| #[trigger]
                is_referee_until(events, i, frame_index) && e == events[i] && forall|j: int|
                    i < j ==> !#[trigger] is_referee_until(events, j, frame_index),
            None => forall|i: int| !#[trigger] is_referee_until(events, i, frame_index),
        },
    decreases events.len(),
{
    if events.len() > 0 {
        let n = events.len() - 1;
        let short = events.drop_last();
        if is_referee_until(events, n, frame_index) {
            assert(referee_event(events, frame_index) == Some(events[n]));
        } else {
            law_the_last_referee_event_tells(short, frame_index);
            assert forall|i: int| is_referee_until(events, i, frame_index) implies #[trigger]
            is_referee_until(short, i, frame_index) by {}
            match referee_event(short, frame_index) {
                Some(e) => {
                    let i = choose|i: int| #[trigger]
                        is_referee_until(short, i, frame_index) && e == short[i] && forall|j: int|
                            i < j ==> !#[trigger] is_referee_until(short, j, frame_index);
                    assert(is_referee_until(events, i, frame_index));
                    assert forall|j: int| i < j implies !#[trigger] is_referee_until(
                        events,
                        j,
                        frame_index,
                    ) by {
                        if is_referee_until(events, j, frame_index) {
                            assert(is_referee_until(short, j, frame_index));
                        }
                    }
                },
                None => {
                    assert forall|i: int| !#[trigger] is_referee_until(events, i, frame_index) by {
                        if is_referee_until(events, i, frame_index) {
                            assert(is_referee_until(short, i, frame_index));
                        }
                    }
                },
            }
        }
    }
}

/// A referee event's label is the command; its details tell the counter, the stage and the teams'
/// names, each behind its key. A counter that is not told, or is no number, is the event's frame, and
/// an empty name is none.
pub proof fn law_referee_events_tell_the_game_state(
    info: GameStateInfo,
    event: ReplayEvent,
    details: String,
)
    requires
        is_told_by(info, event),
        event.details == Some(details),
    ensures
        info.command == event.label,
        info.stage is Some == detail(details@, "stage"@) is Some,
        info.stage is Some ==> info.stage->0@ == detail(details@, "stage"@)->0,
        info.blue_name is Some ==> detail(details@, "blue"@) == Some(info.blue_name->0@)
            && info.blue_name->0@.len() > 0,
        info.yellow_name is Some ==> detail(details@, "yellow"@) == Some(info.yellow_name->0@)
            && info.yellow_name->0@.len() > 0,
        detail(details@, "blue"@) is Some && detail(details@, "blue"@)->0.len() > 0
            ==> info.blue_name is Some,
        detail(details@, "yellow"@) is Some && detail(details@, "yellow"@)->0.len() > 0
            ==> info.yellow_name is Some,
        detail(details@, "counter"@) is None && event.frame <= u32::MAX ==> info.command_counter
            == event.frame,
        forall|n: u32|
            detail(details@, "counter"@) == Some(#[trigger] text::decimal(n as nat))
                ==> info.command_counter == n,
{
    assert forall|n: u32|
        detail(details@, "counter"@) == Some(#[trigger] text::decimal(n as nat)) implies info.command_counter
        == n by {
        text::law_decimal_round_trip(n as nat, u32::MAX as nat);
    }
}

/// An event without details tells its label and its frame alone.
pub proof fn law_events_without_details(info: GameStateInfo, event: ReplayEvent)
    requires
        is_told_by(info, event),
        event.details is None,
        event.frame <= u32::MAX,
    ensures
        info.command == event.label,
        info.command_counter == event.frame,
        info.stage is None && info.blue_name is None && info.yellow_name is None,
{
    let none = Seq::<char>::empty();
    assert(text::lines(none).len() == 0);
}

/// A path alone is served at the viewer's own port from the trackers' packets. A port may stand before
/// it or after it, and so may the wish for the raw vision packets.
pub proof fn law_what_is_served(path: Seq<char>, port: u16)
    requires
        !text::starts_with(path, "--"@),
    ensures
        serve_options(seq![path], 0, ServeModel::initial()) == Ok::<_, ServeRefusal>(
            (ServeModel {
                path: Some(path),
                viewer_port: 8315,
                vision_source: VisionLogSource::Tracker2020,
            }),
        ),
        serve_options(
            seq!["--viewer-port"@, text::decimal(port as nat), path],
            0,
            ServeModel::initial(),
        ) == Ok::<_, ServeRefusal>(
            (ServeModel {
                path: Some(path),
                viewer_port: port,
                vision_source: VisionLogSource::Tracker2020,
            }),
        ),
        serve_options(
            seq![path, "--viewer-port"@, text::decimal(port as nat)],
            0,
            ServeModel::initial(),
        ) == Ok::<_, ServeRefusal>(
            (ServeModel {
                path: Some(path),
                viewer_port: port,
                vision_source: VisionLogSource::Tracker2020,
            }),
        ),
        serve_options(seq!["--vision2014"@, path], 0, ServeModel::initial()) == Ok::<
            _,
            ServeRefusal,
        >(
            (ServeModel {
                path: Some(path),
                viewer_port: 8315,
                vision_source: VisionLogSource::Vision2014,
            }),
        ),
        serve_options(seq![path, "--raw-vision"@], 0, ServeModel::initial()) == Ok::<
            _,
            ServeRefusal,
        >(
            (ServeModel {
                path: Some(path),
                viewer_port: 8315,
                vision_source: VisionLogSource::Vision2014,
            }),
        ),
{
    reveal_strlit("--");
    reveal_strlit("--viewer-port");
    reveal_strlit("--vision2014");
    reveal_strlit("--raw-vision");
    assert("--viewer-port"@.take(2) =~= "--"@);
    assert("--vision2014"@.take(2) =~= "--"@);
    assert("--raw-vision"@.take(2) =~= "--"@);
    assert("--viewer-port"@[2] == 'v' && "--viewer-port"@[4] == 'e');
    assert("--vision2014"@[2] == 'v' && "--vision2014"@[4] == 's');
    assert("--raw-vision"@[2] == 'r');
    text::law_decimal_round_trip(port as nat, u16::MAX as nat);
    reveal_with_fuel(serve_options, 5);
}

/// What cannot be served is refused: no path, two paths, an option that there is not, a port that is
/// not told or that no port can have.
pub proof fn law_what_is_refused(path: Seq<char>, other: Seq<char>, option: Seq<char>)
    requires
        !text::starts_with(path, "--"@),
        !text::starts_with(other, "--"@),
        text::starts_with(option, "--"@),
        option != "--viewer-port"@ && option != "--vision2014"@ && option != "--raw-vision"@,
    ensures
        serve_options(Seq::empty(), 0, ServeModel::initial()) == Err::<ServeModel, _>(
            ServeRefusal::MissingPath,
        ),
        serve_options(seq![path, other], 0, ServeModel::initial()) == Err::<ServeModel, _>(
            ServeRefusal::ExtraPath(other),
        ),
        serve_options(seq![path, option], 0, ServeModel::initial()) == Err::<ServeModel, _>(
            ServeRefusal::UnknownOption(option),
        ),
        serve_options(seq![path, "--viewer-port"@], 0, ServeModel::initial()) == Err::<
            ServeModel,
            _,
        >(ServeRefusal::MissingPort),
        text::unsigned_number(other, 65535) is None ==> serve_options(
            seq![path, "--viewer-port"@, other],
            0,
            ServeModel::initial(),
        ) == Err::<ServeModel, _>(ServeRefusal::BadPort(other)),
{
    let m = ServeModel { path: Some(path), ..ServeModel::initial() };
    let two = seq![path, other];
    lemma_a_path_is_read(two);
    assert(serve_options(two, 1, m) == Err::<ServeModel, _>(ServeRefusal::ExtraPath(other))) by {
        lemma_options_are_no_paths(other);
    }
    let unknown = seq![path, option];
    lemma_a_path_is_read(unknown);
    assert(serve_options(unknown, 1, m) == Err::<ServeModel, _>(
        ServeRefusal::UnknownOption(option),
    ));
    let short = seq![path, "--viewer-port"@];
    lemma_a_path_is_read(short);
    assert(serve_options(short, 1, m) == Err::<ServeModel, _>(ServeRefusal::MissingPort));
    let bad = seq![path, "--viewer-port"@, other];
    lemma_a_path_is_read(bad);
    if text::unsigned_number(other, 65535) is None {
        assert(bad[1] == "--viewer-port"@ && bad[2] == other);
        assert(serve_options(bad, 1, m) == Err::<ServeModel, _>(ServeRefusal::BadPort(other)));
    }
}

proof fn lemma_options_are_no_paths(path: Seq<char>)
    requires
        !text::starts_with(path, "--"@),
    ensures
        path != "--viewer-port"@ && path != "--vision2014"@ && path != "--raw-vision"@,
{
    reveal_strlit("--");
    reveal_strlit("--viewer-port");
    reveal_strlit("--vision2014");
    reveal_strlit("--raw-vision");
    assert("--viewer-port"@.take(2) =~= "--"@);
    assert("--vision2014"@.take(2) =~= "--"@);
    assert("--raw-vision"@.take(2) =~= "--"@);
}

proof fn lemma_a_path_is_read(args: Seq<Seq<char>>)
    requires
        args.len() > 0,
        !text::starts_with(args[0], "--"@),
    ensures
        serve_options(args, 0, ServeModel::initial()) == serve_options(
            args,
            1,
            ServeModel { path: Some(args[0]), ..ServeModel::initial() },
        ),
{
    lemma_options_are_no_paths(args[0]);
}

/// A demonstration goes to the path that is named first, of as many worlds as the second argument says
/// and for as many steps as the third; what is not said is one world and 1200 steps.
pub proof fn law_demonstrations_are_as_asked(
    o: DemoOptions,
    path: Seq<char>,
    worlds: usize,
    steps: usize,
)
    ensures
        is_demo_of(o, seq![path, text::decimal(worlds as nat), text::decimal(steps as nat)])
            ==> o.path@ == path && o.worlds == worlds && o.steps == steps,
        is_demo_of(o, seq![path, text::decimal(worlds as nat)]) ==> o.path@ == path && o.worlds
            == worlds && o.steps == 1200,
        is_demo_of(o, seq![path]) ==> o.path@ == path && o.worlds == 1 && o.steps == 1200,
        is_demo_of(o, Seq::empty()) ==> o.path@ == "recordings/demo.shreplay"@ && o.worlds == 1
            && o.steps == 1200,
{
    text::law_decimal_round_trip(worlds as nat, usize::MAX as nat);
    text::law_decimal_round_trip(steps as nat, usize::MAX as nat);
}

/// A file is a replay of our own where its name ends in `.shreplay`.
pub proof fn law_replays_are_told_by_their_extension(stem: Seq<char>, extension: Seq<char>)
    requires
        stem.len() > 0,
        !stem.contains('/'),
        stem[0] != '.',
        !extension.contains('/'),
        !extension.contains('.'),
    ensures
        is_replay(stem + seq!['.'] + extension) == (extension == "shreplay"@),
{
    let name = stem + seq!['.'] + extension;
    assert(!name.contains('/')) by {
        if name.contains('/') {
            let i = choose|i: int| 0 <= i < name.len() && name[i] == '/';
            if i < stem.len() {
                assert(stem[i] == '/');
            } else if i > stem.len() {
                assert(extension[i - stem.len() - 1] == '/');
            }
        }
    }
    names::law_last_names(stem, name);
    names::law_stems_and_extensions(stem, extension);
}

/// Every refusal is told in words, with what it refuses; what is wrong with a port is not.
pub proof fn law_refusals_are_told(s: String)
    ensures
        ServeError::MissingPort.message_spec() == Some("missing value for --viewer-port"@),
        ServeError::MissingPath.message_spec() == Some("missing replay/log path"@),
        ServeError::UnknownOption(s).message_spec() == Some("unknown serve option "@ + s@),
        ServeError::ExtraPath(s).message_spec() == Some("unexpected extra replay/log path "@ + s@),
        ServeError::BadPort(s).message_spec() is None,
        ServeError::UnknownOption(s)@ == ServeRefusal::UnknownOption(s@),
        ServeError::ExtraPath(s)@ == ServeRefusal::ExtraPath(s@),
        ServeError::BadPort(s)@ == ServeRefusal::BadPort(s@),
        ServeError::MissingPort@ is MissingPort,
        ServeError::MissingPath@ is MissingPath,
{
}

} // verus!
