//! A browser's session with the viewer: the page it gets, and the socket over which frames go out
//! and messages come in.

use vstd::prelude::*;
use crate::text;
use crate::text::{chars_of, concat_text, decimal_text, same_text, split_text_once, string_between};

verus! {

// ---------------------------------------------------------------------------
// The page

/// The path in a URL: what comes before a question mark.
pub open spec fn path_of(url: Seq<char>) -> Seq<char> {
    match text::split_once(url, '?') {
        Some((path, _)) => path,
        None => url,
    }
}

/// The paths that the page is served under.
pub open spec fn is_page(path: Seq<char>) -> bool {
    path == "/"@ || path == "/index.html"@ || path == "/debug"@ || path == "/debug-big"@ || path
        == "/dev"@
}

pub open spec fn gets_page(is_get: bool, url: Seq<char>) -> bool {
    is_get && is_page(path_of(url))
}

/// Whether a request gets the page; it is not found otherwise.
pub fn serves_page(is_get: bool, url: &str) -> (r: bool)
    ensures
        r == gets_page(is_get, url@),
{
    let path = match split_text_once(url, '?') {
        Some((path, _)) => path,
        None => url.to_owned(),
    };
    let p = path.as_str();
    is_get && (same_text(p, "/") || same_text(p, "/index.html") || same_text(p, "/debug")
        || same_text(p, "/debug-big") || same_text(p, "/dev"))
}

/// The place of the first `p` in `s`; -1 where there is none.
pub open spec fn place_of(s: Seq<char>, p: Seq<char>) -> int
    decreases s.len(),
{
    if text::starts_with(s, p) {
        0
    } else if s.len() == 0 {
        -1
    } else {
        let rest = place_of(s.skip(1), p);
        if rest < 0 {
            -1
        } else {
            rest + 1
        }
    }
}

/// What tells the page the socket's port.
pub open spec fn port_script(ws_port: u16) -> Seq<char> {
    "<script>window.__SIMHARK_WS_PORT__="@ + text::decimal(ws_port as nat) + ";</script>"@
}

/// The page, with the script before the end of its head; before everything where it has no head.
pub open spec fn page_with_port(page: Seq<char>, ws_port: u16) -> Seq<char> {
    let at = place_of(page, "</head>"@);
    if at >= 0 {
        page.take(at) + port_script(ws_port) + page.skip(at)
    } else {
        port_script(ws_port) + page
    }
}

fn find_text(v: &Vec<char>, p: &Vec<char>) -> (r: Option<usize>)
    ensures
        match r {
            Some(i) => i as int == place_of(v@, p@) && i <= v@.len(),
            None => place_of(v@, p@) < 0,
        },
{
    let mut i: usize = 0;
    assert(v@.skip(0) =~= v@);
    loop
        invariant
            i <= v@.len(),
            place_of(v@, p@) < 0 <==> place_of(v@.skip(i as int), p@) < 0,
            place_of(v@.skip(i as int), p@) >= 0 ==> place_of(v@, p@) == i + place_of(
                v@.skip(i as int),
                p@,
            ),
        decreases v@.len() - i,
    {
        if crate::names::matches_at(v, i, p) {
            return Some(i);
        }
        if i >= v.len() {
            return None;
        }
        assert(v@.skip(i as int).skip(1) =~= v@.skip(i + 1));
        i += 1;
    }
}

/// The page for a browser, told the socket's port.
pub fn render_index(page: &str, ws_port: u16) -> (r: String)
    ensures
        r@ == page_with_port(page@, ws_port),
{
    let number = decimal_text(ws_port as u64);
    let script = concat_text("<script>window.__SIMHARK_WS_PORT__=", number.as_str());
    let script = concat_text(script.as_str(), ";</script>");
    let v = chars_of(page);
    let p = chars_of("</head>");
    match find_text(&v, &p) {
        Some(at) => {
            let head = string_between(v.as_slice(), 0, at);
            let tail = string_between(v.as_slice(), at, v.len());
            assert(head@ =~= page@.take(at as int));
            assert(tail@ =~= page@.skip(at as int));
            let start = concat_text(head.as_str(), script.as_str());
            concat_text(start.as_str(), tail.as_str())
        },
        None => concat_text(script.as_str(), page),
    }
}

// ---------------------------------------------------------------------------
// The socket

/// What reading from a browser's socket gave.
#[derive(Debug, Clone, Copy, PartialEq, Eq, Structural)]
pub enum SocketEvent {
    Text,
    Close,
    /// A message that is neither text nor the end.
    Other,
    /// Nothing is there right now.
    Quiet,
    /// The socket is gone, or failed.
    Broken,
}

/// What to do about it.
#[derive(Debug, Clone, Copy, PartialEq, Eq, Structural)]
pub enum SocketStep {
    /// Apply the message, and read on.
    Apply,
    ReadOn,
    /// Send what is new.
    Send,
    HangUp,
}

pub open spec fn step_after(event: SocketEvent) -> SocketStep {
    match event {
        SocketEvent::Text => SocketStep::Apply,
        SocketEvent::Other => SocketStep::ReadOn,
        SocketEvent::Quiet => SocketStep::Send,
        SocketEvent::Close | SocketEvent::Broken => SocketStep::HangUp,
    }
}

/// Messages are read until none is there; then what is new goes out.
pub fn socket_step(event: SocketEvent) -> (r: SocketStep)
    ensures
        r == step_after(event),
{
    match event {
        SocketEvent::Text => SocketStep::Apply,
        SocketEvent::Other => SocketStep::ReadOn,
        SocketEvent::Quiet => SocketStep::Send,
        SocketEvent::Close | SocketEvent::Broken => SocketStep::HangUp,
    }
}

/// What a browser has been sent last.
pub struct Outbox {
    pub last_sent: String,
}

/// The latest frame, unless it is the one that was sent last.
pub open spec fn unsent(last_sent: Seq<char>, latest: Option<String>) -> Option<String> {
    match latest {
        Some(frame) => if frame@ != last_sent {
            Some(frame)
        } else {
            None
        },
        None => None,
    }
}

/// A frame that went out is not sent again until there is another.
pub proof fn law_frames_are_sent_once(frame: String, other: String)
    requires
        other@ != frame@,
    ensures
        unsent(frame@, Some(frame)) is None,
        unsent(frame@, Some(other)) == Some(other),
{
}

impl Outbox {
    pub fn new() -> (r: Outbox)
        ensures
            r.last_sent@.len() == 0,
    {
        Outbox { last_sent: String::new() }
    }

    /// The frame to send, if there is one that the browser does not have.
    pub fn to_send(&self, latest: &Option<String>) -> (r: Option<String>)
        ensures
            r == unsent(self.last_sent@, *latest),
    {
        match latest {
            Some(frame) => if same_text(frame.as_str(), self.last_sent.as_str()) {
                None
            } else {
                Some(frame.clone())
            },
            None => None,
        }
    }

    /// Takes note of a frame that went out.
    pub fn sent(&mut self, frame: String)
        ensures
            final(self).last_sent == frame,
    {
        self.last_sent = frame;
    }
}

// ---------------------------------------------------------------------------
// Laws

/// The page is given to those who get one of its five paths, whatever stands behind a question mark,
/// and to no one else.
pub proof fn law_who_gets_the_page(path: Seq<char>, query: Seq<char>)
    requires
        !path.contains('?'),
    ensures
        !gets_page(false, path),
        gets_page(true, path + seq!['?'] + query) == gets_page(true, path),
        gets_page(true, path) <==> path == "/"@ || path == "/index.html"@ || path == "/debug"@
            || path == "/debug-big"@ || path == "/dev"@,
{
    text::law_cutting_once(path, '?', query);
}

/// A text's place in another is where it first stands there: no earlier place has it, and where it has
/// no place it stands nowhere.
pub proof fn law_the_first_place(s: Seq<char>, p: Seq<char>)
    ensures
        place_of(s, p) >= 0 ==> place_of(s, p) <= s.len() && text::starts_with(
            s.skip(place_of(s, p)),
            p,
        ),
        forall|i: int|
            0 <= i <= s.len() && (place_of(s, p) < 0 || i < place_of(s, p)) ==> !text::starts_with(
                #[trigger] s.skip(i),
                p,
            ),
    decreases s.len(),
{
    assert(s.skip(0) =~= s);
    if !text::starts_with(s, p) && s.len() > 0 {
        let rest = s.skip(1);
        law_the_first_place(rest, p);
        let at = place_of(rest, p);
        if at >= 0 {
            assert(s.skip(at + 1) =~= rest.skip(at));
        }
        assert forall|i: int|
            0 <= i <= s.len() && (place_of(s, p) < 0 || i < place_of(s, p)) implies !text::starts_with(
            #[trigger] s.skip(i),
            p,
        ) by {
            if i > 0 {
                assert(s.skip(i) =~= rest.skip(i - 1));
            }
        }
    }
}

/// The page is all there, with the script that tells the port put before the end of its head, or before
/// everything where it has none.
pub proof fn law_the_page_is_told_the_port(head: Seq<char>, rest: Seq<char>, page: Seq<char>, port: u16)
    ensures
        ({
            let script = "<script>window.__SIMHARK_WS_PORT__="@ + text::decimal(port as nat)
                + ";</script>"@;
            let at = place_of(page, "</head>"@);
            &&& at < 0 ==> page_with_port(page, port) == script + page
            &&& at >= 0 ==> page_with_port(page, port) == page.take(at) + script + page.skip(at)
            &&& at >= 0 ==> text::starts_with(page.skip(at), "</head>"@)
            &&& page_with_port(page, port).len() == page.len() + script.len()
        }),
{
    law_the_first_place(page, "</head>"@);
}

/// Messages are applied as they come, other frames are passed over, what is new is sent once none is
/// there, and a socket that closes or breaks is given up.
pub proof fn law_sockets(event: SocketEvent)
    ensures
        event is Text <==> step_after(event) is Apply,
        event is Other <==> step_after(event) is ReadOn,
        event is Quiet <==> step_after(event) is Send,
        event is Close || event is Broken <==> step_after(event) is HangUp,
{
}

} // verus!
