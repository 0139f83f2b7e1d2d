//! Run control: what the browser may ask of the simulation loop, and how the loop takes it.

use vstd::prelude::*;
use vstd::arithmetic::power2::{lemma2_to64_rest, pow2};
use crate::number::{law_clamped_within, Double};

verus! {

/// The slowest speed that can be asked for: a twentieth of the plain one.
pub const SLOWEST_BITS: u64 = 0x3fa9_9999_9999_999a;

/// The fastest speed that can be asked for: four times the plain one.
pub const FASTEST_BITS: u64 = 0x4010_0000_0000_0000;

/// The speed that a wish for `multiplier` comes to.
pub open spec fn allowed(multiplier: Double) -> Double {
    multiplier.clamped(Double { bits: SLOWEST_BITS }, Double { bits: FASTEST_BITS })
}

/// The speed that a wish for `multiplier` comes to: the wish, held between the slowest and the
/// fastest speed.
pub fn allowed_speed(multiplier: Double) -> (r: Double)
    ensures
        r == allowed(multiplier),
{
    multiplier.clamp(Double { bits: SLOWEST_BITS }, Double { bits: FASTEST_BITS })
}

/// The speed in whole percent that a wish for `multiplier` comes to: a hundred times the allowed
/// speed, as the machine multiplies, rounded to a whole number, halves up. What is no number counts
/// as none.
pub open spec fn percent_of(multiplier: Double) -> usize {
    if multiplier.is_nan_spec() {
        0
    } else {
        let speed = allowed(multiplier);
        whole(machine_product(100 * significand(speed)), exponent(speed)) as usize
    }
}

/// `n / unit` to the nearest whole number, halves to the even one.
#[verifier::inline]
pub open spec fn half_even(n: int, unit: int) -> int {
    let below = n / unit;
    let rest = n % unit;
    if 2 * rest < unit || (2 * rest == unit && below % 2 == 0) {
        below
    } else {
        below + 1
    }
}

/// `n / unit` to the nearest whole number, halves up.
#[verifier::inline]
pub open spec fn half_up(n: int, unit: int) -> int {
    (n + unit / 2) / unit
}

/// `n`, of 59 or 60 binary digits, as a double-precision number holds it: to 53 digits.
pub open spec fn machine_product(n: int) -> int {
    if n < 0x800_0000_0000_0000 {
        half_even(n, 64) * 64
    } else {
        half_even(n, 128) * 128
    }
}

/// The digits of a positive normal number.
pub open spec fn significand(d: Double) -> int {
    0x10_0000_0000_0000 + d.bits as int % 0x10_0000_0000_0000
}

/// The exponent of a positive number, as it is written in its bits.
pub open spec fn exponent(d: Double) -> int {
    d.bits as int / 0x10_0000_0000_0000
}

/// The whole number nearest to one that has these digits and is as large as the exponent says:
/// between a thirty-second and four.
pub open spec fn whole(digits: int, e: int) -> int {
    if e <= 1018 {
        half_up(digits, 0x200_0000_0000_0000)
    } else if e == 1019 {
        half_up(digits, 0x100_0000_0000_0000)
    } else if e == 1020 {
        half_up(digits, 0x80_0000_0000_0000)
    } else if e == 1021 {
        half_up(digits, 0x40_0000_0000_0000)
    } else if e == 1022 {
        half_up(digits, 0x20_0000_0000_0000)
    } else if e == 1023 {
        half_up(digits, 0x10_0000_0000_0000)
    } else if e == 1024 {
        half_up(digits, 0x8_0000_0000_0000)
    } else {
        half_up(digits, 0x4_0000_0000_0000)
    }
}

/// The speed in whole percent that a wish for `multiplier` comes to.
pub fn speed_percent(multiplier: Double) -> (r: usize)
    ensures
        r == percent_of(multiplier),
{
    if multiplier.is_nan() {
        return 0;
    }
    let speed = allowed_speed(multiplier);
    let digits: u64 = 0x10_0000_0000_0000 + speed.bits % 0x10_0000_0000_0000;
    let e: u64 = speed.bits / 0x10_0000_0000_0000;
    let n: u64 = 100 * digits;
    let unit: u64 = if n < 0x800_0000_0000_0000 {
        64
    } else {
        128
    };
    let below: u64 = n / unit;
    let rest: u64 = n % unit;
    let nearest: u64 = if 2 * rest < unit || (2 * rest == unit && below % 2 == 0) {
        below
    } else {
        below + 1
    };
    let product: u64 = nearest * unit;
    let r: u64 = if e <= 1018 {
        (product + 0x100_0000_0000_0000) / 0x200_0000_0000_0000
    } else if e == 1019 {
        (product + 0x80_0000_0000_0000) / 0x100_0000_0000_0000
    } else if e == 1020 {
        (product + 0x40_0000_0000_0000) / 0x80_0000_0000_0000
    } else if e == 1021 {
        (product + 0x20_0000_0000_0000) / 0x40_0000_0000_0000
    } else if e == 1022 {
        (product + 0x10_0000_0000_0000) / 0x20_0000_0000_0000
    } else if e == 1023 {
        (product + 0x8_0000_0000_0000) / 0x10_0000_0000_0000
    } else if e == 1024 {
        (product + 0x4_0000_0000_0000) / 0x8_0000_0000_0000
    } else {
        (product + 0x2_0000_0000_0000) / 0x4_0000_0000_0000
    };
    r as usize
}

/// A speed that was asked for lies between the slowest and the fastest one.
pub proof fn law_speeds_are_in_bounds(multiplier: Double)
    requires
        !multiplier.is_nan_spec(),
    ensures
        5 <= percent_of(multiplier) <= 400,
{
    let slowest = Double { bits: SLOWEST_BITS };
    let fastest = Double { bits: FASTEST_BITS };
    let speed = multiplier.clamped(slowest, fastest);
    law_clamped_within(multiplier, slowest, fastest);
    let e = exponent(speed);
    let n = 100 * significand(speed);
    assert(SLOWEST_BITS <= speed.bits <= FASTEST_BITS);
    assert(1018 <= e <= 1025);
    let mp = machine_product(n);
    assert(n - 64 <= mp <= n + 64);
    if e == 1018 {
        assert(n >= 100 * 0x19_9999_9999_999a);
    } else if e == 1025 {
        assert(speed.bits == FASTEST_BITS);
    }
    assert(5 <= whole(mp, e) <= 400);
}

/// How far one step request may go.
pub const STEP_LIMIT: i64 = 10_000;

/// How far one skip request may go.
pub const SKIP_LIMIT: i64 = 100_000;

/// The run state that an application shares with the browser once it has opted in to web control.
#[derive(Debug, Clone, Copy, PartialEq, Eq, Structural)]
pub struct WebControlState {
    pub enabled: bool,
    pub running: bool,
    pub restart_requested: bool,
    pub stop_requested: bool,
    pub speed_percent: usize,
    pub frame_step_requested: isize,
    pub frame_skip_requested: isize,
    /// The frame to go to, or -1 where none was asked for.
    pub frame_seek_requested: isize,
}

/// `n` held between `-limit` and `limit`.
pub open spec fn within(n: int, limit: int) -> int {
    if n < -limit {
        -limit
    } else if n > limit {
        limit
    } else {
        n
    }
}

/// `a + b`, going round at the ends of `isize` as the machine's addition does.
pub open spec fn wrapping_sum(a: isize, b: int) -> int {
    let sum = a + b;
    if sum > isize::MAX {
        sum - (isize::MAX - isize::MIN + 1)
    } else if sum < isize::MIN {
        sum + (isize::MAX - isize::MIN + 1)
    } else {
        sum
    }
}

pub fn clamp_frames(n: i64, limit: i64) -> (r: isize)
    requires
        0 <= limit <= SKIP_LIMIT,
    ensures
        r as int == within(n as int, limit as int),
{
    if n < -limit {
        (-limit) as isize
    } else if n > limit {
        limit as isize
    } else {
        n as isize
    }
}

impl WebControlState {
    /// Before any opting in: the simulator counts as always running, at its plain speed.
    pub open spec fn initial() -> WebControlState {
        WebControlState {
            enabled: false,
            running: true,
            restart_requested: false,
            stop_requested: false,
            speed_percent: 100,
            frame_step_requested: 0,
            frame_skip_requested: 0,
            frame_seek_requested: (-1) as isize,
        }
    }

    pub fn new() -> (c: WebControlState)
        ensures
            c == WebControlState::initial(),
    {
        WebControlState {
            enabled: false,
            running: true,
            restart_requested: false,
            stop_requested: false,
            speed_percent: 100,
            frame_step_requested: 0,
            frame_skip_requested: 0,
            frame_seek_requested: -1,
        }
    }

    pub open spec fn opted_in(self, running: bool) -> WebControlState {
        WebControlState {
            enabled: true,
            running,
            restart_requested: false,
            stop_requested: false,
            speed_percent: 100,
            ..self
        }
    }

    /// Opts in to web control; pending restart and stop requests are dropped and the speed is
    /// plain again.
    pub fn enable(&mut self, running: bool)
        ensures
            *final(self) == old(self).opted_in(running),
    {
        self.enabled = true;
        self.running = running;
        self.restart_requested = false;
        self.stop_requested = false;
        self.speed_percent = 100;
    }

    pub open spec fn started(self) -> WebControlState {
        WebControlState { running: true, ..self }
    }

    pub fn start(&mut self)
        ensures
            *final(self) == old(self).started(),
    {
        self.running = true;
    }

    pub open spec fn paused(self) -> WebControlState {
        WebControlState { running: false, ..self }
    }

    pub fn pause(&mut self)
        ensures
            *final(self) == old(self).paused(),
    {
        self.running = false;
    }

    pub open spec fn stopped(self) -> WebControlState {
        WebControlState { stop_requested: true, running: false, ..self }
    }

    pub fn stop(&mut self)
        ensures
            *final(self) == old(self).stopped(),
    {
        self.stop_requested = true;
        self.running = false;
    }

    pub open spec fn restarted(self) -> WebControlState {
        WebControlState { restart_requested: true, running: true, ..self }
    }

    pub fn restart(&mut self)
        ensures
            *final(self) == old(self).restarted(),
    {
        self.restart_requested = true;
        self.running = true;
    }

    pub open spec fn stepped(self, frames: int) -> WebControlState {
        WebControlState {
            frame_step_requested: wrapping_sum(
                self.frame_step_requested,
                within(frames, STEP_LIMIT as int),
            ) as isize,
            running: false,
            ..self
        }
    }

    /// Asks for `frames` more frames to be stepped through, and pauses.
    pub fn step(&mut self, frames: i64)
        ensures
            *final(self) == old(self).stepped(frames as int),
    {
        let delta: isize = clamp_frames(frames, STEP_LIMIT);
        self.frame_step_requested = self.frame_step_requested.wrapping_add(delta);
        self.running = false;
    }

    pub open spec fn skipped(self, frames: int) -> WebControlState {
        WebControlState {
            frame_skip_requested: wrapping_sum(
                self.frame_skip_requested,
                within(frames, SKIP_LIMIT as int),
            ) as isize,
            ..self
        }
    }

    /// Asks for `frames` frames to be skipped.
    pub fn skip(&mut self, frames: i64)
        ensures
            *final(self) == old(self).skipped(frames as int),
    {
        let delta: isize = clamp_frames(frames, SKIP_LIMIT);
        self.frame_skip_requested = self.frame_skip_requested.wrapping_add(delta);
    }

    pub open spec fn sought(self, frame: isize) -> WebControlState {
        WebControlState { frame_seek_requested: frame, ..self }
    }

    pub fn seek(&mut self, frame: isize)
        ensures
            *final(self) == old(self).sought(frame),
    {
        self.frame_seek_requested = frame;
    }

    pub open spec fn sped(self, percent: usize) -> WebControlState {
        WebControlState { speed_percent: percent, ..self }
    }

    pub fn set_speed_percent(&mut self, percent: usize)
        ensures
            *final(self) == old(self).sped(percent),
    {
        self.speed_percent = percent;
    }

    /// Whether the simulator is to keep stepping; always where there was no opting in.
    pub open spec fn keeps_stepping(self) -> bool {
        !self.enabled || self.running
    }

    pub fn is_running(&self) -> (r: bool)
        ensures
            r == self.keeps_stepping(),
    {
        !self.enabled || self.running
    }

    /// Whether a restart is to be answered; never where there was no opting in.
    pub open spec fn wants_restart(self) -> bool {
        self.enabled && self.restart_requested
    }

    /// Once the requests for a restart were answered.
    pub open spec fn without_restart(self) -> WebControlState {
        WebControlState { restart_requested: false, ..self }
    }

    pub open spec fn without_stop(self) -> WebControlState {
        WebControlState { stop_requested: false, ..self }
    }

    pub open spec fn without_step(self) -> WebControlState {
        WebControlState { frame_step_requested: 0, ..self }
    }

    pub open spec fn without_skip(self) -> WebControlState {
        WebControlState { frame_skip_requested: 0, ..self }
    }

    pub open spec fn without_seek(self) -> WebControlState {
        WebControlState { frame_seek_requested: (-1) as isize, ..self }
    }

    /// True once after a restart was asked for.
    pub fn take_restart_request(&mut self) -> (r: bool)
        ensures
            r == old(self).wants_restart(),
            *final(self) == old(self).without_restart(),
    {
        let r = self.enabled && self.restart_requested;
        self.restart_requested = false;
        r
    }

    /// True once after a stop was asked for.
    pub fn take_stop_request(&mut self) -> (r: bool)
        ensures
            r == old(self).stop_requested,
            *final(self) == old(self).without_stop(),
    {
        let r = self.stop_requested;
        self.stop_requested = false;
        r
    }

    /// The frames to step through, asked for since the last call.
    pub fn take_frame_step_request(&mut self) -> (r: isize)
        ensures
            r == old(self).frame_step_requested,
            *final(self) == old(self).without_step(),
    {
        let r: isize = self.frame_step_requested;
        self.frame_step_requested = 0;
        r
    }

    /// The frames to skip, asked for since the last call.
    pub fn take_frame_skip_request(&mut self) -> (r: isize)
        ensures
            r == old(self).frame_skip_requested,
            *final(self) == old(self).without_skip(),
    {
        let r: isize = self.frame_skip_requested;
        self.frame_skip_requested = 0;
        r
    }

    pub open spec fn seek_request(self) -> Option<usize> {
        if self.frame_seek_requested >= 0 {
            Some(self.frame_seek_requested as usize)
        } else {
            None
        }
    }

    /// The frame to go to, where one was asked for since the last call.
    pub fn take_frame_seek_request(&mut self) -> (r: Option<usize>)
        ensures
            r == old(self).seek_request(),
            *final(self) == old(self).without_seek(),
    {
        let value: isize = self.frame_seek_requested;
        self.frame_seek_requested = -1;
        if value >= 0 {
            Some(value as usize)
        } else {
            None
        }
    }
}

/// Without opting in the simulator always keeps stepping and is never restarted, whatever the
/// browser asks for.
pub proof fn law_without_opting_in_nothing_stops(c: WebControlState)
    requires
        !c.enabled,
    ensures
        c.keeps_stepping(),
        c.paused().keeps_stepping(),
        c.stopped().keeps_stepping(),
        c.restarted().keeps_stepping(),
        c.stepped(1).keeps_stepping(),
        !c.restarted().wants_restart(),
{
}

/// Steps asked for one after the other add up, as long as their sum fits.
pub proof fn law_steps_add_up(c: WebControlState, a: int, b: int)
    requires
        -STEP_LIMIT <= a <= STEP_LIMIT,
        -STEP_LIMIT <= b <= STEP_LIMIT,
        isize::MIN <= c.frame_step_requested + a <= isize::MAX,
        isize::MIN <= c.frame_step_requested + a + b <= isize::MAX,
    ensures
        c.stepped(a).stepped(b).frame_step_requested == c.frame_step_requested + a + b,
{
}

/// The browser's wish to go to a frame is what the loop then takes.
pub proof fn law_seek_is_taken(c: WebControlState, frame: isize)
    requires
        frame >= 0,
    ensures
        c.sought(frame).seek_request() == Some(frame as usize),
{
}

/// Whether two run controls are the same but for running.
pub open spec fn same_but_running(a: WebControlState, b: WebControlState) -> bool {
    &&& a.enabled == b.enabled
    &&& a.speed_percent == b.speed_percent
    &&& a.frame_step_requested == b.frame_step_requested
    &&& a.frame_skip_requested == b.frame_skip_requested
    &&& a.frame_seek_requested == b.frame_seek_requested
}

/// Starting runs and pausing does not, and neither asks for anything else. Stopping asks for a stop
/// and does not run on; restarting asks for a restart and runs. Nothing else changes.
pub proof fn law_run_actions(c: WebControlState, running: bool)
    ensures
        c.started().running && same_but_running(c.started(), c),
        c.started().stop_requested == c.stop_requested,
        c.started().restart_requested == c.restart_requested,
        !c.paused().running && same_but_running(c.paused(), c),
        c.paused().stop_requested == c.stop_requested,
        c.paused().restart_requested == c.restart_requested,
        c.stopped().stop_requested && !c.stopped().running && same_but_running(c.stopped(), c),
        c.stopped().restart_requested == c.restart_requested,
        c.restarted().restart_requested && c.restarted().running && same_but_running(
            c.restarted(),
            c,
        ),
        c.restarted().stop_requested == c.stop_requested,
        ({
            let o = c.opted_in(running);
            &&& o.enabled && o.running == running
            &&& !o.restart_requested && !o.stop_requested
            &&& o.speed_percent == 100
            &&& o.frame_step_requested == c.frame_step_requested
            &&& o.frame_skip_requested == c.frame_skip_requested
            &&& o.frame_seek_requested == c.frame_seek_requested
        }),
        c.keeps_stepping() <==> !c.enabled || c.running,
        c.wants_restart() <==> c.enabled && c.restart_requested,
{
}

/// A step pauses and adds up to 10000 frames, either way, to those that are asked for; a skip adds up
/// to 100000 and does not pause; a seek asks for its frame, and a speed is the one that is set.
/// Nothing else changes.
pub proof fn law_frame_requests(c: WebControlState, frames: int, frame: isize, percent: usize)
    requires
        isize::MIN + 100_000 <= c.frame_step_requested <= isize::MAX - 100_000,
        isize::MIN + 100_000 <= c.frame_skip_requested <= isize::MAX - 100_000,
    ensures
        c.stepped(frames).frame_step_requested - c.frame_step_requested == (if frames > 10_000 {
            10_000
        } else if frames < -10_000 {
            -10_000
        } else {
            frames
        }),
        !c.stepped(frames).running,
        c.stepped(frames).frame_skip_requested == c.frame_skip_requested,
        c.stepped(frames).frame_seek_requested == c.frame_seek_requested,
        c.stepped(frames).speed_percent == c.speed_percent,
        c.stepped(frames).enabled == c.enabled,
        c.stepped(frames).stop_requested == c.stop_requested,
        c.stepped(frames).restart_requested == c.restart_requested,
        c.skipped(frames).frame_skip_requested - c.frame_skip_requested == (if frames > 100_000 {
            100_000
        } else if frames < -100_000 {
            -100_000
        } else {
            frames
        }),
        c.skipped(frames).frame_step_requested == c.frame_step_requested,
        c.skipped(frames).running == c.running,
        c.skipped(frames).frame_seek_requested == c.frame_seek_requested,
        c.skipped(frames).speed_percent == c.speed_percent,
        c.sought(frame).frame_seek_requested == frame,
        c.sought(frame).running == c.running,
        c.sought(frame).frame_step_requested == c.frame_step_requested,
        c.sought(frame).frame_skip_requested == c.frame_skip_requested,
        c.sought(frame).speed_percent == c.speed_percent,
        c.sped(percent).speed_percent == percent,
        same_but_running(c.sped(c.speed_percent), c),
        c.sped(percent).running == c.running,
        c.sped(percent).frame_step_requested == c.frame_step_requested,
        c.sped(percent).frame_skip_requested == c.frame_skip_requested,
        c.sped(percent).frame_seek_requested == c.frame_seek_requested,
{
}

/// A request that was taken is not there any more, and the others are.
pub proof fn law_requests_are_taken_once(c: WebControlState)
    ensures
        !c.without_restart().wants_restart(),
        c.without_restart().stop_requested == c.stop_requested,
        c.without_restart().running == c.running,
        c.without_restart().seek_request() == c.seek_request(),
        !c.without_stop().stop_requested,
        c.without_stop().wants_restart() == c.wants_restart(),
        c.without_stop().running == c.running,
        c.without_stop().seek_request() == c.seek_request(),
        c.without_step().frame_step_requested == 0,
        c.without_step().frame_skip_requested == c.frame_skip_requested,
        c.without_step().seek_request() == c.seek_request(),
        c.without_step().running == c.running,
        c.without_skip().frame_skip_requested == 0,
        c.without_skip().frame_step_requested == c.frame_step_requested,
        c.without_skip().seek_request() == c.seek_request(),
        c.without_skip().running == c.running,
        c.without_seek().seek_request() is None,
        c.without_seek().frame_step_requested == c.frame_step_requested,
        c.without_seek().frame_skip_requested == c.frame_skip_requested,
        c.without_seek().running == c.running,
        c.frame_seek_requested < 0 ==> c.seek_request() is None,
        WebControlState::initial().keeps_stepping(),
        !WebControlState::initial().wants_restart(),
        !WebControlState::initial().stop_requested,
        WebControlState::initial().speed_percent == 100,
        WebControlState::initial().seek_request() is None,
        WebControlState::initial().frame_step_requested == 0,
        WebControlState::initial().frame_skip_requested == 0,
{
}

/// A speed between a twentieth and four times the plain one is allowed as it is, and any other comes
/// to the nearer of the two.
pub proof fn law_allowed_speeds(multiplier: Double)
    ensures
        ({
            let slowest = Double { bits: 0x3fa9_9999_9999_999a };
            let fastest = Double { bits: 0x4010_0000_0000_0000 };
            &&& multiplier.less(slowest) ==> allowed(multiplier) == slowest
            &&& fastest.less(multiplier) ==> allowed(multiplier) == fastest
            &&& slowest.at_most(multiplier) && multiplier.at_most(fastest) ==> allowed(multiplier)
                == multiplier
        }),
{
}

/// The percent of a speed are within a half, and what the machine rounds, of a hundred times the
/// speed. A speed with the digits `significand` and the exponent `e` is `significand` times two to the
/// power of `e - 1075`.
pub proof fn law_percent_are_a_hundred_times_the_speed(multiplier: Double)
    requires
        !multiplier.is_nan_spec(),
    ensures
        ({
            let speed = allowed(multiplier);
            let e = speed.bits as int / 0x10_0000_0000_0000;
            let digits = 0x10_0000_0000_0000 + speed.bits as int % 0x10_0000_0000_0000;
            let unit = pow2((1075 - e) as nat) as int;
            let percent = percent_of(multiplier) as int;
            &&& 1018 <= e <= 1025
            &&& 2 * (percent * unit - 100 * digits) <= unit + 128
            &&& 2 * (100 * digits - percent * unit) <= unit + 128
        }),
{
    let speed = allowed(multiplier);
    law_clamped_within(multiplier, Double { bits: SLOWEST_BITS }, Double { bits: FASTEST_BITS });
    law_speeds_are_in_bounds(multiplier);
    lemma2_to64_rest();
    let e = exponent(speed);
    let n = 100 * significand(speed);
    let mp = machine_product(n);
    assert(SLOWEST_BITS <= speed.bits <= FASTEST_BITS);
    assert(1018 <= e <= 1025);
    assert(n - 64 <= mp <= n + 64);
    let percent = whole(mp, e);
    assert(percent == percent_of(multiplier));
    let unit = pow2((1075 - e) as nat) as int;
    if e == 1018 {
        assert(unit == 0x200_0000_0000_0000);
        assert(percent * unit == percent * 0x200_0000_0000_0000);
    } else if e == 1019 {
        assert(unit == 0x100_0000_0000_0000);
        assert(percent * unit == percent * 0x100_0000_0000_0000);
    } else if e == 1020 {
        assert(unit == 0x80_0000_0000_0000);
        assert(percent * unit == percent * 0x80_0000_0000_0000);
    } else if e == 1021 {
        assert(unit == 0x40_0000_0000_0000);
        assert(percent * unit == percent * 0x40_0000_0000_0000);
    } else if e == 1022 {
        assert(unit == 0x20_0000_0000_0000);
        assert(percent * unit == percent * 0x20_0000_0000_0000);
    } else if e == 1023 {
        assert(unit == 0x10_0000_0000_0000);
        assert(percent * unit == percent * 0x10_0000_0000_0000);
    } else if e == 1024 {
        assert(unit == 0x8_0000_0000_0000);
        assert(percent * unit == percent * 0x8_0000_0000_0000);
    } else if e == 1025 {
        assert(unit == 0x4_0000_0000_0000);
        assert(percent * unit == percent * 0x4_0000_0000_0000);
    }
}

} // verus!
