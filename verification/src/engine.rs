use vstd::prelude::*;

use crate::clock::Clock;
use crate::config::Config;
use crate::draw::Rgba;

verus! {

/// Framebuffer width, in pixels, of every engine instance.
pub const WIDTH: u32 = 256;

/// Framebuffer height, in pixels, of every engine instance.
pub const HEIGHT: u32 = 256;

/// The single mutable context threaded through every lifecycle hook: the
/// framebuffer, the camera offset ("eye"), the frame clock and the
/// configuration.  The framebuffer is a row-major grid of RGBA pixels,
/// `width * height` of them, addressed by `x + y * width`.
///
/// The eye is kept as a pair of `i64` so that adding a world coordinate
/// (an `i32`) to it never overflows; `well_formed` bounds it by the values
/// `look` can produce.
pub struct Engine {
    pub width: u32,
    pub height: u32,
    pub fb: Vec<Rgba>,
    pub eye: (i64, i64),
    pub clock: Clock,
    pub config: Config,
}

impl Engine {
    /// The engine invariant: the framebuffer holds exactly one pixel per
    /// coordinate of the `width * height` grid, and the eye stays within one
    /// `u32` range of the `i32` range, which is all `look` can set.
    pub open spec fn well_formed(self) -> bool {
        &&& self.fb@.len() == self.width * self.height
        &&& -0x1_0000_0000 <= self.eye.0 <= 0x1_0000_0000
        &&& -0x1_0000_0000 <= self.eye.1 <= 0x1_0000_0000
    }

    /// A fresh engine: a zeroed `WIDTH x HEIGHT` framebuffer, the eye at the
    /// origin, a clock that has not ticked, and the given configuration.
    pub fn new(config: Config) -> (e: Engine)
        ensures
            e.well_formed(),
            e.width == WIDTH,
            e.height == HEIGHT,
            e.eye.0 == 0 && e.eye.1 == 0,
            e.config == config,
            e.clock.delta_nanos == 0,
            forall|i: int| 0 <= i < e.fb@.len() ==> e.fb@[i] == Rgba::zero(),
    {
        let w: usize = WIDTH as usize;
        let h: usize = HEIGHT as usize;
        let len: usize = 65536;
        assert(len == w * h) by (nonlinear_arith)
            requires
                w == 256,
                h == 256,
                len == 65536,
        ;
        let mut fb: Vec<Rgba> = Vec::new();
        let mut i: usize = 0;
        while i < len
            invariant
                i <= len,
                fb@.len() == i,
                forall|j: int| 0 <= j < i ==> fb@[j] == Rgba::zero(),
            decreases len - i,
        {
            fb.push(Rgba { r: 0, g: 0, b: 0, a: 0 });
            i = i + 1;
        }
        Engine { width: WIDTH, height: HEIGHT, fb, eye: (0, 0), clock: Clock::new(), config }
    }
}

/// Application state created by the start hook and threaded through the
/// other hooks for the whole run.
pub trait State: Sized + 'static {
    fn new() -> Self;
}

/// Where the frame loop stands: it starts once, runs until a close is
/// requested, winds down once, and then stays stopped.
#[derive(Clone, Copy, Debug, PartialEq, Eq, Structural)]
pub enum Phase {
    Starting,
    Running,
    Ending,
    Stopped,
}

/// What the external input/window source reported for one loop iteration.
pub struct PollInfo {
    /// New input was observed this iteration.
    pub input_ready: bool,
    /// The presentation surface was resized, and to what size.
    pub resized: Option<(u32, u32)>,
    /// The external source asked for a redraw.
    pub redraw_requested: bool,
    /// The external source asked the run to end.
    pub close_requested: bool,
}

/// What the loop driver must do for one iteration, in this order: resize the
/// surface, tick the clock, run the input hook, run the draw hook, present
/// the framebuffer, run the end hook, and request the next redraw.
pub struct FrameActions {
    /// Resize the presentation surface to this size before anything else.
    pub resize_surface: Option<(u32, u32)>,
    /// Advance the clock one tick, then run the input hook.
    pub tick_and_input: bool,
    /// Run the draw hook, then hand the framebuffer to the surface.
    pub draw_and_present: bool,
    /// Run the end hook once, then stop the loop.
    pub end_and_stop: bool,
    /// Ask the external source for another redraw (always: rendering is
    /// continuous, not demand-driven).
    pub request_redraw: bool,
}

/// The scheduler's state machine.  It performs no drawing itself: each
/// `step` only decides, from the phase and from what was polled, which hooks
/// the driver runs and in what order.
pub struct Lifecycle {
    pub phase: Phase,
}

impl Lifecycle {
    /// A scheduler that has not started yet.
    pub fn new() -> (l: Lifecycle)
        ensures
            l.phase == Phase::Starting,
    {
        Lifecycle { phase: Phase::Starting }
    }

    /// The one Starting -> Running transition: taken exactly once, when the
    /// driver runs the start hook against the fresh engine.
    pub fn begin(&mut self)
        requires
            old(self).phase == Phase::Starting,
        ensures
            final(self).phase == Phase::Running,
    {
        self.phase = Phase::Running;
    }

    /// Decide one running iteration: the surface is resized exactly when new
    /// input reported a resize; the clock ticks and the input hook runs
    /// exactly when new input was observed; the draw hook runs and the frame
    /// is presented exactly when a redraw was requested; the end hook runs
    /// exactly when a close was requested, which moves the machine to
    /// Ending; a redraw is requested unconditionally.
    pub fn step(&mut self, poll: &PollInfo) -> (a: FrameActions)
        requires
            old(self).phase == Phase::Running,
        ensures
            a.resize_surface == if poll.input_ready {
                poll.resized
            } else {
                None::<(u32, u32)>
            },
            a.tick_and_input == poll.input_ready,
            a.draw_and_present == poll.redraw_requested,
            a.end_and_stop == poll.close_requested,
            a.request_redraw,
            final(self).phase == if poll.close_requested {
                Phase::Ending
            } else {
                Phase::Running
            },
    {
        if poll.close_requested {
            self.phase = Phase::Ending;
        }
        FrameActions {
            resize_surface: if poll.input_ready {
                poll.resized
            } else {
                None
            },
            tick_and_input: poll.input_ready,
            draw_and_present: poll.redraw_requested,
            end_and_stop: poll.close_requested,
            request_redraw: true,
        }
    }

    /// The Ending -> Stopped transition, taken after the end hook has run;
    /// the machine never leaves Stopped.
    pub fn finish(&mut self)
        requires
            old(self).phase == Phase::Ending,
        ensures
            final(self).phase == Phase::Stopped,
    {
        self.phase = Phase::Stopped;
    }
}

} // verus!
