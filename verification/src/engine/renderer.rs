//! The pacing of the frame loop.
//!
//! The host owns the window and runs the loop. Once per turn it reads its
//! millisecond clock, polls its events and asks `next_frame` what to do; it
//! then clears the window, runs the game with the time it was given, presents
//! the frame and sleeps as long as it was told.

use vstd::prelude::*;

verus! {

/// A colour of the window, in red, green and blue from 0 to 255.
#[derive(Clone, Copy, Debug, PartialEq, Eq, Structural)]
pub struct Rgb {
    pub r: u8,
    pub g: u8,
    pub b: u8,
}

/// What the host does with one turn of the loop.
#[derive(Clone, Copy, Debug, PartialEq, Eq, Structural)]
pub enum Frame {
    /// The window was closed: leave the loop.
    Quit,
    /// Clear the window to `clear_color`, advance and draw the game with
    /// `delta_time` milliseconds, present, then sleep `pause_nanos` nanoseconds.
    Run { clear_color: Rgb, delta_time: u32, pause_nanos: u32 },
}

/// The settings and the clock of the frame loop.
#[derive(Clone, Copy, Debug, PartialEq, Eq, Structural)]
pub struct Renderer {
    /// The frame rate that the loop does not exceed. Never zero.
    pub max_fps: u32,
    /// The colour that the window is cleared to.
    pub buffer_color: Rgb,
    /// Milliseconds between the starts of the last two frames.
    pub delta_time: u32,
    /// The clock at the start of the last frame.
    pub last_frame: u32,
}

/// Milliseconds from clock reading `last` to clock reading `now`. The clock
/// counts modulo 2^32, and so does the time between two readings.
pub open spec fn elapsed(last: u32, now: u32) -> int {
    if now >= last {
        now - last
    } else {
        now + 0x1_0000_0000 - last
    }
}

impl Renderer {
    pub open spec fn wf(&self) -> bool {
        self.max_fps > 0
    }

    /// The time that one frame may take at the frame cap, in nanoseconds,
    /// rounded down.
    pub open spec fn frame_budget(&self) -> int {
        1_000_000_000int / (self.max_fps as int)
    }

    /// A loop that runs at up to 60 frames a second and clears to black. Its
    /// clock starts at 0.
    pub fn build() -> (renderer: Renderer)
        ensures
            renderer == (Renderer {
                max_fps: 60,
                buffer_color: Rgb { r: 0, g: 0, b: 0 },
                delta_time: 0,
                last_frame: 0,
            }),
            renderer.wf(),
    {
        Renderer { max_fps: 60, buffer_color: Rgb { r: 0, g: 0, b: 0 }, delta_time: 0, last_frame: 0 }
    }

    pub fn set_color(&mut self, r: u8, g: u8, b: u8)
        ensures
            *final(self) == (Renderer { buffer_color: Rgb { r, g, b }, ..*old(self) }),
    {
        self.buffer_color = Rgb { r, g, b };
    }

    /// Sets the frame cap. A cap of zero frames a second is no cap at all and
    /// is not accepted.
    pub fn set_max_fps(&mut self, fps: u32)
        requires
            fps > 0,
        ensures
            *final(self) == (Renderer { max_fps: fps, ..*old(self) }),
            final(self).wf(),
    {
        self.max_fps = fps;
    }

    /// How long the loop sleeps after each frame, in nanoseconds: the whole
    /// budget of a frame, whatever the frame's own work took.
    pub fn limit_to_max_fps(&self) -> (pause_nanos: u32)
        requires
            self.wf(),
        ensures
            pause_nanos == self.frame_budget(),
            pause_nanos * self.max_fps <= 1_000_000_000,
    {
        let pause_nanos: u32 = 1_000_000_000u32 / self.max_fps;
        proof {
            lemma_budget_bounds(self.max_fps as int);
        }
        pause_nanos
    }

    /// Decides one turn of the loop, given the host's clock in milliseconds
    /// and whether the window was asked to close.
    ///
    /// On a close request the loop ends and nothing changes. Otherwise the
    /// game is run with the time between the starts of the two frames before
    /// this one (0 on the first turn), and the clock moves on to `current_frame`.
    pub fn next_frame(&mut self, current_frame: u32, quit: bool) -> (frame: Frame)
        requires
            old(self).wf(),
        ensures
            quit ==> frame == Frame::Quit && *final(self) == *old(self),
            !quit ==> frame == (Frame::Run {
                clear_color: old(self).buffer_color,
                delta_time: old(self).delta_time,
                pause_nanos: old(self).frame_budget() as u32,
            }) && *final(self) == (Renderer {
                delta_time: elapsed(old(self).last_frame, current_frame) as u32,
                last_frame: current_frame,
                ..*old(self)
            }),
            final(self).wf(),
    {
        if quit {
            return Frame::Quit;
        }
        let frame = Frame::Run {
            clear_color: self.buffer_color,
            delta_time: self.delta_time,
            pause_nanos: self.limit_to_max_fps(),
        };
        self.delta_time = if current_frame >= self.last_frame {
            current_frame - self.last_frame
        } else {
            (u32::MAX - self.last_frame) + current_frame + 1
        };
        self.last_frame = current_frame;
        frame
    }
}

proof fn lemma_budget_bounds(fps: int)
    by (nonlinear_arith)
    requires
        fps > 0,
    ensures
        0 <= 1_000_000_000int / fps <= 1_000_000_000,
        (1_000_000_000int / fps) * fps <= 1_000_000_000,
{
}

} // verus!
