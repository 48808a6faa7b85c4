//! Frame rates, counted.
//!
//! A rate is so many frames in so many nanoseconds, counted over a fixed window: the
//! reciprocal of a smoothed frame time flatters the result whenever frames are uneven.

use vstd::prelude::*;

verus! {

/// How long a rate covers at least, in nanoseconds. Short enough to react to a stutter,
/// long enough that the digits are not a blur.
pub const FPS_WINDOW: u128 = 500_000_000;

/// So many frames in so many nanoseconds.
#[derive(Clone, Copy, Debug, PartialEq, Eq, Structural)]
pub struct Rate {
    pub frames: u64,
    pub nanos: u128,
}

/// A rate by its numbers.
#[verifier::ext_equal]
pub struct Count {
    pub frames: nat,
    pub nanos: nat,
}

impl View for Rate {
    type V = Count;

    open spec fn view(&self) -> Count {
        Count { frames: self.frames as nat, nanos: self.nanos as nat }
    }
}

/// The frame rate of the last whole window and of the whole run.
#[derive(Clone, Copy, Debug, PartialEq, Eq, Structural)]
pub struct FrameTimer {
    /// The window that is being counted.
    pub window: Rate,
    /// The last window that closed.
    pub fps: Option<Rate>,
    /// Every frame there was.
    pub total: Rate,
}

/// What a timer has counted.
#[verifier::ext_equal]
pub struct Timing {
    pub window: Count,
    pub fps: Option<Count>,
    pub total: Count,
}

impl View for FrameTimer {
    type V = Timing;

    open spec fn view(&self) -> Timing {
        Timing {
            window: self.window@,
            fps: match self.fps {
                Some(rate) => Some(rate@),
                None => None,
            },
            total: self.total@,
        }
    }
}

impl Count {
    /// No frame yet.
    pub open spec fn none() -> Count {
        Count { frames: 0, nanos: 0 }
    }

    /// One frame more, that took `elapsed`.
    pub open spec fn and(self, elapsed: u64) -> Count {
        Count { frames: self.frames + 1, nanos: self.nanos + elapsed as nat }
    }
}

impl Timing {
    /// Nothing counted yet.
    pub open spec fn fresh() -> Timing {
        Timing { window: Count::none(), fps: None, total: Count::none() }
    }

    /// What is counted after one more frame: a window that it fills closes, and the next one
    /// starts empty.
    pub open spec fn after(self, elapsed: u64) -> Timing {
        let window = self.window.and(elapsed);
        if window.nanos >= FPS_WINDOW {
            Timing {
                window: Count::none(),
                fps: Some(window),
                total: self.total.and(elapsed),
            }
        } else {
            Timing { window, total: self.total.and(elapsed), ..self }
        }
    }
}

impl FrameTimer {
    /// What holds of every timer: the window is part of the whole, is not full, and no frame
    /// took longer than a frame can.
    pub open spec fn well_formed(self) -> bool {
        &&& self.window.frames <= self.total.frames
        &&& self.window.nanos < FPS_WINDOW
        &&& self.total.nanos <= self.total.frames * u64::MAX
    }

    pub fn new() -> (timer: FrameTimer)
        ensures
            timer.well_formed(),
            timer@ == Timing::fresh(),
    {
        let none = Rate { frames: 0, nanos: 0 };
        FrameTimer { window: none, fps: None, total: none }
    }

    /// Counts a frame that took so many nanoseconds.
    pub fn record(&mut self, elapsed: u64)
        requires
            old(self).well_formed(),
            old(self).total.frames < u64::MAX,
        ensures
            final(self).well_formed(),
            final(self)@ == old(self)@.after(elapsed),
    {
        proof {
            let frames = self.total.frames as int;
            assert((frames + 1) * u64::MAX <= u64::MAX * u64::MAX) by (nonlinear_arith)
                requires
                    frames + 1 <= u64::MAX,
            ;
            assert((frames + 1) * u64::MAX == frames * u64::MAX + u64::MAX) by (nonlinear_arith);
        }
        self.total = Rate {
            frames: self.total.frames + 1,
            nanos: self.total.nanos + elapsed as u128,
        };
        let window = Rate {
            frames: self.window.frames + 1,
            nanos: self.window.nanos + elapsed as u128,
        };
        if window.nanos >= FPS_WINDOW {
            self.fps = Some(window);
            self.window = Rate { frames: 0, nanos: 0 };
        } else {
            self.window = window;
        }
    }

    /// The rate of the most recently closed window, if one has closed.
    pub fn fps(&self) -> (rate: Option<Rate>)
        ensures
            rate == self.fps,
    {
        self.fps
    }

    pub fn total_frames(&self) -> (frames: u64)
        ensures
            frames == self.total.frames,
    {
        self.total.frames
    }

    /// The rate across the whole run, if any time has passed. This is the number to quote
    /// from a benchmark.
    pub fn average_fps(&self) -> (rate: Option<Rate>)
        ensures
            rate == (if self.total.nanos > 0 {
                Some(self.total)
            } else {
                None
            }),
    {
        if self.total.nanos > 0 {
            Some(self.total)
        } else {
            None
        }
    }
}

// ----- laws ----------------------------------------------------------------------------

/// What a timer has counted of the frames it was told of.
pub open spec fn timed(frames: Seq<u64>) -> Timing
    decreases frames.len(),
{
    if frames.len() == 0 {
        Timing::fresh()
    } else {
        timed(frames.drop_last()).after(frames.last())
    }
}

/// The frames of a list, counted.
pub open spec fn counted(frames: Seq<u64>) -> Count
    decreases frames.len(),
{
    if frames.len() == 0 {
        Count::none()
    } else {
        counted(frames.drop_last()).and(frames.last())
    }
}

/// Whether frames `from` up to `to` fill a window exactly: the last one of them does.
pub open spec fn fills(frames: Seq<u64>, from: int, to: int) -> bool {
    &&& 0 <= from < to <= frames.len()
    &&& counted(frames.subrange(from, to)).nanos >= FPS_WINDOW
    &&& counted(frames.subrange(from, to - 1)).nanos < FPS_WINDOW
}

/// Whether the last window that closed is frames `from` up to `to`, or none has and `to` is
/// where the frames start; the frames since then are the window being counted.
pub open spec fn closed_at(frames: Seq<u64>, from: int, to: int) -> bool {
    let timing = timed(frames);
    &&& 0 <= to <= frames.len()
    &&& timing.window == counted(frames.subrange(to, frames.len() as int))
    &&& match timing.fps {
        None => to == 0,
        Some(rate) => fills(frames, from, to) && rate == counted(frames.subrange(from, to)),
    }
}

/// The rate shown is counted: it is that of consecutive frames which filled one window, no
/// frame since is in it, and the rate of the run is that of every frame there was.
pub proof fn a_rate_is_that_of_consecutive_frames(frames: Seq<u64>)
    ensures
        timed(frames).total == counted(frames),
        timed(frames).window.nanos < FPS_WINDOW,
        exists|from: int, to: int| closed_at(frames, from, to),
    decreases frames.len(),
{
    if frames.len() == 0 {
        assert(frames.subrange(0, 0) =~= frames);
        assert(closed_at(frames, 0, 0));
    } else {
        let before = frames.drop_last();
        let len = frames.len() as int;
        a_rate_is_that_of_consecutive_frames(before);
        let (from, to) = choose|from: int, to: int| closed_at(before, from, to);
        let open = frames.subrange(to, len);
        assert(open.drop_last() =~= before.subrange(to, len - 1));
        assert(open.drop_last() =~= frames.subrange(to, len - 1));
        if timed(frames).window == Count::none() && timed(frames).fps == Some(counted(open)) {
            assert(frames.subrange(len, len) =~= Seq::<u64>::empty());
            assert(closed_at(frames, to, len));
        } else {
            if timed(before).fps is Some {
                assert(frames.subrange(from, to) =~= before.subrange(from, to));
                assert(frames.subrange(from, to - 1) =~= before.subrange(from, to - 1));
            }
            assert(closed_at(frames, from, to));
        }
    }
}

/// One frame more is counted in the run and in its window; the window closes, and its rate is
/// shown, once it is half a second long, and the next one starts empty.
pub proof fn a_window_closes_at_half_a_second(timing: Timing, elapsed: u64)
    ensures
        ({
            let after = timing.after(elapsed);
            let nanos = timing.window.nanos + elapsed as nat;
            let frames = timing.window.frames + 1;
            &&& after.total.frames == timing.total.frames + 1
            &&& after.total.nanos == timing.total.nanos + elapsed as nat
            &&& nanos < 500_000_000 ==> {
                &&& after.window.frames == frames && after.window.nanos == nanos
                &&& after.fps == timing.fps
            }
            &&& nanos >= 500_000_000 ==> {
                &&& after.window.frames == 0 && after.window.nanos == 0
                &&& after.fps is Some && after.fps->0.frames == frames && after.fps->0.nanos == nanos
            }
        }),
        Timing::fresh().fps is None,
        Timing::fresh().window.frames == 0 && Timing::fresh().window.nanos == 0,
        Timing::fresh().total.frames == 0 && Timing::fresh().total.nanos == 0,
{
}

} // verus!
