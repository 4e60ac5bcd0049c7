//! Frame parity, and what alternates with it.

use vstd::prelude::*;

verus! {

/// Whether a frame is the first, third, ... or the second, fourth, ... since the last reset.
#[derive(Debug, Clone, Copy, PartialEq, Eq, Structural)]
pub enum FrameKind {
    /// The first frame, and every second one after it.
    Even,
    /// The frames between.
    Odd,
}

impl FrameKind {
    /// The kind of the frame that follows.
    pub open spec fn next(self) -> FrameKind {
        match self {
            FrameKind::Even => FrameKind::Odd,
            FrameKind::Odd => FrameKind::Even,
        }
    }

    /// Go on to the next frame.
    pub fn advance(&mut self)
        ensures
            *final(self) == old(self).next(),
    {
        *self = match *self {
            FrameKind::Even => FrameKind::Odd,
            FrameKind::Odd => FrameKind::Even,
        };
    }
}

impl Default for FrameKind {
    fn default() -> (result: FrameKind)
        ensures
            result == FrameKind::Even,
    {
        FrameKind::Even
    }
}

/// A pair used for temporal double-buffering.
///
/// One of the two holds the current frame's data (write target), while the other
/// holds the previous frame's data (read source). Which one is "current" flips
/// each frame based on [`FrameKind`].
#[derive(Debug)]
pub struct DoubleBuffered<T> {
    /// Written to on even frames.
    pub current_on_even: T,
    /// Written to on odd frames.
    pub current_on_odd: T,
}

impl<T> DoubleBuffered<T> {
    /// The one being written to in a frame of this kind.
    pub open spec fn written(self, kind: FrameKind) -> T {
        match kind {
            FrameKind::Even => self.current_on_even,
            FrameKind::Odd => self.current_on_odd,
        }
    }

    /// Whether the two are different.
    pub open spec fn differs(self) -> bool {
        self.current_on_even != self.current_on_odd
    }

    /// The one being read from in a frame of this kind.
    pub open spec fn read(self, kind: FrameKind) -> T {
        match kind {
            FrameKind::Even => self.current_on_odd,
            FrameKind::Odd => self.current_on_even,
        }
    }

    /// A pair of which the first is written to on even frames.
    pub fn new(current_on_even: T, current_on_odd: T) -> (result: Self)
        ensures
            result.current_on_even == current_on_even,
            result.current_on_odd == current_on_odd,
    {
        DoubleBuffered { current_on_even, current_on_odd }
    }

    /// The one being written to this frame.
    pub fn current(&self, kind: FrameKind) -> (result: &T)
        ensures
            *result == self.written(kind),
    {
        match kind {
            FrameKind::Even => &self.current_on_even,
            FrameKind::Odd => &self.current_on_odd,
        }
    }

    /// The one that was written to last frame (read source).
    pub fn previous(&self, kind: FrameKind) -> (result: &T)
        ensures
            *result == self.read(kind),
    {
        match kind {
            FrameKind::Even => &self.current_on_odd,
            FrameKind::Odd => &self.current_on_even,
        }
    }
}

/// What one frame writes, the next frame reads; and what one frame reads, the next overwrites.
pub proof fn law_history<T>(pair: DoubleBuffered<T>, kind: FrameKind)
    ensures
        pair.read(kind.next()) == pair.written(kind),
        pair.written(kind.next()) == pair.read(kind),
{
}

/// Every second frame is of the same kind.
pub proof fn law_parity(kind: FrameKind)
    ensures
        kind.next() != kind,
        kind.next().next() == kind,
{
}

} // verus!
