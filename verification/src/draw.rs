//! The command timeline: an ordered, append-only sequence of drawing
//! commands and timed holds, consumed exactly once by the rasterizer.
use vstd::prelude::*;
use crate::shapes::Point;

verus! {

/// One entry of the timeline.  The geometric variants carry positions in
/// the shared drawing space; `Wait` is a timing marker meaning "hold the
/// last composited image for this many milliseconds".
#[derive(Clone, Copy, PartialEq, Eq, Structural, Debug)]
pub enum DrawCommand {
    Triangle { p1: Point, p2: Point, p3: Point },
    Circle { p: Point, radius: i64 },
    Line { p1: Point, p2: Point },
    Dot { p: Point },
    Wait { millis: u64 },
}

/// Longest hold a well-formed `Wait` command may carry, in milliseconds.
/// A bound of a million seconds keeps every frame count inside `u64` for
/// any frame rate.
pub const WAIT_LIMIT: u64 = 1_000_000_000;

impl DrawCommand {
    /// A well-formed command: every position is in coordinate range, a
    /// radius is bounded like a coordinate, and a hold is bounded by
    /// `WAIT_LIMIT`.
    pub open spec fn wf(self) -> bool {
        match self {
            DrawCommand::Triangle { p1, p2, p3 } => p1.in_range() && p2.in_range()
                && p3.in_range(),
            DrawCommand::Circle { p, radius } => p.in_range() && -crate::shapes::COORD_LIMIT
                <= radius <= crate::shapes::COORD_LIMIT,
            DrawCommand::Line { p1, p2 } => p1.in_range() && p2.in_range(),
            DrawCommand::Dot { p } => p.in_range(),
            DrawCommand::Wait { millis } => millis <= WAIT_LIMIT,
        }
    }
}

/// The ordered command timeline.  Commands are processed strictly in
/// insertion order; a `Wait` applies to the raster state accumulated up to
/// that point, never to commands after it.
#[derive(Debug)]
pub struct DrawCommands {
    pub commands: Vec<DrawCommand>,
}

impl DrawCommands {
    /// Every command of the timeline is well formed.
    pub open spec fn wf(self) -> bool {
        forall|i: int| 0 <= i < self.commands@.len() ==> (#[trigger] self.commands@[i]).wf()
    }

    /// An empty timeline.
    pub fn new() -> (r: DrawCommands)
        ensures
            r.commands@ == Seq::<DrawCommand>::empty(),
    {
        DrawCommands { commands: Vec::new() }
    }

    /// Appends one command at the end of the timeline.
    pub fn push(&mut self, cmd: DrawCommand)
        ensures
            final(self).commands@ == old(self).commands@.push(cmd),
    {
        self.commands.push(cmd);
    }

    /// The number of commands recorded so far.
    pub fn len(&self) -> (n: usize)
        ensures
            n == self.commands@.len(),
    {
        self.commands.len()
    }
}

} // verus!
