//! Drawing operations, and the order in which a caller performs them.

use vstd::prelude::*;
use crate::geometry::{Point, Rectangle};

verus! {

/// One write to a drawing surface.
#[derive(Clone, Copy, Debug, PartialEq, Eq)]
pub enum DrawOp<C> {
    /// Set the pixel at the point to the color.
    Pixel(Point, C),
    /// Fill the whole rectangle with the color.
    FillSolid(Rectangle, C),
}

/// What a caller does next while it performs a list of operations.
#[derive(Clone, Copy, Debug, PartialEq, Eq)]
pub enum NextStep<C> {
    /// Hand this operation to the surface.
    Perform(DrawOp<C>),
    /// Every operation was performed.
    Finished,
    /// The surface refused an operation: stop, and perform no other.
    Abort,
}

/// The step that follows when the first `done` operations of `ops` were
/// handed to the surface and `refused` tells whether it refused the last of
/// them: the operations are performed in order, one at a time, and the first
/// refusal ends the drawing with the remaining operations left undone.
pub open spec fn spec_next_step<C>(ops: Seq<DrawOp<C>>, done: int, refused: bool) -> NextStep<C> {
    if refused {
        NextStep::Abort
    } else if done < ops.len() {
        NextStep::Perform(ops[done])
    } else {
        NextStep::Finished
    }
}

/// Decides what follows after `done` operations of `ops`.
pub fn next_step<C: Copy>(ops: &[DrawOp<C>], done: usize, refused: bool) -> (step: NextStep<C>)
    requires
        done <= ops@.len(),
    ensures
        step == spec_next_step(ops@, done as int, refused),
{
    if refused {
        NextStep::Abort
    } else if done < ops.len() {
        NextStep::Perform(ops[done])
    } else {
        NextStep::Finished
    }
}

} // verus!
