//! Diff-aware repaint bookkeeping.
//!
//! The renderer never clears the whole screen: it remembers how many lines
//! the previous frame printed and erases exactly that many before the next
//! frame. A frame that must persist on screen (the phase-end summary) sets
//! `keep_output`, and the following frame then erases nothing.

use vstd::prelude::*;
use crate::command::{OpsCommand, OpsCommandType};

verus! {

/// Repaint state carried from tick to tick.
pub struct Renderer {
    /// How many lines the previous frame printed.
    pub previous_line_count: usize,
    /// Whether the previous frame asked to be left on screen.
    pub suppress_next_erase: bool,
}

impl Renderer {
    /// A renderer that has printed nothing yet and so erases nothing.
    pub fn new() -> (r: Renderer)
        ensures
            r.previous_line_count == 0,
            !r.suppress_next_erase,
    {
        Renderer { previous_line_count: 0, suppress_next_erase: false }
    }

    /// How many lines the next frame must erase: the previous frame's
    /// line count, or none at all when that frame asked to persist.
    pub open spec fn spec_lines_to_erase(self) -> usize {
        if self.suppress_next_erase {
            0usize
        } else {
            self.previous_line_count
        }
    }

    /// How many lines to erase before printing this frame: the previous
    /// frame's line count, or none at all when that frame asked to persist.
    pub fn lines_to_erase(&self) -> (n: usize)
        ensures
            n == self.spec_lines_to_erase(),
    {
        if self.suppress_next_erase {
            0
        } else {
            self.previous_line_count
        }
    }

    /// Record a finished frame: how many lines it printed, and whether it
    /// must survive the next tick's erase pass.
    pub fn frame_done(&mut self, lines_printed: usize, keep_output: bool)
        ensures
            final(self).previous_line_count == lines_printed,
            final(self).suppress_next_erase == keep_output,
    {
        self.previous_line_count = lines_printed;
        self.suppress_next_erase = keep_output;
    }
}

/// The operations that erase the previous `n` lines: for each line, cursor
/// up one line, then clear it, in that order.
pub fn erase_ops(n: usize) -> (v: Vec<OpsCommand>)
    requires
        n <= usize::MAX / 2,
    ensures
        v@.len() == 2 * n,
        forall|i: int|
            0 <= i < v@.len() ==> #[trigger] v@[i] == (OpsCommand(
                if i % 2 == 0 {
                    OpsCommandType::UpOneLine
                } else {
                    OpsCommandType::ClearToEnd
                },
            )),
{
    let mut v: Vec<OpsCommand> = Vec::new();
    let mut i: usize = 0;
    while i < n
        invariant
            i <= n,
            n <= usize::MAX / 2,
            v@.len() == 2 * i,
            forall|k: int|
                0 <= k < v@.len() ==> #[trigger] v@[k] == (OpsCommand(
                    if k % 2 == 0 {
                        OpsCommandType::UpOneLine
                    } else {
                        OpsCommandType::ClearToEnd
                    },
                )),
        decreases n - i,
    {
        v.push(OpsCommand(OpsCommandType::UpOneLine));
        v.push(OpsCommand(OpsCommandType::ClearToEnd));
        i = i + 1;
    }
    v
}

} // verus!
