//! Command-boundary detection over raw input bytes.
//!
//! The session treats a line feed or carriage return in the keystroke
//! stream as the heuristic sign that the user has just submitted a command.
//! This is a best-effort signal: it misfires on pasted multi-line input and
//! on programs that read raw keystrokes, a known limitation that is kept
//! rather than corrected.

use vstd::prelude::*;

verus! {

/// A byte that marks a command boundary: line feed or carriage return.
pub open spec fn is_boundary_byte(b: u8) -> bool {
    b == 10 || b == 13
}

/// Whether a chunk of raw input contains a command-boundary byte.
pub open spec fn has_boundary(chunk: Seq<u8>) -> bool {
    exists|i: int| 0 <= i < chunk.len() && is_boundary_byte(chunk[i])
}

/// Scan a chunk of raw input for a command-boundary byte.
pub fn chunk_has_boundary(chunk: &[u8]) -> (r: bool)
    ensures
        r == has_boundary(chunk@),
{
    let mut i: usize = 0;
    while i < chunk.len()
        invariant
            0 <= i <= chunk@.len(),
            forall|j: int| 0 <= j < i ==> !is_boundary_byte(chunk@[j]),
        decreases chunk@.len() - i,
    {
        let b = chunk[i];
        if b == 10 || b == 13 {
            assert(is_boundary_byte(chunk@[i as int]));
            return true;
        }
        i += 1;
    }
    false
}

} // verus!
