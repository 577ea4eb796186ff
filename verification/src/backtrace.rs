//! A model of the call-stack frame chain used for stack traces.
//!
//! On the machine, a frame lives at the frame-pointer register and holds
//! the saved previous frame pointer next to the return address; walking
//! the chain is raw pointer arithmetic the runtime performs.  The library
//! holds the values read out of a frame as plain numbers.

use vstd::prelude::*;

verus! {

/// One stack frame: the saved previous frame pointer and the return
/// address, as plain addresses.
#[derive(Clone, Copy, Debug, PartialEq, Eq, Structural)]
pub struct StackFrame {
    /// Address of the previous frame, or zero at the chain's end.
    pub prev: usize,
    /// The frame's return address.
    pub return_addr: usize,
}

impl StackFrame {
    /// A frame record read from the given saved values.
    pub fn new(prev: usize, return_addr: usize) -> (r: Self)
        ensures
            r == (StackFrame { prev, return_addr }),
    {
        StackFrame { prev, return_addr }
    }

    /// The frame's return address.
    pub fn return_ptr(&self) -> (r: usize)
        ensures
            r == self.return_addr,
    {
        self.return_addr
    }

    /// Whether the chain plausibly continues past this frame: the
    /// return address is set and the previous frame pointer is aligned
    /// and outside the first page.
    pub fn prev_is_walkable(&self) -> (r: bool)
        ensures
            r == (self.return_addr != 0 && self.prev as int % 8 == 0 && self.prev >= 0x1000),
    {
        self.return_addr != 0 && self.prev % 8 == 0 && self.prev >= 0x1000
    }
}

/// A captured stack trace: the chain of frames, innermost first.
#[derive(Debug)]
pub struct StackTrace {
    frames: Vec<StackFrame>,
}

impl StackTrace {
    /// The captured frames, innermost first.
    pub closed spec fn frames_spec(&self) -> Seq<StackFrame> {
        self.frames@
    }

    /// A trace over frames the runtime walked, innermost first.
    pub fn from_frames(frames: Vec<StackFrame>) -> (r: Self)
        ensures
            r.frames_spec() == frames@,
    {
        StackTrace { frames }
    }

    /// Number of captured frames.
    pub fn len(&self) -> (r: usize)
        ensures
            r == self.frames_spec().len(),
    {
        self.frames.len()
    }

    /// The return address of frame `i`, innermost first.
    pub fn return_ptr_at(&self, i: usize) -> (r: usize)
        requires
            i < self.frames_spec().len(),
        ensures
            r == self.frames_spec()[i as int].return_addr,
    {
        self.frames[i].return_ptr()
    }
}

} // verus!
