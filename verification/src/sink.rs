//! The subscriber-facing event sink, modeled as the transcript of frames
//! pushed to it, in the order they were pushed.

use vstd::prelude::*;
use crate::frame::Frame;

verus! {

/// The transcript of every frame emitted to the subscriber so far.
pub struct Sink {
    received: Vec<Frame>,
}

impl View for Sink {
    type V = Seq<Frame>;

    closed spec fn view(&self) -> Seq<Frame> {
        self.received@
    }
}

impl Sink {
    /// A sink that has received nothing yet.
    pub fn new() -> (r: Sink)
        ensures
            r@ == Seq::<Frame>::empty(),
    {
        Sink { received: Vec::new() }
    }

    /// Pushes one frame to the subscriber.
    pub fn emit(&mut self, frame: Frame)
        ensures
            final(self)@ == old(self)@.push(frame),
    {
        self.received.push(frame);
    }

    /// How many frames the subscriber has received.
    pub fn len(&self) -> (n: usize)
        ensures
            n == self@.len(),
    {
        self.received.len()
    }

    /// The frame received at the given position.
    pub fn get(&self, i: usize) -> (r: &Frame)
        requires
            i < self@.len(),
        ensures
            *r == self@[i as int],
    {
        &self.received[i]
    }
}

} // verus!
