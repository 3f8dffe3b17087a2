//! The append-only frame log: a strictly ordered sequence of frames keyed
//! by their time-ordered ids.

use vstd::prelude::*;
use crate::frame::Frame;

verus! {

/// Frame ids are strictly increasing in append order.
pub open spec fn ids_increasing(s: Seq<Frame>) -> bool {
    forall|i: int, j: int| 0 <= i < j < s.len() ==> s[i].id < s[j].id
}

/// Every frame of the sequence is well formed.
pub open spec fn frames_wf(s: Seq<Frame>) -> bool {
    forall|i: int| 0 <= i < s.len() ==> s[i].wf()
}

/// The id comes after every id already in the sequence.
pub open spec fn id_fits(s: Seq<Frame>, id: u128) -> bool {
    s.len() == 0 || s.last().id < id
}

/// Why an append was rejected.
#[derive(Clone, Copy, Debug, PartialEq, Eq, Structural)]
pub enum AppendError {
    /// The frame's topic is empty.
    EmptyTopic,
    /// The frame's id does not come after every id already in the log.
    IdNotIncreasing,
}

/// The append-only log. Frames are never mutated or deleted; the only
/// change a log ever sees is one more frame at its end.
pub struct Log {
    frames: Vec<Frame>,
}

impl View for Log {
    type V = Seq<Frame>;

    closed spec fn view(&self) -> Seq<Frame> {
        self.frames@
    }
}

impl Log {
    /// Ids strictly increase and every topic is non-empty.
    pub open spec fn wf(&self) -> bool {
        ids_increasing(self@) && frames_wf(self@)
    }

    /// The log accepts a frame when it is well formed and its id comes
    /// after every id already present.
    pub open spec fn accepts(&self, frame: Frame) -> bool {
        frame.wf() && id_fits(self@, frame.id)
    }

    /// An empty log.
    pub fn new() -> (r: Log)
        ensures
            r.wf(),
            r@ == Seq::<Frame>::empty(),
    {
        Log { frames: Vec::new() }
    }

    /// The number of frames in the log.
    pub fn len(&self) -> (n: usize)
        ensures
            n == self@.len(),
    {
        self.frames.len()
    }

    /// The frame at the given position.
    pub fn get(&self, i: usize) -> (r: &Frame)
        requires
            i < self@.len(),
        ensures
            *r == self@[i as int],
    {
        &self.frames[i]
    }

    /// Appends the frame and returns it back, or reports exactly why it was
    /// rejected; a rejected append leaves the log unchanged.
    pub fn append(&mut self, frame: Frame) -> (r: Result<Frame, AppendError>)
        requires
            old(self).wf(),
        ensures
            final(self).wf(),
            old(self).accepts(frame) ==> final(self)@ == old(self)@.push(frame) && (
            r matches Ok(f) && f == frame),
            !old(self).accepts(frame) ==> final(self)@ == old(self)@,
            r matches Err(e) && e == AppendError::EmptyTopic <==> !frame.wf(),
            r matches Err(e) && e == AppendError::IdNotIncreasing <==> frame.wf()
                && !old(self).accepts(frame),
    {
        if frame.topic.as_str().is_empty() {
            return Err(AppendError::EmptyTopic);
        }
        if self.frames.len() > 0 {
            let last = self.frames.len() - 1;
            if frame.id <= self.frames[last].id {
                return Err(AppendError::IdNotIncreasing);
            }
        }
        let stored = frame.clone();
        self.frames.push(stored);
        Ok(frame)
    }

    /// A copy of the whole log in order: the non-following snapshot read.
    pub fn snapshot(&self) -> (r: Vec<Frame>)
        ensures
            r@ == self@,
    {
        let mut out: Vec<Frame> = Vec::new();
        let mut idx: usize = 0;
        while idx < self.frames.len()
            invariant
                idx <= self.frames@.len(),
                out@ == self.frames@.subrange(0, idx as int),
            decreases self.frames@.len() - idx,
        {
            out.push(self.frames[idx].clone());
            proof {
                assert(out@ =~= self.frames@.subrange(0, idx + 1));
            }
            idx += 1;
        }
        proof {
            assert(out@ =~= self@);
        }
        out
    }
}

/// Any two positions of a well-ordered log hold frames whose ids grow with
/// the positions: append order is a monotonic total order on ids.
pub proof fn lemma_ids_strictly_increasing(s: Seq<Frame>, i: int, j: int)
    requires
        ids_increasing(s),
        0 <= i < j < s.len(),
    ensures
        s[i].id < s[j].id,
{
}

/// Ids identify frames: a well-ordered log holds no two frames with the
/// same id.
pub proof fn lemma_id_unique(s: Seq<Frame>, i: int, j: int)
    requires
        ids_increasing(s),
        0 <= i < s.len(),
        0 <= j < s.len(),
        s[i].id == s[j].id,
    ensures
        i == j,
{
}

} // verus!
