//! The store handle: one frame log and one content-addressable store
//! behind a single owner. Exclusive access is what `&mut` grants, so the
//! logical store operations of one process are totally ordered; the caller
//! that needs to share the handle across tasks wraps it in an external
//! exclusive guard and still sees these contracts, one operation at a time.

use vstd::prelude::*;
use crate::cas::{Cas, cas_after_insert, digest_of, parsed_hash};
use crate::frame::Frame;
use crate::log::{AppendError, Log, frames_wf, id_fits, ids_increasing};

verus! {

/// What a store handle denotes: the ordered log and the blob map.
pub struct StoreView {
    pub log: Seq<Frame>,
    pub cas: Map<Seq<char>, Seq<u8>>,
}

/// The store handle.
pub struct Store {
    log: Log,
    cas: Cas,
}

impl View for Store {
    type V = StoreView;

    closed spec fn view(&self) -> StoreView {
        StoreView { log: self.log@, cas: self.cas@ }
    }
}

impl Store {
    /// Both halves of the store are well formed.
    pub closed spec fn wf(&self) -> bool {
        self.log.wf() && self.cas.wf()
    }

    /// The log accepts a frame when it is well formed and its id comes
    /// after every id already present.
    pub open spec fn accepts(&self, frame: Frame) -> bool {
        frame.wf() && id_fits(self@.log, frame.id)
    }

    /// A fresh, empty store.
    pub fn new() -> (r: Store)
        ensures
            r.wf(),
            r@.log == Seq::<Frame>::empty(),
            r@.cas == Map::<Seq<char>, Seq<u8>>::empty(),
    {
        Store { log: Log::new(), cas: Cas::new() }
    }

    /// Appends a frame to the log; the blob store is untouched. A rejected
    /// append leaves the store unchanged and says exactly why.
    pub fn append(&mut self, frame: Frame) -> (r: Result<Frame, AppendError>)
        requires
            old(self).wf(),
        ensures
            final(self).wf(),
            final(self)@.cas == old(self)@.cas,
            old(self).accepts(frame) ==> final(self)@.log == old(self)@.log.push(frame) && (
            r matches Ok(f) && f == frame),
            !old(self).accepts(frame) ==> final(self)@.log == old(self)@.log,
            r matches Err(e) && e == AppendError::EmptyTopic <==> !frame.wf(),
            r matches Err(e) && e == AppendError::IdNotIncreasing <==> frame.wf() && !old(
                self,
            ).accepts(frame),
    {
        self.log.append(frame)
    }

    /// Stores bytes in the blob store and returns their canonical
    /// integrity hash; the log is untouched.
    pub fn cas_insert(&mut self, content: Vec<u8>) -> (h: String)
        requires
            old(self).wf(),
        ensures
            final(self).wf(),
            final(self)@.log == old(self)@.log,
            h@ == digest_of(content@),
            parsed_hash(h@) == Some(h@),
            final(self)@.cas == cas_after_insert(old(self)@.cas, content@),
    {
        self.cas.insert(content)
    }

    /// Reads a copy of the bytes stored under the given canonical key.
    pub fn cas_read(&self, key: &String) -> (r: Option<Vec<u8>>)
        requires
            self.wf(),
        ensures
            match r {
                Some(v) => self@.cas.dom().contains(key@) && v@ == self@.cas[key@],
                None => !self@.cas.dom().contains(key@),
            },
    {
        self.cas.read(key)
    }

    /// How many distinct blobs the store holds.
    pub fn cas_len(&self) -> (n: usize)
        requires
            self.wf(),
        ensures
            n == self@.cas.dom().len(),
    {
        self.cas.len()
    }

    /// The number of frames in the log.
    pub fn len(&self) -> (n: usize)
        ensures
            n == self@.log.len(),
    {
        self.log.len()
    }

    /// The frame at the given position of the log.
    pub fn get(&self, i: usize) -> (r: &Frame)
        requires
            i < self@.log.len(),
        ensures
            *r == self@.log[i as int],
    {
        self.log.get(i)
    }

    /// A copy of the whole log in order: the non-following snapshot read.
    pub fn snapshot(&self) -> (r: Vec<Frame>)
        ensures
            r@ == self@.log,
    {
        self.log.snapshot()
    }
}

/// A well-formed store's log is itself well formed: frame ids strictly
/// increase in append order and every topic is non-empty. Stated here
/// because the store's well-formedness is opaque to callers.
pub proof fn lemma_wf_log_ordered(s: &Store)
    requires
        s.wf(),
    ensures
        ids_increasing(s@.log),
        frames_wf(s@.log),
{
}

} // verus!
