//! The bootstrap coordinator: makes sure a store holds exactly one
//! sentinel frame. A store with history is left untouched; a fresh store
//! gets one genesis frame, which is also pushed to the subscriber.

use vstd::prelude::*;
use crate::frame::{Frame, SYSTEM_CONTEXT, generate_id, new_sentinel_topic, sentinel_topic};
use crate::log::id_fits;
use crate::sink::Sink;
use crate::store::Store;

verus! {

/// Some frame of the sequence carries the sentinel topic.
pub open spec fn has_sentinel(s: Seq<Frame>) -> bool {
    exists|i: int| 0 <= i < s.len() && s[i].is_sentinel()
}

/// How many frames of the sequence carry the sentinel topic.
pub open spec fn sentinel_count(s: Seq<Frame>) -> nat
    decreases s.len(),
{
    if s.len() == 0 {
        0
    } else {
        sentinel_count(s.drop_last()) + if s.last().is_sentinel() {
            1nat
        } else {
            0nat
        }
    }
}

/// The genesis frame the bootstrap appends to a fresh store: the given id,
/// the system context, the sentinel topic, and no payload, metadata or
/// expiry marker.
pub open spec fn is_genesis_frame(f: Frame, id: u128) -> bool {
    &&& f.id == id
    &&& f.context_id == SYSTEM_CONTEXT
    &&& f.topic@ == sentinel_topic()
    &&& f.hash is None
    &&& f.meta is None
    &&& f.ttl is None
}

/// One completed initialization, seen on the log alone: a log that
/// already holds a sentinel is left unchanged, and a log without one
/// gains exactly one sentinel frame at its end. Every `Ok` return of
/// `ensure_genesis` takes one such step.
pub open spec fn bootstrap_ok_step(log0: Seq<Frame>, log1: Seq<Frame>) -> bool {
    if has_sentinel(log0) {
        log1 == log0
    } else {
        exists|f: Frame| f.is_sentinel() && log1 == log0.push(f)
    }
}

/// Why the bootstrap failed.
#[derive(Clone, Copy, Debug, PartialEq, Eq, Structural)]
pub enum BootstrapError {
    /// The fresh id did not come after every id already in the log.
    StaleId,
}

/// Scans the log for the sentinel topic; if none is found, appends one
/// genesis frame with the given id and pushes it to the subscriber.
/// Returns the appended frame, or `None` when the store already had
/// history. The blob store is never touched.
pub fn ensure_genesis_with_id(store: &mut Store, sink: &mut Sink, id: u128) -> (r: Result<
    Option<Frame>,
    BootstrapError,
>)
    requires
        old(store).wf(),
    ensures
        final(store).wf(),
        final(store)@.cas == old(store)@.cas,
        has_sentinel(old(store)@.log) ==> r == Ok::<Option<Frame>, BootstrapError>(None) && final(store)@.log == old(
            store,
        )@.log && final(sink)@ == old(sink)@,
        !has_sentinel(old(store)@.log) && id_fits(old(store)@.log, id) ==> (r matches Ok(g)
            && g matches Some(f) && is_genesis_frame(f, id) && final(store)@.log == old(
            store,
        )@.log.push(f) && final(sink)@ == old(sink)@.push(f)),
        r is Ok ==> bootstrap_ok_step(old(store)@.log, final(store)@.log),
        !has_sentinel(old(store)@.log) && !id_fits(old(store)@.log, id) ==> r == Err::<
            Option<Frame>,
            BootstrapError,
        >(BootstrapError::StaleId) && final(store)@.log == old(store)@.log && final(sink)@ == old(
            sink,
        )@,
{
    let sentinel = new_sentinel_topic();
    let n = store.len();
    let mut idx: usize = 0;
    while idx < n
        invariant
            old(store).wf(),
            *store == *old(store),
            *sink == *old(sink),
            n == store@.log.len(),
            idx <= n,
            sentinel@ == sentinel_topic(),
            forall|j: int| 0 <= j < idx ==> !store@.log[j].is_sentinel(),
        decreases n - idx,
    {
        if store.get(idx).topic == sentinel {
            proof {
                assert(store@.log[idx as int].is_sentinel());
            }
            return Ok(None);
        }
        idx += 1;
    }
    proof {
        reveal_strlit("yak.create");
    }
    let frame = Frame {
        id,
        context_id: SYSTEM_CONTEXT,
        topic: sentinel,
        hash: None,
        meta: None,
        ttl: None,
    };
    match store.append(frame) {
        Ok(appended) => {
            sink.emit(appended.clone());
            proof {
                assert(appended.is_sentinel());
                assert(store@.log == old(store)@.log.push(appended));
            }
            Ok(Some(appended))
        },
        Err(_) => Err(BootstrapError::StaleId),
    }
}

/// Scans the log for the sentinel topic; if none is found, appends one
/// genesis frame under a freshly generated id and pushes it to the
/// subscriber. The fresh id is drawn from the process-wide generator, so
/// success is promised only as far as the id is: on an empty log every id
/// fits, so a fresh store is always initialized; on success the log
/// gained exactly the genesis frame, whose id comes after every id the
/// log held, and on failure nothing changed.
pub fn ensure_genesis(store: &mut Store, sink: &mut Sink) -> (r: Result<
    Option<Frame>,
    BootstrapError,
>)
    requires
        old(store).wf(),
    ensures
        final(store).wf(),
        final(store)@.cas == old(store)@.cas,
        has_sentinel(old(store)@.log) ==> r == Ok::<Option<Frame>, BootstrapError>(None) && final(store)@.log == old(
            store,
        )@.log && final(sink)@ == old(sink)@,
        !has_sentinel(old(store)@.log) && r is Ok ==> (r matches Ok(g) && g matches Some(f)
            && is_genesis_frame(f, f.id) && id_fits(old(store)@.log, f.id) && final(store)@.log
            == old(store)@.log.push(f) && final(sink)@ == old(sink)@.push(f)),
        old(store)@.log.len() == 0 ==> r is Ok,
        r is Ok ==> bootstrap_ok_step(old(store)@.log, final(store)@.log),
        r is Err ==> final(store)@.log == old(store)@.log && final(sink)@ == old(sink)@,
{
    let id = generate_id();
    ensure_genesis_with_id(store, sink, id)
}

proof fn lemma_sentinel_count_some(s: Seq<Frame>)
    requires
        has_sentinel(s),
    ensures
        sentinel_count(s) >= 1,
    decreases s.len(),
{
    let i = choose|i: int| 0 <= i < s.len() && s[i].is_sentinel();
    if i < s.len() - 1 {
        assert(s.drop_last()[i] == s[i]);
        lemma_sentinel_count_some(s.drop_last());
    }
}

proof fn lemma_sentinel_count_none(s: Seq<Frame>)
    requires
        !has_sentinel(s),
    ensures
        sentinel_count(s) == 0,
    decreases s.len(),
{
    if s.len() > 0 {
        assert(!s.last().is_sentinel());
        assert(forall|i: int|
            0 <= i < s.drop_last().len() ==> s.drop_last()[i] == s[i] && !s[i].is_sentinel());
        lemma_sentinel_count_none(s.drop_last());
    }
}

/// After initializing a store whose log held no sentinel, exactly one
/// sentinel frame exists; and since initialization leaves a log that
/// already has a sentinel unchanged, repeated attempts keep that count at
/// one.
pub proof fn lemma_bootstrap_unique_sentinel(s: Seq<Frame>, f: Frame)
    requires
        !has_sentinel(s),
        f.is_sentinel(),
    ensures
        sentinel_count(s.push(f)) == 1,
        has_sentinel(s.push(f)),
{
    lemma_sentinel_count_none(s);
    assert(s.push(f).drop_last() =~= s);
    assert(s.push(f).last() == f);
    assert(s.push(f)[s.len() as int].is_sentinel());
}

/// Exactly one sentinel, however many times the store is initialized:
/// starting from an empty log, any chain of completed initializations —
/// each step being what `ensure_genesis` ensures of an `Ok` return —
/// ends with exactly one sentinel frame. The first run appends it; every
/// later run finds it and appends nothing.
pub proof fn lemma_bootstrap_repeated(logs: Seq<Seq<Frame>>)
    requires
        logs.len() >= 2,
        logs[0].len() == 0,
        forall|i: int| 0 <= i < logs.len() - 1 ==> bootstrap_ok_step(#[trigger] logs[i], logs[i
            + 1]),
    ensures
        has_sentinel(logs.last()),
        sentinel_count(logs.last()) == 1,
    decreases logs.len(),
{
    if logs.len() == 2 {
        assert(bootstrap_ok_step(logs[0], logs[1]));
        assert(!has_sentinel(logs[0]));
        let f = choose|f: Frame| f.is_sentinel() && logs[1] == logs[0].push(f);
        lemma_bootstrap_unique_sentinel(logs[0], f);
    } else {
        let prior = logs.drop_last();
        assert(forall|i: int| 0 <= i < prior.len() ==> prior[i] == logs[i]);
        assert forall|i: int| 0 <= i < prior.len() - 1 implies bootstrap_ok_step(
            #[trigger] prior[i],
            prior[i + 1],
        ) by {
            assert(prior[i] == logs[i]);
            assert(prior[i + 1] == logs[i + 1]);
            assert(bootstrap_ok_step(logs[i], logs[i + 1]));
        }
        lemma_bootstrap_repeated(prior);
        let k = logs.len() - 2;
        assert(prior.last() == logs[k]);
        assert(bootstrap_ok_step(logs[k], logs[k + 1]));
    }
}

} // verus!
