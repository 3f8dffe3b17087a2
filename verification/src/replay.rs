//! The replay streamer: forwards every frame present in the log, in log
//! order, to the subscriber sink, exactly once each.

use vstd::prelude::*;
use crate::sink::Sink;
use crate::store::Store;

verus! {

/// Forwards every frame of the log at the time of the call to the sink, in
/// log order, exactly once each, and returns how many frames were
/// forwarded: afterwards the sink's transcript is its old transcript
/// followed by precisely the log.
pub fn replay(store: &Store, sink: &mut Sink) -> (count: usize)
    ensures
        final(sink)@ == old(sink)@ + store@.log,
        count == store@.log.len(),
{
    let n = store.len();
    let mut idx: usize = 0;
    proof {
        assert(sink@ =~= old(sink)@ + store@.log.subrange(0, 0));
    }
    while idx < n
        invariant
            n == store@.log.len(),
            idx <= n,
            sink@ == old(sink)@ + store@.log.subrange(0, idx as int),
        decreases n - idx,
    {
        sink.emit(store.get(idx).clone());
        proof {
            assert(sink@ =~= old(sink)@ + store@.log.subrange(0, idx + 1));
        }
        idx += 1;
    }
    proof {
        assert(store@.log.subrange(0, n as int) =~= store@.log);
    }
    n
}

} // verus!
