//! Laws of the window model: properties that relate several operations,
//! stated over the `step_*` transitions and proved once for every window
//! state, element type and parameter choice they admit.

use vstd::prelude::*;

use crate::errors::RmaError;
use crate::model::{apply_ops, store_range, WinView};

verus! {

/// Law: round-trip visibility of a whole-region put. When the origin puts
/// its whole local region into rank `q`'s region inside a fence epoch
/// with no other transfer in flight, and the matching fence closes the
/// epoch, both calls succeed and `q`'s region holds exactly the origin's
/// data; every other region is untouched.
pub proof fn lemma_fence_roundtrip_whole<T>(w: WinView<T>, q: int)
    requires
        w.wf(),
        0 <= q < w.nranks(),
        !w.lost,
        w.fence_open,
        !w.posted,
        w.starts == 0,
        !w.any_lock(),
        forall|r: int| 0 <= r < w.nranks() ==> (#[trigger] w.pending[r]).len() == 0,
    ensures
        ({
            let (w1, r1) = w.step_put_whole(q);
            let (w2, r2) = w1.step_fence();
            &&& r1 == Ok::<(), RmaError>(())
            &&& r2 == Ok::<(), RmaError>(())
            &&& w2.regions[q] == w.regions[w.rank]
            &&& forall|r: int|
                0 <= r < w.nranks() && r != q ==> #[trigger] w2.regions[r] == w.regions[r]
            &&& !w2.fence_open
        }),
{
    let (w1, r1) = w.step_put_whole(q);
    let origin = w.regions[w.rank];
    assert(origin.subrange(0, w.length) =~= origin);
    let op = crate::model::PendingPut { disp: 0, data: origin };
    assert(w1.pending[q] =~= w.pending[q].push(op));
    assert(w.pending[q] =~= Seq::<crate::model::PendingPut<T>>::empty());
    assert(w1.pending[q] =~= seq![op]);
    let (w2, r2) = w1.step_fence();
    assert(r2 == Ok::<(), RmaError>(()));
    assert forall|r: int| 0 <= r < w.nranks() implies #[trigger] w2.regions[r] == (if r == q {
        store_range(w.regions[q], 0, origin)
    } else {
        w.regions[r]
    }) by {
        assert(w2.regions[r] == apply_ops(w1.regions[r], w1.pending[r]));
        if r == q {
            assert(w1.regions[q] == w.regions[q]);
            crate::model::lemma_apply_ops_singleton(w.regions[q], op);
            assert(apply_ops(w1.regions[q], w1.pending[q]) == store_range(w.regions[q], 0, origin));
        } else {
            assert(w1.pending[r] == w.pending[r]);
            assert(w1.pending[r].len() == 0);
        }
    }
    assert(store_range(w.regions[q], 0, origin) =~= origin);
}

/// Law: round-trip of an arbitrary in-bounds sub-range. A `put` of
/// `count` elements at `tdisp` of rank `q`'s region inside a fence epoch,
/// the fence that completes it, the fence that opens the next epoch, and
/// a `get` of the same range all succeed, and the `get` returns exactly
/// the data originally put; the rest of the local buffer is untouched.
pub proof fn lemma_epoch_roundtrip_range<T>(
    w: WinView<T>,
    origin: Seq<T>,
    odisp: int,
    count: int,
    q: int,
    tdisp: int,
    local: Seq<T>,
    ldisp: int,
)
    requires
        w.wf(),
        0 <= q < w.nranks(),
        !w.lost,
        w.fence_open,
        !w.posted,
        w.starts == 0,
        !w.any_lock(),
        forall|r: int| 0 <= r < w.nranks() ==> (#[trigger] w.pending[r]).len() == 0,
        0 <= count,
        0 <= odisp,
        odisp + count <= origin.len(),
        0 <= tdisp,
        tdisp + count <= w.length,
        0 <= ldisp,
        ldisp + count <= local.len(),
    ensures
        ({
            let (w1, r1) = w.step_put(origin, odisp, count, q, tdisp, count);
            let (w2, r2) = w1.step_fence();
            let (w3, r3) = w2.step_fence();
            let (filled, r4) = w3.step_get(local, ldisp, count, q, tdisp, count);
            &&& r1 == Ok::<(), RmaError>(())
            &&& r2 == Ok::<(), RmaError>(())
            &&& r3 == Ok::<(), RmaError>(())
            &&& r4 == Ok::<(), RmaError>(())
            &&& filled.subrange(ldisp, ldisp + count) == origin.subrange(odisp, odisp + count)
            &&& forall|i: int|
                0 <= i < local.len() && !(ldisp <= i < ldisp + count) ==> #[trigger] filled[i]
                    == local[i]
        }),
{
    let data = origin.subrange(odisp, odisp + count);
    let (w1, r1) = w.step_put(origin, odisp, count, q, tdisp, count);
    let op = crate::model::PendingPut { disp: tdisp, data };
    assert(w.pending[q] =~= Seq::<crate::model::PendingPut<T>>::empty());
    assert(w1.pending[q] =~= seq![op]);
    let (w2, r2) = w1.step_fence();
    assert(r2 == Ok::<(), RmaError>(()));
    assert(w2.regions[q] == apply_ops(w1.regions[q], w1.pending[q]));
    assert(w1.regions[q] == w.regions[q]);
    crate::model::lemma_apply_ops_singleton(w.regions[q], op);
    assert(w2.regions[q] == store_range(w.regions[q], tdisp, data));
    let (w3, r3) = w2.step_fence();
    assert(!w2.posted && w2.starts == 0);
    assert(!w2.any_lock()) by {
        assert(forall|r: int| 0 <= r < w.locks.len() ==> !(#[trigger] w.locks[r]));
    }
    assert(r3 == Ok::<(), RmaError>(()));
    assert(w3.regions == w2.regions);
    let (filled, r4) = w3.step_get(local, ldisp, count, q, tdisp, count);
    assert(w3.regions[q].len() == w.length) by {
        crate::model::lemma_apply_ops_len(w1.regions[q], w1.pending[q]);
    }
    assert(r4 == Ok::<(), RmaError>(()));
    let read = w3.regions[q].subrange(tdisp, tdisp + count);
    assert(read =~= data);
    assert(filled == store_range(local, ldisp, read));
    assert(filled.subrange(ldisp, ldisp + count) =~= data);
}

/// Law: a transfer whose target range reaches past the exposed length is
/// refused with `OutOfRange` — for every such choice of displacement and
/// count, whether putting or getting — and neither the window nor the
/// local buffer changes. Nothing is silently clipped.
pub proof fn lemma_transfer_out_of_range<T>(
    w: WinView<T>,
    origin: Seq<T>,
    odisp: int,
    count: int,
    q: int,
    tdisp: int,
)
    requires
        w.wf(),
        !w.lost,
        w.epoch_open_for(q),
        tdisp + count > w.length,
    ensures
        w.step_put(origin, odisp, count, q, tdisp, count) == (w, Err::<(), RmaError>(
            RmaError::OutOfRange,
        )),
        w.step_get(origin, odisp, count, q, tdisp, count) == (origin, Err::<(), RmaError>(
            RmaError::OutOfRange,
        )),
{
}

/// Law: passive-target locks are scoped per (window, rank) pair. With
/// the exclusive lock held on rank `a`, acquiring and releasing the lock
/// on a different rank `b` both succeed — the lock on `a` never blocks
/// them — and the lock on `a` stays held throughout.
pub proof fn lemma_lock_independence<T>(w: WinView<T>, a: int, b: int)
    requires
        w.wf(),
        !w.lost,
        0 <= a < w.nranks(),
        0 <= b < w.nranks(),
        a != b,
        !w.fence_open,
        !w.posted,
        w.starts == 0,
        w.locks[a],
        !w.locks[b],
    ensures
        ({
            let (w1, r1) = w.step_lock(b);
            let (w2, r2) = w1.step_unlock(b);
            &&& r1 == Ok::<(), RmaError>(())
            &&& r2 == Ok::<(), RmaError>(())
            &&& w1.locks[a]
            &&& w2.locks[a]
        }),
{
}

/// Law: `start` and `complete` calls must balance before a `wait` can
/// report completion. After a `post` and a `start`, a `wait` with the
/// start still unmatched is refused as `SynchronizationError` and changes
/// nothing; once the `complete` matches the `start`, the `wait` succeeds
/// and closes the exposure epoch.
pub proof fn lemma_active_target_balance<T>(w: WinView<T>)
    requires
        w.wf(),
        !w.lost,
        !w.fence_open,
        !w.posted,
        w.starts == 0,
        !w.any_lock(),
    ensures
        ({
            let (w1, r1) = w.step_post();
            let (w2, r2) = w1.step_start();
            let (wu, ru) = w2.step_wait();
            let (w3, r3) = w2.step_complete();
            let (w4, r4) = w3.step_wait();
            &&& r1 == Ok::<(), RmaError>(())
            &&& r2 == Ok::<(), RmaError>(())
            &&& ru == Err::<(), RmaError>(RmaError::SynchronizationError)
            &&& wu == w2
            &&& r3 == Ok::<(), RmaError>(())
            &&& r4 == Ok::<(), RmaError>(())
            &&& !w4.posted
            &&& w4.starts == 0
        }),
{
}

} // verus!
