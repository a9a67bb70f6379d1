//! The mathematical model of a window.
//!
//! A `WinView` is the abstract state of one process's window: the element
//! contents of every rank's exposed region as established at the last
//! epoch boundary, the transfers issued in the current epoch but not yet
//! completed, and the state of the three synchronization protocols. Each
//! operation of the window core is specified by a `step_*` function that
//! maps the view (and the operation's arguments) to the successor view and
//! the reported result; the executable code is verified to follow these
//! transitions exactly.
//!
//! Transfers are buffered: a `put` only enqueues its data, and the target
//! region changes exactly when the enclosing epoch completes (the closing
//! `fence`, the origin's `complete`, or the `unlock` of the target rank).
//! A `get` reads the contents established at the last epoch boundary.
//! Because the model is a single sequential machine, every observation the
//! protocols permit sees exactly the values the epoch guarantees.

use vstd::prelude::*;

use crate::errors::RmaError;

verus! {

/// One buffered `put`: `data` is to land at element offset `disp` of the
/// target region when the current epoch completes.
pub ghost struct PendingPut<T> {
    pub disp: int,
    pub data: Seq<T>,
}

/// The abstract state of a window.
#[verifier::ext_equal]
pub ghost struct WinView<T> {
    /// The rank of the process that owns this window object.
    pub rank: int,
    /// The exposed element count, fixed at creation.
    pub length: int,
    /// For each rank, the contents of its exposed region as of the last
    /// epoch boundary. `regions[rank]` is the local buffer.
    pub regions: Seq<Seq<T>>,
    /// For each target rank, the puts issued in the open epoch and not yet
    /// completed, in issue order.
    pub pending: Seq<Seq<PendingPut<T>>>,
    /// Fence protocol: an epoch delimited by two fences is open.
    pub fence_open: bool,
    /// Active-target protocol, target role: a `post` awaits its `wait`.
    pub posted: bool,
    /// Active-target protocol, origin role: the number of `start` calls
    /// not yet matched by a `complete`.
    pub starts: int,
    /// Passive-target protocol: for each rank, whether an exclusive lock
    /// on that rank's region is held.
    pub locks: Seq<bool>,
    /// The transport under this window has failed; every operation is
    /// refused until the window is released.
    pub lost: bool,
}

/// `s` with `data` written at offset `disp`; elements outside the range
/// keep their values. Positions past the end of `s` are discarded, but
/// every step only writes ranges that lie inside `s`.
pub open spec fn store_range<T>(s: Seq<T>, disp: int, data: Seq<T>) -> Seq<T> {
    Seq::new(s.len(), |i: int| if disp <= i < disp + data.len() { data[i - disp] } else { s[i] })
}

/// The buffered puts `ops` applied to `region` in issue order.
pub open spec fn apply_ops<T>(region: Seq<T>, ops: Seq<PendingPut<T>>) -> Seq<T>
    decreases ops.len(),
{
    if ops.len() == 0 {
        region
    } else {
        apply_ops(store_range(region, ops[0].disp, ops[0].data), ops.drop_first())
    }
}

impl<T> WinView<T> {
    /// The number of ranks sharing the window.
    pub open spec fn nranks(self) -> int {
        self.regions.len() as int
    }

    /// Well-formedness: the per-rank tables cover exactly the ranks, every
    /// region has the exposed length, and every buffered put lies inside
    /// its target region.
    pub open spec fn wf(self) -> bool {
        &&& 0 <= self.rank < self.nranks()
        &&& 0 <= self.length
        &&& self.locks.len() == self.nranks()
        &&& self.pending.len() == self.nranks()
        &&& self.starts >= 0
        &&& forall|r: int|
            0 <= r < self.nranks() ==> (#[trigger] self.regions[r]).len() == self.length
        &&& forall|r: int, i: int|
            0 <= r < self.nranks() && 0 <= i < self.pending[r].len() ==> {
                &&& 0 <= (#[trigger] self.pending[r][i]).disp
                &&& self.pending[r][i].disp + self.pending[r][i].data.len() <= self.length
            }
    }

    /// Some exclusive lock is held.
    pub open spec fn any_lock(self) -> bool {
        exists|r: int| 0 <= r < self.locks.len() && self.locks[r]
    }

    /// An epoch authorizing transfers to `trank` is open: a fence epoch, an
    /// origin-side active-target epoch, or an exclusive lock on `trank`.
    pub open spec fn epoch_open_for(self, trank: int) -> bool {
        ||| self.fence_open
        ||| self.starts > 0
        ||| (0 <= trank < self.locks.len() && self.locks[trank])
    }

    /// No synchronization protocol has an open epoch or a held lock.
    pub open spec fn sync_idle(self) -> bool {
        &&& !self.fence_open
        &&& !self.posted
        &&& self.starts == 0
        &&& !self.any_lock()
    }

    /// Every region with its buffered puts applied: the contents the next
    /// epoch boundary establishes.
    pub open spec fn committed(self) -> Seq<Seq<T>> {
        Seq::new(self.regions.len(), |r: int| apply_ops(self.regions[r], self.pending[r]))
    }

    /// An empty pending table over the same ranks.
    pub open spec fn no_pending(self) -> Seq<Seq<PendingPut<T>>> {
        Seq::new(self.pending.len(), |r: int| Seq::<PendingPut<T>>::empty())
    }

    /// Transition of `put`: enqueue `ocount` elements taken at offset
    /// `odisp` of `origin`, to land at offset `tdisp` of `trank`'s region.
    /// Checked in order: transport, an open epoch for `trank`, count
    /// equality, range bounds on both sides.
    pub open spec fn step_put(
        self,
        origin: Seq<T>,
        odisp: int,
        ocount: int,
        trank: int,
        tdisp: int,
        tcount: int,
    ) -> (WinView<T>, Result<(), RmaError>) {
        if self.lost {
            (self, Err(RmaError::TransportLost))
        } else if !self.epoch_open_for(trank) {
            (self, Err(RmaError::SynchronizationError))
        } else if ocount != tcount {
            (self, Err(RmaError::CountMismatch))
        } else if !(odisp + ocount <= origin.len() && tdisp + tcount <= self.length) {
            (self, Err(RmaError::OutOfRange))
        } else {
            let op = PendingPut { disp: tdisp, data: origin.subrange(odisp, odisp + ocount) };
            (
                WinView { pending: self.pending.update(trank, self.pending[trank].push(op)), ..self },
                Ok(()),
            )
        }
    }

    /// Transition of `get`: the new contents of the local buffer, filled at
    /// offset `ldisp` with `tcount` elements read at offset `tdisp` of
    /// `trank`'s region as of the last epoch boundary. The window state
    /// itself does not change. Checks mirror `step_put`.
    pub open spec fn step_get(
        self,
        local: Seq<T>,
        ldisp: int,
        lcount: int,
        trank: int,
        tdisp: int,
        tcount: int,
    ) -> (Seq<T>, Result<(), RmaError>) {
        if self.lost {
            (local, Err(RmaError::TransportLost))
        } else if !self.epoch_open_for(trank) {
            (local, Err(RmaError::SynchronizationError))
        } else if lcount != tcount {
            (local, Err(RmaError::CountMismatch))
        } else if !(ldisp + lcount <= local.len() && tdisp + tcount <= self.length) {
            (local, Err(RmaError::OutOfRange))
        } else {
            (store_range(local, ldisp, self.regions[trank].subrange(tdisp, tdisp + tcount)), Ok(()))
        }
    }

    /// Transition of `put_whole_vector`: the whole local region, to land
    /// over the whole of `trank`'s region.
    pub open spec fn step_put_whole(self, trank: int) -> (WinView<T>, Result<(), RmaError>) {
        self.step_put(self.regions[self.rank], 0, self.length, trank, 0, self.length)
    }

    /// Transition of `get_whole_vector`: the whole of `trank`'s region, as
    /// of the last epoch boundary, read into the whole local region.
    pub open spec fn step_get_whole(self, trank: int) -> (WinView<T>, Result<(), RmaError>) {
        let (filled, r) = self.step_get(self.regions[self.rank], 0, self.length, trank, 0, self.length);
        (WinView { regions: self.regions.update(self.rank, filled), ..self }, r)
    }

    /// Transition of `fence`. A fence is refused while another protocol is
    /// engaged. Otherwise it alternates: a fence with no open fence epoch
    /// opens one; a fence with an open epoch closes it, at which point
    /// every buffered put lands and the pending table drains.
    pub open spec fn step_fence(self) -> (WinView<T>, Result<(), RmaError>) {
        if self.lost {
            (self, Err(RmaError::TransportLost))
        } else if self.posted || self.starts > 0 || self.any_lock() {
            (self, Err(RmaError::SynchronizationError))
        } else if !self.fence_open {
            (WinView { fence_open: true, ..self }, Ok(()))
        } else {
            (
                WinView {
                    fence_open: false,
                    regions: self.committed(),
                    pending: self.no_pending(),
                    ..self
                },
                Ok(()),
            )
        }
    }

    /// Transition of `post` (target role): declare willingness to expose
    /// the local region to the group. Refused while the fence or passive
    /// protocol is engaged, and when a post is already outstanding.
    pub open spec fn step_post(self) -> (WinView<T>, Result<(), RmaError>) {
        if self.lost {
            (self, Err(RmaError::TransportLost))
        } else if self.fence_open || self.any_lock() {
            (self, Err(RmaError::SynchronizationError))
        } else if self.posted {
            (self, Err(RmaError::SynchronizationError))
        } else {
            (WinView { posted: true, ..self }, Ok(()))
        }
    }

    /// Transition of `start` (origin role): open an origin epoch against a
    /// group. Refused while the fence or passive protocol is engaged.
    pub open spec fn step_start(self) -> (WinView<T>, Result<(), RmaError>) {
        if self.lost {
            (self, Err(RmaError::TransportLost))
        } else if self.fence_open || self.any_lock() {
            (self, Err(RmaError::SynchronizationError))
        } else {
            (WinView { starts: self.starts + 1, ..self }, Ok(()))
        }
    }

    /// Transition of `complete` (origin role): close one origin epoch.
    /// Refused when no `start` is outstanding. Every transfer issued since
    /// the matching `start` is sent, so the buffered puts land.
    pub open spec fn step_complete(self) -> (WinView<T>, Result<(), RmaError>) {
        if self.lost {
            (self, Err(RmaError::TransportLost))
        } else if self.starts <= 0 {
            (self, Err(RmaError::SynchronizationError))
        } else {
            (
                WinView {
                    starts: self.starts - 1,
                    regions: self.committed(),
                    pending: self.no_pending(),
                    ..self
                },
                Ok(()),
            )
        }
    }

    /// Transition of `wait` (target role): close the exposure epoch of the
    /// outstanding `post`. Refused when no post is outstanding. A `start`
    /// not yet matched by a `complete` would block the wait forever; under
    /// the model's bounded wait that imbalance is refused as protocol
    /// misuse instead.
    pub open spec fn step_wait(self) -> (WinView<T>, Result<(), RmaError>) {
        if self.lost {
            (self, Err(RmaError::TransportLost))
        } else if !self.posted {
            (self, Err(RmaError::SynchronizationError))
        } else if self.starts > 0 {
            (self, Err(RmaError::SynchronizationError))
        } else {
            (WinView { posted: false, ..self }, Ok(()))
        }
    }

    /// Transition of `exclusive_lock` on `rank`'s region. Refused while
    /// the fence or active-target protocol is engaged, and when the lock on
    /// that same rank is already held (a second acquisition would block
    /// forever; the model's bounded wait refuses it). Locks on other ranks
    /// do not matter: the protocol is scoped per (window, rank) pair.
    pub open spec fn step_lock(self, rank: int) -> (WinView<T>, Result<(), RmaError>) {
        if self.lost {
            (self, Err(RmaError::TransportLost))
        } else if self.fence_open || self.posted || self.starts > 0 {
            (self, Err(RmaError::SynchronizationError))
        } else if self.locks[rank] {
            (self, Err(RmaError::SynchronizationError))
        } else {
            (WinView { locks: self.locks.update(rank, true), ..self }, Ok(()))
        }
    }

    /// Transition of `unlock` on `rank`'s region. Refused when the lock is
    /// not held. On release, every transfer issued under the lock is
    /// complete and visible at the target, so the puts buffered for that
    /// rank land and its pending queue drains.
    pub open spec fn step_unlock(self, rank: int) -> (WinView<T>, Result<(), RmaError>) {
        if self.lost {
            (self, Err(RmaError::TransportLost))
        } else if !(0 <= rank < self.locks.len() && self.locks[rank]) {
            (self, Err(RmaError::SynchronizationError))
        } else {
            (
                WinView {
                    locks: self.locks.update(rank, false),
                    regions: self.regions.update(rank, apply_ops(self.regions[rank], self.pending[rank])),
                    pending: self.pending.update(rank, Seq::empty()),
                    ..self
                },
                Ok(()),
            )
        }
    }
}

/// `apply_ops` keeps the length of the region.
pub proof fn lemma_apply_ops_len<T>(region: Seq<T>, ops: Seq<PendingPut<T>>)
    ensures
        apply_ops(region, ops).len() == region.len(),
    decreases ops.len(),
{
    if ops.len() > 0 {
        lemma_apply_ops_len(store_range(region, ops[0].disp, ops[0].data), ops.drop_first());
    }
}

/// A single buffered put applies as one range store.
pub proof fn lemma_apply_ops_singleton<T>(region: Seq<T>, op: PendingPut<T>)
    ensures
        apply_ops(region, seq![op]) == store_range(region, op.disp, op.data),
{
    assert(seq![op][0] == op);
    assert(seq![op].drop_first() =~= Seq::<PendingPut<T>>::empty());
    assert(apply_ops(store_range(region, op.disp, op.data), seq![op].drop_first())
        == store_range(region, op.disp, op.data));
}

/// Applying one more buffered put after `ops` is storing its range into
/// the result of applying `ops`.
pub proof fn lemma_apply_ops_push<T>(region: Seq<T>, ops: Seq<PendingPut<T>>, op: PendingPut<T>)
    ensures
        apply_ops(region, ops.push(op)) == store_range(apply_ops(region, ops), op.disp, op.data),
    decreases ops.len(),
{
    let snoc = ops.push(op);
    if ops.len() == 0 {
        assert(snoc[0] == op);
        assert(snoc.drop_first() =~= Seq::<PendingPut<T>>::empty());
        assert(apply_ops(region, snoc) == apply_ops(store_range(region, op.disp, op.data), snoc.drop_first()));
        assert(apply_ops(store_range(region, op.disp, op.data), snoc.drop_first()) == store_range(region, op.disp, op.data));
        assert(apply_ops(region, ops) == region);
    } else {
        assert(snoc.drop_first() =~= ops.drop_first().push(op));
        assert(snoc[0] == ops[0]);
        lemma_apply_ops_push(store_range(region, ops[0].disp, ops[0].data), ops.drop_first(), op);
        assert(apply_ops(region, snoc) == apply_ops(store_range(region, ops[0].disp, ops[0].data), snoc.drop_first()));
        assert(apply_ops(region, ops) == apply_ops(store_range(region, ops[0].disp, ops[0].data), ops.drop_first()));
    }
}

} // verus!
