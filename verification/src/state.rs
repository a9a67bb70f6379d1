//! The executable window core shared by the two ownership variants.
//!
//! `WindowState` carries the concrete per-rank region contents, the
//! buffered puts of the open epoch, and the synchronization protocol
//! state. Every method is verified to follow the corresponding `step_*`
//! transition of the abstract model in `model`.

use vstd::prelude::*;

use crate::errors::RmaError;
use crate::model::{apply_ops, store_range, PendingPut, WinView};

verus! {

/// One buffered `put`, concretely: `data` lands at element offset `disp`
/// of its target region when the epoch completes.
pub struct PendingOp<T> {
    disp: usize,
    data: Vec<T>,
}

impl<T> View for PendingOp<T> {
    type V = PendingPut<T>;

    closed spec fn view(&self) -> PendingPut<T> {
        PendingPut { disp: self.disp as int, data: self.data@ }
    }
}

/// The concrete state of one process's window: region contents for every
/// rank, the puts buffered in the open epoch, and the state of the three
/// synchronization protocols.
pub struct WindowState<T> {
    rank: usize,
    length: usize,
    regions: Vec<Vec<T>>,
    pending: Vec<Vec<PendingOp<T>>>,
    fence_open: bool,
    posted: bool,
    starts: usize,
    locks: Vec<bool>,
    lost: bool,
}

impl<T> View for WindowState<T> {
    type V = WinView<T>;

    closed spec fn view(&self) -> WinView<T> {
        WinView {
            rank: self.rank as int,
            length: self.length as int,
            regions: Seq::new(self.regions@.len() as nat, |r: int| self.regions@[r]@),
            pending: Seq::new(
                self.pending@.len() as nat,
                |r: int| Seq::new(self.pending@[r]@.len() as nat, |i: int| self.pending@[r]@[i]@),
            ),
            fence_open: self.fence_open,
            posted: self.posted,
            starts: self.starts as int,
            locks: self.locks@,
            lost: self.lost,
        }
    }
}

/// A fresh vector of `count` copies of `value`.
pub(crate) fn fill<T: Copy>(count: usize, value: T) -> (res: Vec<T>)
    ensures
        res@ == Seq::new(count as nat, |i: int| value),
{
    let mut res: Vec<T> = Vec::new();
    let mut i: usize = 0;
    while i < count
        invariant
            i <= count,
            res@ == Seq::new(i as nat, |j: int| value),
        decreases count - i,
    {
        res.push(value);
        proof {
            assert(res@ =~= Seq::new((i + 1) as nat, |j: int| value));
        }
        i = i + 1;
    }
    res
}

/// The elements of `src` from `disp` on, `count` of them, as a fresh
/// vector.
fn copy_range<T: Copy>(src: &Vec<T>, disp: usize, count: usize) -> (res: Vec<T>)
    requires
        disp + count <= src.len(),
    ensures
        res@ == src@.subrange(disp as int, disp + count),
{
    let mut res: Vec<T> = Vec::new();
    let mut i: usize = 0;
    while i < count
        invariant
            i <= count,
            disp + count <= src.len(),
            res@ == src@.subrange(disp as int, disp + i),
        decreases count - i,
    {
        res.push(src[disp + i]);
        proof {
            assert(res@ =~= src@.subrange(disp as int, disp + i + 1));
        }
        i = i + 1;
    }
    res
}

/// Writes `data` into `regions[r]` at element offset `disp`.
fn write_put<T: Copy>(regions: &mut Vec<Vec<T>>, r: usize, disp: usize, data: &Vec<T>)
    requires
        r < old(regions)@.len(),
        disp + data@.len() <= old(regions)@[r as int]@.len(),
    ensures
        final(regions)@.len() == old(regions)@.len(),
        final(regions)@[r as int]@ == store_range(old(regions)@[r as int]@, disp as int, data@),
        forall|s: int|
            0 <= s < old(regions)@.len() && s != r ==> final(regions)@[s] == old(regions)@[s],
{
    let region = &mut regions[r];
    let ghost orig: Seq<T> = region@;
    let region_len = region.len();
    let mut j: usize = 0;
    while j < data.len()
        invariant
            j <= data@.len(),
            disp + data@.len() <= region_len,
            region_len == orig.len(),
            region@.len() == orig.len(),
            forall|i: int|
                disp <= i < disp + j ==> region@[i] == data@[i - disp],
            forall|i: int|
                0 <= i < region@.len() && !(disp <= i < disp + j) ==> region@[i] == orig[i],
        decreases data@.len() - j,
    {
        let x = data[j];
        region[disp + j] = x;
        j = j + 1;
    }
    proof {
        assert(final(region)@ =~= store_range(orig, disp as int, data@));
    }
}

impl<T: Copy> WindowState<T> {
    /// A fresh window for `rank` among `nranks` ranks: `local_region` is
    /// the local exposed buffer, every remote region is modeled as
    /// `remote_init` repeated to the same length, no epoch is open and no
    /// lock is held.
    pub fn new_window(rank: usize, nranks: usize, local_region: Vec<T>, remote_init: T) -> (w: Self)
        requires
            rank < nranks,
        ensures
            w@.wf(),
            w@.rank == rank as int,
            w@.length == local_region@.len(),
            w@.nranks() == nranks as int,
            w@.regions[rank as int] == local_region@,
            forall|r: int|
                0 <= r < nranks && r != rank ==> w@.regions[r] == Seq::new(
                    local_region@.len(),
                    |i: int| remote_init,
                ),
            forall|r: int| 0 <= r < nranks ==> (#[trigger] w@.pending[r]).len() == 0,
            forall|r: int| 0 <= r < nranks ==> !(#[trigger] w@.locks[r]),
            !w@.fence_open,
            !w@.posted,
            w@.starts == 0,
            !w@.lost,
    {
        let length = local_region.len();
        let mut regions: Vec<Vec<T>> = Vec::new();
        let mut pending: Vec<Vec<PendingOp<T>>> = Vec::new();
        let mut locks: Vec<bool> = Vec::new();
        let mut r: usize = 0;
        while r < nranks
            invariant
                r <= nranks,
                regions@.len() == r as int,
                pending@.len() == r as int,
                locks@.len() == r as int,
                forall|s: int|
                    0 <= s < r ==> (#[trigger] regions@[s])@ == Seq::new(
                        length as nat,
                        |i: int| remote_init,
                    ),
                forall|s: int| 0 <= s < r ==> (#[trigger] pending@[s])@.len() == 0,
                forall|s: int| 0 <= s < r ==> !(#[trigger] locks@[s]),
            decreases nranks - r,
        {
            regions.push(fill(length, remote_init));
            pending.push(Vec::new());
            locks.push(false);
            r = r + 1;
        }
        let _ = regions.remove(rank);
        regions.insert(rank, local_region);
        WindowState {
            rank,
            length,
            regions,
            pending,
            fence_open: false,
            posted: false,
            starts: 0,
            locks,
            lost: false,
        }
    }

    /// Consumes the window state and hands out the local exposed region.
    pub fn into_local_region(self) -> (buf: Vec<T>)
        requires
            self@.wf(),
        ensures
            buf@ == self@.regions[self@.rank],
    {
        let ghost w0 = self@;
        let WindowState { rank, mut regions, .. } = self;
        proof {
            assert(regions@[rank as int]@ == w0.regions[w0.rank]);
        }
        regions.remove(rank)
    }

    /// The contents of the local exposed region, as of the last epoch
    /// boundary.
    pub fn local_region(&self) -> (v: &Vec<T>)
        requires
            self@.wf(),
        ensures
            v@ == self@.regions[self@.rank],
    {
        &self.regions[self.rank]
    }

    /// Overwrites one element of the local exposed region. Local writes
    /// race with remote access inside an open epoch; keeping them apart is
    /// the caller's obligation under the protocols.
    pub fn write_local(&mut self, index: usize, value: T)
        requires
            old(self)@.wf(),
            (index as int) < old(self)@.length,
        ensures
            final(self)@.wf(),
            final(self)@ == (WinView {
                regions: old(self)@.regions.update(
                    old(self)@.rank,
                    old(self)@.regions[old(self)@.rank].update(index as int, value),
                ),
                ..old(self)@
            }),
    {
        let rank = self.rank;
        self.regions[rank][index] = value;
        proof {
            assert(self@.regions =~~= old(self)@.regions.update(
                old(self)@.rank,
                old(self)@.regions[old(self)@.rank].update(index as int, value),
            ));
            assert(self@ =~~= (WinView {
                regions: old(self)@.regions.update(
                    old(self)@.rank,
                    old(self)@.regions[old(self)@.rank].update(index as int, value),
                ),
                ..old(self)@
            }));
        }
    }

    /// Issues a `put`: validates the transfer and buffers it for the open
    /// epoch, following `step_put`.
    pub fn put(
        &mut self,
        origin: &Vec<T>,
        origin_disp: usize,
        origin_count: usize,
        target_rank: usize,
        target_disp: usize,
        target_count: usize,
    ) -> (r: Result<(), RmaError>)
        requires
            old(self)@.wf(),
            (target_rank as int) < old(self)@.nranks(),
        ensures
            final(self)@.wf(),
            (final(self)@, r) == old(self)@.step_put(
                origin@,
                origin_disp as int,
                origin_count as int,
                target_rank as int,
                target_disp as int,
                target_count as int,
            ),
    {
        if self.lost {
            return Err(RmaError::TransportLost);
        }
        let epoch_open = self.fence_open || self.starts > 0 || self.locks[target_rank];
        if !epoch_open {
            return Err(RmaError::SynchronizationError);
        }
        if origin_count != target_count {
            return Err(RmaError::CountMismatch);
        }
        if origin_count > origin.len() || origin_disp > origin.len() - origin_count {
            return Err(RmaError::OutOfRange);
        }
        if target_count > self.length || target_disp > self.length - target_count {
            return Err(RmaError::OutOfRange);
        }
        let data = copy_range(origin, origin_disp, origin_count);
        let op = PendingOp { disp: target_disp, data };
        self.pending[target_rank].push(op);
        proof {
            let w2 = old(self)@.step_put(
                origin@,
                origin_disp as int,
                origin_count as int,
                target_rank as int,
                target_disp as int,
                target_count as int,
            ).0;
            assert(self@.pending =~~= w2.pending);
            assert(self@ =~~= w2);
        }
        Ok(())
    }

    /// Issues a `get`: validates the transfer and fills `origin` from the
    /// target region's last-epoch contents, following `step_get`. The
    /// window state itself does not change.
    pub fn get(
        &self,
        origin: &mut Vec<T>,
        origin_disp: usize,
        origin_count: usize,
        target_rank: usize,
        target_disp: usize,
        target_count: usize,
    ) -> (r: Result<(), RmaError>)
        requires
            self@.wf(),
            (target_rank as int) < self@.nranks(),
        ensures
            (final(origin)@, r) == self@.step_get(
                old(origin)@,
                origin_disp as int,
                origin_count as int,
                target_rank as int,
                target_disp as int,
                target_count as int,
            ),
    {
        if self.lost {
            return Err(RmaError::TransportLost);
        }
        let epoch_open = self.fence_open || self.starts > 0 || self.locks[target_rank];
        if !epoch_open {
            return Err(RmaError::SynchronizationError);
        }
        if origin_count != target_count {
            return Err(RmaError::CountMismatch);
        }
        if origin_count > origin.len() || origin_disp > origin.len() - origin_count {
            return Err(RmaError::OutOfRange);
        }
        if target_count > self.length || target_disp > self.length - target_count {
            return Err(RmaError::OutOfRange);
        }
        let region = &self.regions[target_rank];
        proof {
            assert(region@ == self@.regions[target_rank as int]);
        }
        let origin_len = origin.len();
        let region_len = region.len();
        let mut j: usize = 0;
        while j < origin_count
            invariant
                j <= origin_count,
                origin_disp + origin_count <= origin_len,
                target_disp + target_count <= region_len,
                origin_count == target_count,
                origin_len == origin@.len(),
                region_len == region@.len(),
                origin@.len() == old(origin)@.len(),
                forall|i: int|
                    origin_disp <= i < origin_disp + j ==> origin@[i] == region@[
                        target_disp + i - origin_disp
                    ],
                forall|i: int|
                    0 <= i < origin@.len() && !(origin_disp <= i < origin_disp + j) ==> origin@[i]
                        == old(origin)@[i],
            decreases origin_count - j,
        {
            let x = region[target_disp + j];
            origin[origin_disp + j] = x;
            j = j + 1;
        }
        proof {
            assert(final(origin)@ =~= store_range(
                old(origin)@,
                origin_disp as int,
                self@.regions[target_rank as int].subrange(
                    target_disp as int,
                    target_disp + target_count,
                ),
            ));
        }
        Ok(())
    }

    /// Whether any exclusive lock is currently held.
    fn any_lock_exec(&self) -> (b: bool)
        ensures
            b == self@.any_lock(),
    {
        let n = self.locks.len();
        let mut i: usize = 0;
        while i < n
            invariant
                i <= n,
                n == self.locks@.len(),
                forall|s: int| 0 <= s < i ==> !self.locks@[s],
            decreases n - i,
        {
            if self.locks[i] {
                proof {
                    assert(self@.locks[i as int]);
                }
                return true;
            }
            i = i + 1;
        }
        proof {
            assert(forall|s: int| 0 <= s < self@.locks.len() ==> !self@.locks[s]);
        }
        false
    }

    /// Lands every put buffered for rank `r` in its region, in issue
    /// order, and drains that rank's queue.
    fn commit_rank(&mut self, r: usize)
        requires
            old(self)@.wf(),
            (r as int) < old(self)@.nranks(),
        ensures
            final(self)@.wf(),
            final(self)@ == (WinView {
                regions: old(self)@.regions.update(
                    r as int,
                    apply_ops(old(self)@.regions[r as int], old(self)@.pending[r as int]),
                ),
                pending: old(self)@.pending.update(r as int, Seq::empty()),
                ..old(self)@
            }),
    {
        let ghost w0 = self@;
        let n = self.pending[r].len();
        let mut i: usize = 0;
        while i < n
            invariant
                i <= n,
                w0.wf(),
                (r as int) < w0.nranks(),
                n == w0.pending[r as int].len(),
                self@ == (WinView {
                    regions: w0.regions.update(
                        r as int,
                        apply_ops(w0.regions[r as int], w0.pending[r as int].take(i as int)),
                    ),
                    ..w0
                }),
            decreases n - i,
        {
            let ghost ops = w0.pending[r as int];
            let ghost op = ops[i as int];
            let ghost regs_before = self.regions@;
            proof {
                crate::model::lemma_apply_ops_len(w0.regions[r as int], ops.take(i as int));
                assert(self@.regions.len() == self.regions@.len());
                assert(self@.regions.len() == w0.regions.len());
                assert(self@.pending.len() == self.pending@.len());
                assert(self@.pending == w0.pending);
                assert(self@.pending[r as int].len() == self.pending@[r as int]@.len());
                assert(self@.pending[r as int][i as int] == op);
                assert(self.pending@[r as int]@[i as int]@ == op);
                assert(regs_before[r as int]@ == self@.regions[r as int]);
                assert(self@.regions[r as int] == apply_ops(
                    w0.regions[r as int],
                    ops.take(i as int),
                ));
            }
            let op_disp = self.pending[r][i].disp;
            let op_data = &self.pending[r][i].data;
            proof {
                assert(op_disp as int == op.disp);
                assert(op_data@ == op.data);
                assert forall|s: int|
                    0 <= s < regs_before.len() implies #[trigger] regs_before[s]@ == w0.regions.update(
                        r as int,
                        apply_ops(w0.regions[r as int], ops.take(i as int)),
                    )[s] by {
                    assert(regs_before[s]@ == self@.regions[s]);
                }
            }
            write_put(&mut self.regions, r, op_disp, op_data);
            proof {
                assert(ops.take(i + 1) =~= ops.take(i as int).push(op));
                crate::model::lemma_apply_ops_push(
                    w0.regions[r as int],
                    ops.take(i as int),
                    op,
                );
                assert(self.regions@[r as int]@ == store_range(
                    regs_before[r as int]@,
                    op.disp,
                    op.data,
                ));
                assert(self@.regions.len() == self.regions@.len());
                assert forall|s: int|
                    0 <= s < regs_before.len() && s != r implies self@.regions[s] == w0.regions[
                        s
                    ] by {
                    assert(self@.regions[s] == self.regions@[s]@);
                    assert(self.regions@[s] == regs_before[s]);
                    assert(regs_before[s]@ == w0.regions.update(
                        r as int,
                        apply_ops(w0.regions[r as int], ops.take(i as int)),
                    )[s]);
                    assert(w0.regions.update(
                        r as int,
                        apply_ops(w0.regions[r as int], ops.take(i as int)),
                    )[s] == w0.regions[s]);
                }
                assert(self@.regions[r as int] == self.regions@[r as int]@);
                assert(self@.regions[r as int] == apply_ops(
                    w0.regions[r as int],
                    ops.take(i + 1),
                ));
                assert(self@.regions =~= w0.regions.update(
                    r as int,
                    apply_ops(w0.regions[r as int], ops.take(i + 1)),
                ));
                assert(self@ =~~= (WinView {
                    regions: w0.regions.update(
                        r as int,
                        apply_ops(w0.regions[r as int], ops.take(i + 1)),
                    ),
                    ..w0
                }));
            }
            i = i + 1;
        }
        proof {
            assert(w0.pending[r as int].take(n as int) =~= w0.pending[r as int]);
        }
        self.pending[r].clear();
        proof {
            crate::model::lemma_apply_ops_len(w0.regions[r as int], w0.pending[r as int]);
            assert(self@.pending =~~= w0.pending.update(r as int, Seq::empty()));
            assert(self@ =~~= (WinView {
                regions: w0.regions.update(
                    r as int,
                    apply_ops(w0.regions[r as int], w0.pending[r as int]),
                ),
                pending: w0.pending.update(r as int, Seq::empty()),
                ..w0
            }));
        }
    }

    /// Lands every buffered put of every rank and drains all queues: the
    /// effect of an epoch boundary that completes all transfers.
    fn commit_all(&mut self)
        requires
            old(self)@.wf(),
        ensures
            final(self)@.wf(),
            final(self)@ == (WinView {
                regions: old(self)@.committed(),
                pending: old(self)@.no_pending(),
                ..old(self)@
            }),
    {
        let ghost w0 = self@;
        let nranks = self.regions.len();
        let mut r: usize = 0;
        while r < nranks
            invariant
                r <= nranks,
                w0.wf(),
                nranks == w0.nranks(),
                self@.wf(),
                self@ == (WinView {
                    regions: Seq::new(
                        w0.regions.len(),
                        |s: int|
                            if s < r {
                                apply_ops(w0.regions[s], w0.pending[s])
                            } else {
                                w0.regions[s]
                            },
                    ),
                    pending: Seq::new(
                        w0.pending.len(),
                        |s: int| if s < r { Seq::<PendingPut<T>>::empty() } else { w0.pending[s] },
                    ),
                    ..w0
                }),
            decreases nranks - r,
        {
            let ghost before = self@;
            self.commit_rank(r);
            proof {
                assert(before.regions[r as int] == w0.regions[r as int]);
                assert(before.pending[r as int] == w0.pending[r as int]);
                assert(self@.regions =~~= Seq::new(
                    w0.regions.len(),
                    |s: int|
                        if s < r + 1 {
                            apply_ops(w0.regions[s], w0.pending[s])
                        } else {
                            w0.regions[s]
                        },
                ));
                assert(self@.pending =~~= Seq::new(
                    w0.pending.len(),
                    |s: int| if s < r + 1 { Seq::<PendingPut<T>>::empty() } else { w0.pending[s] },
                ));
                assert(self@ =~~= (WinView {
                    regions: Seq::new(
                        w0.regions.len(),
                        |s: int|
                            if s < r + 1 {
                                apply_ops(w0.regions[s], w0.pending[s])
                            } else {
                                w0.regions[s]
                            },
                    ),
                    pending: Seq::new(
                        w0.pending.len(),
                        |s: int|
                            if s < r + 1 { Seq::<PendingPut<T>>::empty() } else { w0.pending[s] },
                    ),
                    ..w0
                }));
            }
            r = r + 1;
        }
        proof {
            assert(self@.regions =~~= w0.committed());
            assert(self@.pending =~~= w0.no_pending());
            assert(self@ =~~= (WinView {
                regions: w0.committed(),
                pending: w0.no_pending(),
                ..w0
            }));
        }
    }

    /// A collective fence call, following `step_fence`: it opens a fence
    /// epoch when none is open, and closes the open one, landing every
    /// buffered transfer.
    pub fn fence(&mut self) -> (r: Result<(), RmaError>)
        requires
            old(self)@.wf(),
        ensures
            final(self)@.wf(),
            (final(self)@, r) == old(self)@.step_fence(),
    {
        if self.lost {
            return Err(RmaError::TransportLost);
        }
        if self.posted || self.starts > 0 || self.any_lock_exec() {
            return Err(RmaError::SynchronizationError);
        }
        if !self.fence_open {
            self.fence_open = true;
            proof {
                assert(self@ =~~= old(self)@.step_fence().0);
            }
            Ok(())
        } else {
            self.fence_open = false;
            proof {
                assert(self@ =~~= (WinView { fence_open: false, ..old(self)@ }));
            }
            self.commit_all();
            proof {
                assert((WinView { fence_open: false, ..old(self)@ }).committed()
                    =~~= old(self)@.committed());
                assert((WinView { fence_open: false, ..old(self)@ }).no_pending()
                    =~~= old(self)@.no_pending());
                assert(self@ =~~= old(self)@.step_fence().0);
            }
            Ok(())
        }
    }

    /// Target role of the active-target protocol: declare the local region
    /// exposed to the group's origins, following `step_post`.
    pub fn post(&mut self) -> (r: Result<(), RmaError>)
        requires
            old(self)@.wf(),
        ensures
            final(self)@.wf(),
            (final(self)@, r) == old(self)@.step_post(),
    {
        if self.lost {
            return Err(RmaError::TransportLost);
        }
        if self.fence_open || self.any_lock_exec() {
            return Err(RmaError::SynchronizationError);
        }
        if self.posted {
            return Err(RmaError::SynchronizationError);
        }
        self.posted = true;
        proof {
            assert(self@ =~~= old(self)@.step_post().0);
        }
        Ok(())
    }

    /// Origin role of the active-target protocol: open an origin epoch
    /// against the group's targets, following `step_start`.
    pub fn start(&mut self) -> (r: Result<(), RmaError>)
        requires
            old(self)@.wf(),
            old(self)@.starts < usize::MAX as int,
        ensures
            final(self)@.wf(),
            (final(self)@, r) == old(self)@.step_start(),
    {
        if self.lost {
            return Err(RmaError::TransportLost);
        }
        if self.fence_open || self.any_lock_exec() {
            return Err(RmaError::SynchronizationError);
        }
        self.starts = self.starts + 1;
        proof {
            assert(self@ =~~= old(self)@.step_start().0);
        }
        Ok(())
    }

    /// Origin role: close one origin epoch; everything issued since the
    /// matching `start` is sent, so buffered puts land. Follows
    /// `step_complete`.
    pub fn complete(&mut self) -> (r: Result<(), RmaError>)
        requires
            old(self)@.wf(),
        ensures
            final(self)@.wf(),
            (final(self)@, r) == old(self)@.step_complete(),
    {
        if self.lost {
            return Err(RmaError::TransportLost);
        }
        if self.starts == 0 {
            return Err(RmaError::SynchronizationError);
        }
        self.starts = self.starts - 1;
        proof {
            assert(self@ =~~= (WinView { starts: old(self)@.starts - 1, ..old(self)@ }));
        }
        self.commit_all();
        proof {
            assert((WinView { starts: old(self)@.starts - 1, ..old(self)@ }).committed()
                =~~= old(self)@.committed());
            assert((WinView { starts: old(self)@.starts - 1, ..old(self)@ }).no_pending()
                =~~= old(self)@.no_pending());
            assert(self@ =~~= old(self)@.step_complete().0);
        }
        Ok(())
    }

    /// Target role: close the exposure epoch of the outstanding `post`,
    /// following `step_wait`. An origin epoch still open would block the
    /// wait forever and is refused as protocol misuse.
    pub fn wait(&mut self) -> (r: Result<(), RmaError>)
        requires
            old(self)@.wf(),
        ensures
            final(self)@.wf(),
            (final(self)@, r) == old(self)@.step_wait(),
    {
        if self.lost {
            return Err(RmaError::TransportLost);
        }
        if !self.posted {
            return Err(RmaError::SynchronizationError);
        }
        if self.starts > 0 {
            return Err(RmaError::SynchronizationError);
        }
        self.posted = false;
        proof {
            assert(self@ =~~= old(self)@.step_wait().0);
        }
        Ok(())
    }

    /// Acquires the exclusive passive-target lock on `rank`'s region,
    /// following `step_lock`.
    pub fn exclusive_lock(&mut self, rank: usize) -> (r: Result<(), RmaError>)
        requires
            old(self)@.wf(),
            (rank as int) < old(self)@.nranks(),
        ensures
            final(self)@.wf(),
            (final(self)@, r) == old(self)@.step_lock(rank as int),
    {
        if self.lost {
            return Err(RmaError::TransportLost);
        }
        if self.fence_open || self.posted || self.starts > 0 {
            return Err(RmaError::SynchronizationError);
        }
        if self.locks[rank] {
            return Err(RmaError::SynchronizationError);
        }
        self.locks[rank] = true;
        proof {
            assert(self@ =~~= old(self)@.step_lock(rank as int).0);
        }
        Ok(())
    }

    /// Releases the exclusive lock on `rank`'s region; everything issued
    /// under the lock is complete and visible, so the puts buffered for
    /// that rank land. Follows `step_unlock`.
    pub fn unlock(&mut self, rank: usize) -> (r: Result<(), RmaError>)
        requires
            old(self)@.wf(),
            (rank as int) < old(self)@.nranks(),
        ensures
            final(self)@.wf(),
            (final(self)@, r) == old(self)@.step_unlock(rank as int),
    {
        if self.lost {
            return Err(RmaError::TransportLost);
        }
        if !self.locks[rank] {
            return Err(RmaError::SynchronizationError);
        }
        self.locks[rank] = false;
        proof {
            assert(self@ =~~= (WinView { locks: old(self)@.locks.update(rank as int, false), ..old(self)@ }));
        }
        self.commit_rank(rank);
        proof {
            assert(self@ =~~= old(self)@.step_unlock(rank as int).0);
        }
        Ok(())
    }

    /// Records that the transport under this window failed: every later
    /// operation is refused with `TransportLost`.
    pub fn mark_transport_lost(&mut self)
        requires
            old(self)@.wf(),
        ensures
            final(self)@.wf(),
            final(self)@ == (WinView { lost: true, ..old(self)@ }),
    {
        self.lost = true;
        proof {
            assert(self@ =~~= (WinView { lost: true, ..old(self)@ }));
        }
    }

    /// `put` of the whole local region over the whole of `trank`'s region,
    /// following `step_put_whole`.
    pub fn put_whole(&mut self, target_rank: usize) -> (r: Result<(), RmaError>)
        requires
            old(self)@.wf(),
            (target_rank as int) < old(self)@.nranks(),
        ensures
            final(self)@.wf(),
            (final(self)@, r) == old(self)@.step_put_whole(target_rank as int),
    {
        let rank = self.rank;
        let len = self.regions[rank].len();
        let origin = copy_range(&self.regions[rank], 0, len);
        proof {
            assert(origin@ =~= old(self)@.regions[old(self)@.rank]);
        }
        self.put(&origin, 0, len, target_rank, 0, len)
    }

    /// `get` of the whole of `trank`'s region, as of the last epoch
    /// boundary, into the whole local region, following `step_get_whole`.
    pub fn get_whole(&mut self, target_rank: usize) -> (r: Result<(), RmaError>)
        requires
            old(self)@.wf(),
            (target_rank as int) < old(self)@.nranks(),
        ensures
            final(self)@.wf(),
            (final(self)@, r) == old(self)@.step_get_whole(target_rank as int),
    {
        let ghost w0 = self@;
        if self.lost {
            proof {
                assert(w0.regions.update(w0.rank, w0.regions[w0.rank]) =~= w0.regions);
                assert(self@ =~~= w0.step_get_whole(target_rank as int).0);
            }
            return Err(RmaError::TransportLost);
        }
        let epoch_open = self.fence_open || self.starts > 0 || self.locks[target_rank];
        if !epoch_open {
            proof {
                assert(w0.regions.update(w0.rank, w0.regions[w0.rank]) =~= w0.regions);
                assert(self@ =~~= w0.step_get_whole(target_rank as int).0);
            }
            return Err(RmaError::SynchronizationError);
        }
        let len = self.length;
        proof {
            assert(self.regions@[target_rank as int]@ == w0.regions[target_rank as int]);
            assert(self.regions@[w0.rank]@ == w0.regions[w0.rank]);
        }
        let src = copy_range(&self.regions[target_rank], 0, len);
        proof {
            assert(src@ =~= w0.regions[target_rank as int]);
        }
        let rank = self.rank;
        write_put(&mut self.regions, rank, 0, &src);
        proof {
            let filled = w0.step_get(w0.regions[w0.rank], 0, w0.length, target_rank as int, 0, w0.length).0;
            assert(filled =~= store_range(w0.regions[w0.rank], 0, src@));
            assert(self@.regions =~~= w0.regions.update(w0.rank, filled));
            assert(self@ =~~= w0.step_get_whole(target_rank as int).0);
        }
        Ok(())
    }
}

} // verus!
