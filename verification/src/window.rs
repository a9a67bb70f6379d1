//! The window types and their capability traits.
//!
//! A window exists in two ownership variants. An `AllocatedWindow` owns
//! its exposed buffer: the memory is obtained from the runtime's own
//! allocator at creation and returned to it on release. A `CreatedWindow`
//! borrows a caller-owned buffer: it only registers the memory, and
//! `release` hands the buffer back untouched by the release itself. Both
//! variants expose the transfer capability (`Communication`) and the
//! synchronization capability (`Synchronization`) over the same verified
//! core.
//!
//! A window's registration is consumed by `release`: no operation can
//! reach a released window, so use-after-release is impossible by
//! construction rather than detected at run time.

use vstd::prelude::*;

use crate::errors::RmaError;
use crate::model::WinView;
use crate::state::WindowState;

verus! {

/// An integer identifying a process within the communication scope. Rank
/// values are supplied by the scope; the core only uses them to address
/// regions and locks.
pub type Rank = usize;

/// An ordered, immutable set of ranks, used to scope active-target
/// epochs. The core never inspects a group: it is an opaque capability
/// token handed through to the runtime.
pub struct Group {
    ranks: Vec<Rank>,
}

impl View for Group {
    type V = Seq<Rank>;

    closed spec fn view(&self) -> Seq<Rank> {
        self.ranks@
    }
}

impl Group {
    /// A group of the given ranks, in the given order.
    pub fn new(ranks: Vec<Rank>) -> (g: Group)
        ensures
            g@ == ranks@,
    {
        Group { ranks }
    }

    /// The ranks of the group, in order.
    pub fn ranks(&self) -> (r: &Vec<Rank>)
        ensures
            r@ == self@,
    {
        &self.ranks
    }
}

/// The transfer capability: remote `put`/`get` against a window, for the
/// whole exposed region or an explicit sub-range. Every call validates
/// its element counts and ranges and buffers or serves the transfer
/// according to the `step_*` transitions of the model; nothing is ever
/// silently clipped.
///
/// Issuing a `put` and a `get` or local access over overlapping ranges of
/// the same window inside the same epoch is a correctness hazard the
/// engine cannot police; keeping such accesses apart is the caller's
/// obligation under the synchronization protocols.
pub trait Communication<T: Copy>: Sized {
    /// The abstract state of the window behind this capability.
    spec fn win(&self) -> WinView<T>;

    /// Puts the whole of `origin` at the start of `target_rank`'s region.
    fn put_from_vector(&mut self, origin: &Vec<T>, target_rank: Rank) -> (r: Result<(), RmaError>)
        requires
            old(self).win().wf(),
            (target_rank as int) < old(self).win().nranks(),
        ensures
            final(self).win().wf(),
            (final(self).win(), r) == old(self).win().step_put(
                origin@,
                0,
                origin@.len() as int,
                target_rank as int,
                0,
                origin@.len() as int,
            ),
    ;

    /// Fills the whole of `origin` from the start of `target_rank`'s
    /// region, as of the last epoch boundary.
    fn get_from_vector(&self, origin: &mut Vec<T>, target_rank: Rank) -> (r: Result<(), RmaError>)
        requires
            self.win().wf(),
            (target_rank as int) < self.win().nranks(),
        ensures
            (final(origin)@, r) == self.win().step_get(
                old(origin)@,
                0,
                old(origin)@.len() as int,
                target_rank as int,
                0,
                old(origin)@.len() as int,
            ),
    ;

    /// Puts `origin_count` elements taken at `origin_disp` of `origin` to
    /// land at `target_disp` of `target_rank`'s region.
    fn put(
        &mut self,
        origin: &Vec<T>,
        origin_disp: usize,
        origin_count: usize,
        target_rank: Rank,
        target_disp: usize,
        target_count: usize,
    ) -> (r: Result<(), RmaError>)
        requires
            old(self).win().wf(),
            (target_rank as int) < old(self).win().nranks(),
        ensures
            final(self).win().wf(),
            (final(self).win(), r) == old(self).win().step_put(
                origin@,
                origin_disp as int,
                origin_count as int,
                target_rank as int,
                target_disp as int,
                target_count as int,
            ),
    ;

    /// Fills `origin_count` elements at `origin_disp` of `origin` with the
    /// elements at `target_disp` of `target_rank`'s region, as of the last
    /// epoch boundary.
    fn get(
        &self,
        origin: &mut Vec<T>,
        origin_disp: usize,
        origin_count: usize,
        target_rank: Rank,
        target_disp: usize,
        target_count: usize,
    ) -> (r: Result<(), RmaError>)
        requires
            self.win().wf(),
            (target_rank as int) < self.win().nranks(),
        ensures
            (final(origin)@, r) == self.win().step_get(
                old(origin)@,
                origin_disp as int,
                origin_count as int,
                target_rank as int,
                target_disp as int,
                target_count as int,
            ),
    ;

    /// Puts the whole local exposed region over the whole of
    /// `target_rank`'s region.
    fn put_whole_vector(&mut self, target_rank: Rank) -> (r: Result<(), RmaError>)
        requires
            old(self).win().wf(),
            (target_rank as int) < old(self).win().nranks(),
        ensures
            final(self).win().wf(),
            (final(self).win(), r) == old(self).win().step_put_whole(target_rank as int),
    ;

    /// Fills the whole local exposed region from the whole of
    /// `target_rank`'s region, as of the last epoch boundary.
    fn get_whole_vector(&mut self, target_rank: Rank) -> (r: Result<(), RmaError>)
        requires
            old(self).win().wf(),
            (target_rank as int) < old(self).win().nranks(),
        ensures
            final(self).win().wf(),
            (final(self).win(), r) == old(self).win().step_get_whole(target_rank as int),
    ;
}

/// The synchronization capability: the three epoch protocols that bound
/// when transfers are guaranteed visible. A window must use one protocol
/// at a time; a call of one protocol while another is engaged is refused
/// as `SynchronizationError`, never silently supported.
///
/// The group handed to `post` and `start` is an opaque token forwarded to
/// the runtime; which origins a target admits is the runtime's concern,
/// not checked by the core.
pub trait Synchronization: Sized {
    /// The element type of the window behind this capability.
    type Elem;

    /// The abstract state of the window behind this capability.
    spec fn sync_win(&self) -> WinView<Self::Elem>;

    /// A collective fence call. Two consecutive fences delimit an epoch:
    /// the first opens it, the second closes it and makes every transfer
    /// issued in between complete and visible.
    fn fence(&mut self) -> (r: Result<(), RmaError>)
        requires
            old(self).sync_win().wf(),
        ensures
            final(self).sync_win().wf(),
            (final(self).sync_win(), r) == old(self).sync_win().step_fence(),
    ;

    /// Target role of the active-target protocol: declares the local
    /// region exposed to the group's origins. Non-blocking declaration.
    fn post(&mut self, group: &Group) -> (r: Result<(), RmaError>)
        requires
            old(self).sync_win().wf(),
        ensures
            final(self).sync_win().wf(),
            (final(self).sync_win(), r) == old(self).sync_win().step_post(),
    ;

    /// Origin role of the active-target protocol: opens an origin epoch
    /// against the group's targets.
    fn start(&mut self, group: &Group) -> (r: Result<(), RmaError>)
        requires
            old(self).sync_win().wf(),
            old(self).sync_win().starts < usize::MAX as int,
        ensures
            final(self).sync_win().wf(),
            (final(self).sync_win(), r) == old(self).sync_win().step_start(),
    ;

    /// Origin role: closes one origin epoch; every transfer issued since
    /// the matching `start` is sent and lands.
    fn complete(&mut self) -> (r: Result<(), RmaError>)
        requires
            old(self).sync_win().wf(),
        ensures
            final(self).sync_win().wf(),
            (final(self).sync_win(), r) == old(self).sync_win().step_complete(),
    ;

    /// Target role: closes the exposure epoch of the outstanding `post`.
    /// An origin epoch still open would block forever; under the model's
    /// bounded wait it is refused as `SynchronizationError` instead.
    fn wait(&mut self) -> (r: Result<(), RmaError>)
        requires
            old(self).sync_win().wf(),
        ensures
            final(self).sync_win().wf(),
            (final(self).sync_win(), r) == old(self).sync_win().step_wait(),
    ;

    /// Acquires the exclusive passive-target lock on `rank`'s region. The
    /// lock is scoped to the (window, rank) pair: locks on other ranks
    /// neither block nor are affected.
    fn exclusive_lock(&mut self, rank: Rank) -> (r: Result<(), RmaError>)
        requires
            old(self).sync_win().wf(),
            (rank as int) < old(self).sync_win().nranks(),
        ensures
            final(self).sync_win().wf(),
            (final(self).sync_win(), r) == old(self).sync_win().step_lock(rank as int),
    ;

    /// Releases the exclusive lock on `rank`'s region; every transfer
    /// issued under the lock is complete and visible at the target once
    /// the call returns.
    fn unlock(&mut self, rank: Rank) -> (r: Result<(), RmaError>)
        requires
            old(self).sync_win().wf(),
            (rank as int) < old(self).sync_win().nranks(),
        ensures
            final(self).sync_win().wf(),
            (final(self).sync_win(), r) == old(self).sync_win().step_unlock(rank as int),
    ;
}

/// A window whose exposed buffer is owned by the window itself: the
/// memory comes from the runtime's allocator and goes back to it when the
/// window is released.
pub struct AllocatedWindow<T> {
    state: WindowState<T>,
}

impl<T> View for AllocatedWindow<T> {
    type V = WinView<T>;

    closed spec fn view(&self) -> WinView<T> {
        self.state@
    }
}

/// A window over a caller-owned buffer: the window registers the memory
/// for remote access and gives the buffer back on release. The window
/// never frees caller memory.
pub struct CreatedWindow<T> {
    state: WindowState<T>,
}

impl<T> View for CreatedWindow<T> {
    type V = WinView<T>;

    closed spec fn view(&self) -> WinView<T> {
        self.state@
    }
}

impl<T: Copy> AllocatedWindow<T> {
    /// Requests `length` elements of runtime-managed memory for `rank`
    /// among `nranks` ranks and registers them in one step; every region
    /// starts as `init` repeated. The model runtime has no resource
    /// limit, so the request always succeeds; `AllocationError` is
    /// reserved for a runtime boundary that can exhaust.
    pub fn allocate(rank: Rank, nranks: usize, length: usize, init: T) -> (w: Result<
        AllocatedWindow<T>,
        RmaError,
    >)
        requires
            rank < nranks,
        ensures
            w is Ok,
            w matches Ok(win) ==> {
                &&& win@.wf()
                &&& win@.rank == rank as int
                &&& win@.length == length as int
                &&& win@.nranks() == nranks as int
                &&& forall|r: int|
                    0 <= r < nranks ==> #[trigger] win@.regions[r] == Seq::new(
                        length as nat,
                        |i: int| init,
                    )
                &&& forall|r: int| 0 <= r < nranks ==> (#[trigger] win@.pending[r]).len() == 0
                &&& win@.sync_idle()
                &&& !win@.fence_open
                &&& !win@.posted
                &&& win@.starts == 0
                &&& forall|r: int| 0 <= r < nranks ==> !(#[trigger] win@.locks[r])
                &&& !win@.lost
            },
    {
        let buffer = crate::state::fill(length, init);
        let state = WindowState::new_window(rank, nranks, buffer, init);
        Ok(AllocatedWindow { state })
    }

    /// Deregisters the window and returns its buffer to the runtime
    /// allocator. Consuming the window makes any later operation on it
    /// impossible, so use-after-release cannot arise.
    pub fn release(self) {
    }

    /// The contents of the local exposed region, as of the last epoch
    /// boundary. Local reads race with remote access inside an open
    /// epoch; the protocols are the caller's tool to keep them apart.
    pub fn window_vec(&self) -> (v: &Vec<T>)
        requires
            self@.wf(),
        ensures
            v@ == self@.regions[self@.rank],
    {
        self.state.local_region()
    }

    /// Overwrites one element of the local exposed region.
    pub fn write_local(&mut self, index: usize, value: T)
        requires
            old(self)@.wf(),
            (index as int) < old(self)@.length,
        ensures
            final(self)@.wf(),
            final(self)@ == (WinView {
                regions: old(self)@.regions.update(
                    old(self)@.rank,
                    old(self)@.regions[old(self)@.rank].update(index as int, value),
                ),
                ..old(self)@
            }),
    {
        self.state.write_local(index, value);
    }

    /// Records that the transport under this window failed; every later
    /// operation is refused with `TransportLost` until `release`.
    pub fn mark_transport_lost(&mut self)
        requires
            old(self)@.wf(),
        ensures
            final(self)@.wf(),
            final(self)@ == (WinView { lost: true, ..old(self)@ }),
    {
        self.state.mark_transport_lost();
    }
}

impl<T: Copy> CreatedWindow<T> {
    /// Registers the caller-owned `buffer`, declared to hold `length`
    /// elements, for `rank` among `nranks` ranks. A buffer that does not
    /// match its declared length is rejected by the registration: the
    /// buffer comes back unchanged with `RegistrationError`. Remote
    /// regions are modeled as `remote_init` repeated.
    pub fn attach(rank: Rank, nranks: usize, buffer: Vec<T>, length: usize, remote_init: T) -> (w:
        Result<CreatedWindow<T>, (Vec<T>, RmaError)>)
        requires
            rank < nranks,
        ensures
            buffer@.len() == length ==> (w matches Ok(win) && {
                &&& win@.wf()
                &&& win@.rank == rank as int
                &&& win@.length == length as int
                &&& win@.nranks() == nranks as int
                &&& win@.regions[rank as int] == buffer@
                &&& forall|r: int|
                    0 <= r < nranks && r != rank ==> #[trigger] win@.regions[r] == Seq::new(
                        length as nat,
                        |i: int| remote_init,
                    )
                &&& forall|r: int| 0 <= r < nranks ==> (#[trigger] win@.pending[r]).len() == 0
                &&& win@.sync_idle()
                &&& !win@.fence_open
                &&& !win@.posted
                &&& win@.starts == 0
                &&& forall|r: int| 0 <= r < nranks ==> !(#[trigger] win@.locks[r])
                &&& !win@.lost
            }),
            buffer@.len() != length ==> (w matches Err((b, e)) && b@ == buffer@ && e
                == RmaError::RegistrationError),
    {
        if buffer.len() != length {
            return Err((buffer, RmaError::RegistrationError));
        }
        let state = WindowState::new_window(rank, nranks, buffer, remote_init);
        Ok(CreatedWindow { state })
    }

    /// Deregisters the window and hands the caller's buffer back, with
    /// the contents the completed epochs left in it. The release itself
    /// never touches or frees the caller's memory. Consuming the window
    /// makes use-after-release impossible.
    pub fn release(self) -> (buf: Vec<T>)
        requires
            self@.wf(),
        ensures
            buf@ == self@.regions[self@.rank],
    {
        self.state.into_local_region()
    }

    /// The contents of the local exposed region, as of the last epoch
    /// boundary.
    pub fn window_vec(&self) -> (v: &Vec<T>)
        requires
            self@.wf(),
        ensures
            v@ == self@.regions[self@.rank],
    {
        self.state.local_region()
    }

    /// Overwrites one element of the local exposed region.
    pub fn write_local(&mut self, index: usize, value: T)
        requires
            old(self)@.wf(),
            (index as int) < old(self)@.length,
        ensures
            final(self)@.wf(),
            final(self)@ == (WinView {
                regions: old(self)@.regions.update(
                    old(self)@.rank,
                    old(self)@.regions[old(self)@.rank].update(index as int, value),
                ),
                ..old(self)@
            }),
    {
        self.state.write_local(index, value);
    }

    /// Records that the transport under this window failed; every later
    /// operation is refused with `TransportLost` until `release`.
    pub fn mark_transport_lost(&mut self)
        requires
            old(self)@.wf(),
        ensures
            final(self)@.wf(),
            final(self)@ == (WinView { lost: true, ..old(self)@ }),
    {
        self.state.mark_transport_lost();
    }
}

impl<T: Copy> Communication<T> for AllocatedWindow<T> {
    open spec fn win(&self) -> WinView<T> {
        self@
    }

    fn put_from_vector(&mut self, origin: &Vec<T>, target_rank: Rank) -> (r: Result<(), RmaError>) {
        let n = origin.len();
        self.state.put(origin, 0, n, target_rank, 0, n)
    }

    fn get_from_vector(&self, origin: &mut Vec<T>, target_rank: Rank) -> (r: Result<(), RmaError>) {
        let n = origin.len();
        self.state.get(origin, 0, n, target_rank, 0, n)
    }

    fn put(
        &mut self,
        origin: &Vec<T>,
        origin_disp: usize,
        origin_count: usize,
        target_rank: Rank,
        target_disp: usize,
        target_count: usize,
    ) -> (r: Result<(), RmaError>) {
        self.state.put(origin, origin_disp, origin_count, target_rank, target_disp, target_count)
    }

    fn get(
        &self,
        origin: &mut Vec<T>,
        origin_disp: usize,
        origin_count: usize,
        target_rank: Rank,
        target_disp: usize,
        target_count: usize,
    ) -> (r: Result<(), RmaError>) {
        self.state.get(origin, origin_disp, origin_count, target_rank, target_disp, target_count)
    }

    fn put_whole_vector(&mut self, target_rank: Rank) -> (r: Result<(), RmaError>) {
        self.state.put_whole(target_rank)
    }

    fn get_whole_vector(&mut self, target_rank: Rank) -> (r: Result<(), RmaError>) {
        self.state.get_whole(target_rank)
    }
}

impl<T: Copy> Communication<T> for CreatedWindow<T> {
    open spec fn win(&self) -> WinView<T> {
        self@
    }

    fn put_from_vector(&mut self, origin: &Vec<T>, target_rank: Rank) -> (r: Result<(), RmaError>) {
        let n = origin.len();
        self.state.put(origin, 0, n, target_rank, 0, n)
    }

    fn get_from_vector(&self, origin: &mut Vec<T>, target_rank: Rank) -> (r: Result<(), RmaError>) {
        let n = origin.len();
        self.state.get(origin, 0, n, target_rank, 0, n)
    }

    fn put(
        &mut self,
        origin: &Vec<T>,
        origin_disp: usize,
        origin_count: usize,
        target_rank: Rank,
        target_disp: usize,
        target_count: usize,
    ) -> (r: Result<(), RmaError>) {
        self.state.put(origin, origin_disp, origin_count, target_rank, target_disp, target_count)
    }

    fn get(
        &self,
        origin: &mut Vec<T>,
        origin_disp: usize,
        origin_count: usize,
        target_rank: Rank,
        target_disp: usize,
        target_count: usize,
    ) -> (r: Result<(), RmaError>) {
        self.state.get(origin, origin_disp, origin_count, target_rank, target_disp, target_count)
    }

    fn put_whole_vector(&mut self, target_rank: Rank) -> (r: Result<(), RmaError>) {
        self.state.put_whole(target_rank)
    }

    fn get_whole_vector(&mut self, target_rank: Rank) -> (r: Result<(), RmaError>) {
        self.state.get_whole(target_rank)
    }
}

impl<T: Copy> Synchronization for AllocatedWindow<T> {
    type Elem = T;

    open spec fn sync_win(&self) -> WinView<T> {
        self@
    }

    fn fence(&mut self) -> (r: Result<(), RmaError>) {
        self.state.fence()
    }

    fn post(&mut self, group: &Group) -> (r: Result<(), RmaError>) {
        self.state.post()
    }

    fn start(&mut self, group: &Group) -> (r: Result<(), RmaError>) {
        self.state.start()
    }

    fn complete(&mut self) -> (r: Result<(), RmaError>) {
        self.state.complete()
    }

    fn wait(&mut self) -> (r: Result<(), RmaError>) {
        self.state.wait()
    }

    fn exclusive_lock(&mut self, rank: Rank) -> (r: Result<(), RmaError>) {
        self.state.exclusive_lock(rank)
    }

    fn unlock(&mut self, rank: Rank) -> (r: Result<(), RmaError>) {
        self.state.unlock(rank)
    }
}

impl<T: Copy> Synchronization for CreatedWindow<T> {
    type Elem = T;

    open spec fn sync_win(&self) -> WinView<T> {
        self@
    }

    fn fence(&mut self) -> (r: Result<(), RmaError>) {
        self.state.fence()
    }

    fn post(&mut self, group: &Group) -> (r: Result<(), RmaError>) {
        self.state.post()
    }

    fn start(&mut self, group: &Group) -> (r: Result<(), RmaError>) {
        self.state.start()
    }

    fn complete(&mut self) -> (r: Result<(), RmaError>) {
        self.state.complete()
    }

    fn wait(&mut self) -> (r: Result<(), RmaError>) {
        self.state.wait()
    }

    fn exclusive_lock(&mut self, rank: Rank) -> (r: Result<(), RmaError>) {
        self.state.exclusive_lock(rank)
    }

    fn unlock(&mut self, rank: Rank) -> (r: Result<(), RmaError>) {
        self.state.unlock(rank)
    }
}

} // verus!
