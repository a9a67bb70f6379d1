//! The three synchronization protocols: fence alternation, active-target
//! post/start/complete/wait balance, passive-target lock independence,
//! and the refusal of protocol mixing.

use rma_window::AllocatedWindow;
use rma_window::Communication;
use rma_window::Group;
use rma_window::RmaError;
use rma_window::Synchronization;

fn allocated(rank: usize, nranks: usize, length: usize, init: i32) -> AllocatedWindow<i32> {
    match AllocatedWindow::allocate(rank, nranks, length, init) {
        Ok(win) => win,
        Err(_) => panic!("allocation refused"),
    }
}

#[test]
fn fence_alternates_epochs() {
    let mut w = allocated(0, 2, 4, 0);
    assert_eq!(w.fence(), Ok(()));
    assert_eq!(w.fence(), Ok(()));
    assert_eq!(w.fence(), Ok(()));
    assert_eq!(w.fence(), Ok(()));
    w.release();
}

#[test]
fn active_target_balanced_cycle() {
    let mut w = allocated(0, 2, 4, 0);
    let group = Group::new(vec![0, 1]);
    assert_eq!(w.post(&group), Ok(()));
    assert_eq!(w.start(&group), Ok(()));
    // An unmatched start blocks the wait forever; the bounded wait of the
    // model reports it as protocol misuse.
    assert_eq!(w.wait(), Err(RmaError::SynchronizationError));
    assert_eq!(w.complete(), Ok(()));
    assert_eq!(w.wait(), Ok(()));
    w.release();
}

#[test]
fn unmatched_complete_or_wait_is_refused() {
    let mut w = allocated(0, 2, 4, 0);
    assert_eq!(w.complete(), Err(RmaError::SynchronizationError));
    assert_eq!(w.wait(), Err(RmaError::SynchronizationError));
    w.release();
}

#[test]
fn double_post_is_refused() {
    let mut w = allocated(0, 2, 4, 0);
    let group = Group::new(vec![1]);
    assert_eq!(w.post(&group), Ok(()));
    assert_eq!(w.post(&group), Err(RmaError::SynchronizationError));
    assert_eq!(w.wait(), Ok(()));
    w.release();
}

#[test]
fn start_put_complete_makes_transfer_visible() {
    let mut w = allocated(0, 2, 4, 0);
    let group = Group::new(vec![1]);
    assert_eq!(w.start(&group), Ok(()));
    let data: Vec<i32> = vec![3, 4];
    assert_eq!(w.put(&data, 0, 2, 1, 0, 2), Ok(()));
    assert_eq!(w.complete(), Ok(()));
    assert_eq!(w.start(&group), Ok(()));
    let mut seen: Vec<i32> = vec![0, 0, 0, 0];
    assert_eq!(w.get_from_vector(&mut seen, 1), Ok(()));
    assert_eq!(seen, vec![3, 4, 0, 0]);
    assert_eq!(w.complete(), Ok(()));
    w.release();
}

#[test]
fn lock_on_one_rank_leaves_other_ranks_free() {
    let mut w = allocated(0, 3, 4, 0);
    assert_eq!(w.exclusive_lock(1), Ok(()));
    // Rank 2 is independent of the lock held on rank 1.
    assert_eq!(w.exclusive_lock(2), Ok(()));
    assert_eq!(w.unlock(2), Ok(()));
    assert_eq!(w.exclusive_lock(2), Ok(()));
    assert_eq!(w.unlock(2), Ok(()));
    assert_eq!(w.unlock(1), Ok(()));
    w.release();
}

#[test]
fn double_lock_same_rank_is_refused() {
    let mut w = allocated(0, 2, 4, 0);
    assert_eq!(w.exclusive_lock(1), Ok(()));
    assert_eq!(w.exclusive_lock(1), Err(RmaError::SynchronizationError));
    assert_eq!(w.unlock(1), Ok(()));
    w.release();
}

#[test]
fn unlock_without_lock_is_refused() {
    let mut w = allocated(0, 2, 4, 0);
    assert_eq!(w.unlock(1), Err(RmaError::SynchronizationError));
    w.release();
}

#[test]
fn unlock_completes_puts_issued_under_the_lock() {
    let mut w = allocated(0, 2, 4, 0);
    assert_eq!(w.exclusive_lock(1), Ok(()));
    let data: Vec<i32> = vec![5, 6];
    assert_eq!(w.put(&data, 0, 2, 1, 2, 2), Ok(()));
    assert_eq!(w.unlock(1), Ok(()));
    assert_eq!(w.exclusive_lock(1), Ok(()));
    let mut seen: Vec<i32> = vec![0, 0, 0, 0];
    assert_eq!(w.get_from_vector(&mut seen, 1), Ok(()));
    assert_eq!(seen, vec![0, 0, 5, 6]);
    assert_eq!(w.unlock(1), Ok(()));
    w.release();
}

#[test]
fn transfer_under_lock_is_scoped_to_the_locked_rank() {
    let mut w = allocated(0, 3, 4, 0);
    assert_eq!(w.exclusive_lock(1), Ok(()));
    let data: Vec<i32> = vec![1, 2];
    // Rank 2 is not locked and no other epoch is open for it.
    assert_eq!(w.put(&data, 0, 2, 2, 0, 2), Err(RmaError::SynchronizationError));
    assert_eq!(w.unlock(1), Ok(()));
    w.release();
}

#[test]
fn protocols_do_not_mix() {
    let mut w = allocated(0, 2, 4, 0);
    let group = Group::new(vec![1]);
    // Inside a fence epoch, the other protocols are refused.
    assert_eq!(w.fence(), Ok(()));
    assert_eq!(w.post(&group), Err(RmaError::SynchronizationError));
    assert_eq!(w.start(&group), Err(RmaError::SynchronizationError));
    assert_eq!(w.exclusive_lock(1), Err(RmaError::SynchronizationError));
    assert_eq!(w.fence(), Ok(()));
    // Under a held lock, fence and active target are refused.
    assert_eq!(w.exclusive_lock(1), Ok(()));
    assert_eq!(w.fence(), Err(RmaError::SynchronizationError));
    assert_eq!(w.post(&group), Err(RmaError::SynchronizationError));
    assert_eq!(w.start(&group), Err(RmaError::SynchronizationError));
    assert_eq!(w.unlock(1), Ok(()));
    // With an active-target epoch engaged, fence and lock are refused.
    assert_eq!(w.start(&group), Ok(()));
    assert_eq!(w.fence(), Err(RmaError::SynchronizationError));
    assert_eq!(w.exclusive_lock(1), Err(RmaError::SynchronizationError));
    assert_eq!(w.complete(), Ok(()));
    w.release();
}

#[test]
fn group_keeps_its_ranks_in_order() {
    let group = Group::new(vec![2, 0, 1]);
    assert_eq!(*group.ranks(), vec![2, 0, 1]);
}
