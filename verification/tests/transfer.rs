//! Transfers: put/get round trips, range checking, deferred visibility.

use rma_window::AllocatedWindow;
use rma_window::Communication;
use rma_window::RmaError;
use rma_window::Synchronization;

fn allocated(rank: usize, nranks: usize, length: usize, init: i32) -> AllocatedWindow<i32> {
    match AllocatedWindow::allocate(rank, nranks, length, init) {
        Ok(win) => win,
        Err(_) => panic!("allocation refused"),
    }
}

#[test]
fn fence_put_lands_at_offset() {
    // Window of 4 elements starting as zeros on every rank; rank 0 puts
    // [7, 8] at offset 1 of rank 1's region inside a fence pair.
    let mut w = allocated(0, 2, 4, 0);
    assert_eq!(w.fence(), Ok(()));
    let data: Vec<i32> = vec![7, 8];
    assert_eq!(w.put(&data, 0, 2, 1, 1, 2), Ok(()));
    assert_eq!(w.fence(), Ok(()));
    // Observe rank 1's region in the next epoch.
    assert_eq!(w.fence(), Ok(()));
    let mut seen: Vec<i32> = vec![9, 9, 9, 9];
    assert_eq!(w.get_from_vector(&mut seen, 1), Ok(()));
    assert_eq!(seen, vec![0, 7, 8, 0]);
    w.release();
}

#[test]
fn put_is_not_visible_before_epoch_completion() {
    let mut w = allocated(0, 2, 4, 0);
    assert_eq!(w.fence(), Ok(()));
    let data: Vec<i32> = vec![7, 8];
    assert_eq!(w.put(&data, 0, 2, 1, 1, 2), Ok(()));
    // Still inside the epoch: a get of the same range serves the contents
    // of the last epoch boundary, not the buffered put.
    let mut seen: Vec<i32> = vec![9, 9];
    assert_eq!(w.get(&mut seen, 0, 2, 1, 1, 2), Ok(()));
    assert_eq!(seen, vec![0, 0]);
    w.release();
}

#[test]
fn put_whole_vector_round_trip() {
    let mut w = allocated(0, 2, 3, 0);
    w.write_local(0, 5);
    w.write_local(1, 6);
    w.write_local(2, 7);
    assert_eq!(w.fence(), Ok(()));
    assert_eq!(w.put_whole_vector(1), Ok(()));
    assert_eq!(w.fence(), Ok(()));
    assert_eq!(w.fence(), Ok(()));
    let mut seen: Vec<i32> = vec![0, 0, 0];
    assert_eq!(w.get_from_vector(&mut seen, 1), Ok(()));
    assert_eq!(seen, vec![5, 6, 7]);
    w.release();
}

#[test]
fn get_whole_vector_fills_local_region() {
    let mut w = allocated(0, 2, 3, 4);
    // Remote regions start as the allocation fill; overwrite the local
    // region, then read rank 1's region back over it.
    w.write_local(0, 1);
    w.write_local(1, 2);
    w.write_local(2, 3);
    assert_eq!(w.fence(), Ok(()));
    assert_eq!(w.get_whole_vector(1), Ok(()));
    assert_eq!(*w.window_vec(), vec![4, 4, 4]);
    w.release();
}

#[test]
fn subrange_put_then_get_round_trip() {
    let mut w = allocated(0, 2, 8, 0);
    let origin: Vec<i32> = vec![10, 11, 12, 13, 14];
    assert_eq!(w.fence(), Ok(()));
    assert_eq!(w.put(&origin, 1, 3, 1, 4, 3), Ok(()));
    assert_eq!(w.fence(), Ok(()));
    assert_eq!(w.fence(), Ok(()));
    let mut seen: Vec<i32> = vec![0, 0, 0, 0, 0];
    assert_eq!(w.get(&mut seen, 2, 3, 1, 4, 3), Ok(()));
    assert_eq!(seen, vec![0, 0, 11, 12, 13]);
    w.release();
}

#[test]
fn over_range_put_fails_out_of_range() {
    let mut w = allocated(0, 2, 4, 0);
    assert_eq!(w.fence(), Ok(()));
    let data: Vec<i32> = vec![1, 2, 3];
    // target_offset + target_count > exposed length, in several shapes.
    assert_eq!(w.put(&data, 0, 3, 1, 2, 3), Err(RmaError::OutOfRange));
    assert_eq!(w.put(&data, 0, 3, 1, 4, 3), Err(RmaError::OutOfRange));
    assert_eq!(w.put(&data, 0, 1, 1, 4, 1), Err(RmaError::OutOfRange));
    // The failed puts buffered nothing: the region stays zero.
    assert_eq!(w.fence(), Ok(()));
    assert_eq!(w.fence(), Ok(()));
    let mut seen: Vec<i32> = vec![9, 9, 9, 9];
    assert_eq!(w.get_from_vector(&mut seen, 1), Ok(()));
    assert_eq!(seen, vec![0, 0, 0, 0]);
    w.release();
}

#[test]
fn over_range_get_fails_out_of_range() {
    let mut w = allocated(0, 2, 4, 0);
    assert_eq!(w.fence(), Ok(()));
    let mut seen: Vec<i32> = vec![9, 9, 9];
    assert_eq!(w.get(&mut seen, 0, 3, 1, 2, 3), Err(RmaError::OutOfRange));
    // The local buffer is untouched on failure.
    assert_eq!(seen, vec![9, 9, 9]);
    // An origin range past the local buffer is refused the same way.
    assert_eq!(w.get(&mut seen, 2, 2, 1, 0, 2), Err(RmaError::OutOfRange));
    assert_eq!(seen, vec![9, 9, 9]);
    w.release();
}

#[test]
fn count_mismatch_is_distinct_from_out_of_range() {
    let mut w = allocated(0, 2, 4, 0);
    assert_eq!(w.fence(), Ok(()));
    let data: Vec<i32> = vec![1, 2, 3];
    assert_eq!(w.put(&data, 0, 2, 1, 0, 3), Err(RmaError::CountMismatch));
    let mut seen: Vec<i32> = vec![0, 0];
    assert_eq!(w.get(&mut seen, 0, 2, 1, 0, 1), Err(RmaError::CountMismatch));
    w.release();
}

#[test]
fn zero_count_put_succeeds_and_changes_nothing() {
    let mut w = allocated(0, 2, 4, 3);
    assert_eq!(w.fence(), Ok(()));
    let data: Vec<i32> = vec![];
    assert_eq!(w.put(&data, 0, 0, 1, 4, 0), Ok(()));
    assert_eq!(w.fence(), Ok(()));
    assert_eq!(w.fence(), Ok(()));
    let mut seen: Vec<i32> = vec![0, 0, 0, 0];
    assert_eq!(w.get_from_vector(&mut seen, 1), Ok(()));
    assert_eq!(seen, vec![3, 3, 3, 3]);
    w.release();
}

#[test]
fn put_to_own_rank_lands_in_local_region() {
    let mut w = allocated(1, 2, 3, 0);
    assert_eq!(w.fence(), Ok(()));
    let data: Vec<i32> = vec![42];
    assert_eq!(w.put(&data, 0, 1, 1, 2, 1), Ok(()));
    // Not visible before the epoch completes.
    assert_eq!(*w.window_vec(), vec![0, 0, 0]);
    assert_eq!(w.fence(), Ok(()));
    assert_eq!(*w.window_vec(), vec![0, 0, 42]);
    w.release();
}

#[test]
fn two_disjoint_puts_in_one_epoch_both_land() {
    let mut w = allocated(0, 2, 6, 0);
    assert_eq!(w.fence(), Ok(()));
    let left: Vec<i32> = vec![1, 2];
    let right: Vec<i32> = vec![8, 9];
    assert_eq!(w.put(&left, 0, 2, 1, 0, 2), Ok(()));
    assert_eq!(w.put(&right, 0, 2, 1, 4, 2), Ok(()));
    assert_eq!(w.fence(), Ok(()));
    assert_eq!(w.fence(), Ok(()));
    let mut seen: Vec<i32> = vec![0; 6];
    assert_eq!(w.get_from_vector(&mut seen, 1), Ok(()));
    assert_eq!(seen, vec![1, 2, 0, 0, 8, 9]);
    w.release();
}

#[test]
fn whole_vector_forms_check_their_lengths() {
    let mut w = allocated(0, 2, 4, 0);
    assert_eq!(w.fence(), Ok(()));
    // A local vector longer than the exposed region reaches out of range.
    let long: Vec<i32> = vec![1, 2, 3, 4, 5];
    assert_eq!(w.put_from_vector(&long, 1), Err(RmaError::OutOfRange));
    let mut seen: Vec<i32> = vec![0; 5];
    assert_eq!(w.get_from_vector(&mut seen, 1), Err(RmaError::OutOfRange));
    // A shorter one is a plain prefix transfer.
    let short: Vec<i32> = vec![6, 7];
    assert_eq!(w.put_from_vector(&short, 1), Ok(()));
    w.release();
}

#[test]
fn transfer_outside_any_epoch_is_refused() {
    let mut w = allocated(0, 2, 4, 0);
    let data: Vec<i32> = vec![1, 2];
    assert_eq!(w.put(&data, 0, 2, 1, 0, 2), Err(RmaError::SynchronizationError));
    let mut seen: Vec<i32> = vec![0, 0];
    assert_eq!(w.get(&mut seen, 0, 2, 1, 0, 2), Err(RmaError::SynchronizationError));
    w.release();
}
