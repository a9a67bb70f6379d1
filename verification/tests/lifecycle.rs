//! Window lifecycle: allocation, attachment, release, and ownership.

use rma_window::AllocatedWindow;
use rma_window::Communication;
use rma_window::CreatedWindow;
use rma_window::RmaError;
use rma_window::Synchronization;

#[test]
fn allocate_then_release_succeeds() {
    let w = AllocatedWindow::allocate(0, 2, 16, 0u64);
    assert!(w.is_ok());
    let w = match w {
        Ok(win) => win,
        Err(_) => panic!("allocation refused"),
    };
    w.release();
}

#[test]
fn allocate_zero_length_succeeds() {
    let w = AllocatedWindow::allocate(1, 3, 0, 0u64);
    assert!(w.is_ok());
    match w {
        Ok(win) => win.release(),
        Err(_) => panic!("allocation refused"),
    }
}

#[test]
fn attach_release_leaves_caller_buffer_untouched() {
    let buffer: Vec<i32> = vec![1, 2, 3, 4, 5, 6, 7, 8];
    let w = CreatedWindow::attach(0, 1, buffer, 8, 0);
    let w = match w {
        Ok(win) => win,
        Err(_) => panic!("registration refused"),
    };
    let back = w.release();
    assert_eq!(back, vec![1, 2, 3, 4, 5, 6, 7, 8]);
}

#[test]
fn attach_length_mismatch_is_registration_error() {
    let buffer: Vec<i32> = vec![1, 2, 3];
    match CreatedWindow::attach(0, 2, buffer, 4, 0) {
        Ok(_) => panic!("mismatched length accepted"),
        Err((back, e)) => {
            assert_eq!(e, RmaError::RegistrationError);
            assert_eq!(back, vec![1, 2, 3]);
        }
    }
}

#[test]
fn local_writes_show_in_window_vec() {
    let mut w = match AllocatedWindow::allocate(0, 2, 3, 0i32) {
        Ok(win) => win,
        Err(_) => panic!("allocation refused"),
    };
    w.write_local(0, 10);
    w.write_local(2, 30);
    assert_eq!(*w.window_vec(), vec![10, 0, 30]);
    w.release();
}

#[test]
fn attached_window_local_writes_come_back_on_release() {
    let buffer: Vec<i32> = vec![0, 0, 0, 0];
    let mut w = match CreatedWindow::attach(1, 2, buffer, 4, 0) {
        Ok(win) => win,
        Err(_) => panic!("registration refused"),
    };
    w.write_local(1, 9);
    let back = w.release();
    assert_eq!(back, vec![0, 9, 0, 0]);
}

#[test]
fn lost_transport_refuses_operations() {
    let mut w = match AllocatedWindow::allocate(0, 2, 4, 0i32) {
        Ok(win) => win,
        Err(_) => panic!("allocation refused"),
    };
    w.mark_transport_lost();
    assert_eq!(w.fence(), Err(RmaError::TransportLost));
    let data: Vec<i32> = vec![1, 2];
    assert_eq!(w.put(&data, 0, 2, 1, 0, 2), Err(RmaError::TransportLost));
    w.release();
}
