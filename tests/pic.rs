use first_os::pic::{ChainedPics, EoiTargets, CMD_READ_IN_SERVICE, MASTER_COMMAND_PORT, SLAVE_COMMAND_PORT};

#[test]
fn master_line_is_acknowledged_through_master_only() {
    let mut pics = ChainedPics::new(32, 40);
    assert_eq!(pics.raise(0), Some(32));
    assert!(pics.is_in_service(0));
    assert_eq!(pics.notify_end_of_interrupt(32), EoiTargets { slave: false, master: true });
    assert!(!pics.is_in_service(0));
    assert_eq!(pics.raise(0), Some(32));
}

#[test]
fn slave_line_is_acknowledged_slave_then_master() {
    let mut pics = ChainedPics::new(32, 40);
    assert_eq!(pics.raise(9), Some(41));
    assert!(pics.is_in_service(9));
    assert!(pics.is_in_service(2));
    assert_eq!(pics.notify_end_of_interrupt(41), EoiTargets { slave: true, master: true });
    assert!(!pics.is_in_service(9));
    assert!(!pics.is_in_service(2));
    assert_eq!(pics.raise(9), Some(41));
}

#[test]
fn unacknowledged_line_stays_masked() {
    let mut pics = ChainedPics::new(32, 40);
    assert_eq!(pics.raise(9), Some(41));
    for _ in 0..5 {
        assert_eq!(pics.raise(9), None);
    }
    assert_eq!(pics.raise(0), Some(32));
    assert_eq!(pics.raise(9), None);
    assert!(pics.is_in_service(9));
}

#[test]
fn foreign_vector_is_not_acknowledged() {
    let mut pics = ChainedPics::new(32, 40);
    assert_eq!(pics.raise(1), Some(33));
    assert!(!pics.handles_interrupt(3));
    assert_eq!(pics.notify_end_of_interrupt(3), EoiTargets { slave: false, master: false });
    assert!(pics.is_in_service(1));
    assert!(pics.handles_interrupt(47));
    assert!(!pics.handles_interrupt(48));
}

#[test]
fn end_of_interrupt_clears_highest_priority_line() {
    let mut pics = ChainedPics::new(32, 40);
    assert_eq!(pics.raise(4), Some(36));
    assert_eq!(pics.raise(1), Some(33));
    pics.notify_end_of_interrupt(33);
    assert!(!pics.is_in_service(1));
    assert!(pics.is_in_service(4));
}

#[test]
fn command_ports() {
    assert_eq!(MASTER_COMMAND_PORT, 0x20);
    assert_eq!(SLAVE_COMMAND_PORT, 0xA0);
    assert_eq!(CMD_READ_IN_SERVICE, 0x0b);
}
