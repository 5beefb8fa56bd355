use first_os::interrupts::{
    device_action, handler_for, init_idt, lpt1_action, outcome, Handler, InterruptIndex, IrqAction,
    Outcome, DOUBLE_FAULT_IST_INDEX, PIC_1_OFFSET, PIC_2_OFFSET,
};

#[test]
fn test_assertion() {
    assert_eq!(1, 1);
}

#[test]
fn interrupt_index_vectors() {
    assert_eq!(PIC_1_OFFSET, 32);
    assert_eq!(PIC_2_OFFSET, 40);
    assert_eq!(InterruptIndex::Timer.as_u8(), 32);
    assert_eq!(InterruptIndex::Keyboard.as_u8(), 33);
    assert_eq!(InterruptIndex::Lpt1.as_u8(), 39);
    assert_eq!(InterruptIndex::Clock.as_u8(), 40);
    assert_eq!(InterruptIndex::SecondaryAta.as_usize(), 47);
}

#[test]
fn vector_table_layout() {
    let table = init_idt();
    assert_eq!(table.len(), 256);
    assert_eq!(table[3].handler, Handler::Breakpoint);
    assert_eq!(table[14].handler, Handler::PageFault);
    assert_eq!(table[8].handler, Handler::DoubleFault);
    assert_eq!(table[8].stack_index, Some(DOUBLE_FAULT_IST_INDEX));
    assert_eq!(table[3].stack_index, None);
    assert_eq!(table[32].handler, Handler::Timer);
    assert_eq!(table[33].handler, Handler::Keyboard);
    assert_eq!(table[34].handler, Handler::Unbound);
    assert_eq!(table[39].handler, Handler::Lpt1);
    for v in [35usize, 36, 37, 38, 40, 41, 42, 43, 44, 45, 46, 47] {
        assert_eq!(table[v].handler, Handler::Device);
    }
    assert_eq!(table[0].handler, Handler::Unbound);
    assert_eq!(table[48].handler, Handler::Unbound);
    assert_eq!(table[255].handler, Handler::Unbound);
    assert_eq!(handler_for(33), Handler::Keyboard);
}

#[test]
fn breakpoint_resumes_and_faults_stop() {
    assert_eq!(outcome(handler_for(3)), Outcome::Resume);
    assert_eq!(outcome(Handler::PageFault), Outcome::Halt);
    assert_eq!(outcome(Handler::DoubleFault), Outcome::Terminate);
    assert_eq!(outcome(Handler::Timer), Outcome::Resume);
}

#[test]
fn lpt1_genuine_interrupt_reports_and_acknowledges_once() {
    let a = lpt1_action(0x80);
    assert_eq!(a, IrqAction { report: Some(7), ack: Some(39) });
    assert_eq!(a.report.iter().count(), 1);
    assert_eq!(a.ack.iter().count(), 1);
}

#[test]
fn lpt1_spurious_interrupt_does_nothing() {
    assert_eq!(lpt1_action(0), IrqAction { report: None, ack: None });
    assert_eq!(lpt1_action(0x7f), IrqAction { report: None, ack: None });
    assert_eq!(lpt1_action(0xff), IrqAction { report: Some(7), ack: Some(39) });
}

#[test]
fn device_identifier_is_register_less_one() {
    assert_eq!(device_action(4), IrqAction { report: Some(3), ack: Some(35) });
    assert_eq!(device_action(1), IrqAction { report: Some(0), ack: Some(32) });
    assert_eq!(device_action(224), IrqAction { report: Some(223), ack: Some(255) });
}

#[test]
fn device_register_without_line_does_nothing() {
    assert_eq!(device_action(0), IrqAction { report: None, ack: None });
    assert_eq!(device_action(225), IrqAction { report: None, ack: None });
}
