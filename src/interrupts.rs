use vstd::prelude::*;

verus! {

/// Vector at which the master controller's line 0 arrives.
pub const PIC_1_OFFSET: u8 = 32;

/// Vector at which the slave controller's line 0 (line 8 of the pair) arrives.
pub const PIC_2_OFFSET: u8 = PIC_1_OFFSET + 8;

pub const BREAKPOINT_VECTOR: u8 = 3;

pub const DOUBLE_FAULT_VECTOR: u8 = 8;

pub const PAGE_FAULT_VECTOR: u8 = 14;

/// Slot of the interrupt stack table that holds the double-fault stack.
pub const DOUBLE_FAULT_IST_INDEX: u16 = 0;

/// The hardware interrupt lines of the controller pair, in line order.
#[derive(Clone, Copy, Debug, PartialEq, Eq, Structural)]
pub enum InterruptIndex {
    Timer,
    Keyboard,
    Cascade,
    Com2,
    Com1,
    Lpt2,
    Floppy,
    Lpt1,
    Clock,
    Peripherial1,
    Peripherial2,
    Peripherial3,
    Mouse,
    Fpu,
    PrimaryAta,
    SecondaryAta,
}

impl InterruptIndex {
    /// The controller line of this interrupt, 0 to 15.
    pub open spec fn line(self) -> u8 {
        match self {
            InterruptIndex::Timer => 0,
            InterruptIndex::Keyboard => 1,
            InterruptIndex::Cascade => 2,
            InterruptIndex::Com2 => 3,
            InterruptIndex::Com1 => 4,
            InterruptIndex::Lpt2 => 5,
            InterruptIndex::Floppy => 6,
            InterruptIndex::Lpt1 => 7,
            InterruptIndex::Clock => 8,
            InterruptIndex::Peripherial1 => 9,
            InterruptIndex::Peripherial2 => 10,
            InterruptIndex::Peripherial3 => 11,
            InterruptIndex::Mouse => 12,
            InterruptIndex::Fpu => 13,
            InterruptIndex::PrimaryAta => 14,
            InterruptIndex::SecondaryAta => 15,
        }
    }

    /// The vector: the master's base plus the line.
    pub open spec fn vector(self) -> u8 {
        (PIC_1_OFFSET + self.line()) as u8
    }

    pub fn as_u8(self) -> (r: u8)
        ensures
            r == self.vector(),
            r == PIC_1_OFFSET + self.line(),
    {
        let line: u8 = match self {
            InterruptIndex::Timer => 0,
            InterruptIndex::Keyboard => 1,
            InterruptIndex::Cascade => 2,
            InterruptIndex::Com2 => 3,
            InterruptIndex::Com1 => 4,
            InterruptIndex::Lpt2 => 5,
            InterruptIndex::Floppy => 6,
            InterruptIndex::Lpt1 => 7,
            InterruptIndex::Clock => 8,
            InterruptIndex::Peripherial1 => 9,
            InterruptIndex::Peripherial2 => 10,
            InterruptIndex::Peripherial3 => 11,
            InterruptIndex::Mouse => 12,
            InterruptIndex::Fpu => 13,
            InterruptIndex::PrimaryAta => 14,
            InterruptIndex::SecondaryAta => 15,
        };
        PIC_1_OFFSET + line
    }

    pub fn as_usize(self) -> (r: usize)
        ensures
            r == self.vector(),
    {
        self.as_u8() as usize
    }
}

/// The routine that a vector of the table is bound to.
#[derive(Clone, Copy, Debug, PartialEq, Eq, Structural)]
pub enum Handler {
    /// No routine: the vector traps as unhandled.
    Unbound,
    Breakpoint,
    PageFault,
    DoubleFault,
    Timer,
    Keyboard,
    Lpt1,
    /// The shared routine of the remaining device lines.
    Device,
}

/// One entry of the vector table.
#[derive(Clone, Copy, Debug, PartialEq, Eq, Structural)]
pub struct VectorEntry {
    pub handler: Handler,
    /// The interrupt-stack-table slot to switch to, if any.
    pub stack_index: Option<u16>,
}

/// The routine bound to vector `v`.
pub open spec fn handler_spec(v: int) -> Handler {
    if v == BREAKPOINT_VECTOR {
        Handler::Breakpoint
    } else if v == PAGE_FAULT_VECTOR {
        Handler::PageFault
    } else if v == DOUBLE_FAULT_VECTOR {
        Handler::DoubleFault
    } else if v == PIC_1_OFFSET {
        Handler::Timer
    } else if v == PIC_1_OFFSET + 1 {
        Handler::Keyboard
    } else if v == PIC_1_OFFSET + 7 {
        Handler::Lpt1
    } else if PIC_1_OFFSET + 3 <= v < PIC_1_OFFSET + 16 {
        Handler::Device
    } else {
        Handler::Unbound
    }
}

/// The entry of vector `v`: only the double fault runs on a stack of its own.
pub open spec fn entry_spec(v: int) -> VectorEntry {
    VectorEntry {
        handler: handler_spec(v),
        stack_index: if v == DOUBLE_FAULT_VECTOR { Some(DOUBLE_FAULT_IST_INDEX) } else { None },
    }
}

/// The routine bound to `vector`.
pub fn handler_for(vector: u8) -> (r: Handler)
    ensures
        r == handler_spec(vector as int),
{
    if vector == BREAKPOINT_VECTOR {
        Handler::Breakpoint
    } else if vector == PAGE_FAULT_VECTOR {
        Handler::PageFault
    } else if vector == DOUBLE_FAULT_VECTOR {
        Handler::DoubleFault
    } else if vector == InterruptIndex::Timer.as_u8() {
        Handler::Timer
    } else if vector == InterruptIndex::Keyboard.as_u8() {
        Handler::Keyboard
    } else if vector == InterruptIndex::Lpt1.as_u8() {
        Handler::Lpt1
    } else if InterruptIndex::Com2.as_u8() <= vector && vector <= InterruptIndex::SecondaryAta.as_u8() {
        Handler::Device
    } else {
        Handler::Unbound
    }
}

/// Lays out the vector table: all 256 entries, each as `entry_spec` gives it.
pub fn init_idt() -> (r: [VectorEntry; 256])
    ensures
        forall|v: int| 0 <= v < 256 ==> #[trigger] r@[v] == entry_spec(v),
{
    let mut table: [VectorEntry; 256] = [VectorEntry { handler: Handler::Unbound, stack_index: None }; 256];
    let mut v: usize = 0;
    while v < 256
        invariant
            v <= 256,
            table@.len() == 256,
            forall|k: int| 0 <= k < v ==> #[trigger] table@[k] == entry_spec(k),
        decreases 256 - v,
    {
        let vector = v as u8;
        let stack_index = if vector == DOUBLE_FAULT_VECTOR { Some(DOUBLE_FAULT_IST_INDEX) } else { None };
        table[v] = VectorEntry { handler: handler_for(vector), stack_index };
        v = v + 1;
    }
    table
}

/// What becomes of the interrupted code once a routine has run.
#[derive(Clone, Copy, Debug, PartialEq, Eq, Structural)]
pub enum Outcome {
    /// Control returns to the interrupted instruction stream.
    Resume,
    /// The machine waits for interrupts forever.
    Halt,
    /// The kernel stops for good.
    Terminate,
}

/// The outcome of each routine: a breakpoint and every device interrupt
/// resume, a page fault halts, a double fault (and an unbound vector, which
/// escalates to one) terminates.
pub fn outcome(h: Handler) -> (r: Outcome)
    ensures
        h == Handler::Breakpoint ==> r == Outcome::Resume,
        h == Handler::PageFault ==> r == Outcome::Halt,
        (h == Handler::DoubleFault || h == Handler::Unbound) ==> r == Outcome::Terminate,
        (h == Handler::Timer || h == Handler::Keyboard || h == Handler::Lpt1 || h == Handler::Device)
            ==> r == Outcome::Resume,
{
    match h {
        Handler::PageFault => Outcome::Halt,
        Handler::DoubleFault | Handler::Unbound => Outcome::Terminate,
        _ => Outcome::Resume,
    }
}

/// What a device routine does after reading the in-service register.
#[derive(Clone, Copy, Debug, PartialEq, Eq, Structural)]
pub struct IrqAction {
    /// The identifier to print on a diagnostic line, if one is printed.
    pub report: Option<u8>,
    /// The vector to acknowledge, if the interrupt is acknowledged.
    pub ack: Option<u8>,
}

/// The parallel-port routine: bit 7 of the in-service register clear means
/// the interrupt is spurious, and nothing is printed or acknowledged.
pub fn lpt1_action(in_service: u8) -> (r: IrqAction)
    ensures
        (in_service & 0x80) != 0 ==> r == (IrqAction {
            report: Some(InterruptIndex::Lpt1.line()),
            ack: Some(InterruptIndex::Lpt1.vector()),
        }),
        (in_service & 0x80) == 0 ==> r == (IrqAction { report: None, ack: None }),
{
    if in_service & 0x80 != 0 {
        IrqAction { report: Some(7), ack: Some(InterruptIndex::Lpt1.as_u8()) }
    } else {
        IrqAction { report: None, ack: None }
    }
}

/// The shared device routine: the identifier is the register value less
/// one, and the vector acknowledged is the master's base plus that
/// identifier. A register value of zero (no identifier) or one whose vector
/// would pass 255 names no line: nothing is printed or acknowledged.
pub fn device_action(in_service: u8) -> (r: IrqAction)
    ensures
        1 <= in_service <= 256 - PIC_1_OFFSET ==> r == (IrqAction {
            report: Some((in_service - 1) as u8),
            ack: Some((PIC_1_OFFSET + in_service - 1) as u8),
        }),
        !(1 <= in_service <= 256 - PIC_1_OFFSET) ==> r == (IrqAction { report: None, ack: None }),
{
    if 1 <= in_service && in_service <= 255 - PIC_1_OFFSET + 1 {
        let id = in_service - 1;
        IrqAction { report: Some(id), ack: Some(PIC_1_OFFSET + id) }
    } else {
        IrqAction { report: None, ack: None }
    }
}

} // verus!
