//! Trap-and-memory core of a small x86_64 kernel: the interrupt vector
//! layout, the decisions of the interrupt handlers, a model of the cascaded
//! interrupt controllers, and the boot-time physical frame allocator.

pub mod memory;
pub mod interrupts;
pub mod pic;
pub mod keyboard;
