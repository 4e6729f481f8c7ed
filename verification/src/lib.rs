//! A CHIP-8 virtual machine: an instruction decoder, an execution engine over
//! the emulated device state (registers, memory, stack, frame buffer, timers,
//! keyboard latch), and the small adapters that hand that state to a host.

pub mod device;
pub mod graphics;
pub mod instruction;
pub mod keyboard;
pub mod keyboard_adapter;
pub mod laws;
pub mod registers;
pub mod timer;
pub mod util;
