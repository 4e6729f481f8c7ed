//! Device configuration and the error type shared by the emulator.

use vstd::prelude::*;

verus! {

pub type EmulatorResult<T> = Result<T, EmulatorError>;

/// CHIP-8 device configuration, immutable after construction.
#[derive(Clone, Copy, PartialEq, Eq, Debug)]
pub struct DeviceConfig {
    /// Selects the updated ("new CHIP-8") behaviour of the quirky opcodes.
    pub is_new_chip8: bool,
    /// Treat an unsupported opcode as a fatal error instead of a no-op.
    pub halt_on_invalid: bool,
    /// `None` when throttling is disabled, else the target time of one
    /// instruction, in microseconds.
    pub throttling_micros: Option<u64>,
}

impl DeviceConfig {
    pub fn new(
        is_new_chip8: bool,
        halt_on_invalid: bool,
        do_instruction_throttling: bool,
        ips_throttling_rate: u64,
    ) -> (r: DeviceConfig)
        requires
            do_instruction_throttling ==> ips_throttling_rate > 0,
        ensures
            r.is_new_chip8 == is_new_chip8,
            r.halt_on_invalid == halt_on_invalid,
            r.throttling_micros == if do_instruction_throttling {
                Some(1_000_000u64 / ips_throttling_rate)
            } else {
                None::<u64>
            },
    {
        DeviceConfig {
            is_new_chip8,
            halt_on_invalid,
            throttling_micros: if do_instruction_throttling {
                Some(1_000_000u64 / ips_throttling_rate)
            } else {
                None
            },
        }
    }

    pub fn is_new_chip8(&self) -> (r: bool)
        ensures
            r == self.is_new_chip8,
    {
        self.is_new_chip8
    }

    pub fn should_halt_on_invalid(&self) -> (r: bool)
        ensures
            r == self.halt_on_invalid,
    {
        self.halt_on_invalid
    }

    pub fn get_throttling_config(&self) -> (r: Option<u64>)
        ensures
            r == self.throttling_micros,
    {
        self.throttling_micros
    }
}

/// The errors the emulator reports.
///
/// An unsupported opcode under `halt_on_invalid`, and a disconnected keyboard
/// queue, surface as `IOError`, as does any host I/O fault. A return with an
/// empty call stack and a memory access past the 4096-byte address space are
/// programming errors of the loaded ROM, reported as recoverable errors
/// instead of aborting the process.
#[derive(Clone, Debug)]
pub enum EmulatorError {
    SdlError(String),
    IOError(String),
    MutexInvalidState(String),
    StackUnderflow,
    MemoryOutOfBounds,
}

} // verus!
