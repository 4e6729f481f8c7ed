//! The device: registers, memory, stack, frame buffer, timers, keyboard
//! latch and configuration, with the execution engine that applies one
//! decoded instruction to that state.

use vstd::prelude::*;
use crate::instruction::{spec_decode, spec_word, Instruction};
use crate::keyboard::{apply_events, drain_pending_events, spec_key_down, Keyboard, KeyboardEvent};
use crate::registers::RegisterFile;
use crate::timer::TimerState;
use crate::util::{DeviceConfig, EmulatorError, EmulatorResult};

verus! {

pub struct Device {
    pub registers: RegisterFile,
    pub memory: Vec<u8>,
    pub timers: TimerState,
    pub stack: Vec<u16>,
    pub frame_buffer: Vec<bool>,
    pub device_keyboard: Keyboard,
    pub device_config: DeviceConfig,
}

/// The mathematical state of the device: the register file, memory, stack,
/// frame buffer, both timer counters and the keyboard latch.
#[verifier::ext_equal]
pub ghost struct DeviceView {
    pub v: Seq<u8>,
    pub pc: u16,
    pub i: u16,
    pub memory: Seq<u8>,
    pub stack: Seq<u16>,
    pub frame: Seq<bool>,
    pub delay: u8,
    pub sound: u8,
    pub keys: u16,
}

impl DeviceView {
    pub open spec fn wf(&self) -> bool {
        &&& self.v.len() == 16
        &&& self.memory.len() == 4096
        &&& self.frame.len() == 2048
    }
}

impl View for Device {
    type V = DeviceView;

    open spec fn view(&self) -> DeviceView {
        DeviceView {
            v: self.registers.v@,
            pc: self.registers.pc,
            i: self.registers.i,
            memory: self.memory@,
            stack: self.stack@,
            frame: self.frame_buffer@,
            delay: self.timers.delay,
            sound: self.timers.sound,
            keys: self.device_keyboard.bitflags,
        }
    }
}

impl Device {
    pub const DEVICE_MEMORY_SIZE: usize = 4096;

    pub const FRAME_BUFFER_WIDTH: usize = 64;

    pub const FRAME_BUFFER_HEIGHT: usize = 32;

    pub const FRAME_BUFFER_SIZE: usize = 64 * 32;

    pub const FONT_HEIGHT: u16 = 5;

    pub const FONT_DEFAULT_MEM_LOCATION_START: usize = 0x50;

    pub const FONT_DEFAULT_MEM_LOCATION_END: usize = 0x9F;

    pub const ROM_START: usize = 0x200;

    pub open spec fn wf(&self) -> bool {
        self@.wf()
    }

    pub fn new(device_keyboard: Keyboard, device_config: DeviceConfig) -> (r: Device)
        ensures
            r.wf(),
            forall|j: int| 0 <= j < 16 ==> r@.v[j] == 0u8,
            r@.pc == 0x200,
            r@.i == 0,
            forall|j: int| 0 <= j < 4096 ==> r@.memory[j] == 0u8,
            r@.stack.len() == 0,
            forall|j: int| 0 <= j < 2048 ==> r@.frame[j] == false,
            r@.delay == 0,
            r@.sound == 0,
            r@.keys == device_keyboard.bitflags,
            r.device_config == device_config,
    {
        let mut memory: Vec<u8> = Vec::new();
        while memory.len() < 4096
            invariant
                memory@.len() <= 4096,
                forall|j: int| 0 <= j < memory@.len() ==> memory@[j] == 0u8,
            decreases 4096 - memory@.len(),
        {
            memory.push(0);
        }
        let mut frame_buffer: Vec<bool> = Vec::new();
        while frame_buffer.len() < 2048
            invariant
                frame_buffer@.len() <= 2048,
                forall|j: int| 0 <= j < frame_buffer@.len() ==> frame_buffer@[j] == false,
            decreases 2048 - frame_buffer@.len(),
        {
            frame_buffer.push(false);
        }
        Device {
            registers: RegisterFile::new(),
            memory,
            timers: TimerState::new(),
            stack: Vec::new(),
            frame_buffer,
            device_keyboard,
            device_config,
        }
    }

    /// Load a ROM image verbatim, starting at the ROM load offset; shorter
    /// images leave the rest of memory as it was.
    pub fn load_rom(&mut self, rom: &[u8])
        requires
            old(self).wf(),
            rom@.len() <= 4096 - 0x200,
        ensures
            final(self).wf(),
            forall|j: int|
                0x200 <= j < 0x200 + rom@.len() ==> final(self)@.memory[j] == rom@[j - 0x200],
            forall|j: int|
                0 <= j < 4096 && !(0x200 <= j < 0x200 + rom@.len()) ==> final(self)@.memory[j]
                    == old(self)@.memory[j],
            final(self).device_config == old(self).device_config,
            final(self).device_keyboard == old(self).device_keyboard,
            final(self)@ == (DeviceView { memory: final(self)@.memory, ..old(self)@ }),
    {
        let mut k: usize = 0;
        while k < rom.len()
            invariant
                self@.memory.len() == 4096,
                rom@.len() <= 4096 - 0x200,
                0 <= k <= rom@.len(),
                forall|j: int| 0x200 <= j < 0x200 + k ==> self@.memory[j] == rom@[j - 0x200],
                forall|j: int|
                    0 <= j < 4096 && !(0x200 <= j < 0x200 + k) ==> self@.memory[j] == old(
                        self,
                    )@.memory[j],
                self.registers == old(self).registers,
                self.timers == old(self).timers,
                self.stack == old(self).stack,
                self.frame_buffer == old(self).frame_buffer,
                self.device_keyboard == old(self).device_keyboard,
                self.device_config == old(self).device_config,
            decreases rom@.len() - k,
        {
            let b = rom[k];
            self.memory.set(0x200 + k, b);
            k = k + 1;
        }
    }

    /// Write the sixteen 5-byte font glyphs to their fixed place in memory.
    pub fn set_default_font(&mut self)
        requires
            old(self).wf(),
        ensures
            final(self).wf(),
            forall|j: int| 0x50 <= j <= 0x9F ==> final(self)@.memory[j] == font_table()[j - 0x50],
            forall|j: int|
                0 <= j < 4096 && !(0x50 <= j <= 0x9F) ==> final(self)@.memory[j] == old(
                    self,
                )@.memory[j],
            final(self).device_config == old(self).device_config,
            final(self).device_keyboard == old(self).device_keyboard,
            final(self)@ == (DeviceView { memory: final(self)@.memory, ..old(self)@ }),
    {
        let font: [u8; 80] = [
            0xF0, 0x90, 0x90, 0x90, 0xF0,  // 0
            0x20, 0x60, 0x20, 0x20, 0x70,  // 1
            0xF0, 0x10, 0xF0, 0x80, 0xF0,  // 2
            0xF0, 0x10, 0xF0, 0x10, 0xF0,  // 3
            0x90, 0x90, 0xF0, 0x10, 0x10,  // 4
            0xF0, 0x80, 0xF0, 0x10, 0xF0,  // 5
            0xF0, 0x80, 0xF0, 0x90, 0xF0,  // 6
            0xF0, 0x10, 0x20, 0x40, 0x40,  // 7
            0xF0, 0x90, 0xF0, 0x90, 0xF0,  // 8
            0xF0, 0x90, 0xF0, 0x10, 0xF0,  // 9
            0xF0, 0x90, 0xF0, 0x90, 0x90,  // A
            0xE0, 0x90, 0xE0, 0x90, 0xE0,  // B
            0xF0, 0x80, 0x80, 0x80, 0xF0,  // C
            0xE0, 0x90, 0x90, 0x90, 0xE0,  // D
            0xF0, 0x80, 0xF0, 0x80, 0xF0,  // E
            0xF0, 0x80, 0xF0, 0x80, 0x80,  // F
        ];
        proof {
            assert(font@ =~= font_table());
        }
        let mut k: usize = 0;
        while k < 80
            invariant
                self@.memory.len() == 4096,
                0 <= k <= 80,
                font@ == font_table(),
                forall|j: int| 0x50 <= j < 0x50 + k ==> self@.memory[j] == font_table()[j - 0x50],
                forall|j: int|
                    0 <= j < 4096 && !(0x50 <= j < 0x50 + k) ==> self@.memory[j] == old(
                        self,
                    )@.memory[j],
                self.registers == old(self).registers,
                self.timers == old(self).timers,
                self.stack == old(self).stack,
                self.frame_buffer == old(self).frame_buffer,
                self.device_keyboard == old(self).device_keyboard,
                self.device_config == old(self).device_config,
            decreases 80 - k,
        {
            let b = font[k];
            self.memory.set(0x50 + k, b);
            k = k + 1;
        }
    }

    /// Shift right by one and hand out the bit shifted out.
    fn shr_1(left: u8) -> (r: (u8, bool))
        ensures
            r.0 == left / 2,
            r.1 == (left & 0x1 == 0x1),
            r.1 == (left % 2 == 1),
    {
        let bit_carry = (left & 0x1) == 0x1;
        proof {
            assert(left & 0x1 == left % 2) by (bit_vector);
            assert(left >> 1u8 == left / 2) by (bit_vector);
        }
        (left >> 1, bit_carry)
    }

    /// Shift left by one, truncating, and hand out the bit shifted out.
    fn shl_1(left: u8) -> (r: (u8, bool))
        ensures
            r.0 == (left * 2) % 256,
            r.1 == (left & 0x80 == 0x80),
            r.1 == (left >= 0x80),
    {
        let bit_carry = (left & 0x80) == 0x80;
        proof {
            assert((left & 0x80 == 0x80) == (left >= 0x80)) by (bit_vector);
            assert(((left & 0x7F) << 1u8) == (left * 2) % 256) by (bit_vector);
        }
        ((left & 0x7F) << 1, bit_carry)
    }

    /// Convert the two frame-buffer indices into one.
    fn get_framebuffer_index(x: usize, y: usize) -> (r: usize)
        requires
            y * 64 + x < 4096,
        ensures
            r == y * 64 + x,
    {
        y * 64 + x
    }

    fn set_flag_register(&mut self, x: bool)
        requires
            old(self).wf(),
        ensures
            final(self).wf(),
            final(self)@.v == old(self)@.v.update(15, if x { 1u8 } else { 0u8 }),
            final(self).device_config == old(self).device_config,
            final(self).device_keyboard == old(self).device_keyboard,
            final(self)@ == (DeviceView { v: final(self)@.v, ..old(self)@ }),
    {
        let flag: u8 = if x {
            1
        } else {
            0
        };
        self.registers.v.set(0xF, flag);
    }

    /// Draw a sprite at location (x, y), n rows long and 8 pixels wide, by
    /// XOR; rows below the screen and pixels past the right edge of a row
    /// are dropped. Returns whether any pixel was toggled off.
    #[verifier::rlimit(100)]
    #[verifier::spinoff_prover]
    fn draw_sprite_at_location(&mut self, x: usize, y: usize, n: u8) -> (r: bool)
        requires
            old(self).wf(),
            old(self)@.i + n <= 4096,
            x < 256,
            y < 256,
        ensures
            final(self).wf(),
            final(self)@.frame == spec_draw_frame(
                old(self)@.frame,
                old(self)@.memory,
                old(self)@.i as int,
                x as int,
                y as int,
                n as int,
            ),
            r == spec_draw_collision(
                old(self)@.frame,
                old(self)@.memory,
                old(self)@.i as int,
                x as int,
                y as int,
                n as int,
            ),
            final(self).device_config == old(self).device_config,
            final(self).device_keyboard == old(self).device_keyboard,
            final(self)@ == (DeviceView { frame: final(self)@.frame, ..old(self)@ }),
    {
        let ghost frame0 = old(self)@.frame;
        let ghost mem = old(self)@.memory;
        let ghost i0 = old(self)@.i as int;
        let ghost xi = x as int;
        let ghost yi = y as int;
        let index_base = self.registers.i as usize;
        let mut is_pixel_toggled_off = false;
        let mut k: usize = 0;
        while k < n as usize
            invariant
                self.wf(),
                0 <= k <= n,
                x < 256,
                y < 256,
                i0 + n <= 4096,
                index_base == i0,
                frame0.len() == 2048,
                mem.len() == 4096,
                mem == old(self)@.memory,
                frame0 == old(self)@.frame,
                i0 == old(self)@.i as int,
                xi == x as int,
                yi == y as int,
                self.device_config == old(self).device_config,
                self.device_keyboard == old(self).device_keyboard,
                self@ == (DeviceView { frame: self@.frame, ..old(self)@ }),
                forall|p: int|
                    0 <= p < 2048 ==> self@.frame[p] == (if processed(
                        xi,
                        yi,
                        k as int,
                        0,
                        p % 64,
                        p / 64,
                    ) && sprite_bit(mem, i0, xi, yi, p % 64, p / 64) {
                        !frame0[p]
                    } else {
                        frame0[p]
                    }),
                is_pixel_toggled_off == (exists|p: int|
                    0 <= p < 2048 && frame0[p] && processed(xi, yi, k as int, 0, p % 64, p / 64)
                        && sprite_bit(mem, i0, xi, yi, p % 64, p / 64)),
            decreases n - k,
        {
            let slice_from_memory = self.memory[index_base + k];
            let row_on_screen = y + k < 32;
            let mut j: usize = 0;
            while j < 8
                invariant
                    self.wf(),
                    0 <= k < n,
                    0 <= j <= 8,
                    x < 256,
                    y < 256,
                    i0 + n <= 4096,
                    index_base == i0,
                    frame0.len() == 2048,
                    mem.len() == 4096,
                    mem == old(self)@.memory,
                    frame0 == old(self)@.frame,
                    i0 == old(self)@.i as int,
                    xi == x as int,
                    yi == y as int,
                    row_on_screen == (y + k < 32),
                    slice_from_memory == mem[i0 + k],
                    self.device_config == old(self).device_config,
                    self.device_keyboard == old(self).device_keyboard,
                    self@ == (DeviceView { frame: self@.frame, ..old(self)@ }),
                    forall|p: int|
                        0 <= p < 2048 ==> self@.frame[p] == (if processed(
                            xi,
                            yi,
                            k as int,
                            if row_on_screen {
                                j as int
                            } else {
                                0
                            },
                            p % 64,
                            p / 64,
                        ) && sprite_bit(mem, i0, xi, yi, p % 64, p / 64) {
                            !frame0[p]
                        } else {
                            frame0[p]
                        }),
                    is_pixel_toggled_off == (exists|p: int|
                        0 <= p < 2048 && frame0[p] && processed(
                            xi,
                            yi,
                            k as int,
                            if row_on_screen {
                                j as int
                            } else {
                                0
                            },
                            p % 64,
                            p / 64,
                        ) && sprite_bit(mem, i0, xi, yi, p % 64, p / 64)),
                decreases 8 - j,
            {
                if row_on_screen && x + j < 64 {
                    let index = Self::get_framebuffer_index(x + j, y + k);
                    let mask: u8 = 1u8 << ((7 - j) as u8);
                    let bit_is_true = (slice_from_memory & mask) == mask;
                    let ghost p0 = (yi + k) * 64 + (xi + j);
                    let ghost jj = j as int;
                    proof {
                        assert(p0 % 64 == xi + j && p0 / 64 == yi + k && 0 <= p0 < 2048)
                            by (nonlinear_arith)
                            requires
                                0 <= xi + j < 64,
                                0 <= yi + k < 32,
                                p0 == (yi + k) * 64 + (xi + j),
                        ;
                        assert(bit_is_true == sprite_bit(mem, i0, xi, yi, p0 % 64, p0 / 64));
                        assert(processed(xi, yi, k as int, jj + 1, p0 % 64, p0 / 64));
                        assert(!processed(xi, yi, k as int, jj, p0 % 64, p0 / 64));
                        assert forall|p: int|
                            #![trigger processed(xi, yi, k as int, jj + 1, p % 64, p / 64)]
                            0 <= p < 2048 && p != p0 implies (processed(
                            xi,
                            yi,
                            k as int,
                            jj + 1,
                            p % 64,
                            p / 64,
                        ) == processed(xi, yi, k as int, jj, p % 64, p / 64)) by {
                            if p % 64 == xi + j && p / 64 == yi + k {
                                assert(p == (p / 64) * 64 + p % 64) by (nonlinear_arith);
                            }
                        }
                    }
                    let old_pixel = self.frame_buffer[index];
                    if old_pixel && bit_is_true {
                        is_pixel_toggled_off = true;
                    }
                    self.frame_buffer.set(index, old_pixel ^ bit_is_true);
                    proof {
                        let ghost bitp0 = sprite_bit(mem, i0, xi, yi, p0 % 64, p0 / 64);
                        if is_pixel_toggled_off {
                            if old_pixel && bit_is_true {
                                assert(frame0[p0] && processed(xi, yi, k as int, jj + 1, p0 % 64, p0 / 64) && bitp0);
                            } else {
                                let p_w = choose|p: int|
                                    0 <= p < 2048 && frame0[p] && processed(
                                        xi,
                                        yi,
                                        k as int,
                                        jj,
                                        p % 64,
                                        p / 64,
                                    ) && sprite_bit(mem, i0, xi, yi, p % 64, p / 64);
                                assert(p_w != p0);
                                assert(processed(xi, yi, k as int, jj + 1, p_w % 64, p_w / 64));
                            }
                        } else {
                            assert forall|p: int|
                                #![trigger processed(xi, yi, k as int, jj + 1, p % 64, p / 64)]
                                0 <= p < 2048 && frame0[p] && processed(
                                xi,
                                yi,
                                k as int,
                                jj + 1,
                                p % 64,
                                p / 64,
                            ) implies !sprite_bit(mem, i0, xi, yi, p % 64, p / 64) by {
                                if p == p0 {
                                    assert(old_pixel == frame0[p0]);
                                } else {
                                    assert(processed(xi, yi, k as int, jj, p % 64, p / 64));
                                }
                            }
                        }
                    }
                    j = j + 1;
                } else {
                    proof {
                        let ghost jj = if row_on_screen {
                            j as int
                        } else {
                            0
                        };
                        let ghost jn = if row_on_screen {
                            j + 1
                        } else {
                            0
                        };
                        assert forall|p: int|
                            #![trigger processed(xi, yi, k as int, jn, p % 64, p / 64)]
                            0 <= p < 2048 implies (processed(xi, yi, k as int, jn, p % 64, p / 64)
                            == processed(xi, yi, k as int, jj, p % 64, p / 64)) by {
                            assert(0 <= p % 64 < 64 && 0 <= p / 64 < 32) by (nonlinear_arith)
                                requires
                                    0 <= p < 2048,
                            ;
                        }
                    }
                    j = j + 1;
                }
            }
            proof {
                let ghost jend: int = if row_on_screen {
                    8
                } else {
                    0
                };
                assert forall|p: int|
                    #![trigger processed(xi, yi, (k + 1) as int, 0, p % 64, p / 64)]
                    0 <= p < 2048 implies (processed(xi, yi, (k + 1) as int, 0, p % 64, p / 64)
                    == processed(xi, yi, k as int, jend, p % 64, p / 64)) by {
                    assert(0 <= p % 64 < 64 && 0 <= p / 64 < 32) by (nonlinear_arith)
                        requires
                            0 <= p < 2048,
                    ;
                }
                if is_pixel_toggled_off {
                    let p_w = choose|p: int|
                        0 <= p < 2048 && frame0[p] && processed(
                            xi,
                            yi,
                            k as int,
                            jend,
                            p % 64,
                            p / 64,
                        ) && sprite_bit(mem, i0, xi, yi, p % 64, p / 64);
                    assert(processed(xi, yi, (k + 1) as int, 0, p_w % 64, p_w / 64));
                }
            }
            k = k + 1;
        }
        proof {
            assert forall|p: int|
                #![trigger sprite_covers(xi, yi, n as int, p % 64, p / 64)]
                0 <= p < 2048 implies (processed(xi, yi, n as int, 0, p % 64, p / 64)
                == sprite_covers(xi, yi, n as int, p % 64, p / 64)) by {}
            assert(self@.frame =~= spec_draw_frame(frame0, mem, i0, xi, yi, n as int));
            if is_pixel_toggled_off {
                let p_w = choose|p: int|
                    0 <= p < 2048 && frame0[p] && processed(xi, yi, n as int, 0, p % 64, p / 64)
                        && sprite_bit(mem, i0, xi, yi, p % 64, p / 64);
                assert(sprite_covers(xi, yi, n as int, p_w % 64, p_w / 64));
            } else {
                assert forall|p: int|
                    #![trigger sprite_covers(xi, yi, n as int, p % 64, p / 64)]
                    0 <= p < 2048 && frame0[p] && sprite_covers(
                    xi,
                    yi,
                    n as int,
                    p % 64,
                    p / 64,
                ) implies !sprite_bit(mem, i0, xi, yi, p % 64, p / 64) by {
                    assert(processed(xi, yi, n as int, 0, p % 64, p / 64));
                }
            }
        }
        is_pixel_toggled_off
    }

    /// Execute one decoded instruction over the device state. `random_byte`
    /// supplies the randomness `RandomAnd` consumes; every other instruction
    /// ignores it. On a fault the state is left unchanged and the fault is
    /// reported as a recoverable error.
    #[verifier::rlimit(100)]
    #[verifier::spinoff_prover]
    pub fn execute_with_input(&mut self, instruction: Instruction, random_byte: u8) -> (r:
        EmulatorResult<()>)
        requires
            old(self).wf(),
            instruction.wf(),
        ensures
            final(self).wf(),
            final(self).device_config == old(self).device_config,
            final(self).device_keyboard == old(self).device_keyboard,
            (match step_fault(
                old(self)@,
                instruction,
                old(self).device_config.halt_on_invalid,
            ) {
                None => r is Ok && final(self)@ == step(
                    old(self)@,
                    instruction,
                    random_byte,
                    old(self).device_config.is_new_chip8,
                ),
                Some(f) => final(self)@ == old(self)@ && (r matches Err(e)
                    && fault_error_matches(f, e)),
            }),
    {
        let ghost pre = old(self)@;
        let new_mode = self.device_config.is_new_chip8;
        match instruction {
            Instruction::Assign(..) | Instruction::Or(..) | Instruction::And(..)
                | Instruction::Xor(..) | Instruction::Add(..) | Instruction::Sub(..)
                | Instruction::RSub(..) | Instruction::RShift(..) | Instruction::LShift(..) => {
                return self.execute_arithmetic(instruction, random_byte);
            },
            Instruction::SetIndex(..) | Instruction::AddToIndex(..)
                | Instruction::SetIndexToFontCharacter(..) | Instruction::DoBCDConversion(..)
                | Instruction::StoreRegistersToMemory(..)
                | Instruction::LoadRegistersFromMemory(..) => {
                return self.execute_memory(instruction, random_byte);
            },
            Instruction::JumpTo(..) | Instruction::JumpAndLink(..)
                | Instruction::ReturnFromProcedure | Instruction::JumpWithOffset(..) => {
                return self.execute_control_flow(instruction, random_byte);
            },
            Instruction::ConditionalEqSkipNext(..) | Instruction::ConditionalInEqSkipNext(..)
                | Instruction::ConditionalEqRegisterSkipNext(..)
                | Instruction::ConditionalInEqRegisterSkipNext(..)
                | Instruction::SkipIfKeyPressed(..) | Instruction::SkipIfKeyNotPressed(..) => {
                return self.execute_skip(instruction, random_byte);
            },
            Instruction::GetKey(..) => {
                return self.execute_get_key(instruction, random_byte);
            },
            Instruction::PassThrough => {
                if self.device_config.halt_on_invalid {
                    return Err(EmulatorError::IOError("Caught Invalid Instruction".to_string()));
                }
            },
            Instruction::ClearScreen => {
                let mut p: usize = 0;
                while p < 2048
                    invariant
                        0 <= p <= 2048,
                        self@.frame.len() == 2048,
                        self.device_config == old(self).device_config,
                        self.device_keyboard == old(self).device_keyboard,
                        self@ == (DeviceView { frame: self@.frame, ..pre }),
                        forall|q: int| 0 <= q < p ==> self@.frame[q] == false,
                    decreases 2048 - p,
                {
                    self.frame_buffer.set(p, false);
                    p = p + 1;
                }
                proof {
                    assert(self@.frame =~= Seq::new(pre.frame.len(), |q: int| false));
                }
            },
            Instruction::SetRegister(reg_location, value) => {
                self.registers.v.set(reg_location, value);
            },
            Instruction::AddValueToRegister(reg_location, value) => {
                let cur = self.registers.v[reg_location];
                self.registers.v.set(reg_location, cur.wrapping_add(value));
            },
            Instruction::RandomAnd(dest, n) => {
                self.registers.v.set(dest, random_byte & n);
            },
            Instruction::Draw(regx, regy, n) => {
                if self.registers.i as usize + n as usize > 4096 {
                    return Err(EmulatorError::MemoryOutOfBounds);
                }
                let x = self.registers.v[regx] as usize;
                let y = self.registers.v[regy] as usize;
                let toggle_state = self.draw_sprite_at_location(x, y, n);
                self.set_flag_register(toggle_state);
            },
            Instruction::FetchDelayTimer(x) => {
                let timer_left = self.timers.poll_delay();
                self.registers.v.set(x, timer_left);
            },
            Instruction::SetDelayTimer(x) => {
                let delay_timer_val = self.registers.v[x];
                self.timers.set_delay(delay_timer_val);
            },
            Instruction::SetSoundTimer(x) => {
                let sound_timer_val = self.registers.v[x];
                self.timers.set_sound(sound_timer_val);
            },
        }
        proof {
            assert(self@ =~= step(pre, instruction, random_byte, new_mode));
        }
        Ok(())
    }

    /// Execute one decoded instruction, drawing the randomness `RandomAnd`
    /// consumes from the host's generator. On a fault the state is left
    /// unchanged and the fault is reported as a recoverable error.
    pub fn execute_instruction(&mut self, instruction: Instruction) -> (r: EmulatorResult<()>)
        requires
            old(self).wf(),
            instruction.wf(),
        ensures
            final(self).wf(),
            final(self).device_config == old(self).device_config,
            final(self).device_keyboard == old(self).device_keyboard,
            (match step_fault(
                old(self)@,
                instruction,
                old(self).device_config.halt_on_invalid,
            ) {
                None => r is Ok && (exists|b: u8|
                    final(self)@ == step(
                        old(self)@,
                        instruction,
                        b,
                        old(self).device_config.is_new_chip8,
                    )),
                Some(f) => final(self)@ == old(self)@ && (r matches Err(e)
                    && fault_error_matches(f, e)),
            }),
    {
        let b = random_byte();
        self.execute_with_input(instruction, b)
    }

    /// One device cycle from its outside inputs: apply a drained batch of
    /// keyboard events to the latch, then fetch the two bytes at the
    /// program counter, advance it, decode and execute, with `random_byte`
    /// as the randomness `RandomAnd` consumes. The outcome is fixed exactly
    /// by the device state and these inputs.
    #[verifier::rlimit(100)]
    #[verifier::spinoff_prover]
    pub fn cycle_with_input(&mut self, events: &Vec<KeyboardEvent>, random_byte: u8) -> (r:
        EmulatorResult<()>)
        requires
            old(self).wf(),
        ensures
            final(self).wf(),
            final(self).device_config == old(self).device_config,
            spec_cycle_with_input_outcome(
                old(self)@,
                final(self)@,
                r,
                events@,
                random_byte,
                old(self).device_config.is_new_chip8,
                old(self).device_config.halt_on_invalid,
            ),
    {
        let ghost pre = old(self)@;
        self.device_keyboard.apply_keyboard_events(events);
        let ghost keys2 = self.device_keyboard.bitflags;
        proof {
            assert(self@ =~= with_keys(pre, keys2));
        }
        let pc = self.registers.pc as usize;
        if pc + 2 > 4096 {
            return Err(EmulatorError::MemoryOutOfBounds);
        }
        let hi = self.memory[pc];
        let lo = self.memory[pc + 1];
        self.registers.pc = self.registers.pc + 2;
        proof {
            assert(self@ =~= spec_after_fetch(with_keys(pre, keys2)));
        }
        let instruction = Instruction::decode_word((hi as u16) * 256 + (lo as u16));
        self.execute_with_input(instruction, random_byte)
    }

    /// One device cycle: drain the keyboard queue into the latch, fetch,
    /// decode and execute, drawing the randomness from the host's
    /// generator. A disconnected queue is fatal, reported after the events
    /// drained before the disconnect have been applied and before any
    /// fetch. `cycle_with_input` carries the exact effect of the cycle for
    /// any drained batch and random byte; which batch the queue held is
    /// outside state, so here it is existential.
    #[verifier::rlimit(100)]
    #[verifier::spinoff_prover]
    pub fn cycle(&mut self) -> (r: EmulatorResult<()>)
        requires
            old(self).wf(),
        ensures
            final(self).wf(),
            final(self).device_config == old(self).device_config,
            exists|keys2: u16, b: u8|
                {
                    &&& #[trigger] spec_cycle_outcome(
                        old(self)@,
                        final(self)@,
                        r,
                        keys2,
                        b,
                        old(self).device_config.is_new_chip8,
                        old(self).device_config.halt_on_invalid,
                    )
                    &&& (exists|evs: Seq<KeyboardEvent>| keys2 == apply_events(
                        old(self)@.keys,
                        evs,
                    ))
                },
    {
        let ghost pre = old(self)@;
        let (events, disconnected) = drain_pending_events(
            &self.device_keyboard.keyboard_event_receiver,
        );
        let ghost keys2 = apply_events(pre.keys, events@);
        if disconnected {
            self.device_keyboard.apply_keyboard_events(&events);
            let e = EmulatorError::IOError("Keyboard updater disconnected".to_string());
            proof {
                assert(self@ =~= with_keys(pre, keys2));
                assert(spec_cycle_outcome(
                    pre,
                    self@,
                    Err::<(), EmulatorError>(e),
                    keys2,
                    0u8,
                    self.device_config.is_new_chip8,
                    self.device_config.halt_on_invalid,
                ));
            }
            return Err(e);
        }
        let b = random_byte();
        let r = self.cycle_with_input(&events, b);
        proof {
            let nc = self.device_config.is_new_chip8;
            let halt = self.device_config.halt_on_invalid;
            assert(spec_cycle_outcome(pre, self@, r, keys2, b, nc, halt));
            assert(keys2 == apply_events(pre.keys, events@));
        }
        r
    }

    /// The ALU family of the execution engine.
    #[verifier::rlimit(100)]
    #[verifier::spinoff_prover]
    fn execute_arithmetic(&mut self, instruction: Instruction, random_byte: u8) -> (r:
        EmulatorResult<()>)
        requires
            (instruction matches Instruction::Assign(..)) || (instruction
                matches Instruction::Or(..)) || (instruction matches Instruction::And(..))
                || (instruction matches Instruction::Xor(..)) || (instruction
                matches Instruction::Add(..)) || (instruction matches Instruction::Sub(..))
                || (instruction matches Instruction::RSub(..)) || (instruction
                matches Instruction::RShift(..)) || (instruction matches Instruction::LShift(..)),
            old(self).wf(),
            instruction.wf(),
        ensures
            final(self).wf(),
            final(self).device_config == old(self).device_config,
            final(self).device_keyboard == old(self).device_keyboard,
            (match step_fault(
                old(self)@,
                instruction,
                old(self).device_config.halt_on_invalid,
            ) {
                None => r is Ok && final(self)@ == step(
                    old(self)@,
                    instruction,
                    random_byte,
                    old(self).device_config.is_new_chip8,
                ),
                Some(f) => final(self)@ == old(self)@ && (r matches Err(e)
                    && fault_error_matches(f, e)),
            }),
    {
        let ghost pre = old(self)@;
        let new_mode = self.device_config.is_new_chip8;
        match instruction {
            Instruction::Assign(x, y) => {
                let val = self.registers.v[y];
                self.registers.v.set(x, val);
            },
            Instruction::Or(x, y) => {
                let val = self.registers.v[x] | self.registers.v[y];
                self.registers.v.set(x, val);
            },
            Instruction::And(x, y) => {
                let val = self.registers.v[x] & self.registers.v[y];
                self.registers.v.set(x, val);
            },
            Instruction::Xor(x, y) => {
                let val = self.registers.v[x] ^ self.registers.v[y];
                self.registers.v.set(x, val);
            },
            Instruction::Add(x, y) => {
                let left = self.registers.v[x];
                let right = self.registers.v[y];
                let sum = left as u16 + right as u16;
                self.registers.v.set(x, (sum % 256) as u8);
                self.set_flag_register(sum > 255);
            },
            Instruction::Sub(x, y) => {
                let left = self.registers.v[x];
                let right = self.registers.v[y];
                let no_borrow = left >= right;
                self.registers.v.set(x, left.wrapping_sub(right));
                self.set_flag_register(no_borrow);
            },
            Instruction::RSub(x, y) => {
                let left = self.registers.v[y];
                let right = self.registers.v[x];
                let no_borrow = left >= right;
                self.registers.v.set(x, left.wrapping_sub(right));
                self.set_flag_register(no_borrow);
            },
            Instruction::RShift(x, y) => {
                if !new_mode {
                    let val = self.registers.v[y];
                    self.registers.v.set(x, val);
                }
                let val = self.registers.v[x];
                let (shift_res, bit_carry) = Self::shr_1(val);
                self.registers.v.set(x, shift_res);
                self.set_flag_register(bit_carry);
            },
            Instruction::LShift(x, y) => {
                if !new_mode {
                    let val = self.registers.v[y];
                    self.registers.v.set(x, val);
                }
                let left = self.registers.v[x];
                let (res, bit_carry) = Self::shl_1(left);
                self.registers.v.set(x, res);
                self.set_flag_register(bit_carry);
            },
            _ => {
                proof {
                    assert(false);
                }
            },
        }
        proof {
            assert(self@ =~= step(pre, instruction, random_byte, new_mode));
        }
        Ok(())
    }

    /// The index-register and memory family of the execution engine.
    #[verifier::rlimit(100)]
    #[verifier::spinoff_prover]
    fn execute_memory(&mut self, instruction: Instruction, random_byte: u8) -> (r: EmulatorResult<
        (),
    >)
        requires
            (instruction matches Instruction::SetIndex(..)) || (instruction
                matches Instruction::AddToIndex(..)) || (instruction
                matches Instruction::SetIndexToFontCharacter(..)) || (instruction
                matches Instruction::DoBCDConversion(..)) || (instruction
                matches Instruction::StoreRegistersToMemory(..)) || (instruction
                matches Instruction::LoadRegistersFromMemory(..)),
            old(self).wf(),
            instruction.wf(),
        ensures
            final(self).wf(),
            final(self).device_config == old(self).device_config,
            final(self).device_keyboard == old(self).device_keyboard,
            (match step_fault(
                old(self)@,
                instruction,
                old(self).device_config.halt_on_invalid,
            ) {
                None => r is Ok && final(self)@ == step(
                    old(self)@,
                    instruction,
                    random_byte,
                    old(self).device_config.is_new_chip8,
                ),
                Some(f) => final(self)@ == old(self)@ && (r matches Err(e)
                    && fault_error_matches(f, e)),
            }),
    {
        let ghost pre = old(self)@;
        let new_mode = self.device_config.is_new_chip8;
        match instruction {
            Instruction::SetIndex(value) => {
                self.registers.i = value;
            },
            Instruction::AddToIndex(x) => {
                let reg_value = self.registers.v[x] as u32;
                let index_original = self.registers.i as u32;
                let sum = index_original + reg_value;
                if new_mode {
                    let overflowing = sum >= 0x1000;
                    self.set_flag_register(overflowing);
                    self.registers.i = (sum % 0x1000) as u16;
                } else {
                    self.registers.i = (sum % 0x10000) as u16;
                }
            },
            Instruction::SetIndexToFontCharacter(x) => {
                let requested_char = self.registers.v[x];
                let font_address = 0x50u16 + 5u16 * requested_char as u16;
                self.registers.i = font_address;
            },
            Instruction::DoBCDConversion(x) => {
                let index = self.registers.i as usize;
                if index + 3 > 4096 {
                    return Err(EmulatorError::MemoryOutOfBounds);
                }
                let binary_value_to_decode = self.registers.v[x];
                let hundreds_digit = binary_value_to_decode / 100;
                let tens_digit = (binary_value_to_decode / 10) % 10;
                let unit_digit = binary_value_to_decode % 10;
                self.memory.set(index, hundreds_digit);
                self.memory.set(index + 1, tens_digit);
                self.memory.set(index + 2, unit_digit);
            },
            Instruction::StoreRegistersToMemory(last_reg_to_store) => {
                let index = self.registers.i as usize;
                if index + last_reg_to_store + 1 > 4096 {
                    return Err(EmulatorError::MemoryOutOfBounds);
                }
                let mut r: usize = 0;
                while r < last_reg_to_store + 1
                    invariant
                        0 <= r <= last_reg_to_store + 1,
                        last_reg_to_store < 16,
                        index + last_reg_to_store + 1 <= 4096,
                        index == pre.i,
                        self@.memory.len() == 4096,
                        pre.wf(),
                        self.device_config == old(self).device_config,
                        self.device_keyboard == old(self).device_keyboard,
                        self@ == (DeviceView { memory: self@.memory, ..pre }),
                        forall|p: int|
                            index <= p < index + r ==> self@.memory[p] == pre.v[p - index],
                        forall|p: int|
                            0 <= p < 4096 && !(index <= p < index + r) ==> self@.memory[p]
                                == pre.memory[p],
                    decreases last_reg_to_store + 1 - r,
                {
                    let val = self.registers.v[r];
                    self.memory.set(index + r, val);
                    r = r + 1;
                }
                proof {
                    assert(self@.memory =~= spec_store_regs(
                        pre.memory,
                        pre.v,
                        pre.i as int,
                        last_reg_to_store as int,
                    ));
                }
                if !new_mode {
                    self.registers.i = self.registers.i + last_reg_to_store as u16 + 1;
                }
            },
            Instruction::LoadRegistersFromMemory(last_reg_to_load) => {
                let index = self.registers.i as usize;
                if index + last_reg_to_load + 1 > 4096 {
                    return Err(EmulatorError::MemoryOutOfBounds);
                }
                let mut r: usize = 0;
                while r < last_reg_to_load + 1
                    invariant
                        0 <= r <= last_reg_to_load + 1,
                        last_reg_to_load < 16,
                        index + last_reg_to_load + 1 <= 4096,
                        index == pre.i,
                        self@.v.len() == 16,
                        pre.wf(),
                        self.device_config == old(self).device_config,
                        self.device_keyboard == old(self).device_keyboard,
                        self@ == (DeviceView { v: self@.v, ..pre }),
                        forall|j: int| 0 <= j < r ==> self@.v[j] == pre.memory[index + j],
                        forall|j: int| r <= j < 16 ==> self@.v[j] == pre.v[j],
                    decreases last_reg_to_load + 1 - r,
                {
                    let val = self.memory[index + r];
                    self.registers.v.set(r, val);
                    r = r + 1;
                }
                proof {
                    assert(self@.v =~= spec_load_regs(
                        pre.v,
                        pre.memory,
                        pre.i as int,
                        last_reg_to_load as int,
                    ));
                }
                if !new_mode {
                    self.registers.i = self.registers.i + last_reg_to_load as u16 + 1;
                }
            },
            _ => {
                proof {
                    assert(false);
                }
            },
        }
        proof {
            assert(self@ =~= step(pre, instruction, random_byte, new_mode));
        }
        Ok(())
    }

    /// The jump, skip and key family of the execution engine.
    #[verifier::rlimit(100)]
    #[verifier::spinoff_prover]
    fn execute_control_flow(&mut self, instruction: Instruction, random_byte: u8) -> (r:
        EmulatorResult<()>)
        requires
            (instruction matches Instruction::JumpTo(..)) || (instruction
                matches Instruction::JumpAndLink(..)) || (instruction
                matches Instruction::ReturnFromProcedure) || (instruction
                matches Instruction::JumpWithOffset(..)),
            old(self).wf(),
            instruction.wf(),
        ensures
            final(self).wf(),
            final(self).device_config == old(self).device_config,
            final(self).device_keyboard == old(self).device_keyboard,
            (match step_fault(
                old(self)@,
                instruction,
                old(self).device_config.halt_on_invalid,
            ) {
                None => r is Ok && final(self)@ == step(
                    old(self)@,
                    instruction,
                    random_byte,
                    old(self).device_config.is_new_chip8,
                ),
                Some(f) => final(self)@ == old(self)@ && (r matches Err(e)
                    && fault_error_matches(f, e)),
            }),
    {
        let ghost pre = old(self)@;
        let new_mode = self.device_config.is_new_chip8;
        match instruction {
            Instruction::JumpTo(new_pc) => {
                self.registers.pc = new_pc;
                proof {
                    assert(self@ =~= step(pre, instruction, random_byte, new_mode));
                }
            },
            Instruction::JumpAndLink(jump_location) => {
                self.stack.push(self.registers.pc);
                self.registers.pc = jump_location;
                proof {
                    assert(self@ =~= step(pre, instruction, random_byte, new_mode));
                }
            },
            Instruction::ReturnFromProcedure => {
                match self.stack.pop() {
                    Some(old_pc) => {
                        self.registers.pc = old_pc;
                    },
                    None => {
                        return Err(EmulatorError::StackUnderflow);
                    },
                }
                proof {
                    assert(self@ =~= step(pre, instruction, random_byte, new_mode));
                }
            },
            Instruction::JumpWithOffset(x, num) => {
                let regnum = if new_mode {
                    x
                } else {
                    0
                };
                let new_pc = self.registers.v[regnum] as u16 + num;
                self.registers.pc = new_pc;
                proof {
                    assert(self@ =~= step(pre, instruction, random_byte, new_mode));
                }
            },
            _ => {
                proof {
                    assert(false);
                }
                proof {
                    assert(self@ =~= step(pre, instruction, random_byte, new_mode));
                }
            },
        }
        Ok(())
    }

    /// The key-wait instruction of the execution engine: scan the keys in
    /// ascending order; with none down, rewind the program counter so the
    /// same instruction re-executes next cycle.
    #[verifier::rlimit(100)]
    #[verifier::spinoff_prover]
    fn execute_get_key(&mut self, instruction: Instruction, random_byte: u8) -> (r: EmulatorResult<
        (),
    >)
        requires
            (instruction matches Instruction::GetKey(..)),
            old(self).wf(),
            instruction.wf(),
        ensures
            final(self).wf(),
            final(self).device_config == old(self).device_config,
            final(self).device_keyboard == old(self).device_keyboard,
            (match step_fault(
                old(self)@,
                instruction,
                old(self).device_config.halt_on_invalid,
            ) {
                None => r is Ok && final(self)@ == step(
                    old(self)@,
                    instruction,
                    random_byte,
                    old(self).device_config.is_new_chip8,
                ),
                Some(f) => final(self)@ == old(self)@ && (r matches Err(e)
                    && fault_error_matches(f, e)),
            }),
    {
        let ghost pre = old(self)@;
        let new_mode = self.device_config.is_new_chip8;
        let x = match instruction {
            Instruction::GetKey(x) => x,
            _ => {
                proof {
                    assert(false);
                }
                0
            },
        };
        let ghost keys0 = pre.keys;
        let mut found: Option<u8> = None;
        let mut kk: u8 = 0;
        while kk < 16
            invariant
                0 <= kk <= 16,
                self == old(self),
                keys0 == self.device_keyboard.bitflags,
                (match found {
                    Some(kf) => kf < kk && spec_key_down(keys0, kf) && (forall|j: int|
                        0 <= j < kf ==> !(#[trigger] spec_key_down(keys0, j as u8))),
                    None => forall|j: int|
                        0 <= j < kk ==> !(#[trigger] spec_key_down(keys0, j as u8)),
                }),
            decreases 16 - kk,
        {
            if found.is_none() && self.device_keyboard.query_key_down(kk) {
                found = Some(kk);
            }
            kk = kk + 1;
        }
        match found {
            Some(pressed_key) => {
                proof {
                    lemma_first_pressed_prefix(keys0, pressed_key as int);
                }
                self.registers.v.set(x, pressed_key);
            },
            None => {
                proof {
                    lemma_first_pressed_prefix(keys0, 16);
                }
                self.registers.pc = self.registers.pc.wrapping_sub(2);
            },
        }
        proof {
            assert(self@ =~= step(pre, instruction, random_byte, new_mode));
        }
        Ok(())
    }

    /// The conditional-skip family of the execution engine: advance the
    /// program counter by one extra instruction when the comparison holds.
    #[verifier::rlimit(100)]
    #[verifier::spinoff_prover]
    fn execute_skip(&mut self, instruction: Instruction, random_byte: u8) -> (r: EmulatorResult<
        (),
    >)
        requires
            (instruction matches Instruction::ConditionalEqSkipNext(..)) || (instruction
                matches Instruction::ConditionalInEqSkipNext(..)) || (instruction
                matches Instruction::ConditionalEqRegisterSkipNext(..)) || (instruction
                matches Instruction::ConditionalInEqRegisterSkipNext(..)) || (instruction
                matches Instruction::SkipIfKeyPressed(..)) || (instruction
                matches Instruction::SkipIfKeyNotPressed(..)),
            old(self).wf(),
            instruction.wf(),
        ensures
            final(self).wf(),
            final(self).device_config == old(self).device_config,
            final(self).device_keyboard == old(self).device_keyboard,
            (match step_fault(
                old(self)@,
                instruction,
                old(self).device_config.halt_on_invalid,
            ) {
                None => r is Ok && final(self)@ == step(
                    old(self)@,
                    instruction,
                    random_byte,
                    old(self).device_config.is_new_chip8,
                ),
                Some(f) => final(self)@ == old(self)@ && (r matches Err(e)
                    && fault_error_matches(f, e)),
            }),
    {
        let ghost pre = old(self)@;
        let new_mode = self.device_config.is_new_chip8;
        match instruction {
            Instruction::ConditionalEqSkipNext(regx, num) => {
                if self.registers.v[regx] == num {
                    self.registers.pc = self.registers.pc.wrapping_add(2);
                }
                proof {
                    assert(self@ =~= step(pre, instruction, random_byte, new_mode));
                }
            },
            Instruction::ConditionalInEqSkipNext(regx, num) => {
                if self.registers.v[regx] != num {
                    self.registers.pc = self.registers.pc.wrapping_add(2);
                }
                proof {
                    assert(self@ =~= step(pre, instruction, random_byte, new_mode));
                }
            },
            Instruction::ConditionalEqRegisterSkipNext(regx, regy) => {
                if self.registers.v[regx] == self.registers.v[regy] {
                    self.registers.pc = self.registers.pc.wrapping_add(2);
                }
                proof {
                    assert(self@ =~= step(pre, instruction, random_byte, new_mode));
                }
            },
            Instruction::ConditionalInEqRegisterSkipNext(regx, regy) => {
                if self.registers.v[regx] != self.registers.v[regy] {
                    self.registers.pc = self.registers.pc.wrapping_add(2);
                }
                proof {
                    assert(self@ =~= step(pre, instruction, random_byte, new_mode));
                }
            },
            Instruction::SkipIfKeyPressed(x) => {
                let key_press_expected_for = self.registers.v[x];
                if self.device_keyboard.query_key_down(key_press_expected_for) {
                    self.registers.pc = self.registers.pc.wrapping_add(2);
                }
                proof {
                    assert(self@ =~= step(pre, instruction, random_byte, new_mode));
                }
            },
            Instruction::SkipIfKeyNotPressed(x) => {
                let key_press_expected_for = self.registers.v[x];
                if !self.device_keyboard.query_key_down(key_press_expected_for) {
                    self.registers.pc = self.registers.pc.wrapping_add(2);
                }
                proof {
                    assert(self@ =~= step(pre, instruction, random_byte, new_mode));
                }
            },
            _ => {
                proof {
                    assert(false);
                }
            },
        }
        Ok(())
    }

}

/// Whether the sprite drawn at (`x`, `y`), `n` rows tall and 8 pixels wide,
/// covers the pixel at (`px`, `py`). Pixels past the right edge of a row and
/// rows at or below the bottom edge are never covered: `px` and `py` come
/// from a frame-buffer position, so `px < 64` and `py < 32`.
pub open spec fn sprite_covers(x: int, y: int, n: int, px: int, py: int) -> bool {
    y <= py < y + n && x <= px < x + 8
}

/// The sprite bit that lands on pixel (`px`, `py`): bit `px - x` of sprite
/// row `py - y`, most significant bit first.
pub open spec fn sprite_bit(mem: Seq<u8>, i: int, x: int, y: int, px: int, py: int) -> bool {
    let byte = mem[i + (py - y)];
    let mask = 1u8 << ((7 - (px - x)) as u8);
    byte & mask == mask
}

/// The frame buffer after drawing the sprite held at memory index `i` at
/// (`x`, `y`): each covered pixel is XORed with its sprite bit, every other
/// pixel keeps its state.
pub open spec fn spec_draw_frame(
    frame: Seq<bool>,
    mem: Seq<u8>,
    i: int,
    x: int,
    y: int,
    n: int,
) -> Seq<bool> {
    Seq::new(
        frame.len(),
        |p: int|
            if sprite_covers(x, y, n, p % 64, p / 64) && sprite_bit(mem, i, x, y, p % 64, p / 64) {
                !frame[p]
            } else {
                frame[p]
            },
    )
}

/// Whether drawing the sprite turns any set pixel off.
pub open spec fn spec_draw_collision(
    frame: Seq<bool>,
    mem: Seq<u8>,
    i: int,
    x: int,
    y: int,
    n: int,
) -> bool {
    exists|p: int|
        0 <= p < frame.len() && frame[p] && sprite_covers(x, y, n, p % 64, p / 64) && sprite_bit(
            mem,
            i,
            x,
            y,
            p % 64,
            p / 64,
        )
}

/// The pixels already processed by the draw loops: `k` whole sprite rows and
/// the first `j` bits of row `k`.
spec fn processed(x: int, y: int, k: int, j: int, px: int, py: int) -> bool {
    (y <= py < y + k && x <= px < x + 8) || (py == y + k && x <= px < x + j)
}

/// The program counter moved forward by `d` bytes, wrapping at 16 bits.
pub open spec fn spec_pc_forward(pc: u16, d: int) -> u16 {
    ((pc + d) % 0x10000) as u16
}

/// The program counter moved back by `d` bytes, wrapping at 16 bits.
pub open spec fn spec_pc_back(pc: u16, d: int) -> u16 {
    ((pc - d) % 0x10000) as u16
}

/// Memory after the BCD conversion of `val` at index `i`: hundreds, tens and
/// units digits in three consecutive bytes, most significant first.
pub open spec fn spec_bcd_memory(mem: Seq<u8>, i: int, val: u8) -> Seq<u8> {
    mem.update(i, (val / 100) as u8).update(i + 1, ((val / 10) % 10) as u8).update(
        i + 2,
        (val % 10) as u8,
    )
}

/// Memory after storing registers `v0..=vx` at index `i`.
pub open spec fn spec_store_regs(mem: Seq<u8>, v: Seq<u8>, i: int, x: int) -> Seq<u8> {
    Seq::new(mem.len(), |p: int| if i <= p <= i + x { v[p - i] } else { mem[p] })
}

/// The register file after loading registers `v0..=vx` from index `i`.
pub open spec fn spec_load_regs(v: Seq<u8>, mem: Seq<u8>, i: int, x: int) -> Seq<u8> {
    Seq::new(v.len(), |r: int| if r <= x { mem[i + r] } else { v[r] })
}

/// The lowest pressed key at or above position `k`, scanning upward.
pub open spec fn spec_first_pressed_from(keys: u16, k: int) -> Option<u8>
    decreases 16 - k,
{
    if k < 0 || k >= 16 {
        None
    } else if spec_key_down(keys, k as u8) {
        Some(k as u8)
    } else {
        spec_first_pressed_from(keys, k + 1)
    }
}

proof fn lemma_first_pressed_prefix(keys: u16, k: int)
    requires
        0 <= k <= 16,
        forall|j: int| 0 <= j < k ==> !(#[trigger] spec_key_down(keys, j as u8)),
    ensures
        spec_first_pressed_from(keys, 0) == spec_first_pressed_from(keys, k),
    decreases k,
{
    if k > 0 {
        lemma_first_pressed_prefix(keys, k - 1);
        assert(!spec_key_down(keys, (k - 1) as u8));
    }
}

/// The device with its keyboard latch replaced.
pub open spec fn with_keys(d: DeviceView, keys: u16) -> DeviceView {
    DeviceView { keys, ..d }
}

/// Whether a two-byte instruction fetch at the program counter stays within
/// memory.
pub open spec fn spec_fetch_ok(d: DeviceView) -> bool {
    d.pc + 2 <= 4096
}

/// The big-endian opcode word at the program counter.
pub open spec fn spec_fetched_word(d: DeviceView) -> u16 {
    spec_word(d.memory[d.pc as int], d.memory[d.pc + 1])
}

/// The device after the fetch advanced the program counter past the
/// instruction word.
pub open spec fn spec_after_fetch(d: DeviceView) -> DeviceView {
    DeviceView { pc: spec_pc_forward(d.pc, 2), ..d }
}

/// One fetch-decode-execute cycle related to its outcome: the keyboard queue
/// was drained into some latch value `keys2`, and, unless a fault was
/// reported, the instruction at the program counter was decoded and executed
/// with `b` as the random byte.
pub open spec fn spec_cycle_outcome(
    pre: DeviceView,
    post: DeviceView,
    r: EmulatorResult<()>,
    keys2: u16,
    b: u8,
    is_new_chip8: bool,
    halt_on_invalid: bool,
) -> bool {
    let drained = with_keys(pre, keys2);
    let fetched = spec_after_fetch(drained);
    let instr = spec_decode(spec_fetched_word(drained));
    match r {
        Ok(()) => {
            &&& spec_fetch_ok(drained)
            &&& step_fault(fetched, instr, halt_on_invalid) is None
            &&& post == step(fetched, instr, b, is_new_chip8)
        },
        Err(e) => {
            ||| (e is IOError && post == drained)
            ||| (!spec_fetch_ok(drained) && e is MemoryOutOfBounds && post == drained)
            ||| (spec_fetch_ok(drained) && post == fetched && (match step_fault(
                fetched,
                instr,
                halt_on_invalid,
            ) {
                Some(f) => fault_error_matches(f, e),
                None => false,
            }))
        },
    }
}

/// One cycle from known inputs, related to its outcome exactly: the latch
/// becomes `apply_events` of the drained batch; a fetch that would leave
/// memory is refused with the state otherwise unchanged; else the fetched
/// instruction is decoded and executed, faulting or stepping as
/// `step_fault` and `step` say.
pub open spec fn spec_cycle_with_input_outcome(
    pre: DeviceView,
    post: DeviceView,
    r: EmulatorResult<()>,
    events: Seq<KeyboardEvent>,
    b: u8,
    is_new_chip8: bool,
    halt_on_invalid: bool,
) -> bool {
    let drained = with_keys(pre, apply_events(pre.keys, events));
    let fetched = spec_after_fetch(drained);
    let instr = spec_decode(spec_fetched_word(drained));
    if !spec_fetch_ok(drained) {
        post == drained && (r matches Err(e) && e is MemoryOutOfBounds)
    } else {
        match step_fault(fetched, instr, halt_on_invalid) {
            None => r is Ok && post == step(fetched, instr, b, is_new_chip8),
            Some(f) => post == fetched && (r matches Err(e) && fault_error_matches(f, e)),
        }
    }
}

/// Relies on rand's `random`: one byte from the thread-local generator.
/// Nothing is promised of the value. Seeding the thread's generator can
/// abort only if the host's entropy source fails, which no input of the
/// library can bring about.
#[verifier::external_body]
fn random_byte() -> u8 {
    rand::random::<u8>()
}

/// The ways one instruction can fail.
pub ghost enum StepFault {
    /// An unsupported opcode reached execution while the configuration
    /// treats that as fatal.
    InvalidOpcode,
    /// A return was executed with an empty call stack.
    StackUnderflow,
    /// The instruction would touch memory past the 4096-byte address space.
    MemoryOutOfBounds,
}

/// Whether the instruction faults on this state instead of stepping, and
/// how. A faulting instruction leaves the state unchanged.
pub open spec fn step_fault(pre: DeviceView, instr: Instruction, halt_on_invalid: bool) -> Option<
    StepFault,
> {
    match instr {
        Instruction::PassThrough => if halt_on_invalid {
            Some(StepFault::InvalidOpcode)
        } else {
            None
        },
        Instruction::ReturnFromProcedure => if pre.stack.len() == 0 {
            Some(StepFault::StackUnderflow)
        } else {
            None
        },
        Instruction::Draw(_rx, _ry, n) => if pre.i + n > 4096 {
            Some(StepFault::MemoryOutOfBounds)
        } else {
            None
        },
        Instruction::DoBCDConversion(_x) => if pre.i + 3 > 4096 {
            Some(StepFault::MemoryOutOfBounds)
        } else {
            None
        },
        Instruction::StoreRegistersToMemory(x) => if pre.i + x + 1 > 4096 {
            Some(StepFault::MemoryOutOfBounds)
        } else {
            None
        },
        Instruction::LoadRegistersFromMemory(x) => if pre.i + x + 1 > 4096 {
            Some(StepFault::MemoryOutOfBounds)
        } else {
            None
        },
        _ => None,
    }
}

/// The error a fault is reported as.
pub open spec fn fault_error_matches(f: StepFault, e: EmulatorError) -> bool {
    match f {
        StepFault::InvalidOpcode => e is IOError,
        StepFault::StackUnderflow => e is StackUnderflow,
        StepFault::MemoryOutOfBounds => e is MemoryOutOfBounds,
    }
}

/// The device state after executing one instruction that does not fault.
/// `rand` is the random byte consumed by `RandomAnd`; every other
/// instruction ignores it.
pub open spec fn step(pre: DeviceView, instr: Instruction, rand: u8, is_new_chip8: bool) -> DeviceView {
    match instr {
        Instruction::PassThrough => pre,
        Instruction::ClearScreen => DeviceView {
            frame: Seq::new(pre.frame.len(), |p: int| false),
            ..pre
        },
        Instruction::JumpTo(a) => DeviceView { pc: a, ..pre },
        Instruction::JumpAndLink(a) => DeviceView { stack: pre.stack.push(pre.pc), pc: a, ..pre },
        Instruction::ReturnFromProcedure => DeviceView {
            pc: pre.stack.last(),
            stack: pre.stack.drop_last(),
            ..pre
        },
        Instruction::ConditionalEqSkipNext(x, num) => if pre.v[x as int] == num {
            DeviceView { pc: spec_pc_forward(pre.pc, 2), ..pre }
        } else {
            pre
        },
        Instruction::ConditionalInEqSkipNext(x, num) => if pre.v[x as int] != num {
            DeviceView { pc: spec_pc_forward(pre.pc, 2), ..pre }
        } else {
            pre
        },
        Instruction::ConditionalEqRegisterSkipNext(x, y) => if pre.v[x as int] == pre.v[y as int] {
            DeviceView { pc: spec_pc_forward(pre.pc, 2), ..pre }
        } else {
            pre
        },
        Instruction::ConditionalInEqRegisterSkipNext(x, y) => if pre.v[x as int] != pre.v[
            y as int
        ] {
            DeviceView { pc: spec_pc_forward(pre.pc, 2), ..pre }
        } else {
            pre
        },
        Instruction::SetRegister(x, val) => DeviceView { v: pre.v.update(x as int, val), ..pre },
        Instruction::AddValueToRegister(x, val) => DeviceView {
            v: pre.v.update(x as int, ((pre.v[x as int] + val) % 256) as u8),
            ..pre
        },
        Instruction::SetIndex(a) => DeviceView { i: a, ..pre },
        Instruction::JumpWithOffset(x, a) => {
            let sel = if is_new_chip8 {
                x as int
            } else {
                0
            };
            DeviceView { pc: ((pre.v[sel] + a) % 0x10000) as u16, ..pre }
        },
        Instruction::RandomAnd(x, mask) => DeviceView {
            v: pre.v.update(x as int, rand & mask),
            ..pre
        },
        Instruction::Draw(rx, ry, n) => {
            let x = pre.v[rx as int] as int;
            let y = pre.v[ry as int] as int;
            let collision = spec_draw_collision(pre.frame, pre.memory, pre.i as int, x, y, n as int);
            DeviceView {
                frame: spec_draw_frame(pre.frame, pre.memory, pre.i as int, x, y, n as int),
                v: pre.v.update(
                    15,
                    if collision {
                        1u8
                    } else {
                        0u8
                    },
                ),
                ..pre
            }
        },
        Instruction::SkipIfKeyPressed(x) => if spec_key_down(pre.keys, pre.v[x as int]) {
            DeviceView { pc: spec_pc_forward(pre.pc, 2), ..pre }
        } else {
            pre
        },
        Instruction::SkipIfKeyNotPressed(x) => if !spec_key_down(pre.keys, pre.v[x as int]) {
            DeviceView { pc: spec_pc_forward(pre.pc, 2), ..pre }
        } else {
            pre
        },
        Instruction::FetchDelayTimer(x) => DeviceView { v: pre.v.update(x as int, pre.delay), ..pre },
        Instruction::SetDelayTimer(x) => DeviceView { delay: pre.v[x as int], ..pre },
        Instruction::SetSoundTimer(x) => DeviceView { sound: pre.v[x as int], ..pre },
        Instruction::AddToIndex(x) => {
            let sum = pre.i + pre.v[x as int];
            if is_new_chip8 {
                DeviceView {
                    i: (sum % 0x1000) as u16,
                    v: pre.v.update(
                        15,
                        if sum >= 0x1000 {
                            1u8
                        } else {
                            0u8
                        },
                    ),
                    ..pre
                }
            } else {
                DeviceView { i: (sum % 0x10000) as u16, ..pre }
            }
        },
        Instruction::GetKey(x) => match spec_first_pressed_from(pre.keys, 0) {
            Some(k) => DeviceView { v: pre.v.update(x as int, k), ..pre },
            None => DeviceView { pc: spec_pc_back(pre.pc, 2), ..pre },
        },
        Instruction::SetIndexToFontCharacter(x) => DeviceView {
            i: (0x50 + 5 * pre.v[x as int]) as u16,
            ..pre
        },
        Instruction::DoBCDConversion(x) => DeviceView {
            memory: spec_bcd_memory(pre.memory, pre.i as int, pre.v[x as int]),
            ..pre
        },
        Instruction::StoreRegistersToMemory(x) => {
            let mem2 = spec_store_regs(pre.memory, pre.v, pre.i as int, x as int);
            if is_new_chip8 {
                DeviceView { memory: mem2, ..pre }
            } else {
                DeviceView { memory: mem2, i: ((pre.i + x + 1) % 0x10000) as u16, ..pre }
            }
        },
        Instruction::LoadRegistersFromMemory(x) => {
            let v2 = spec_load_regs(pre.v, pre.memory, pre.i as int, x as int);
            if is_new_chip8 {
                DeviceView { v: v2, ..pre }
            } else {
                DeviceView { v: v2, i: ((pre.i + x + 1) % 0x10000) as u16, ..pre }
            }
        },
        Instruction::Assign(x, y) => DeviceView { v: pre.v.update(x as int, pre.v[y as int]), ..pre },
        Instruction::Or(x, y) => DeviceView {
            v: pre.v.update(x as int, pre.v[x as int] | pre.v[y as int]),
            ..pre
        },
        Instruction::And(x, y) => DeviceView {
            v: pre.v.update(x as int, pre.v[x as int] & pre.v[y as int]),
            ..pre
        },
        Instruction::Xor(x, y) => DeviceView {
            v: pre.v.update(x as int, pre.v[x as int] ^ pre.v[y as int]),
            ..pre
        },
        Instruction::Add(x, y) => {
            let sum = pre.v[x as int] + pre.v[y as int];
            DeviceView {
                v: pre.v.update(x as int, (sum % 256) as u8).update(
                    15,
                    if sum > 255 {
                        1u8
                    } else {
                        0u8
                    },
                ),
                ..pre
            }
        },
        Instruction::Sub(x, y) => {
            let no_borrow = pre.v[x as int] >= pre.v[y as int];
            DeviceView {
                v: pre.v.update(
                    x as int,
                    ((pre.v[x as int] - pre.v[y as int]) % 256) as u8,
                ).update(
                    15,
                    if no_borrow {
                        1u8
                    } else {
                        0u8
                    },
                ),
                ..pre
            }
        },
        Instruction::RSub(x, y) => {
            let no_borrow = pre.v[y as int] >= pre.v[x as int];
            DeviceView {
                v: pre.v.update(
                    x as int,
                    ((pre.v[y as int] - pre.v[x as int]) % 256) as u8,
                ).update(
                    15,
                    if no_borrow {
                        1u8
                    } else {
                        0u8
                    },
                ),
                ..pre
            }
        },
        Instruction::RShift(x, y) => {
            let src = if is_new_chip8 {
                pre.v[x as int]
            } else {
                pre.v[y as int]
            };
            DeviceView {
                v: pre.v.update(x as int, (src / 2) as u8).update(
                    15,
                    if src % 2 == 1 {
                        1u8
                    } else {
                        0u8
                    },
                ),
                ..pre
            }
        },
        Instruction::LShift(x, y) => {
            let src = if is_new_chip8 {
                pre.v[x as int]
            } else {
                pre.v[y as int]
            };
            DeviceView {
                v: pre.v.update(x as int, ((src * 2) % 256) as u8).update(
                    15,
                    if src >= 128 {
                        1u8
                    } else {
                        0u8
                    },
                ),
                ..pre
            }
        },
    }
}

/// The fixed font table: sixteen glyphs of five bytes, one row per scanline
/// of a 4x5 hex-digit glyph.
pub open spec fn font_table() -> Seq<u8> {
    seq![
        0xF0u8, 0x90, 0x90, 0x90, 0xF0,
        0x20, 0x60, 0x20, 0x20, 0x70,
        0xF0, 0x10, 0xF0, 0x80, 0xF0,
        0xF0, 0x10, 0xF0, 0x10, 0xF0,
        0x90, 0x90, 0xF0, 0x10, 0x10,
        0xF0, 0x80, 0xF0, 0x10, 0xF0,
        0xF0, 0x80, 0xF0, 0x90, 0xF0,
        0xF0, 0x10, 0x20, 0x40, 0x40,
        0xF0, 0x90, 0xF0, 0x90, 0xF0,
        0xF0, 0x90, 0xF0, 0x10, 0xF0,
        0xF0, 0x90, 0xF0, 0x90, 0x90,
        0xE0, 0x90, 0xE0, 0x90, 0xE0,
        0xF0, 0x80, 0x80, 0x80, 0xF0,
        0xE0, 0x90, 0x90, 0x90, 0xE0,
        0xF0, 0x80, 0xF0, 0x80, 0xF0,
        0xF0, 0x80, 0xF0, 0x80, 0x80,
    ]
}

} // verus!
