//! The CHIP-8 interpreter engine.
//!
//! `Emulator` owns the whole machine state and advances it one
//! instruction at a time; every operation is proved to implement the
//! corresponding transition of [`crate::model`].

use vstd::prelude::*;

use crate::model::{
    add_spec, add_to_index_spec, after_fetch, alu_spec, clear_screen_spec,
    decimal_conversion_oob, decimal_conversion_spec, display_op_spec, draw_collision_upto,
    draw_oob, draw_origin_x, draw_origin_y, draw_pixel, draw_rows_read,
    execute_spec, fetch_oob, fetched_word, font_character_spec, font_seq, get_key_spec,
    initial_machine, jump_spec, jump_with_offset_spec, lemma_collision_upto_same,
    lemma_collision_upto_step, lemma_decode_bounds, lemma_in_row, lemma_row_bound,
    lemma_row_major, lemma_sprite_bit_bound, lemma_system_words, lemma_xor_bit,
    load_from_memory_spec,
    load_program_spec, n_of, nn_of, nnn_of, op_of, plotted_bit, program_fits,
    random_spec, read_delay_timer_spec, reg_block_oob, set_delay_timer_spec, set_index_spec,
    set_sound_timer_spec, set_spec, skip_if_key_spec, skip_spec, sprite_bit, step_spec,
    store_to_memory_spec, subroutine_call_spec, subroutine_ret_spec, tick, x_of, y_of,
    Chip8Error, MachineView,
};

verus! {

/// Relies on rand::random: a sample from the thread-local generator's
/// standard distribution.  Nothing is assumed of the value returned.
pub assume_specification<T>[ rand::random::<T> ]() -> (r: T)
    where
        rand::distributions::Standard: rand::distributions::Distribution<T>,
;

/// The machine: memory with the font loaded at 0x50, sixteen 8-bit
/// registers, the program counter and index register, the return-address
/// stack, the two countdown timers, the 64x32 framebuffer (row-major,
/// one byte per cell, each 0 or 1), and the currently pressed key as
/// last reported by the display collaborator.
pub struct Emulator {
    memory: [u8; 4096],
    stack: Vec<u16>,
    pub delay_timer: u8,
    pub sound_timer: u8,
    pub pc: u16,
    pub index: u16,
    regs: [u8; 16],
    display: [u8; 2048],
    pub key_pressed: Option<u8>,
}

impl View for Emulator {
    type V = MachineView;

    closed spec fn view(&self) -> MachineView {
        MachineView {
            memory: self.memory@,
            stack: self.stack@,
            delay_timer: self.delay_timer,
            sound_timer: self.sound_timer,
            pc: self.pc,
            index: self.index,
            regs: self.regs@,
            display: self.display@,
            key_pressed: self.key_pressed,
        }
    }
}

impl Emulator {
    // -----------------------------------------------------------------
    // Decoding helpers: operand extraction by fixed bit masks.
    // -----------------------------------------------------------------

    /// The operation family: the top 4 bits of the instruction word.
    pub fn get_opcode(inst: u16) -> (r: u16)
        ensures
            r as int == op_of(inst),
            r < 16,
    {
        proof {
            lemma_decode_bounds(inst);
        }
        (inst & 0xf000) >> 12
    }

    /// The first register operand: bits 8-11.
    pub fn get_first_reg(inst: u16) -> (r: u8)
        ensures
            r as int == x_of(inst),
            r < 16,
    {
        proof {
            lemma_decode_bounds(inst);
        }
        ((inst & 0x0f00) >> 8) as u8
    }

    /// The second register operand: bits 4-7.
    pub fn get_second_reg(inst: u16) -> (r: u8)
        ensures
            r as int == y_of(inst),
            r < 16,
    {
        proof {
            lemma_decode_bounds(inst);
        }
        ((inst & 0x00f0) >> 4) as u8
    }

    /// The 4-bit immediate: bits 0-3.
    pub fn get_immediate_number(inst: u16) -> (r: u8)
        ensures
            r as int == n_of(inst),
            r < 16,
    {
        proof {
            lemma_decode_bounds(inst);
        }
        (inst & 0x000f) as u8
    }

    /// The 8-bit immediate: bits 0-7.
    pub fn get_double_immediate_number(inst: u16) -> (r: u8)
        ensures
            r == nn_of(inst),
    {
        (inst & 0x00ff) as u8
    }

    /// The 12-bit address: bits 0-11.
    pub fn get_immediate_addr(inst: u16) -> (r: u16)
        ensures
            r == nnn_of(inst),
            r < 4096,
    {
        proof {
            lemma_decode_bounds(inst);
        }
        inst & 0x0fff
    }

    // -----------------------------------------------------------------
    // Observers for the collaborators (display, sound, host, tests).
    // -----------------------------------------------------------------

    /// A general-purpose register.
    pub fn reg(&self, i: u8) -> (r: u8)
        requires
            i < 16,
        ensures
            r == self@.regs[i as int],
    {
        self.regs[i as usize]
    }

    /// One framebuffer cell, 0 or 1; the display collaborator pulls the
    /// grid through this.
    pub fn pixel(&self, row: usize, col: usize) -> (r: u8)
        requires
            row < 32,
            col < 64,
        ensures
            r == self@.display[row * 64 + col],
    {
        self.display[row * 64 + col]
    }

    /// A memory byte.
    pub fn memory_at(&self, addr: u16) -> (r: u8)
        requires
            addr < 4096,
        ensures
            r == self@.memory[addr as int],
    {
        self.memory[addr as usize]
    }

    /// The current depth of the call stack.
    pub fn stack_len(&self) -> (r: usize)
        ensures
            r == self@.stack.len(),
    {
        self.stack.len()
    }

    // -----------------------------------------------------------------
    // Simple operations.
    // -----------------------------------------------------------------

    /// `1nnn`: jump.
    pub fn jump(&mut self, inst: u16)
        ensures
            final(self)@ == jump_spec(old(self)@, inst),
    {
        self.pc = Emulator::get_immediate_addr(inst);
    }

    /// `Annn`: load the index register.
    pub fn set_index(&mut self, inst: u16)
        ensures
            final(self)@ == set_index_spec(old(self)@, inst),
    {
        let val = Emulator::get_immediate_addr(inst);
        self.index = val;
    }

    /// `6xnn`: load the immediate into the register.
    pub fn set(&mut self, inst: u16)
        ensures
            final(self)@ == set_spec(old(self)@, inst),
    {
        let reg = Emulator::get_first_reg(inst);
        let val = Emulator::get_double_immediate_number(inst);
        self.regs[reg as usize] = val;
    }

    /// `7xnn`: add the immediate to the register, wrapping modulo 256;
    /// the flag register is not touched.
    pub fn add(&mut self, inst: u16)
        ensures
            final(self)@ == add_spec(old(self)@, inst),
    {
        let reg = Emulator::get_first_reg(inst);
        let val = Emulator::get_double_immediate_number(inst);
        let sum: u16 = self.regs[reg as usize] as u16 + val as u16;
        self.regs[reg as usize] = (sum % 256) as u8;
    }

    /// `00E0`: clear every framebuffer cell to 0.
    pub fn clear_screen(&mut self)
        ensures
            final(self)@ == clear_screen_spec(old(self)@),
    {
        let mut i: usize = 0;
        while i < 2048
            invariant
                i <= 2048,
                self@ == (MachineView { display: self@.display, ..old(self)@ }),
                self@.display.len() == 2048,
                forall|p: int| 0 <= p < i ==> self@.display[p] == 0,
                forall|p: int| i <= p < 2048 ==> self@.display[p] == old(self)@.display[p],
            decreases 2048 - i,
        {
            self.display[i] = 0;
            i += 1;
        }
        assert(final(self)@.display =~= clear_screen_spec(old(self)@).display);
    }

    /// `2nnn`: push the current program counter onto the stack, then
    /// jump.
    pub fn subroutine_call(&mut self, inst: u16)
        ensures
            final(self)@ == subroutine_call_spec(old(self)@, inst),
    {
        self.stack.push(self.pc);
        self.jump(inst);
    }

    /// `00EE`: pop the stack into the program counter; a no-op when the
    /// stack is empty.
    pub fn subroutine_ret(&mut self)
        ensures
            final(self)@ == subroutine_ret_spec(old(self)@),
    {
        if let Some(addr) = self.stack.pop() {
            self.pc = addr;
        }
    }

    /// `3xnn`/`4xnn`/`5xy0`/`9xy0`: skip the next instruction when the
    /// comparison holds.
    pub fn skip(&mut self, inst: u16)
        requires
            old(self)@.wf(),
            old(self)@.pc + 2 <= u16::MAX,
        ensures
            final(self)@ == skip_spec(old(self)@, inst),
    {
        let op = Emulator::get_opcode(inst);
        let vx = self.regs[Emulator::get_first_reg(inst) as usize];
        let vy = self.regs[Emulator::get_second_reg(inst) as usize];
        let imm = Emulator::get_double_immediate_number(inst);

        match op {
            0x3 => {
                if vx == imm {
                    self.pc += 2;
                }
            },
            0x4 => {
                if vx != imm {
                    self.pc += 2;
                }
            },
            0x5 => {
                if vx == vy {
                    self.pc += 2;
                }
            },
            0x9 => {
                if vx != vy {
                    self.pc += 2;
                }
            },
            _ => {},
        }
    }

    /// `Bnnn`: jump to the address plus register 0.
    pub fn jump_with_offset(&mut self, inst: u16)
        requires
            old(self)@.wf(),
        ensures
            final(self)@ == jump_with_offset_spec(old(self)@, inst),
    {
        let addr = Emulator::get_immediate_addr(inst);
        self.pc = addr + self.regs[0] as u16;
    }

    /// `Fx29`: point the index register at the font glyph region,
    /// offset by the register value.
    pub fn font_character(&mut self, inst: u16)
        requires
            old(self)@.wf(),
        ensures
            final(self)@ == font_character_spec(old(self)@, inst),
    {
        let reg = Emulator::get_first_reg(inst);
        self.index = 0x50 + self.regs[reg as usize] as u16;
    }

    /// `Fx1E`: add the register to the index register; the flag is set
    /// when the stored result exceeds 0xFFF.
    pub fn add_to_index(&mut self, inst: u16)
        requires
            old(self)@.wf(),
        ensures
            final(self)@ == add_to_index_spec(old(self)@, inst),
    {
        let reg = Emulator::get_first_reg(inst);
        let sum: u32 = self.index as u32 + self.regs[reg as usize] as u32;
        self.index = (sum % 0x10000) as u16;
        if self.index > 0xfff {
            self.regs[15] = 1;
        }
    }

    /// `Fx0A`: when a key is pressed, store its identifier; otherwise
    /// rewind the program counter by 2 so the same instruction
    /// re-executes on the next step.
    pub fn get_key(&mut self, inst: u16)
        requires
            old(self)@.wf(),
            old(self)@.key_pressed is None ==> old(self)@.pc >= 2,
        ensures
            final(self)@ == get_key_spec(old(self)@, inst),
    {
        if let Some(key) = self.key_pressed {
            let reg = Emulator::get_first_reg(inst);
            self.regs[reg as usize] = key;
        } else {
            self.pc -= 2;
        }
    }

    /// `Ex9E`/`ExA1`: skip the next instruction when the pressed key
    /// equals (does not equal) the register value.
    pub fn skip_if_key(&mut self, inst: u16)
        requires
            old(self)@.wf(),
            old(self)@.pc + 2 <= u16::MAX,
        ensures
            final(self)@ == skip_if_key_spec(old(self)@, inst),
    {
        let imm = Emulator::get_double_immediate_number(inst);
        let vx = self.regs[Emulator::get_first_reg(inst) as usize];

        match imm {
            0x9e => {
                if let Some(key) = self.key_pressed {
                    if key == vx {
                        self.pc += 2;
                    }
                }
            },
            0xa1 => {
                let mut held = false;
                if let Some(key) = self.key_pressed {
                    if key == vx {
                        held = true;
                    }
                }
                if !held {
                    self.pc += 2;
                }
            },
            _ => {},
        }
    }

    /// `8xyk`: the arithmetic/logical group.  Operations that define a
    /// flag write the flag register after the primary result, so the
    /// flag survives even when `x` is 0xF.
    pub fn logical_arithmetic_op(&mut self, inst: u16)
        requires
            old(self)@.wf(),
        ensures
            final(self)@ == alu_spec(old(self)@, inst),
    {
        let imm = Emulator::get_immediate_number(inst);

        let vx_num = Emulator::get_first_reg(inst) as usize;
        let vy_num = Emulator::get_second_reg(inst) as usize;

        let vx = self.regs[vx_num];
        let vy = self.regs[vy_num];

        match imm {
            0x0 => {
                self.regs[vx_num] = vy;
            },
            0x1 => {
                self.regs[vx_num] = vx | vy;
            },
            0x2 => {
                self.regs[vx_num] = vx & vy;
            },
            0x3 => {
                self.regs[vx_num] = vx ^ vy;
            },
            0x4 => {
                let sum: u16 = vx as u16 + vy as u16;
                self.regs[vx_num] = (sum % 256) as u8;
                self.regs[15] = if sum > 255 {
                    1
                } else {
                    0
                };
            },
            0x5 => {
                let diff: u16 = (vx as u16 + 256 - vy as u16) % 256;
                self.regs[vx_num] = diff as u8;
                self.regs[15] = if vx > vy {
                    1
                } else {
                    0
                };
            },
            0x6 => {
                proof {
                    assert((vx & 1) as int == vx as int % 2) by (bit_vector);
                    assert((vx >> 1) as int == vx as int / 2) by (bit_vector);
                }
                let flag = vx & 1;
                self.regs[vx_num] = vx >> 1;
                self.regs[15] = flag;
            },
            0x7 => {
                let diff: u16 = (vy as u16 + 256 - vx as u16) % 256;
                self.regs[vx_num] = diff as u8;
                self.regs[15] = if vy > vx {
                    1
                } else {
                    0
                };
            },
            0xe => {
                proof {
                    assert((vx << 1) as int == (vx as int * 2) % 256) by (bit_vector);
                }
                let flag = if vx >= 128 {
                    1
                } else {
                    0
                };
                self.regs[vx_num] = vx << 1;
                self.regs[15] = flag;
            },
            _ => {},
        }
    }

    /// `Dxyn`: XOR the `n`-row sprite at `memory[index ..]` into the
    /// framebuffer with its origin at `(vx mod 64, vy mod 32)`,
    /// clipping at the right and bottom screen edges (no wraparound);
    /// the flag register becomes 1 exactly when some previously set
    /// pixel was turned off.  Fails without touching anything when a
    /// sprite row would be read past the end of memory.
    pub fn display(&mut self, inst: u16) -> (r: Result<(), Chip8Error>)
        requires
            old(self)@.wf(),
        ensures
            final(self)@.wf(),
            draw_oob(old(self)@, inst) ==> r == Result::<(), Chip8Error>::Err(
                Chip8Error::AddressOutOfRange,
            ) && final(self)@ == old(self)@,
            !draw_oob(old(self)@, inst) ==> r is Ok && display_op_spec(old(self)@, inst)
                == Result::<MachineView, Chip8Error>::Ok(final(self)@),
    {
        let ghost m0 = old(self)@;
        let x = (self.regs[Emulator::get_first_reg(inst) as usize] as usize) % 64;
        let y = (self.regs[Emulator::get_second_reg(inst) as usize] as usize) % 32;
        let n = Emulator::get_immediate_number(inst) as usize;
        let ghost gx = draw_origin_x(m0, inst);
        let ghost gy = draw_origin_y(m0, inst);
        let ghost gn = n_of(inst);
        assert(x as int == gx && y as int == gy && n as int == gn);

        let rows = if n <= 32 - y {
            n
        } else {
            32 - y
        };
        assert(rows as int == draw_rows_read(m0, inst));

        if self.index as usize + rows > 4096 {
            return Err(Chip8Error::AddressOutOfRange);
        }

        self.regs[15] = 0;

        proof {
            assert forall|p: int| 0 <= p < gy * 64 implies #[trigger] plotted_bit(
                m0,
                gx,
                gy,
                gn,
                p,
            ) == 0 && draw_pixel(m0, gx, gy, gn, p) == m0.display[p] by {
                lemma_row_bound(p, gy);
            };
            lemma_collision_upto_same(m0, gx, gy, gn, 0, gy * 64);
        }

        let mut row: usize = 0;
        while row < rows
            invariant
                m0.wf(),
                gx == x as int,
                gy == y as int,
                gn == n as int,
                x < 64,
                y < 32,
                n < 16,
                rows <= n,
                y + rows <= 32,
                m0.index + rows <= 4096,
                row <= rows,
                self@.memory == m0.memory,
                self@.stack == m0.stack,
                self@.delay_timer == m0.delay_timer,
                self@.sound_timer == m0.sound_timer,
                self@.pc == m0.pc,
                self@.index == m0.index,
                self@.key_pressed == m0.key_pressed,
                self@.display.len() == 2048,
                self@.regs == m0.regs.update(
                    15,
                    if draw_collision_upto(m0, gx, gy, gn, (gy + row) * 64) {
                        1u8
                    } else {
                        0u8
                    },
                ),
                forall|p: int|
                    0 <= p < (gy + row) * 64 ==> self@.display[p] == draw_pixel(m0, gx, gy, gn, p),
                forall|p: int| (gy + row) * 64 <= p < 2048 ==> self@.display[p] == m0.display[p],
                forall|p: int| 0 <= p < 2048 ==> self@.display[p] <= 1,
            decreases rows - row,
        {
            let sprite_byte = self.memory[self.index as usize + row];
            let cur_y = y + row;
            let cols = if 8 <= 64 - x {
                8
            } else {
                64 - x
            };

            proof {
                assert forall|p: int|
                    (gy + row) * 64 <= p < (gy + row) * 64 + gx implies #[trigger] plotted_bit(
                    m0,
                    gx,
                    gy,
                    gn,
                    p,
                ) == 0 && draw_pixel(m0, gx, gy, gn, p) == m0.display[p] by {
                    lemma_in_row(p, gy + row);
                };
                lemma_collision_upto_same(
                    m0,
                    gx,
                    gy,
                    gn,
                    (gy + row) * 64,
                    (gy + row) * 64 + gx,
                );
            }

            let mut i: usize = 0;
            while i < cols
                invariant
                    m0.wf(),
                    gx == x as int,
                    gy == y as int,
                    gn == n as int,
                    x < 64,
                    y < 32,
                    n < 16,
                    rows <= n,
                    y + rows <= 32,
                    cols <= 8,
                    x + cols <= 64,
                    i <= cols,
                    row < rows,
                    cur_y == y + row,
                    sprite_byte == m0.memory[m0.index + row],
                    self@.memory == m0.memory,
                    self@.stack == m0.stack,
                    self@.delay_timer == m0.delay_timer,
                    self@.sound_timer == m0.sound_timer,
                    self@.pc == m0.pc,
                    self@.index == m0.index,
                    self@.key_pressed == m0.key_pressed,
                    self@.display.len() == 2048,
                    self@.regs == m0.regs.update(
                        15,
                        if draw_collision_upto(m0, gx, gy, gn, (gy + row) * 64 + gx + i) {
                            1u8
                        } else {
                            0u8
                        },
                    ),
                    forall|p: int|
                        0 <= p < (gy + row) * 64 + gx + i ==> self@.display[p] == draw_pixel(
                            m0,
                            gx,
                            gy,
                            gn,
                            p,
                        ),
                    forall|p: int|
                        (gy + row) * 64 + gx + i <= p < 2048 ==> self@.display[p] == m0.display[p],
                    forall|p: int| 0 <= p < 2048 ==> self@.display[p] <= 1,
                decreases cols - i,
            {
                let cur_x = x + i;
                let shift: u8 = (7 - i) as u8;
                let bit = (sprite_byte >> shift) & 1;
                let p = cur_y * 64 + cur_x;

                proof {
                    lemma_sprite_bit_bound(sprite_byte, shift);
                    lemma_row_major(cur_y as int, cur_x as int);
                    assert(bit == sprite_bit(m0.memory[m0.index + row], i as int));
                    assert(plotted_bit(m0, gx, gy, gn, p as int) == bit);
                    lemma_collision_upto_step(m0, gx, gy, gn, p as int);
                    lemma_xor_bit(self@.display[p as int], bit);
                }

                if bit == 1 && self.display[p] == 1 {
                    self.regs[15] = 1;
                }
                self.display[p] = self.display[p] ^ bit;

                i += 1;
            }

            proof {
                assert forall|p: int|
                    (gy + row) * 64 + gx + cols <= p < (gy + row + 1) * 64 implies
                    #[trigger] plotted_bit(m0, gx, gy, gn, p) == 0 && draw_pixel(m0, gx, gy, gn, p)
                    == m0.display[p] by {
                    lemma_in_row(p, gy + row);
                };
                lemma_collision_upto_same(
                    m0,
                    gx,
                    gy,
                    gn,
                    (gy + row) * 64 + gx + cols,
                    (gy + row + 1) * 64,
                );
            }

            row += 1;
        }

        proof {
            assert forall|p: int|
                (gy + rows) * 64 <= p < 2048 implies #[trigger] plotted_bit(m0, gx, gy, gn, p)
                == 0 && draw_pixel(m0, gx, gy, gn, p) == m0.display[p] by {
                lemma_row_bound(p, gy + rows);
            };
            lemma_collision_upto_same(m0, gx, gy, gn, (gy + rows) * 64, 2048);
            assert(self@.display =~= display_op_spec(m0, inst)->Ok_0.display);
            assert(self@.regs =~= display_op_spec(m0, inst)->Ok_0.regs);
        }
        Ok(())
    }

    /// `Fx33`: write the three decimal digits of the register value
    /// (hundreds, tens, ones) at `index`, `index + 1`, `index + 2`;
    /// fails without touching anything when they do not all fit in
    /// memory.
    pub fn decimal_conversion(&mut self, inst: u16) -> (r: Result<(), Chip8Error>)
        requires
            old(self)@.wf(),
        ensures
            decimal_conversion_oob(old(self)@, inst) ==> r == Result::<(), Chip8Error>::Err(
                Chip8Error::AddressOutOfRange,
            ) && final(self)@ == old(self)@,
            !decimal_conversion_oob(old(self)@, inst) ==> r is Ok && final(self)@
                == decimal_conversion_spec(old(self)@, inst),
    {
        if self.index >= 4094 {
            return Err(Chip8Error::AddressOutOfRange);
        }
        let reg = Emulator::get_first_reg(inst);
        let val = self.regs[reg as usize];
        let loc = self.index as usize;

        self.memory[loc] = val / 100;
        self.memory[loc + 1] = (val / 10) % 10;
        self.memory[loc + 2] = val % 10;
        Ok(())
    }

    /// `Fx55`: store registers `0 ..= x` to memory starting at the
    /// index register; fails without touching anything when the block
    /// does not fit in memory.
    pub fn store_to_memory(&mut self, inst: u16) -> (r: Result<(), Chip8Error>)
        requires
            old(self)@.wf(),
        ensures
            reg_block_oob(old(self)@, inst) ==> r == Result::<(), Chip8Error>::Err(
                Chip8Error::AddressOutOfRange,
            ) && final(self)@ == old(self)@,
            !reg_block_oob(old(self)@, inst) ==> r is Ok && final(self)@ == store_to_memory_spec(
                old(self)@,
                inst,
            ),
    {
        let max_reg = Emulator::get_first_reg(inst);
        if self.index as usize + max_reg as usize >= 4096 {
            return Err(Chip8Error::AddressOutOfRange);
        }
        let base = self.index as usize;

        let mut i: usize = 0;
        while i <= max_reg as usize
            invariant
                old(self)@.wf(),
                i <= max_reg as usize + 1,
                max_reg as int == x_of(inst),
                max_reg < 16,
                base == old(self)@.index,
                base + max_reg < 4096,
                self@ == (MachineView { memory: self@.memory, ..old(self)@ }),
                self@.memory.len() == 4096,
                forall|j: int|
                    base <= j < base + i ==> self@.memory[j] == old(self)@.regs[j - base],
                forall|j: int|
                    0 <= j < 4096 && !(base <= j < base + i) ==> self@.memory[j] == old(
                        self,
                    )@.memory[j],
            decreases max_reg as int + 1 - i,
        {
            self.memory[base + i] = self.regs[i];
            i += 1;
        }
        assert(final(self)@.memory =~= store_to_memory_spec(old(self)@, inst).memory);
        Ok(())
    }

    /// `Fx65`: load registers `0 ..= x` from memory starting at the
    /// index register; fails without touching anything when the block
    /// does not fit in memory.
    pub fn load_from_memory(&mut self, inst: u16) -> (r: Result<(), Chip8Error>)
        requires
            old(self)@.wf(),
        ensures
            reg_block_oob(old(self)@, inst) ==> r == Result::<(), Chip8Error>::Err(
                Chip8Error::AddressOutOfRange,
            ) && final(self)@ == old(self)@,
            !reg_block_oob(old(self)@, inst) ==> r is Ok && final(self)@ == load_from_memory_spec(
                old(self)@,
                inst,
            ),
    {
        let max_reg = Emulator::get_first_reg(inst);
        if self.index as usize + max_reg as usize >= 4096 {
            return Err(Chip8Error::AddressOutOfRange);
        }
        let base = self.index as usize;

        let mut i: usize = 0;
        while i <= max_reg as usize
            invariant
                old(self)@.wf(),
                i <= max_reg as usize + 1,
                max_reg as int == x_of(inst),
                max_reg < 16,
                base == old(self)@.index,
                base + max_reg < 4096,
                self@ == (MachineView { regs: self@.regs, ..old(self)@ }),
                self@.regs.len() == 16,
                forall|j: int| 0 <= j < i ==> self@.regs[j] == old(self)@.memory[base + j],
                forall|j: int| i <= j < 16 ==> self@.regs[j] == old(self)@.regs[j],
            decreases max_reg as int + 1 - i,
        {
            self.regs[i] = self.memory[base + i];
            i += 1;
        }
        assert(final(self)@.regs =~= load_from_memory_spec(old(self)@, inst).regs);
        Ok(())
    }

    /// `Cxnn`: a byte drawn from the host's random source, ANDed with
    /// the immediate.  The contract holds for every byte the source may
    /// produce.
    pub fn random(&mut self, inst: u16)
        requires
            old(self)@.wf(),
        ensures
            exists|b: u8| final(self)@ == random_spec(old(self)@, inst, b),
    {
        let imm = Emulator::get_double_immediate_number(inst);
        let rand_num: u8 = rand::random();
        let reg = Emulator::get_first_reg(inst);

        self.regs[reg as usize] = rand_num & imm;
        assert(self@ == random_spec(old(self)@, inst, rand_num));
    }

    // -----------------------------------------------------------------
    // Lifecycle: construction, program load, and the fetch/execute
    // step.
    // -----------------------------------------------------------------

    /// A fresh machine: everything zeroed, no key pressed, and the font
    /// glyphs written at 0x50.
    pub fn new() -> (r: Emulator)
        ensures
            r@ == initial_machine(),
            r@.wf(),
    {
        let font: [u8; 80] = [
            0xF0, 0x90, 0x90, 0x90, 0xF0,  // 0
            0x20, 0x60, 0x20, 0x20, 0x70,  // 1
            0xF0, 0x10, 0xF0, 0x80, 0xF0,  // 2
            0xF0, 0x10, 0xF0, 0x10, 0xF0,  // 3
            0x90, 0x90, 0xF0, 0x10, 0x10,  // 4
            0xF0, 0x80, 0xF0, 0x10, 0xF0,  // 5
            0xF0, 0x80, 0xF0, 0x90, 0xF0,  // 6
            0xF0, 0x10, 0x20, 0x40, 0x40,  // 7
            0xF0, 0x90, 0xF0, 0x90, 0xF0,  // 8
            0xF0, 0x90, 0xF0, 0x10, 0xF0,  // 9
            0xF0, 0x90, 0xF0, 0x90, 0x90,  // A
            0xE0, 0x90, 0xE0, 0x90, 0xE0,  // B
            0xF0, 0x80, 0x80, 0x80, 0xF0,  // C
            0xE0, 0x90, 0x90, 0x90, 0xE0,  // D
            0xF0, 0x80, 0xF0, 0x80, 0xF0,  // E
            0xF0, 0x80, 0xF0, 0x80, 0x80,  // F
        ];
        assert(font@ =~= font_seq());

        let mut memory: [u8; 4096] = [0u8; 4096];

        let mut i: usize = 0;
        while i < 80
            invariant
                i <= 80,
                font@ == font_seq(),
                memory@.len() == 4096,
                forall|j: int| 0x50 <= j < 0x50 + i ==> memory@[j] == font_seq()[j - 0x50],
                forall|j: int| 0 <= j < 4096 && !(0x50 <= j < 0x50 + i) ==> memory@[j] == 0,
            decreases 80 - i,
        {
            memory[0x50 + i] = font[i];
            i += 1;
        }

        let r = Emulator {
            memory,
            stack: Vec::new(),
            delay_timer: 0,
            sound_timer: 0,
            pc: 0,
            index: 0,
            regs: [0u8; 16],
            display: [0u8; 2048],
            key_pressed: Option::None,
        };
        assert(r@.memory =~= initial_machine().memory);
        assert(r@.regs =~= initial_machine().regs);
        assert(r@.display =~= initial_machine().display);
        assert(r@.stack =~= initial_machine().stack);
        r
    }

    /// Copy a program image verbatim into memory from 0x200 on; fails
    /// without touching anything when the image does not fit.
    pub fn load_program(&mut self, program_data: &[u8]) -> (r: Result<(), Chip8Error>)
        requires
            old(self)@.wf(),
        ensures
            !program_fits(program_data@.len() as int) ==> r == Result::<(), Chip8Error>::Err(
                Chip8Error::ProgramTooLarge,
            ) && final(self)@ == old(self)@,
            program_fits(program_data@.len() as int) ==> r is Ok && final(self)@
                == load_program_spec(old(self)@, program_data@),
    {
        if program_data.len() > 4096 - 0x200 {
            return Err(Chip8Error::ProgramTooLarge);
        }

        let mut i: usize = 0;
        while i < program_data.len()
            invariant
                i <= program_data@.len(),
                program_data@.len() <= 4096 - 0x200,
                self@ == (MachineView { memory: self@.memory, ..old(self)@ }),
                self@.memory.len() == 4096,
                forall|j: int|
                    0x200 <= j < 0x200 + i ==> self@.memory[j] == program_data@[j - 0x200],
                forall|j: int|
                    0 <= j < 4096 && !(0x200 <= j < 0x200 + i) ==> self@.memory[j] == old(
                        self,
                    )@.memory[j],
            decreases program_data@.len() - i,
        {
            self.memory[0x200 + i] = program_data[i];
            i += 1;
        }
        assert(final(self)@.memory =~= load_program_spec(old(self)@, program_data@).memory);
        Ok(())
    }

    /// Load a program and point the program counter at its first
    /// instruction.
    pub fn execute_program(&mut self, program_data: &[u8]) -> (r: Result<(), Chip8Error>)
        requires
            old(self)@.wf(),
        ensures
            !program_fits(program_data@.len() as int) ==> r == Result::<(), Chip8Error>::Err(
                Chip8Error::ProgramTooLarge,
            ) && final(self)@ == old(self)@,
            program_fits(program_data@.len() as int) ==> r is Ok && final(self)@ == (MachineView {
                pc: 0x200u16,
                ..load_program_spec(old(self)@, program_data@)
            }),
    {
        match self.load_program(program_data) {
            Err(e) => {
                return Err(e);
            },
            Ok(()) => {},
        }
        self.pc = 0x200;
        Ok(())
    }

    /// The fetch phase: read the big-endian instruction word at the
    /// program counter (the first byte is the high byte) and advance
    /// the counter past it; fails without touching anything when the
    /// two bytes do not both lie in memory.
    pub fn fetch(&mut self) -> (r: Result<u16, Chip8Error>)
        requires
            old(self)@.wf(),
        ensures
            fetch_oob(old(self)@) ==> r == Result::<u16, Chip8Error>::Err(
                Chip8Error::AddressOutOfRange,
            ) && final(self)@ == old(self)@,
            !fetch_oob(old(self)@) ==> r == Result::<u16, Chip8Error>::Ok(
                fetched_word(old(self)@),
            ) && final(self)@ == after_fetch(old(self)@),
    {
        if self.pc >= 4095 {
            return Err(Chip8Error::AddressOutOfRange);
        }
        let msb = self.memory[self.pc as usize];
        let lsb = self.memory[(self.pc + 1) as usize];

        self.pc += 2;

        let mut inst: u16 = 0;

        inst += msb as u16;
        proof {
            assert((msb as u16) << 8 == msb as u16 * 256) by (bit_vector);
        }
        inst <<= 8;
        inst += lsb as u16;

        Ok(inst)
    }

    /// The execute phase: dispatch one already-fetched instruction
    /// word.  An unrecognized word is deliberately a no-op.  The two
    /// `requires` only rule out program-counter wraparound at the very
    /// edges of the 16-bit range, which a fetch-driven step never
    /// reaches.
    pub fn execute(&mut self, inst: u16) -> (r: Result<(), Chip8Error>)
        requires
            old(self)@.wf(),
            op_of(inst) == 0x3 || op_of(inst) == 0x4 || op_of(inst) == 0x5 || op_of(inst) == 0x9
                || op_of(inst) == 0xe ==> old(self)@.pc + 2 <= u16::MAX,
            op_of(inst) == 0xf && nn_of(inst) == 0x0a && old(self)@.key_pressed is None ==> old(
                self,
            )@.pc >= 2,
        ensures
            final(self)@.wf(),
            r is Ok ==> exists|b: u8|
                #[trigger] execute_spec(old(self)@, inst, b) == Result::<
                    MachineView,
                    Chip8Error,
                >::Ok(final(self)@),
            r is Err ==> forall|b: u8|
                #[trigger] execute_spec(old(self)@, inst, b) == Result::<
                    MachineView,
                    Chip8Error,
                >::Err(r->Err_0),
            r is Err ==> final(self)@ == old(self)@,
    {
        proof {
            lemma_system_words();
        }
        let op = Emulator::get_opcode(inst);
        let imm = Emulator::get_double_immediate_number(inst);

        match op {
            0x0 => {
                match inst {
                    0x00e0 => self.clear_screen(),
                    0x00ee => self.subroutine_ret(),
                    _ => {},
                }
                proof {
                    assert(execute_spec(old(self)@, inst, 0u8) == Result::<
                        MachineView,
                        Chip8Error,
                    >::Ok(self@));
                }
                Ok(())
            },
            0x1 => {
                self.jump(inst);
                proof {
                    assert(execute_spec(old(self)@, inst, 0u8) == Result::<
                        MachineView,
                        Chip8Error,
                    >::Ok(self@));
                }
                Ok(())
            },
            0x2 => {
                self.subroutine_call(inst);
                proof {
                    assert(execute_spec(old(self)@, inst, 0u8) == Result::<
                        MachineView,
                        Chip8Error,
                    >::Ok(self@));
                }
                Ok(())
            },
            0x3 | 0x4 | 0x5 | 0x9 => {
                self.skip(inst);
                proof {
                    assert(execute_spec(old(self)@, inst, 0u8) == Result::<
                        MachineView,
                        Chip8Error,
                    >::Ok(self@));
                }
                Ok(())
            },
            0x6 => {
                self.set(inst);
                proof {
                    assert(execute_spec(old(self)@, inst, 0u8) == Result::<
                        MachineView,
                        Chip8Error,
                    >::Ok(self@));
                }
                Ok(())
            },
            0x7 => {
                self.add(inst);
                proof {
                    assert(execute_spec(old(self)@, inst, 0u8) == Result::<
                        MachineView,
                        Chip8Error,
                    >::Ok(self@));
                }
                Ok(())
            },
            0x8 => {
                self.logical_arithmetic_op(inst);
                proof {
                    assert(execute_spec(old(self)@, inst, 0u8) == Result::<
                        MachineView,
                        Chip8Error,
                    >::Ok(self@));
                }
                Ok(())
            },
            0xa => {
                self.set_index(inst);
                proof {
                    assert(execute_spec(old(self)@, inst, 0u8) == Result::<
                        MachineView,
                        Chip8Error,
                    >::Ok(self@));
                }
                Ok(())
            },
            0xb => {
                self.jump_with_offset(inst);
                proof {
                    assert(execute_spec(old(self)@, inst, 0u8) == Result::<
                        MachineView,
                        Chip8Error,
                    >::Ok(self@));
                }
                Ok(())
            },
            0xc => {
                self.random(inst);
                proof {
                    let b = choose|b: u8| self@ == random_spec(old(self)@, inst, b);
                    assert(execute_spec(old(self)@, inst, b) == Result::<
                        MachineView,
                        Chip8Error,
                    >::Ok(self@));
                }
                Ok(())
            },
            0xd => {
                let r = self.display(inst);
                proof {
                    if r is Ok {
                        assert(execute_spec(old(self)@, inst, 0u8) == Result::<
                            MachineView,
                            Chip8Error,
                        >::Ok(self@));
                    }
                }
                r
            },
            0xe => {
                self.skip_if_key(inst);
                proof {
                    assert(execute_spec(old(self)@, inst, 0u8) == Result::<
                        MachineView,
                        Chip8Error,
                    >::Ok(self@));
                }
                Ok(())
            },
            0xf => {
                match imm {
                    0x07 => {
                        self.read_delay_timer(inst);
                        proof {
                            assert(execute_spec(old(self)@, inst, 0u8) == Result::<
                                MachineView,
                                Chip8Error,
                            >::Ok(self@));
                        }
                        Ok(())
                    },
                    0x15 => {
                        self.set_delay_timer(inst);
                        proof {
                            assert(execute_spec(old(self)@, inst, 0u8) == Result::<
                                MachineView,
                                Chip8Error,
                            >::Ok(self@));
                        }
                        Ok(())
                    },
                    0x18 => {
                        self.set_sound_timer(inst);
                        proof {
                            assert(execute_spec(old(self)@, inst, 0u8) == Result::<
                                MachineView,
                                Chip8Error,
                            >::Ok(self@));
                        }
                        Ok(())
                    },
                    0x1e => {
                        self.add_to_index(inst);
                        proof {
                            assert(execute_spec(old(self)@, inst, 0u8) == Result::<
                                MachineView,
                                Chip8Error,
                            >::Ok(self@));
                        }
                        Ok(())
                    },
                    0x29 => {
                        self.font_character(inst);
                        proof {
                            assert(execute_spec(old(self)@, inst, 0u8) == Result::<
                                MachineView,
                                Chip8Error,
                            >::Ok(self@));
                        }
                        Ok(())
                    },
                    0x33 => {
                        let r = self.decimal_conversion(inst);
                        proof {
                            if r is Ok {
                                assert(execute_spec(old(self)@, inst, 0u8) == Result::<
                                    MachineView,
                                    Chip8Error,
                                >::Ok(self@));
                            }
                        }
                        r
                    },
                    0x55 => {
                        let r = self.store_to_memory(inst);
                        proof {
                            if r is Ok {
                                assert(execute_spec(old(self)@, inst, 0u8) == Result::<
                                    MachineView,
                                    Chip8Error,
                                >::Ok(self@));
                            }
                        }
                        r
                    },
                    0x65 => {
                        let r = self.load_from_memory(inst);
                        proof {
                            if r is Ok {
                                assert(execute_spec(old(self)@, inst, 0u8) == Result::<
                                    MachineView,
                                    Chip8Error,
                                >::Ok(self@));
                            }
                        }
                        r
                    },
                    0x0a => {
                        self.get_key(inst);
                        proof {
                            assert(execute_spec(old(self)@, inst, 0u8) == Result::<
                                MachineView,
                                Chip8Error,
                            >::Ok(self@));
                        }
                        Ok(())
                    },
                    _ => {
                        proof {
                            assert(execute_spec(old(self)@, inst, 0u8) == Result::<
                                MachineView,
                                Chip8Error,
                            >::Ok(self@));
                        }
                        Ok(())
                    },
                }
            },
            _ => {
                proof {
                    assert(execute_spec(old(self)@, inst, 0u8) == Result::<
                        MachineView,
                        Chip8Error,
                    >::Ok(self@));
                }
                Ok(())
            },
        }
    }

    /// One full interpreter step: fetch the big-endian word at the
    /// program counter, advance the counter by 2, execute.  On an error
    /// during the execute phase the counter stays advanced past the
    /// faulting instruction; a failed fetch changes nothing.
    pub fn execute_next_instruction(&mut self) -> (r: Result<(), Chip8Error>)
        requires
            old(self)@.wf(),
        ensures
            final(self)@.wf(),
            r is Ok ==> exists|b: u8|
                #[trigger] step_spec(old(self)@, b) == Result::<MachineView, Chip8Error>::Ok(
                    final(self)@,
                ),
            r is Err ==> forall|b: u8|
                #[trigger] step_spec(old(self)@, b) == Result::<MachineView, Chip8Error>::Err(
                    r->Err_0,
                ),
            r is Err && fetch_oob(old(self)@) ==> final(self)@ == old(self)@,
            r is Err && !fetch_oob(old(self)@) ==> final(self)@ == after_fetch(old(self)@),
    {
        let inst = match self.fetch() {
            Ok(inst) => inst,
            Err(e) => {
                return Err(e);
            },
        };
        let ghost m1 = self@;
        let r = self.execute(inst);
        proof {
            if r is Ok {
                let b = choose|b: u8|
                    #[trigger] execute_spec(m1, inst, b) == Result::<MachineView, Chip8Error>::Ok(
                        self@,
                    );
                assert(step_spec(old(self)@, b) == Result::<MachineView, Chip8Error>::Ok(self@));
            }
        }
        r
    }

    // -----------------------------------------------------------------
    // The timer subsystem.  The two counters live here; their 60 Hz
    // decrement loops are run by the host, which calls the tick
    // operations at the fixed real-time rate, independently of how
    // often instructions are stepped.
    // -----------------------------------------------------------------

    /// `Fx07`: read the delay timer into the register.
    pub fn read_delay_timer(&mut self, inst: u16)
        requires
            old(self)@.wf(),
        ensures
            final(self)@ == read_delay_timer_spec(old(self)@, inst),
    {
        let reg = Emulator::get_first_reg(inst);
        self.regs[reg as usize] = self.delay_timer;
    }

    /// `Fx15`: load the delay timer from the register.  The host's
    /// delay-timer loop should be woken after this, so a zero-to-nonzero
    /// transition is observed without waiting a full idle period.
    pub fn set_delay_timer(&mut self, inst: u16)
        requires
            old(self)@.wf(),
        ensures
            final(self)@ == set_delay_timer_spec(old(self)@, inst),
    {
        let reg = Emulator::get_first_reg(inst);
        self.delay_timer = self.regs[reg as usize];
    }

    /// `Fx18`: load the sound timer from the register; the sound
    /// collaborator polls `sound_timer` to decide whether to emit audio.
    pub fn set_sound_timer(&mut self, inst: u16)
        requires
            old(self)@.wf(),
        ensures
            final(self)@ == set_sound_timer_spec(old(self)@, inst),
    {
        let reg = Emulator::get_first_reg(inst);
        self.sound_timer = self.regs[reg as usize];
    }

    /// One 60 Hz tick of the delay timer: decrement if above zero; once
    /// zero it stays zero until set again, and never underflows.
    pub fn tick_delay_timer(&mut self)
        ensures
            final(self)@ == (MachineView { delay_timer: tick(old(self)@.delay_timer), ..old(self)@ }),
    {
        if self.delay_timer > 0 {
            self.delay_timer -= 1;
        }
    }

    /// One 60 Hz tick of the sound timer: decrement if above zero; once
    /// zero it stays zero until set again, and never underflows.
    pub fn tick_sound_timer(&mut self)
        ensures
            final(self)@ == (MachineView { sound_timer: tick(old(self)@.sound_timer), ..old(self)@ }),
    {
        if self.sound_timer > 0 {
            self.sound_timer -= 1;
        }
    }
}

} // verus!
