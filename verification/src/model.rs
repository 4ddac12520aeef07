//! Mathematical model of the CHIP-8 machine.
//!
//! `MachineView` is the abstract state of the interpreter; one spec
//! function per instruction family says how an instruction transforms
//! that state.  `step_spec` combines the big-endian fetch with the
//! dispatch and is what the executable `step` is proved against.

use vstd::prelude::*;

verus! {

/// Errors surfaced to the host driver instead of aborting.
#[derive(Clone, Copy, Debug, PartialEq, Eq, Structural)]
pub enum Chip8Error {
    /// A fetch or an index-register access fell outside the 4096-byte
    /// address space.
    AddressOutOfRange,
    /// A program image does not fit between 0x200 and the end of memory.
    ProgramTooLarge,
}

/// Abstract state of the machine: 4096 bytes of memory, sixteen 8-bit
/// registers (register 0xF doubles as the flag register), the 16-bit
/// program counter and index register, the return-address stack, the
/// two 8-bit countdown timers, the 64x32 one-bit framebuffer stored
/// row-major, and the currently pressed key, if any.
#[verifier::ext_equal]
pub struct MachineView {
    pub memory: Seq<u8>,
    pub stack: Seq<u16>,
    pub delay_timer: u8,
    pub sound_timer: u8,
    pub pc: u16,
    pub index: u16,
    pub regs: Seq<u8>,
    pub display: Seq<u8>,
    pub key_pressed: Option<u8>,
}

impl MachineView {
    /// Well-formedness: the collections have their fixed sizes and every
    /// framebuffer cell is 0 or 1.
    pub open spec fn wf(self) -> bool {
        &&& self.memory.len() == 4096
        &&& self.regs.len() == 16
        &&& self.display.len() == 2048
        &&& forall|p: int| 0 <= p < 2048 ==> self.display[p] <= 1
    }
}

// ---------------------------------------------------------------------
// Decoding: operand fields of a 16-bit instruction word, by fixed masks.
// ---------------------------------------------------------------------

/// Operation family: the top 4 bits.
pub open spec fn op_of(inst: u16) -> int {
    ((inst & 0xf000) >> 12) as int
}

/// First register operand: bits 8-11.
pub open spec fn x_of(inst: u16) -> int {
    ((inst & 0x0f00) >> 8) as int
}

/// Second register operand: bits 4-7.
pub open spec fn y_of(inst: u16) -> int {
    ((inst & 0x00f0) >> 4) as int
}

/// 4-bit immediate: bits 0-3.
pub open spec fn n_of(inst: u16) -> int {
    (inst & 0x000f) as int
}

/// 8-bit immediate: bits 0-7.
pub open spec fn nn_of(inst: u16) -> u8 {
    (inst & 0x00ff) as u8
}

/// 12-bit address: bits 0-11.
pub open spec fn nnn_of(inst: u16) -> u16 {
    inst & 0x0fff
}

/// The operand fields are in range: register indices below 16, the
/// address below 4096.
pub proof fn lemma_decode_bounds(inst: u16)
    by (bit_vector)
    ensures
        0 <= ((inst & 0xf000) >> 12) < 16,
        0 <= ((inst & 0x0f00) >> 8) < 16,
        0 <= ((inst & 0x00f0) >> 4) < 16,
        0 <= (inst & 0x000f) < 16,
        nnn_of(inst) < 4096,
{
}

// ---------------------------------------------------------------------
// Instruction semantics, one spec function per family.
// ---------------------------------------------------------------------

/// The machine with register `i` set to `v`.
pub open spec fn with_reg(m: MachineView, i: int, v: u8) -> MachineView {
    MachineView { regs: m.regs.update(i, v), ..m }
}

/// `00E0`: every framebuffer cell cleared to 0.
pub open spec fn clear_screen_spec(m: MachineView) -> MachineView {
    MachineView { display: Seq::new(2048, |p: int| 0u8), ..m }
}

/// `1nnn`: jump.
pub open spec fn jump_spec(m: MachineView, inst: u16) -> MachineView {
    MachineView { pc: nnn_of(inst), ..m }
}

/// `2nnn`: push the current program counter, then jump.
pub open spec fn subroutine_call_spec(m: MachineView, inst: u16) -> MachineView {
    MachineView { stack: m.stack.push(m.pc), pc: nnn_of(inst), ..m }
}

/// `00EE`: pop the stack into the program counter; a no-op when the
/// stack is empty.
pub open spec fn subroutine_ret_spec(m: MachineView) -> MachineView {
    if m.stack.len() == 0 {
        m
    } else {
        MachineView { stack: m.stack.drop_last(), pc: m.stack.last(), ..m }
    }
}

/// `3xnn`/`4xnn`/`5xy0`/`9xy0`: skip the next instruction when the
/// comparison holds.
pub open spec fn skip_cond(m: MachineView, inst: u16) -> bool {
    let vx = m.regs[x_of(inst)];
    let vy = m.regs[y_of(inst)];
    let op = op_of(inst);
    if op == 0x3 {
        vx == nn_of(inst)
    } else if op == 0x4 {
        vx != nn_of(inst)
    } else if op == 0x5 {
        vx == vy
    } else if op == 0x9 {
        vx != vy
    } else {
        false
    }
}

pub open spec fn skip_spec(m: MachineView, inst: u16) -> MachineView {
    if skip_cond(m, inst) {
        MachineView { pc: (m.pc + 2) as u16, ..m }
    } else {
        m
    }
}

/// `6xnn`: load the immediate into the register.
pub open spec fn set_spec(m: MachineView, inst: u16) -> MachineView {
    with_reg(m, x_of(inst), nn_of(inst))
}

/// `7xnn`: add the immediate, wrapping modulo 256; the flag register is
/// not touched.
pub open spec fn add_spec(m: MachineView, inst: u16) -> MachineView {
    with_reg(m, x_of(inst), ((m.regs[x_of(inst)] + nn_of(inst)) % 256) as u8)
}

/// `8xyk`: the arithmetic/logical group.  Whenever the operation defines
/// a flag, the flag register is written after the primary result, so
/// that the flag survives even when `x` is 0xF.
pub open spec fn alu_spec(m: MachineView, inst: u16) -> MachineView {
    let x = x_of(inst);
    let vx = m.regs[x];
    let vy = m.regs[y_of(inst)];
    let k = n_of(inst);
    if k == 0x0 {
        with_reg(m, x, vy)
    } else if k == 0x1 {
        with_reg(m, x, vx | vy)
    } else if k == 0x2 {
        with_reg(m, x, vx & vy)
    } else if k == 0x3 {
        with_reg(m, x, vx ^ vy)
    } else if k == 0x4 {
        let flag: u8 = if vx + vy > 255 { 1 } else { 0 };
        MachineView { regs: m.regs.update(x, ((vx + vy) % 256) as u8).update(15, flag), ..m }
    } else if k == 0x5 {
        let flag: u8 = if vx > vy { 1 } else { 0 };
        MachineView { regs: m.regs.update(x, ((vx - vy + 256) % 256) as u8).update(15, flag), ..m }
    } else if k == 0x6 {
        let flag: u8 = (vx % 2) as u8;
        MachineView { regs: m.regs.update(x, (vx / 2) as u8).update(15, flag), ..m }
    } else if k == 0x7 {
        let flag: u8 = if vy > vx { 1 } else { 0 };
        MachineView { regs: m.regs.update(x, ((vy - vx + 256) % 256) as u8).update(15, flag), ..m }
    } else if k == 0xe {
        let flag: u8 = if vx >= 128 { 1 } else { 0 };
        MachineView { regs: m.regs.update(x, ((vx * 2) % 256) as u8).update(15, flag), ..m }
    } else {
        m
    }
}

/// `Annn`: load the index register.
pub open spec fn set_index_spec(m: MachineView, inst: u16) -> MachineView {
    MachineView { index: nnn_of(inst), ..m }
}

/// `Bnnn`: jump to the address plus register 0.
pub open spec fn jump_with_offset_spec(m: MachineView, inst: u16) -> MachineView {
    MachineView { pc: (nnn_of(inst) + m.regs[0]) as u16, ..m }
}

/// `Cxnn`: a random byte masked by the immediate.  The byte is a
/// parameter: the model holds for every value the source of randomness
/// may produce.
pub open spec fn random_spec(m: MachineView, inst: u16, rnd: u8) -> MachineView {
    with_reg(m, x_of(inst), rnd & nn_of(inst))
}

/// `Fx1E`: add the register to the index register (mod 2^16); the flag
/// is set when the stored result exceeds 0xFFF, and is left alone
/// otherwise.
pub open spec fn add_to_index_spec(m: MachineView, inst: u16) -> MachineView {
    let ni = ((m.index + m.regs[x_of(inst)]) % 0x10000) as u16;
    MachineView {
        index: ni,
        regs: if ni > 0xfff {
            m.regs.update(15, 1u8)
        } else {
            m.regs
        },
        ..m
    }
}

/// `Fx29`: point the index register at the 5-byte font glyph region,
/// offset by the register value.
pub open spec fn font_character_spec(m: MachineView, inst: u16) -> MachineView {
    MachineView { index: (0x50 + m.regs[x_of(inst)]) as u16, ..m }
}

/// `Fx33` writes three bytes at the index register; it is out of range
/// when they do not all fit in memory.
pub open spec fn decimal_conversion_oob(m: MachineView, inst: u16) -> bool {
    m.index + 2 >= 4096
}

/// `Fx33`: the three decimal digits of the register value (hundreds,
/// tens, ones), written at `index`, `index + 1`, `index + 2`.
pub open spec fn decimal_conversion_spec(m: MachineView, inst: u16) -> MachineView {
    let v = m.regs[x_of(inst)];
    MachineView {
        memory: m.memory.update(m.index as int, (v / 100) as u8).update(
            m.index + 1,
            ((v / 10) % 10) as u8,
        ).update(m.index + 2, (v % 10) as u8),
        ..m
    }
}

/// `Fx55`/`Fx65` touch the bytes at `index ..= index + x`; they are out
/// of range when those do not all fit in memory.
pub open spec fn reg_block_oob(m: MachineView, inst: u16) -> bool {
    m.index + x_of(inst) >= 4096
}

/// `Fx55`: registers `0 ..= x` stored to memory starting at the index
/// register.
pub open spec fn store_to_memory_spec(m: MachineView, inst: u16) -> MachineView {
    MachineView {
        memory: Seq::new(
            4096,
            |j: int|
                if m.index <= j <= m.index + x_of(inst) {
                    m.regs[j - m.index]
                } else {
                    m.memory[j]
                },
        ),
        ..m
    }
}

/// `Fx65`: registers `0 ..= x` loaded from memory starting at the index
/// register.
pub open spec fn load_from_memory_spec(m: MachineView, inst: u16) -> MachineView {
    MachineView {
        regs: Seq::new(
            16,
            |j: int|
                if j <= x_of(inst) {
                    m.memory[m.index + j]
                } else {
                    m.regs[j]
                },
        ),
        ..m
    }
}

/// `Fx0A`: when a key is pressed its identifier lands in the register;
/// with no key pressed the program counter rewinds by 2 so the same
/// instruction re-executes on the next step.
pub open spec fn get_key_spec(m: MachineView, inst: u16) -> MachineView {
    match m.key_pressed {
        Option::Some(k) => with_reg(m, x_of(inst), k),
        Option::None => MachineView { pc: ((m.pc - 2) % 0x10000) as u16, ..m },
    }
}

/// `Ex9E`/`ExA1`: skip the next instruction when the pressed key equals
/// (does not equal) the register value.
pub open spec fn skip_if_key_cond(m: MachineView, inst: u16) -> bool {
    let vx = m.regs[x_of(inst)];
    let nn = nn_of(inst);
    if nn == 0x9e {
        m.key_pressed matches Option::Some(k) && k == vx
    } else if nn == 0xa1 {
        !(m.key_pressed matches Option::Some(k) && k == vx)
    } else {
        false
    }
}

pub open spec fn skip_if_key_spec(m: MachineView, inst: u16) -> MachineView {
    if skip_if_key_cond(m, inst) {
        MachineView { pc: (m.pc + 2) as u16, ..m }
    } else {
        m
    }
}

/// `Fx07`: read the delay timer into the register.
pub open spec fn read_delay_timer_spec(m: MachineView, inst: u16) -> MachineView {
    with_reg(m, x_of(inst), m.delay_timer)
}

/// `Fx15`: load the delay timer from the register.
pub open spec fn set_delay_timer_spec(m: MachineView, inst: u16) -> MachineView {
    MachineView { delay_timer: m.regs[x_of(inst)], ..m }
}

/// `Fx18`: load the sound timer from the register.
pub open spec fn set_sound_timer_spec(m: MachineView, inst: u16) -> MachineView {
    MachineView { sound_timer: m.regs[x_of(inst)], ..m }
}

/// One 60 Hz tick of a countdown timer: decrement when above zero,
/// stay at zero otherwise.
pub open spec fn tick(t: u8) -> u8 {
    if t > 0 {
        (t - 1) as u8
    } else {
        0
    }
}

// ---------------------------------------------------------------------
// The draw operation (`Dxyn`).
// ---------------------------------------------------------------------

/// Bit `off` of a sprite row byte, most significant first (`off` in
/// 0..8); always 0 or 1.
pub open spec fn sprite_bit(byte: u8, off: int) -> u8 {
    (byte >> ((7 - off) as u8)) & 1
}

/// The sprite origin: the first register operand modulo the screen
/// width, the second modulo the screen height.
pub open spec fn draw_origin_x(m: MachineView, inst: u16) -> int {
    m.regs[x_of(inst)] as int % 64
}

pub open spec fn draw_origin_y(m: MachineView, inst: u16) -> int {
    m.regs[y_of(inst)] as int % 32
}

/// How many sprite rows are read from memory: rows past the bottom of
/// the screen are skipped, so only `min(n, 32 - y)` bytes are fetched.
pub open spec fn draw_rows_read(m: MachineView, inst: u16) -> int {
    let n = n_of(inst);
    let y = draw_origin_y(m, inst);
    if n <= 32 - y {
        n
    } else {
        32 - y
    }
}

/// `Dxyn` is out of range when a sprite row it reads lies past the end
/// of memory.
pub open spec fn draw_oob(m: MachineView, inst: u16) -> bool {
    m.index + draw_rows_read(m, inst) > 4096
}

/// The sprite bit XORed into framebuffer cell `p` by a draw with origin
/// `(x, y)` and `n` rows: 0 for every cell outside the clipped sprite
/// rectangle (no wraparound).
pub open spec fn plotted_bit(m: MachineView, x: int, y: int, n: int, p: int) -> u8 {
    let row = p / 64;
    let col = p % 64;
    if y <= row < y + n && x <= col < x + 8 {
        sprite_bit(m.memory[m.index + (row - y)], col - x)
    } else {
        0
    }
}

/// Framebuffer cell `p` after the draw: the old cell XOR the plotted
/// bit inside the clipped rectangle, the old cell unchanged outside it.
pub open spec fn draw_pixel(m: MachineView, x: int, y: int, n: int, p: int) -> u8 {
    let row = p / 64;
    let col = p % 64;
    if y <= row < y + n && x <= col < x + 8 {
        m.display[p] ^ sprite_bit(m.memory[m.index + (row - y)], col - x)
    } else {
        m.display[p]
    }
}

/// A collision among the framebuffer cells below `limit`: some cell
/// that was 1 has a 1 bit plotted onto it.
pub open spec fn draw_collision_upto(
    m: MachineView,
    x: int,
    y: int,
    n: int,
    limit: int,
) -> bool {
    exists|p: int|
        0 <= p < limit && m.display[p] == 1 && (#[trigger] plotted_bit(m, x, y, n, p)) == 1
}

/// A collision: some cell that was 1 has a 1 bit plotted onto it.
pub open spec fn draw_collision(m: MachineView, x: int, y: int, n: int) -> bool {
    draw_collision_upto(m, x, y, n, 2048)
}

/// Cells on which nothing is plotted cannot add a collision.
pub proof fn lemma_collision_upto_same(m: MachineView, x: int, y: int, n: int, a: int, b: int)
    requires
        0 <= a <= b,
        forall|p: int| a <= p < b ==> #[trigger] plotted_bit(m, x, y, n, p) == 0,
    ensures
        draw_collision_upto(m, x, y, n, b) == draw_collision_upto(m, x, y, n, a),
{
    if draw_collision_upto(m, x, y, n, b) {
        let p = choose|p: int|
            0 <= p < b && m.display[p] == 1 && (#[trigger] plotted_bit(m, x, y, n, p)) == 1;
        assert(p < a);
        assert(draw_collision_upto(m, x, y, n, a));
    }
    if draw_collision_upto(m, x, y, n, a) {
        let p = choose|p: int|
            0 <= p < a && m.display[p] == 1 && (#[trigger] plotted_bit(m, x, y, n, p)) == 1;
        assert(0 <= p < b && m.display[p] == 1 && plotted_bit(m, x, y, n, p) == 1);
    }
}

/// Extending the scanned region by one cell adds a collision exactly
/// when a 1 bit lands on a set cell there.
pub proof fn lemma_collision_upto_step(m: MachineView, x: int, y: int, n: int, l: int)
    requires
        0 <= l,
    ensures
        draw_collision_upto(m, x, y, n, l + 1) == (draw_collision_upto(m, x, y, n, l) || (
        m.display[l] == 1 && plotted_bit(m, x, y, n, l) == 1)),
{
    if draw_collision_upto(m, x, y, n, l + 1) {
        let p = choose|p: int|
            0 <= p < l + 1 && m.display[p] == 1 && (#[trigger] plotted_bit(m, x, y, n, p)) == 1;
        if p < l {
            assert(draw_collision_upto(m, x, y, n, l));
        }
    }
    if draw_collision_upto(m, x, y, n, l) {
        let p = choose|p: int|
            0 <= p < l && m.display[p] == 1 && (#[trigger] plotted_bit(m, x, y, n, p)) == 1;
        assert(0 <= p < l + 1 && m.display[p] == 1 && plotted_bit(m, x, y, n, p) == 1);
    }
    if m.display[l] == 1 && plotted_bit(m, x, y, n, l) == 1 {
        assert(0 <= l < l + 1 && m.display[l] == 1 && plotted_bit(m, x, y, n, l) == 1);
    }
}

/// XOR on one-bit cells: the result is a bit, a second XOR of the same
/// bit cancels, and XOR with 0 changes nothing.
pub proof fn lemma_xor_bit(a: u8, b: u8)
    by (bit_vector)
    requires
        a <= 1,
        b <= 1,
    ensures
        (a ^ b) <= 1,
        (a ^ b) ^ b == a,
        a ^ 0 == a,
        (0 as u8) ^ b == b,
{
}

/// A single extracted sprite bit is 0 or 1.
pub proof fn lemma_sprite_bit_bound(byte: u8, s: u8)
    by (bit_vector)
    ensures
        ((byte >> s) & 1) <= 1,
{
}

/// The two system words `00E0` and `00EE` lie in operation family 0.
pub proof fn lemma_system_words()
    by (bit_vector)
    ensures
        (0x00e0u16 & 0xf000) >> 12 == 0,
        (0x00eeu16 & 0xf000) >> 12 == 0,
{
}

/// Row-major decomposition of a cell index built from a row and a
/// column.
pub proof fn lemma_row_major(r: int, c: int)
    requires
        0 <= r,
        0 <= c < 64,
    ensures
        (r * 64 + c) / 64 == r,
        (r * 64 + c) % 64 == c,
{
    assert((r * 64 + c) / 64 == r && (r * 64 + c) % 64 == c) by (nonlinear_arith)
        requires
            0 <= r,
            0 <= c < 64,
    ;
}

/// Row-major decomposition of a cell index known to lie in row `r`.
pub proof fn lemma_in_row(p: int, r: int)
    requires
        0 <= r,
        r * 64 <= p < r * 64 + 64,
    ensures
        p / 64 == r,
        p % 64 == p - r * 64,
{
    assert(p / 64 == r && p % 64 == p - r * 64) by (nonlinear_arith)
        requires
            0 <= r,
            r * 64 <= p < r * 64 + 64,
    ;
}

/// Which side of row `r` a cell index falls on.
pub proof fn lemma_row_bound(p: int, r: int)
    requires
        0 <= p,
        0 <= r,
    ensures
        p < r * 64 ==> p / 64 < r,
        p >= r * 64 ==> p / 64 >= r,
{
    assert((p < r * 64 ==> p / 64 < r) && (p >= r * 64 ==> p / 64 >= r)) by (nonlinear_arith)
        requires
            0 <= p,
            0 <= r,
    ;
}

/// `Dxyn`: XOR the `n`-row sprite at `memory[index ..]` into the
/// framebuffer at the origin, clipping at the right and bottom edges;
/// the flag register reports whether any set pixel was turned off.
pub open spec fn display_op_spec(m: MachineView, inst: u16) -> Result<MachineView, Chip8Error> {
    let x = draw_origin_x(m, inst);
    let y = draw_origin_y(m, inst);
    let n = n_of(inst);
    if draw_oob(m, inst) {
        Result::Err(Chip8Error::AddressOutOfRange)
    } else {
        Result::Ok(
            MachineView {
                display: Seq::new(2048, |p: int| draw_pixel(m, x, y, n, p)),
                regs: m.regs.update(
                    15,
                    if draw_collision(m, x, y, n) {
                        1u8
                    } else {
                        0u8
                    },
                ),
                ..m
            },
        )
    }
}

// ---------------------------------------------------------------------
// Dispatch, fetch, and program load.
// ---------------------------------------------------------------------

/// Execute one already-fetched instruction word.  An unrecognized word
/// is deliberately a no-op (the instruction pointer has already
/// advanced).  `rnd` is the byte a `Cxnn` instruction would consume.
pub open spec fn execute_spec(m: MachineView, inst: u16, rnd: u8) -> Result<
    MachineView,
    Chip8Error,
> {
    let op = op_of(inst);
    if inst == 0x00e0 {
        Result::Ok(clear_screen_spec(m))
    } else if inst == 0x00ee {
        Result::Ok(subroutine_ret_spec(m))
    } else if op == 0x0 {
        Result::Ok(m)
    } else if op == 0x1 {
        Result::Ok(jump_spec(m, inst))
    } else if op == 0x2 {
        Result::Ok(subroutine_call_spec(m, inst))
    } else if op == 0x3 || op == 0x4 || op == 0x5 || op == 0x9 {
        Result::Ok(skip_spec(m, inst))
    } else if op == 0x6 {
        Result::Ok(set_spec(m, inst))
    } else if op == 0x7 {
        Result::Ok(add_spec(m, inst))
    } else if op == 0x8 {
        Result::Ok(alu_spec(m, inst))
    } else if op == 0xa {
        Result::Ok(set_index_spec(m, inst))
    } else if op == 0xb {
        Result::Ok(jump_with_offset_spec(m, inst))
    } else if op == 0xc {
        Result::Ok(random_spec(m, inst, rnd))
    } else if op == 0xd {
        display_op_spec(m, inst)
    } else if op == 0xe {
        Result::Ok(skip_if_key_spec(m, inst))
    } else if op == 0xf {
        let nn = nn_of(inst);
        if nn == 0x07 {
            Result::Ok(read_delay_timer_spec(m, inst))
        } else if nn == 0x15 {
            Result::Ok(set_delay_timer_spec(m, inst))
        } else if nn == 0x18 {
            Result::Ok(set_sound_timer_spec(m, inst))
        } else if nn == 0x1e {
            Result::Ok(add_to_index_spec(m, inst))
        } else if nn == 0x29 {
            Result::Ok(font_character_spec(m, inst))
        } else if nn == 0x33 {
            if decimal_conversion_oob(m, inst) {
                Result::Err(Chip8Error::AddressOutOfRange)
            } else {
                Result::Ok(decimal_conversion_spec(m, inst))
            }
        } else if nn == 0x55 {
            if reg_block_oob(m, inst) {
                Result::Err(Chip8Error::AddressOutOfRange)
            } else {
                Result::Ok(store_to_memory_spec(m, inst))
            }
        } else if nn == 0x65 {
            if reg_block_oob(m, inst) {
                Result::Err(Chip8Error::AddressOutOfRange)
            } else {
                Result::Ok(load_from_memory_spec(m, inst))
            }
        } else if nn == 0x0a {
            Result::Ok(get_key_spec(m, inst))
        } else {
            Result::Ok(m)
        }
    } else {
        Result::Ok(m)
    }
}

/// A fetch is possible only when both instruction bytes lie in memory.
pub open spec fn fetch_oob(m: MachineView) -> bool {
    m.pc + 1 >= 4096
}

/// The big-endian instruction word at the program counter: the byte at
/// `pc` is the high byte.
pub open spec fn fetched_word(m: MachineView) -> u16 {
    (m.memory[m.pc as int] * 256 + m.memory[m.pc + 1]) as u16
}

/// The machine after the fetch phase: the program counter has advanced
/// past the two instruction bytes.
pub open spec fn after_fetch(m: MachineView) -> MachineView {
    MachineView { pc: (m.pc + 2) as u16, ..m }
}

/// One full step: fetch (big-endian), advance the program counter by 2,
/// execute.  `rnd` is the byte a `Cxnn` instruction would consume.
pub open spec fn step_spec(m: MachineView, rnd: u8) -> Result<MachineView, Chip8Error> {
    if fetch_oob(m) {
        Result::Err(Chip8Error::AddressOutOfRange)
    } else {
        execute_spec(after_fetch(m), fetched_word(m), rnd)
    }
}

/// A program of `len` bytes fits when it ends by the last memory
/// address.
pub open spec fn program_fits(len: int) -> bool {
    len <= 4096 - 0x200
}

/// Memory after a program load: the image copied verbatim from 0x200
/// on, everything else untouched.
pub open spec fn load_program_spec(m: MachineView, program: Seq<u8>) -> MachineView {
    MachineView {
        memory: Seq::new(
            4096,
            |j: int|
                if 0x200 <= j < 0x200 + program.len() {
                    program[j - 0x200]
                } else {
                    m.memory[j]
                },
        ),
        ..m
    }
}

/// The five font glyph bytes for each of the sixteen hexadecimal
/// digits, as placed in memory from 0x50 at construction.
pub open spec fn font_seq() -> Seq<u8> {
    seq![
        0xF0u8, 0x90, 0x90, 0x90, 0xF0,  // 0
        0x20, 0x60, 0x20, 0x20, 0x70,  // 1
        0xF0, 0x10, 0xF0, 0x80, 0xF0,  // 2
        0xF0, 0x10, 0xF0, 0x10, 0xF0,  // 3
        0x90, 0x90, 0xF0, 0x10, 0x10,  // 4
        0xF0, 0x80, 0xF0, 0x10, 0xF0,  // 5
        0xF0, 0x80, 0xF0, 0x90, 0xF0,  // 6
        0xF0, 0x10, 0x20, 0x40, 0x40,  // 7
        0xF0, 0x90, 0xF0, 0x90, 0xF0,  // 8
        0xF0, 0x90, 0xF0, 0x10, 0xF0,  // 9
        0xF0, 0x90, 0xF0, 0x90, 0x90,  // A
        0xE0, 0x90, 0xE0, 0x90, 0xE0,  // B
        0xF0, 0x80, 0x80, 0x80, 0xF0,  // C
        0xE0, 0x90, 0x90, 0x90, 0xE0,  // D
        0xF0, 0x80, 0xF0, 0x80, 0xF0,  // E
        0xF0, 0x80, 0xF0, 0x80, 0x80,  // F
    ]
}

/// The state of a freshly constructed machine: zeroed registers, timers,
/// stack and framebuffer, no key pressed, and memory zero everywhere
/// but the font region at 0x50..0xA0.
pub open spec fn initial_machine() -> MachineView {
    MachineView {
        memory: Seq::new(
            4096,
            |j: int|
                if 0x50 <= j < 0xa0 {
                    font_seq()[j - 0x50]
                } else {
                    0u8
                },
        ),
        stack: Seq::empty(),
        delay_timer: 0,
        sound_timer: 0,
        pc: 0,
        index: 0,
        regs: Seq::new(16, |j: int| 0u8),
        display: Seq::new(2048, |p: int| 0u8),
        key_pressed: Option::None,
    }
}

} // verus!
