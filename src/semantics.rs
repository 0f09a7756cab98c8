//! The machine as a mathematical value, and what each instruction, a timer
//! tick and a whole cycle do to it.
use vstd::prelude::*;
use crate::chip8::{Chip8Error, Cycle};
use crate::input::{key_held, lowest_held};

verus! {

/// Bytes of addressable memory.
pub const MEMORY_SIZE: usize = 4096;
/// Address of the first program byte, where `pc` starts.
pub const PROGRAM_START: usize = 0x200;
/// Framebuffer width in pixels.
pub const SCREEN_W: usize = 64;
/// Framebuffer height in pixels.
pub const SCREEN_H: usize = 32;
/// Pixels in the framebuffer.
pub const SCREEN_SIZE: usize = 2048;
/// Depth of the call stack.
pub const STACK_DEPTH: usize = 16;
/// Number of general registers; the last one, VF, doubles as the flag.
pub const REGISTER_COUNT: usize = 16;
/// Index of the flag register VF.
pub const VF: usize = 15;
/// Largest program that fits between `PROGRAM_START` and the end of memory.
pub const MAX_PROGRAM_LEN: usize = 3584;

/// Glyphs for the hexadecimal digits 0 to F, five rows each, stored at the
/// start of memory.
pub const FONTSET: [u8; 80] = [
    0xF0, 0x90, 0x90, 0x90, 0xF0, // 0
    0x20, 0x60, 0x20, 0x20, 0x70, // 1
    0xF0, 0x10, 0xF0, 0x80, 0xF0, // 2
    0xF0, 0x10, 0xF0, 0x10, 0xF0, // 3
    0x90, 0x90, 0xF0, 0x10, 0x10, // 4
    0xF0, 0x80, 0xF0, 0x10, 0xF0, // 5
    0xF0, 0x80, 0xF0, 0x90, 0xF0, // 6
    0xF0, 0x10, 0x20, 0x40, 0x40, // 7
    0xF0, 0x90, 0xF0, 0x90, 0xF0, // 8
    0xF0, 0x90, 0xF0, 0x10, 0xF0, // 9
    0xF0, 0x90, 0xF0, 0x90, 0x90, // A
    0xE0, 0x90, 0xE0, 0x90, 0xE0, // B
    0xF0, 0x80, 0x80, 0x80, 0xF0, // C
    0xE0, 0x90, 0x90, 0x90, 0xE0, // D
    0xF0, 0x80, 0xF0, 0x80, 0xF0, // E
    0xF0, 0x80, 0xF0, 0x80, 0x80, // F
];

/// Bytes in the font table.
pub const FONTSET_LEN: usize = 80;

/// A fresh machine: memory holds only the font, `pc` is at the program
/// start, everything else is zero; the keys are as given.
pub open spec fn initial_state(keys: Seq<bool>) -> MachineState {
    MachineState {
        opcode: 0,
        memory: Seq::new(
            MEMORY_SIZE as nat,
            |a: int| if a < FONTSET_LEN { FONTSET@[a] } else { 0u8 },
        ),
        v: Seq::new(REGISTER_COUNT as nat, |k: int| 0u8),
        i: 0,
        pc: PROGRAM_START as u16,
        stack: Seq::new(STACK_DEPTH as nat, |k: int| 0u16),
        sp: 0,
        delay_timer: 0,
        sound_timer: 0,
        gfx: Seq::new(SCREEN_SIZE as nat, |p: int| 0u8),
        draw_flag: false,
        keys,
        awaiting_key: false,
    }
}

/// Whether a program of `len` bytes fits from `PROGRAM_START` on.
pub open spec fn fits(len: int) -> bool {
    len <= MAX_PROGRAM_LEN
}

/// Memory with `program` written from `PROGRAM_START` on.
pub open spec fn loaded(s: MachineState, program: Seq<u8>) -> MachineState {
    MachineState {
        memory: Seq::new(
            MEMORY_SIZE as nat,
            |a: int|
                if PROGRAM_START <= a < PROGRAM_START + program.len() {
                    program[a - PROGRAM_START]
                } else {
                    s.memory[a]
                },
        ),
        ..s
    }
}

/// `r` and `after` are what `expected` prescribes: its state on success,
/// the state `before` unchanged with the same error on failure.
pub open spec fn applied(
    expected: Result<MachineState, Chip8Error>,
    before: MachineState,
    r: Result<(), Chip8Error>,
    after: MachineState,
) -> bool {
    match expected {
        Ok(t) => r is Ok && after == t,
        Err(e) => r == Err::<(), Chip8Error>(e) && after == before,
    }
}

/// The whole machine: what an instruction can read or change.
pub struct MachineState {
    /// The most recently fetched instruction word.
    pub opcode: u16,
    pub memory: Seq<u8>,
    pub v: Seq<u8>,
    pub i: u16,
    pub pc: u16,
    pub stack: Seq<u16>,
    pub sp: usize,
    pub delay_timer: u8,
    pub sound_timer: u8,
    pub gfx: Seq<u8>,
    pub draw_flag: bool,
    pub keys: Seq<bool>,
    /// Set when the last instruction was a key wait that found no key held.
    pub awaiting_key: bool,
}

impl MachineState {
    /// Sizes of the parts, and every saved return address inside memory.
    pub open spec fn wf(self) -> bool {
        &&& self.memory.len() == MEMORY_SIZE
        &&& self.v.len() == REGISTER_COUNT
        &&& self.stack.len() == STACK_DEPTH
        &&& self.gfx.len() == SCREEN_SIZE
        &&& self.keys.len() == 16
        &&& self.sp <= STACK_DEPTH
        &&& forall|k: int| 0 <= k < STACK_DEPTH ==> #[trigger] self.stack[k] < MEMORY_SIZE
    }
}

// ---- instruction fields ----

/// Top nibble: the instruction family.
pub open spec fn family(op: u16) -> u16 {
    op / 0x1000
}

/// Low 12 bits: an address.
pub open spec fn field_nnn(op: u16) -> u16 {
    op % 0x1000
}

/// Low 8 bits: a byte.
pub open spec fn field_nn(op: u16) -> u8 {
    (op % 0x100) as u8
}

/// Low 4 bits.
pub open spec fn field_n(op: u16) -> u8 {
    (op % 0x10) as u8
}

/// Bits 8 to 11: a register index.
pub open spec fn field_x(op: u16) -> int {
    (op as int / 0x100) % 0x10
}

/// Bits 4 to 7: a register index.
pub open spec fn field_y(op: u16) -> int {
    (op as int / 0x10) % 0x10
}

// ---- small state updates ----

pub open spec fn advance(s: MachineState, d: int) -> MachineState {
    MachineState { pc: (s.pc + d) as u16, ..s }
}

/// Skips the next instruction when `cond` holds.
pub open spec fn skip_if(s: MachineState, cond: bool) -> MachineState {
    advance(s, if cond { 4 } else { 2 })
}

pub open spec fn set_v(s: MachineState, x: int, val: u8) -> MachineState {
    MachineState { v: s.v.update(x, val), ..s }
}

/// Writes the flag VF first and then `Vx`, so that `Vx` wins when `x` is VF.
pub open spec fn set_with_flag(s: MachineState, x: int, val: u8, flag: bool) -> MachineState {
    set_v(set_v(s, VF as int, if flag { 1u8 } else { 0u8 }), x, val)
}

/// The memory address `k` bytes past `i`, wrapping at the end of memory.
pub open spec fn addr(i: u16, k: int) -> int {
    (i + k) % (MEMORY_SIZE as int)
}

/// How far memory address `a` lies past `i`, counted with wraparound.
pub open spec fn offset_from(i: u16, a: int) -> int {
    (a - (i as int) % (MEMORY_SIZE as int) + MEMORY_SIZE) % (MEMORY_SIZE as int)
}

/// The address `k` bytes past `i` lies `k` bytes past `i`, and no other
/// address does.
pub proof fn lemma_offset_addr(i: u16, k: int)
    requires
        0 <= k < MEMORY_SIZE,
    ensures
        0 <= addr(i, k) < MEMORY_SIZE,
        offset_from(i, addr(i, k)) == k,
        forall|a: int| 0 <= a < MEMORY_SIZE && offset_from(i, a) == k ==> a == addr(i, k),
{
}

// ---- the families ----

/// `00E0` clear, `00EE` return, anything else in the family is unsupported.
pub open spec fn exec_system(s: MachineState) -> Result<MachineState, Chip8Error> {
    if s.opcode == 0x00E0 {
        Ok(advance(
            MachineState { gfx: Seq::new(SCREEN_SIZE as nat, |p: int| 0u8), draw_flag: true, ..s },
            2,
        ))
    } else if s.opcode == 0x00EE {
        if s.sp == 0 {
            Err(Chip8Error::StackUnderflow)
        } else {
            let sp = (s.sp - 1) as usize;
            Ok(MachineState { sp, pc: (s.stack[sp as int] + 2) as u16, ..s })
        }
    } else {
        Ok(advance(s, 2))
    }
}

/// `2nnn`: saves `pc` and jumps.
pub open spec fn exec_call(s: MachineState) -> Result<MachineState, Chip8Error> {
    if s.sp >= STACK_DEPTH {
        Err(Chip8Error::StackOverflow)
    } else {
        Ok(MachineState {
            stack: s.stack.update(s.sp as int, s.pc),
            sp: (s.sp + 1) as usize,
            pc: field_nnn(s.opcode),
            ..s
        })
    }
}

/// What `8xy_` with low nibble `n` computes from `Vx` and `Vy`: the new
/// `Vx` and, for the arithmetic and shifts, the flag for VF (carry, borrow
/// or the bit shifted out). `None` for a nibble with no instruction.
pub open spec fn alu(n: u8, vx: u8, vy: u8) -> Option<(u8, Option<bool>)> {
    if n == 0x0 {
        Some((vy, None))
    } else if n == 0x1 {
        Some((vx | vy, None))
    } else if n == 0x2 {
        Some((vx & vy, None))
    } else if n == 0x3 {
        Some((vx ^ vy, None))
    } else if n == 0x4 {
        Some((((vx + vy) % 256) as u8, Some(vx + vy > 255)))
    } else if n == 0x5 {
        Some((((vx - vy + 256) % 256) as u8, Some(vx < vy)))
    } else if n == 0x6 {
        Some(((vx / 2) as u8, Some(vx % 2 == 1)))
    } else if n == 0x7 {
        Some((((vy - vx + 256) % 256) as u8, Some(vy < vx)))
    } else if n == 0xE {
        Some((((vx * 2) % 256) as u8, Some(vx >= 128)))
    } else {
        None
    }
}

/// `8xy_`: the register-to-register arithmetic and logic.
pub open spec fn exec_alu(s: MachineState) -> MachineState {
    let x = field_x(s.opcode);
    let t = match alu(field_n(s.opcode), s.v[x], s.v[field_y(s.opcode)]) {
        Some((val, None)) => set_v(s, x, val),
        Some((val, Some(flag))) => set_with_flag(s, x, val, flag),
        None => s,
    };
    advance(t, 2)
}

/// Whether bit `col` of a sprite row is set, counting from the left.
pub open spec fn sprite_bit(row: u8, col: u8) -> bool {
    (row >> ((7 - col) as u8)) & 1u8 == 1u8
}

/// The sprite column that covers pixel `p` when the sprite starts at `x`.
pub open spec fn sprite_col(x: u8, p: int) -> int {
    (p % (SCREEN_W as int) - (x as int) % (SCREEN_W as int) + SCREEN_W) % (SCREEN_W as int)
}

/// The sprite row that covers pixel `p` when the sprite starts at `y`.
pub open spec fn sprite_line(y: u8, p: int) -> int {
    (p / (SCREEN_W as int) - (y as int) % (SCREEN_H as int) + SCREEN_H) % (SCREEN_H as int)
}

/// Whether a set sprite bit lands on pixel `p`: the sprite of `height`
/// rows at memory `I` is drawn at `(x, y)`, each pixel wrapping around
/// the screen's edges.
pub open spec fn sprite_hits(s: MachineState, x: u8, y: u8, height: int, p: int) -> bool {
    let col = sprite_col(x, p);
    let line = sprite_line(y, p);
    &&& line < height
    &&& col < 8
    &&& sprite_bit(s.memory[addr(s.i, line)], col as u8)
}

/// Whether pixel `p` is hit by a sprite bit that comes before row `line`,
/// column `col`, in drawing order.
pub open spec fn drawn_before(s: MachineState, x: u8, y: u8, height: int, line: int, col: int, p: int) -> bool {
    &&& sprite_hits(s, x, y, height, p)
    &&& (sprite_line(y, p) < line || (sprite_line(y, p) == line && sprite_col(x, p) < col))
}

/// The pixel that row `line`, column `col` of a sprite at `(x, y)` lands
/// on is inside the screen, maps back to that row and column, and is the
/// only such pixel.
pub proof fn lemma_sprite_pixel(x: u8, y: u8, line: int, col: int)
    requires
        0 <= line < 16,
        0 <= col < 8,
    ensures
        ({
            let q = (x + col) % (SCREEN_W as int) + ((y + line) % (SCREEN_H as int)) * SCREEN_W;
            &&& 0 <= q < SCREEN_SIZE
            &&& sprite_col(x, q) == col
            &&& sprite_line(y, q) == line
            &&& forall|p: int|
                0 <= p < SCREEN_SIZE && sprite_col(x, p) == col && sprite_line(y, p) == line
                    ==> p == q
        }),
{
    let q = (x + col) % (SCREEN_W as int) + ((y + line) % (SCREEN_H as int)) * SCREEN_W;
    let cx = (x + col) % 64;
    let ly = (y + line) % 32;
    assert(q % 64 == cx && q / 64 == ly) by (nonlinear_arith)
        requires q == cx + ly * 64, 0 <= cx < 64, 0 <= ly < 32;
    assert forall|p: int|
        0 <= p < SCREEN_SIZE && sprite_col(x, p) == col && sprite_line(y, p) == line implies p == q by {
        assert(p == (p / 64) * 64 + p % 64) by (nonlinear_arith) requires 0 <= p;
        assert(0 <= p / 64 < 32) by (nonlinear_arith) requires 0 <= p < 2048;
    }
}

/// Moving one sprite bit on in drawing order adds exactly the pixel that
/// bit lands on, if the bit is set.
pub proof fn lemma_drawn_step(s: MachineState, x: u8, y: u8, height: int, line: int, col: int)
    requires
        0 <= line < height < 16,
        0 <= col < 8,
    ensures
        ({
            let q = (x + col) % (SCREEN_W as int) + ((y + line) % (SCREEN_H as int)) * SCREEN_W;
            &&& 0 <= q < SCREEN_SIZE
            &&& !drawn_before(s, x, y, height, line, col, q)
            &&& drawn_before(s, x, y, height, line, col + 1, q) == sprite_bit(
                s.memory[addr(s.i, line)],
                col as u8,
            )
            &&& forall|p: int|
                0 <= p < SCREEN_SIZE && p != q ==> drawn_before(s, x, y, height, line, col + 1, p)
                    == drawn_before(s, x, y, height, line, col, p)
        }),
{
    lemma_sprite_pixel(x, y, line, col);
}

/// The framebuffer after XOR-ing the sprite in.
pub open spec fn drawn_gfx(s: MachineState, x: u8, y: u8, height: int) -> Seq<u8> {
    Seq::new(
        SCREEN_SIZE as nat,
        |p: int| if sprite_hits(s, x, y, height, p) { s.gfx[p] ^ 1u8 } else { s.gfx[p] },
    )
}

/// Whether drawing turns some lit pixel off.
pub open spec fn collides(s: MachineState, x: u8, y: u8, height: int) -> bool {
    exists|p: int| 0 <= p < SCREEN_SIZE && sprite_hits(s, x, y, height, p) && s.gfx[p] == 1
}

/// `Dxyn`: draws an `n`-row sprite at `(Vx, Vy)`; VF tells a collision.
pub open spec fn exec_draw(s: MachineState) -> MachineState {
    let x = s.v[field_x(s.opcode)];
    let y = s.v[field_y(s.opcode)];
    let h = field_n(s.opcode) as int;
    advance(
        MachineState {
            gfx: drawn_gfx(s, x, y, h),
            draw_flag: true,
            v: s.v.update(VF as int, if collides(s, x, y, h) { 1u8 } else { 0u8 }),
            ..s
        },
        2,
    )
}

/// `Ex9E` and `ExA1`: skips on the state of key `Vx`.
pub open spec fn exec_key_skip(s: MachineState) -> MachineState {
    let held = key_held(s.keys, s.v[field_x(s.opcode)] as int);
    if field_nn(s.opcode) == 0x9E {
        skip_if(s, held)
    } else if field_nn(s.opcode) == 0xA1 {
        skip_if(s, !held)
    } else {
        advance(s, 2)
    }
}

/// Memory after `Fx55`: `V0..=Vx` stored from `I` on.
pub open spec fn stored_registers(s: MachineState, x: int) -> Seq<u8> {
    Seq::new(
        MEMORY_SIZE as nat,
        |a: int| if offset_from(s.i, a) <= x { s.v[offset_from(s.i, a)] } else { s.memory[a] },
    )
}

/// Registers after `Fx65`: `V0..=Vx` read from `I` on.
pub open spec fn loaded_registers(s: MachineState, x: int) -> Seq<u8> {
    Seq::new(
        REGISTER_COUNT as nat,
        |k: int| if k <= x { s.memory[addr(s.i, k)] } else { s.v[k] },
    )
}

/// `Fx__`: timers, key wait, index arithmetic, BCD and register transfer.
pub open spec fn exec_misc(s: MachineState) -> MachineState {
    let x = field_x(s.opcode);
    let vx = s.v[x];
    let nn = field_nn(s.opcode);
    if nn == 0x07 {
        advance(set_v(s, x, s.delay_timer), 2)
    } else if nn == 0x0A {
        match lowest_held(s.keys) {
            Some(k) => advance(set_v(s, x, k), 2),
            None => s,
        }
    } else if nn == 0x15 {
        advance(MachineState { delay_timer: vx, ..s }, 2)
    } else if nn == 0x18 {
        advance(MachineState { sound_timer: vx, ..s }, 2)
    } else if nn == 0x1E {
        advance(MachineState { i: ((s.i + vx) % 0x10000) as u16, ..s }, 2)
    } else if nn == 0x29 {
        advance(MachineState { i: (vx * 5) as u16, ..s }, 2)
    } else if nn == 0x33 {
        let m = s.memory.update(addr(s.i, 0), vx / 100).update(addr(s.i, 1), (vx / 10) % 10)
            .update(addr(s.i, 2), vx % 10);
        advance(MachineState { memory: m, ..s }, 2)
    } else if nn == 0x55 {
        advance(MachineState { memory: stored_registers(s, x), ..s }, 2)
    } else if nn == 0x65 {
        advance(MachineState { v: loaded_registers(s, x), ..s }, 2)
    } else {
        advance(s, 2)
    }
}

/// Whether `op` is one of the instructions this machine knows.
pub open spec fn supported(op: u16) -> bool {
    let f = family(op);
    let n = field_n(op);
    let nn = field_nn(op);
    if f == 0x0 {
        op == 0x00E0 || op == 0x00EE
    } else if f == 0x5 || f == 0x9 {
        n == 0
    } else if f == 0x8 {
        n <= 7 || n == 0xE
    } else if f == 0xE {
        nn == 0x9E || nn == 0xA1
    } else if f == 0xF {
        nn == 0x07 || nn == 0x0A || nn == 0x15 || nn == 0x18 || nn == 0x1E || nn == 0x29
            || nn == 0x33 || nn == 0x55 || nn == 0x65
    } else {
        true
    }
}

/// Whether `op` is the key wait `Fx0A`.
pub open spec fn is_key_wait(op: u16) -> bool {
    family(op) == 0xF && field_nn(op) == 0x0A
}

/// The instruction in `s.opcode`, with `random` as the byte drawn by `Cxnn`.
/// Unsupported instructions only advance `pc`.
pub open spec fn execute(s: MachineState, random: u8) -> Result<MachineState, Chip8Error> {
    let op = s.opcode;
    let f = family(op);
    let x = field_x(op);
    let vx = s.v[x];
    let vy = s.v[field_y(op)];
    let r = if f == 0x0 {
        exec_system(s)
    } else if f == 0x1 {
        Ok(MachineState { pc: field_nnn(op), ..s })
    } else if f == 0x2 {
        exec_call(s)
    } else if f == 0x3 {
        Ok(skip_if(s, vx == field_nn(op)))
    } else if f == 0x4 {
        Ok(skip_if(s, vx != field_nn(op)))
    } else if f == 0x5 {
        Ok(if field_n(op) == 0 { skip_if(s, vx == vy) } else { advance(s, 2) })
    } else if f == 0x6 {
        Ok(advance(set_v(s, x, field_nn(op)), 2))
    } else if f == 0x7 {
        Ok(advance(set_v(s, x, ((vx + field_nn(op)) % 256) as u8), 2))
    } else if f == 0x8 {
        Ok(exec_alu(s))
    } else if f == 0x9 {
        Ok(if field_n(op) == 0 { skip_if(s, vx != vy) } else { advance(s, 2) })
    } else if f == 0xA {
        Ok(advance(MachineState { i: field_nnn(op), ..s }, 2))
    } else if f == 0xB {
        Ok(MachineState { pc: (s.v[0] + field_nnn(op)) as u16, ..s })
    } else if f == 0xC {
        Ok(advance(set_v(s, x, random & field_nn(op)), 2))
    } else if f == 0xD {
        Ok(exec_draw(s))
    } else if f == 0xE {
        Ok(exec_key_skip(s))
    } else {
        Ok(exec_misc(s))
    };
    match r {
        Ok(t) => Ok(
            MachineState { awaiting_key: is_key_wait(op) && lowest_held(s.keys) is None, ..t },
        ),
        Err(e) => Err(e),
    }
}

// ---- timers and the cycle ----

/// Both timers count down by one, stopping at zero.
pub open spec fn tick(s: MachineState) -> MachineState {
    MachineState {
        delay_timer: if s.delay_timer > 0 { (s.delay_timer - 1) as u8 } else { 0u8 },
        sound_timer: if s.sound_timer > 0 { (s.sound_timer - 1) as u8 } else { 0u8 },
        ..s
    }
}

/// The big-endian instruction word at `pc`.
pub open spec fn word_at(s: MachineState) -> u16 {
    (s.memory[s.pc as int] * 256 + s.memory[s.pc + 1]) as u16
}

/// Whether the instruction word at `pc` lies inside memory.
pub open spec fn can_fetch(s: MachineState) -> bool {
    s.pc + 1 < MEMORY_SIZE
}

/// The state after fetching: the word at `pc` becomes the current opcode.
pub open spec fn fetched(s: MachineState) -> MachineState {
    MachineState { opcode: word_at(s), ..s }
}

/// The outcome of one cycle: fetch, execute, tick.
pub open spec fn cycle_result(s: MachineState, random: u8) -> Result<Cycle, Chip8Error> {
    if !can_fetch(s) {
        Err(Chip8Error::OutOfBoundsFetch)
    } else {
        match execute(fetched(s), random) {
            Ok(t) => Ok(
                Cycle {
                    opcode: word_at(s),
                    supported: supported(word_at(s)),
                    beep: t.sound_timer == 1,
                },
            ),
            Err(e) => Err(e),
        }
    }
}

/// The state after one cycle. A failed fetch changes nothing; a failed
/// instruction leaves only the fetched opcode recorded.
pub open spec fn cycle_state(s: MachineState, random: u8) -> MachineState {
    if !can_fetch(s) {
        s
    } else {
        match execute(fetched(s), random) {
            Ok(t) => tick(t),
            Err(_) => fetched(s),
        }
    }
}

} // verus!
