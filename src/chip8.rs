use vstd::prelude::*;
use rand::Rng;
use crate::input::{Input, KEY_COUNT};
use crate::semantics::{
    addr, advance, alu, applied, drawn_before, lemma_drawn_step, can_fetch, cycle_result,
    cycle_state, exec_alu, exec_call, exec_draw, exec_key_skip, exec_misc, exec_system, execute,
    fetched, field_n, field_nn, field_nnn, field_x, field_y, fits, initial_state, lemma_offset_addr,
    loaded, loaded_registers, offset_from, set_v, skip_if, sprite_hits, stored_registers, supported,
    tick, MachineState, FONTSET, FONTSET_LEN, MAX_PROGRAM_LEN, MEMORY_SIZE, PROGRAM_START,
    REGISTER_COUNT, SCREEN_H, SCREEN_SIZE, SCREEN_W, STACK_DEPTH, VF,
};

verus! {

/// A fault that stops the current cycle.
#[derive(Debug, Clone, Copy, PartialEq, Eq, Structural)]
pub enum Chip8Error {
    /// The instruction word at `pc` lies past the end of memory.
    OutOfBoundsFetch,
    /// A call with all stack levels in use.
    StackOverflow,
    /// A return with an empty stack.
    StackUnderflow,
    /// A program that does not fit in memory after the reserved area.
    ProgramTooLarge,
}

/// What one completed cycle reports to its caller.
#[derive(Debug, Clone, Copy, PartialEq, Eq, Structural)]
pub struct Cycle {
    /// The instruction that ran.
    pub opcode: u16,
    /// False when the instruction was unknown and ran as a no-op.
    pub supported: bool,
    /// The sound timer went from one to zero: the tone ends here.
    pub beep: bool,
}

/// The interpreter: memory, registers, stack, timers and framebuffer.
///
/// Memory layout: `0x000..0x050` holds the font, `0x000..0x200` is reserved
/// for the interpreter, `0x200..0x1000` holds the program and working RAM.
pub struct Chip8 {
    opcode: u16,
    memory: [u8; 4096],
    v: [u8; 16],
    i: u16,
    pc: u16,
    delay_timer: u8,
    sound_timer: u8,
    stack: [u16; 16],
    sp: usize,
    awaiting_key: bool,
    /// One byte per pixel, 0 or 1, at `x + y * SCREEN_W`.
    pub gfx: [u8; 2048],
    /// Raised when `gfx` changed; the consumer lowers it after presenting.
    pub draw_flag: bool,
    pub input: Input,
}

impl View for Chip8 {
    type V = MachineState;

    closed spec fn view(&self) -> MachineState {
        MachineState {
            opcode: self.opcode,
            memory: self.memory@,
            v: self.v@,
            i: self.i,
            pc: self.pc,
            stack: self.stack@,
            sp: self.sp,
            delay_timer: self.delay_timer,
            sound_timer: self.sound_timer,
            gfx: self.gfx@,
            draw_flag: self.draw_flag,
            keys: self.input.keys@,
            awaiting_key: self.awaiting_key,
        }
    }
}

impl Default for Chip8 {
    fn default() -> (r: Chip8)
        ensures
            r@ == initial_state(Seq::new(KEY_COUNT as nat, |k: int| false)),
            r.wf(),
    {
        Chip8::new()
    }
}

/// Relies on rand's `thread_rng().gen_range(0..255)`: a byte drawn from
/// `0..255`, so never 255.
#[verifier::external_body]
fn random_byte() -> (r: u8)
    ensures
        r < 255,
{
    rand::thread_rng().gen_range(0..255u8)
}

impl Chip8 {
    pub open spec fn wf(&self) -> bool {
        self@.wf()
    }

    /// A machine with the font loaded and `pc` at the program start.
    pub fn new() -> (r: Chip8)
        ensures
            r@ == initial_state(Seq::new(KEY_COUNT as nat, |k: int| false)),
            r.wf(),
    {
        let mut memory = [0u8; 4096];
        let mut k: usize = 0;
        while k < FONTSET_LEN
            invariant
                k <= FONTSET_LEN,
                forall|a: int| 0 <= a < k ==> #[trigger] memory@[a] == FONTSET@[a],
                forall|a: int| k <= a < MEMORY_SIZE ==> #[trigger] memory@[a] == 0u8,
            decreases FONTSET_LEN - k,
        {
            memory[k] = FONTSET[k];
            k = k + 1;
        }
        let r = Chip8 {
            opcode: 0,
            memory,
            v: [0u8; 16],
            i: 0,
            pc: PROGRAM_START as u16,
            delay_timer: 0,
            sound_timer: 0,
            stack: [0u16; 16],
            sp: 0,
            awaiting_key: false,
            gfx: [0u8; 2048],
            draw_flag: false,
            input: Input::new(),
        };
        let ghost init = initial_state(Seq::new(KEY_COUNT as nat, |k: int| false));
        assert(r@.memory =~= init.memory);
        assert(r@.v =~= init.v);
        assert(r@.stack =~= init.stack);
        assert(r@.gfx =~= init.gfx);
        assert(r@.keys =~= init.keys);
        r
    }

    /// Puts the machine back in its initial state; the held keys stay.
    pub fn reset(&mut self)
        ensures
            final(self)@ == initial_state(old(self)@.keys),
            final(self).wf(),
    {
        let keys = self.input.keys;
        *self = Chip8::new();
        self.input.keys = keys;
        assert(self@.keys =~= old(self)@.keys);
        assert(self@ == initial_state(old(self)@.keys));
    }

    /// A copy of the whole memory, for inspection.
    pub fn debug_memory(&self) -> (r: Vec<u8>)
        ensures
            r@ == self@.memory,
    {
        let mut out: Vec<u8> = Vec::new();
        let mut a: usize = 0;
        while a < MEMORY_SIZE
            invariant
                a <= MEMORY_SIZE,
                out@ == self@.memory.subrange(0, a as int),
            decreases MEMORY_SIZE - a,
        {
            out.push(self.memory[a]);
            a = a + 1;
            assert(out@ =~= self@.memory.subrange(0, a as int));
        }
        assert(self@.memory.subrange(0, MEMORY_SIZE as int) =~= self@.memory);
        out
    }

    /// Writes `program` into memory from `PROGRAM_START` on. A program
    /// longer than `MAX_PROGRAM_LEN` is refused and nothing is written.
    pub fn load(&mut self, program: Vec<u8>) -> (r: Result<(), Chip8Error>)
        requires
            old(self).wf(),
        ensures
            final(self).wf(),
            fits(program@.len() as int) ==> r is Ok && final(self)@ == loaded(old(self)@, program@),
            !fits(program@.len() as int) ==> r == Err::<(), Chip8Error>(Chip8Error::ProgramTooLarge)
                && final(self)@ == old(self)@,
    {
        if program.len() > MAX_PROGRAM_LEN {
            return Err(Chip8Error::ProgramTooLarge);
        }
        let ghost s0 = self@;
        let mut k: usize = 0;
        while k < program.len()
            invariant
                k <= program@.len() <= MAX_PROGRAM_LEN,
                self@ == (MachineState { memory: self@.memory, ..s0 }),
                self@.memory.len() == MEMORY_SIZE,
                forall|a: int|
                    0 <= a < MEMORY_SIZE ==> #[trigger] self@.memory[a] == if PROGRAM_START <= a
                        < PROGRAM_START + k {
                        program@[a - PROGRAM_START]
                    } else {
                        s0.memory[a]
                    },
            decreases program@.len() - k,
        {
            self.memory[k + PROGRAM_START] = program[k];
            k = k + 1;
        }
        assert(self@.memory =~= loaded(s0, program@).memory);
        Ok(())
    }

    /// Turns every pixel off.
    pub fn clear_gfx(&mut self)
        ensures
            final(self)@ == (MachineState {
                gfx: Seq::new(SCREEN_SIZE as nat, |p: int| 0u8),
                ..old(self)@
            }),
    {
        let mut p: usize = 0;
        while p < SCREEN_SIZE
            invariant
                p <= SCREEN_SIZE,
                self@ == (MachineState { gfx: self@.gfx, ..old(self)@ }),
                self@.gfx.len() == SCREEN_SIZE,
                forall|q: int| 0 <= q < p ==> #[trigger] self@.gfx[q] == 0u8,
            decreases SCREEN_SIZE - p,
        {
            self.gfx[p] = 0;
            p = p + 1;
        }
        assert(self@.gfx =~= Seq::new(SCREEN_SIZE as nat, |p: int| 0u8));
    }

    /// The framebuffer, one byte per pixel at `x + y * SCREEN_W`.
    pub fn get_internal_display(&self) -> (r: &[u8])
        ensures
            r@ == self@.gfx,
    {
        self.gfx.as_slice()
    }

    /// The address field `nnn` of the current opcode.
    fn op_nnn(&self) -> (r: u16)
        ensures
            r == field_nnn(self@.opcode),
    {
        self.opcode % 0x1000
    }

    /// The byte field `nn` of the current opcode.
    fn op_nn(&self) -> (r: u8)
        ensures
            r == field_nn(self@.opcode),
    {
        (self.opcode % 0x100) as u8
    }

    /// The nibble field `n` of the current opcode.
    fn op_n(&self) -> (r: u8)
        ensures
            r == field_n(self@.opcode),
    {
        (self.opcode % 0x10) as u8
    }

    /// The register field `x` of the current opcode.
    fn op_x(&self) -> (r: usize)
        ensures
            r == field_x(self@.opcode),
            r < REGISTER_COUNT,
    {
        ((self.opcode / 0x100) % 0x10) as usize
    }

    /// The register field `y` of the current opcode.
    fn op_y(&self) -> (r: usize)
        ensures
            r == field_y(self@.opcode),
            r < REGISTER_COUNT,
    {
        ((self.opcode / 0x10) % 0x10) as usize
    }

    /// Moves `pc` on by `d` bytes.
    fn advance_pc(&mut self, d: u16)
        requires
            old(self).pc + d <= u16::MAX,
        ensures
            final(self)@ == advance(old(self)@, d as int),
    {
        self.pc = self.pc + d;
    }

    /// Skips the next instruction when `cond` holds.
    fn skip_if(&mut self, cond: bool)
        requires
            old(self).pc + 4 <= u16::MAX,
        ensures
            final(self)@ == skip_if(old(self)@, cond),
    {
        if cond {
            self.advance_pc(4);
        } else {
            self.advance_pc(2);
        }
    }

    /// Writes the flag VF, then `Vx`.
    fn set_with_flag(&mut self, x: usize, val: u8, flag: bool)
        requires
            x < REGISTER_COUNT,
        ensures
            final(self)@ == set_v(
                set_v(old(self)@, VF as int, if flag { 1u8 } else { 0u8 }),
                x as int,
                val,
            ),
    {
        self.v[VF] = if flag { 1 } else { 0 };
        self.v[x] = val;
    }

    /// `00E0` clear screen, `00EE` return.
    fn x0(&mut self) -> (r: Result<(), Chip8Error>)
        requires
            old(self).wf(),
            can_fetch(old(self)@),
        ensures
            final(self).wf(),
            applied(exec_system(old(self)@), old(self)@, r, final(self)@),
    {
        if self.opcode == 0x00E0 {
            self.clear_gfx();
            self.draw_flag = true;
            self.advance_pc(2);
            Ok(())
        } else if self.opcode == 0x00EE {
            if self.sp == 0 {
                return Err(Chip8Error::StackUnderflow);
            }
            self.sp = self.sp - 1;
            self.pc = self.stack[self.sp] + 2;
            Ok(())
        } else {
            self.advance_pc(2);
            Ok(())
        }
    }

    /// `1nnn`: jump.
    fn x1(&mut self)
        ensures
            final(self)@ == (MachineState { pc: field_nnn(old(self)@.opcode), ..old(self)@ }),
    {
        self.pc = self.op_nnn();
    }

    /// `2nnn`: call.
    fn x2(&mut self) -> (r: Result<(), Chip8Error>)
        requires
            old(self).wf(),
            can_fetch(old(self)@),
        ensures
            final(self).wf(),
            applied(exec_call(old(self)@), old(self)@, r, final(self)@),
    {
        if self.sp >= STACK_DEPTH {
            return Err(Chip8Error::StackOverflow);
        }
        self.stack[self.sp] = self.pc;
        self.sp = self.sp + 1;
        self.pc = self.op_nnn();
        Ok(())
    }

    /// `8xy_`: register-to-register arithmetic and logic.
    fn x8(&mut self)
        requires
            old(self).wf(),
            can_fetch(old(self)@),
        ensures
            final(self)@ == exec_alu(old(self)@),
    {
        let x = self.op_x();
        let vx = self.v[x];
        let vy = self.v[self.op_y()];
        match alu_op(self.op_n(), vx, vy) {
            Some((val, None)) => {
                self.v[x] = val;
            },
            Some((val, Some(flag))) => {
                self.set_with_flag(x, val, flag);
            },
            None => {},
        }
        self.advance_pc(2);
    }

    /// `Dxyn`: draws an `n`-row sprite from memory at `I` to `(Vx, Vy)`,
    /// each pixel wrapping around the screen edges.
    fn xd(&mut self)
        requires
            old(self).wf(),
            can_fetch(old(self)@),
        ensures
            final(self).wf(),
            final(self)@ == exec_draw(old(self)@),
    {
        let x = self.v[self.op_x()];
        let y = self.v[self.op_y()];
        let height = self.op_n();
        let ghost s0 = self@;
        let mut collided = false;
        let mut line: u8 = 0;
        while line < height
            invariant
                line <= height < 16,
                s0.wf(),
                self@ == (MachineState { gfx: self@.gfx, ..s0 }),
                self@.gfx.len() == SCREEN_SIZE,
                forall|p: int|
                    0 <= p < SCREEN_SIZE ==> #[trigger] self@.gfx[p] == if drawn_before(
                        s0,
                        x,
                        y,
                        height as int,
                        line as int,
                        0,
                        p,
                    ) {
                        s0.gfx[p] ^ 1u8
                    } else {
                        s0.gfx[p]
                    },
                collided == exists|p: int|
                    0 <= p < SCREEN_SIZE && #[trigger] drawn_before(
                        s0,
                        x,
                        y,
                        height as int,
                        line as int,
                        0,
                        p,
                    ) && s0.gfx[p] == 1,
            decreases height - line,
        {
            let row = self.memory[(self.i as usize + line as usize) % MEMORY_SIZE];
            let mut col: u8 = 0;
            while col < 8
                invariant
                    line < height < 16,
                    col <= 8,
                    s0.wf(),
                    row == s0.memory[addr(s0.i, line as int)],
                    self@ == (MachineState { gfx: self@.gfx, ..s0 }),
                    self@.gfx.len() == SCREEN_SIZE,
                    forall|p: int|
                        0 <= p < SCREEN_SIZE ==> #[trigger] self@.gfx[p] == if drawn_before(
                            s0,
                            x,
                            y,
                            height as int,
                            line as int,
                            col as int,
                            p,
                        ) {
                            s0.gfx[p] ^ 1u8
                        } else {
                            s0.gfx[p]
                        },
                    collided == exists|p: int|
                        0 <= p < SCREEN_SIZE && #[trigger] drawn_before(
                            s0,
                            x,
                            y,
                            height as int,
                            line as int,
                            col as int,
                            p,
                        ) && s0.gfx[p] == 1,
                decreases 8 - col,
            {
                let shift: u8 = 7 - col;
                let idx = (x as usize + col as usize) % SCREEN_W + ((y as usize + line as usize)
                    % SCREEN_H) * SCREEN_W;
                let ghost was = collided;
                proof {
                    lemma_drawn_step(s0, x, y, height as int, line as int, col as int);
                }
                if (row >> shift) & 1 == 1 {
                    if self.gfx[idx] == 1 {
                        collided = true;
                    }
                    self.gfx[idx] = self.gfx[idx] ^ 1;
                }
                proof {
                    let h = height as int;
                    let l = line as int;
                    let c = col as int;
                    if collided && !was {
                        assert(drawn_before(s0, x, y, h, l, c + 1, idx as int));
                    } else if collided {
                        let w = choose|p: int|
                            0 <= p < SCREEN_SIZE && #[trigger] drawn_before(s0, x, y, h, l, c, p)
                                && s0.gfx[p] == 1;
                        assert(drawn_before(s0, x, y, h, l, c + 1, w));
                    } else {
                        assert forall|p: int|
                            0 <= p < SCREEN_SIZE && #[trigger] drawn_before(s0, x, y, h, l, c + 1, p)
                            implies s0.gfx[p] != 1 by {
                            if p != idx {
                                assert(drawn_before(s0, x, y, h, l, c, p));
                            }
                        }
                    }
                }
                col = col + 1;
            }
            proof {
                assert forall|p: int| 0 <= p < SCREEN_SIZE implies
                    drawn_before(s0, x, y, height as int, line as int + 1, 0, p)
                    == drawn_before(s0, x, y, height as int, line as int, 8, p) by {}
                let h = height as int;
                let l = line as int;
                if collided {
                    let w = choose|p: int|
                        0 <= p < SCREEN_SIZE && #[trigger] drawn_before(s0, x, y, h, l, 8, p)
                            && s0.gfx[p] == 1;
                    assert(drawn_before(s0, x, y, h, l + 1, 0, w));
                } else {
                    assert forall|p: int|
                        0 <= p < SCREEN_SIZE && #[trigger] drawn_before(s0, x, y, h, l + 1, 0, p)
                        implies s0.gfx[p] != 1 by {
                        assert(drawn_before(s0, x, y, h, l, 8, p));
                    }
                }
            }
            line = line + 1;
        }
        proof {
            assert forall|p: int| 0 <= p < SCREEN_SIZE implies
                drawn_before(s0, x, y, height as int, height as int, 0, p)
                == sprite_hits(s0, x, y, height as int, p) by {}
        }
        self.v[VF] = if collided { 1 } else { 0 };
        self.draw_flag = true;
        self.advance_pc(2);
        assert(self@.gfx =~= exec_draw(s0).gfx);
        assert(self@.v =~= exec_draw(s0).v);
    }

    /// `Ex9E`, `ExA1`: skips on the state of key `Vx`.
    fn xe(&mut self)
        requires
            old(self).wf(),
            can_fetch(old(self)@),
        ensures
            final(self)@ == exec_key_skip(old(self)@),
    {
        let k = self.v[self.op_x()];
        let held = if (k as usize) < KEY_COUNT {
            self.input.pressed(k as usize)
        } else {
            false
        };
        match self.op_nn() {
            0x9E => self.skip_if(held),
            0xA1 => self.skip_if(!held),
            _ => self.advance_pc(2),
        }
    }

    /// `Fx__`: timers, key wait, index arithmetic, BCD and register transfer.
    fn xf(&mut self)
        requires
            old(self).wf(),
            can_fetch(old(self)@),
        ensures
            final(self).wf(),
            final(self)@ == exec_misc(old(self)@),
    {
        let x = self.op_x();
        let vx = self.v[x];
        let ghost s0 = self@;
        match self.op_nn() {
            0x07 => {
                self.v[x] = self.delay_timer;
                self.advance_pc(2);
            },
            0x0A => {
                match self.input.first_pressed() {
                    Some(k) => {
                        self.v[x] = k;
                        self.advance_pc(2);
                    },
                    None => {},
                }
            },
            0x15 => {
                self.delay_timer = vx;
                self.advance_pc(2);
            },
            0x18 => {
                self.sound_timer = vx;
                self.advance_pc(2);
            },
            0x1E => {
                self.i = self.i.wrapping_add(vx as u16);
                self.advance_pc(2);
            },
            0x29 => {
                self.i = (vx as u16) * 5;
                self.advance_pc(2);
            },
            0x33 => {
                let base = self.i as usize;
                self.memory[base % MEMORY_SIZE] = vx / 100;
                self.memory[(base + 1) % MEMORY_SIZE] = (vx / 10) % 10;
                self.memory[(base + 2) % MEMORY_SIZE] = vx % 10;
                self.advance_pc(2);
            },
            0x55 => {
                let mut k: usize = 0;
                while k <= x
                    invariant
                        k <= x + 1,
                        x < REGISTER_COUNT,
                        s0.wf(),
                        self@ == (MachineState { memory: self@.memory, ..s0 }),
                        self@.memory.len() == MEMORY_SIZE,
                        forall|a: int|
                            0 <= a < MEMORY_SIZE ==> #[trigger] self@.memory[a] == if offset_from(
                                s0.i,
                                a,
                            ) < k {
                                s0.v[offset_from(s0.i, a)]
                            } else {
                                s0.memory[a]
                            },
                    decreases x + 1 - k,
                {
                    proof {
                        lemma_offset_addr(s0.i, k as int);
                    }
                    self.memory[(self.i as usize + k) % MEMORY_SIZE] = self.v[k];
                    k = k + 1;
                }
                assert(self@.memory =~= stored_registers(s0, x as int));
                self.advance_pc(2);
            },
            0x65 => {
                let mut k: usize = 0;
                while k <= x
                    invariant
                        k <= x + 1,
                        x < REGISTER_COUNT,
                        s0.wf(),
                        self@ == (MachineState { v: self@.v, ..s0 }),
                        self@.v.len() == REGISTER_COUNT,
                        forall|j: int|
                            0 <= j < REGISTER_COUNT ==> #[trigger] self@.v[j] == if j < k {
                                s0.memory[addr(s0.i, j)]
                            } else {
                                s0.v[j]
                            },
                    decreases x + 1 - k,
                {
                    self.v[k] = self.memory[(self.i as usize + k) % MEMORY_SIZE];
                    k = k + 1;
                }
                assert(self@.v =~= loaded_registers(s0, x as int));
                self.advance_pc(2);
            },
            _ => self.advance_pc(2),
        }
    }

    /// Executes the current opcode; `random` is the byte that `Cxnn` masks.
    /// An unknown opcode only advances `pc`. On a stack fault nothing
    /// changes.
    pub fn opcodes(&mut self, random: u8) -> (r: Result<(), Chip8Error>)
        requires
            old(self).wf(),
            can_fetch(old(self)@),
        ensures
            final(self).wf(),
            applied(execute(old(self)@, random), old(self)@, r, final(self)@),
    {
        let x = self.op_x();
        let vx = self.v[x];
        let vy = self.v[self.op_y()];
        let r = match self.opcode / 0x1000 {
            0x0 => self.x0(),
            0x1 => {
                self.x1();
                Ok(())
            },
            0x2 => self.x2(),
            0x3 => {
                let nn = self.op_nn();
                self.skip_if(vx == nn);
                Ok(())
            },
            0x4 => {
                let nn = self.op_nn();
                self.skip_if(vx != nn);
                Ok(())
            },
            0x5 => {
                if self.op_n() == 0 {
                    self.skip_if(vx == vy);
                } else {
                    self.advance_pc(2);
                }
                Ok(())
            },
            0x6 => {
                self.v[x] = self.op_nn();
                self.advance_pc(2);
                Ok(())
            },
            0x7 => {
                self.v[x] = vx.wrapping_add(self.op_nn());
                self.advance_pc(2);
                Ok(())
            },
            0x8 => {
                self.x8();
                Ok(())
            },
            0x9 => {
                if self.op_n() == 0 {
                    self.skip_if(vx != vy);
                } else {
                    self.advance_pc(2);
                }
                Ok(())
            },
            0xA => {
                self.i = self.op_nnn();
                self.advance_pc(2);
                Ok(())
            },
            0xB => {
                self.pc = self.v[0] as u16 + self.op_nnn();
                Ok(())
            },
            0xC => {
                self.v[x] = random & self.op_nn();
                self.advance_pc(2);
                Ok(())
            },
            0xD => {
                self.xd();
                Ok(())
            },
            0xE => {
                self.xe();
                Ok(())
            },
            _ => {
                self.xf();
                Ok(())
            },
        };
        if r.is_ok() {
            let waits = self.opcode / 0x1000 == 0xF && self.op_nn() == 0x0A;
            self.awaiting_key = waits && self.input.first_pressed().is_none();
        }
        r
    }

    /// Counts both timers down by one, stopping at zero. Returns whether
    /// the sound timer went from one to zero.
    fn tick_timers(&mut self) -> (beep: bool)
        ensures
            final(self)@ == tick(old(self)@),
            beep == (old(self)@.sound_timer == 1),
    {
        if self.delay_timer > 0 {
            self.delay_timer = self.delay_timer - 1;
        }
        let beep = self.sound_timer == 1;
        if self.sound_timer > 0 {
            self.sound_timer = self.sound_timer - 1;
        }
        beep
    }

    /// One cycle: fetches the word at `pc`, executes it with `random` as the
    /// byte for `Cxnn`, then ticks the timers.
    pub fn step(&mut self, random: u8) -> (r: Result<Cycle, Chip8Error>)
        requires
            old(self).wf(),
        ensures
            final(self).wf(),
            r == cycle_result(old(self)@, random),
            final(self)@ == cycle_state(old(self)@, random),
    {
        if self.pc as usize + 1 >= MEMORY_SIZE {
            return Err(Chip8Error::OutOfBoundsFetch);
        }
        let pc = self.pc as usize;
        self.opcode = (self.memory[pc] as u16) * 256 + self.memory[pc + 1] as u16;
        let op = self.opcode;
        match self.opcodes(random) {
            Ok(()) => {
                let beep = self.tick_timers();
                Ok(Cycle { opcode: op, supported: is_supported(op), beep })
            },
            Err(e) => Err(e),
        }
    }

    /// One cycle, drawing the byte for `Cxnn` from the thread's random
    /// generator only when the instruction at `pc` needs one.
    pub fn emulate_cycle(&mut self) -> (r: Result<Cycle, Chip8Error>)
        requires
            old(self).wf(),
        ensures
            final(self).wf(),
            exists|random: u8|
                random < 255 && r == cycle_result(old(self)@, random) && final(self)@
                    == cycle_state(old(self)@, random),
    {
        let pc = self.pc as usize;
        let random = if pc + 1 < MEMORY_SIZE && self.memory[pc] / 0x10 == 0xC {
            random_byte()
        } else {
            0
        };
        let r = self.step(random);
        assert(random < 255 && r == cycle_result(old(self)@, random) && self@ == cycle_state(old(self)@, random));
        r
    }

    /// The most recently fetched opcode.
    pub fn opcode(&self) -> (r: u16)
        ensures
            r == self@.opcode,
    {
        self.opcode
    }

    /// Register `Vk`.
    pub fn register(&self, k: usize) -> (r: u8)
        requires
            k < REGISTER_COUNT,
        ensures
            r == self@.v[k as int],
    {
        self.v[k]
    }

    /// The index register `I`.
    pub fn index(&self) -> (r: u16)
        ensures
            r == self@.i,
    {
        self.i
    }

    /// The program counter.
    pub fn pc(&self) -> (r: u16)
        ensures
            r == self@.pc,
    {
        self.pc
    }

    /// Number of return addresses on the stack.
    pub fn sp(&self) -> (r: usize)
        ensures
            r == self@.sp,
    {
        self.sp
    }

    pub fn delay_timer(&self) -> (r: u8)
        ensures
            r == self@.delay_timer,
    {
        self.delay_timer
    }

    pub fn sound_timer(&self) -> (r: u8)
        ensures
            r == self@.sound_timer,
    {
        self.sound_timer
    }

    /// The memory byte at `a`.
    pub fn memory_at(&self, a: usize) -> (r: u8)
        requires
            a < MEMORY_SIZE,
        ensures
            r == self@.memory[a as int],
    {
        self.memory[a]
    }

    /// Whether the machine sits on a key wait that has found no key yet.
    pub fn awaiting_key(&self) -> (r: bool)
        ensures
            r == self@.awaiting_key,
    {
        self.awaiting_key
    }
}

/// The arithmetic and logic of `8xy_` with low nibble `n`: the new `Vx`
/// and, where the instruction sets one, the flag for VF.
pub fn alu_op(n: u8, vx: u8, vy: u8) -> (r: Option<(u8, Option<bool>)>)
    ensures
        r == alu(n, vx, vy),
{
    match n {
        0x0 => Some((vy, None)),
        0x1 => Some((vx | vy, None)),
        0x2 => Some((vx & vy, None)),
        0x3 => Some((vx ^ vy, None)),
        0x4 => match vx.checked_add(vy) {
            Some(sum) => Some((sum, Some(false))),
            None => Some((vx.wrapping_add(vy), Some(true))),
        },
        0x5 => match vx.checked_sub(vy) {
            Some(d) => Some((d, Some(false))),
            None => Some((vx.wrapping_sub(vy), Some(true))),
        },
        0x6 => Some((vx / 2, Some(vx % 2 == 1))),
        0x7 => match vy.checked_sub(vx) {
            Some(d) => Some((d, Some(false))),
            None => Some((vy.wrapping_sub(vx), Some(true))),
        },
        0xE => Some(((vx % 128) * 2, Some(vx >= 128))),
        _ => None,
    }
}

/// Whether `op` is an instruction this machine knows.
pub fn is_supported(op: u16) -> (r: bool)
    ensures
        r == supported(op),
{
    let f = op / 0x1000;
    let n = op % 0x10;
    let nn = op % 0x100;
    if f == 0x0 {
        op == 0x00E0 || op == 0x00EE
    } else if f == 0x5 || f == 0x9 {
        n == 0
    } else if f == 0x8 {
        n <= 7 || n == 0xE
    } else if f == 0xE {
        nn == 0x9E || nn == 0xA1
    } else if f == 0xF {
        nn == 0x07 || nn == 0x0A || nn == 0x15 || nn == 0x18 || nn == 0x1E || nn == 0x29 || nn
            == 0x33 || nn == 0x55 || nn == 0x65
    } else {
        true
    }
}

} // verus!
