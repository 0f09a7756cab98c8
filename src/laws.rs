//! Properties of the instruction set, proved over the machine model.
use vstd::prelude::*;
use crate::semantics::{
    addr, cycle_result, cycle_state, execute, family, fetched, field_nn, field_nnn, field_n, field_x,
    field_y, lemma_offset_addr, offset_from, MachineState, SCREEN_SIZE, VF,
};

verus! {

/// `8xy4` adds with carry: `Vx = 250, Vy = 10` gives `Vx = 4` with VF set,
/// `Vx = 10, Vy = 5` gives `Vx = 15` with VF clear. (With `x` being VF
/// itself the register cannot hold both the sum and the flag.)
pub proof fn law_add_sets_carry(s: MachineState, random: u8)
    requires
        s.wf(),
        family(s.opcode) == 0x8,
        field_n(s.opcode) == 0x4,
        field_x(s.opcode) != VF,
    ensures
        ({
            let x = field_x(s.opcode);
            let y = field_y(s.opcode);
            &&& execute(s, random) is Ok
            &&& s.v[x] == 250 && s.v[y] == 10 ==> execute(s, random)->Ok_0.v[x] == 4
                && execute(s, random)->Ok_0.v[VF as int] == 1
            &&& s.v[x] == 10 && s.v[y] == 5 ==> execute(s, random)->Ok_0.v[x] == 15
                && execute(s, random)->Ok_0.v[VF as int] == 0
        }),
{
}

/// `8xy5` subtracts with borrow: `Vx = 5, Vy = 10` gives `Vx = 251` with VF
/// set, `Vx = 10, Vy = 5` gives `Vx = 5` with VF clear. (With `x` being VF
/// the register cannot hold both.)
pub proof fn law_sub_sets_borrow(s: MachineState, random: u8)
    requires
        s.wf(),
        family(s.opcode) == 0x8,
        field_n(s.opcode) == 0x5,
        field_x(s.opcode) != VF,
    ensures
        ({
            let x = field_x(s.opcode);
            let y = field_y(s.opcode);
            &&& execute(s, random) is Ok
            &&& s.v[x] == 5 && s.v[y] == 10 ==> execute(s, random)->Ok_0.v[x] == 251
                && execute(s, random)->Ok_0.v[VF as int] == 1
            &&& s.v[x] == 10 && s.v[y] == 5 ==> execute(s, random)->Ok_0.v[x] == 5
                && execute(s, random)->Ok_0.v[VF as int] == 0
        }),
{
}

/// `00E0` turns every pixel off and raises the draw flag, whatever the
/// screen held.
pub proof fn law_clear_screen(s: MachineState, random: u8)
    requires
        s.wf(),
        s.opcode == 0x00E0,
    ensures
        execute(s, random) is Ok,
        execute(s, random)->Ok_0.draw_flag,
        execute(s, random)->Ok_0.gfx.len() == SCREEN_SIZE,
        forall|p: int| 0 <= p < SCREEN_SIZE ==> #[trigger] execute(s, random)->Ok_0.gfx[p] == 0,
{
}

/// A call `2nnn` and a later return `00EE`, made with the stack as the call
/// left it, resumes at the instruction after the call with the stack depth
/// restored.
pub proof fn law_call_then_return(s: MachineState, later: MachineState, r1: u8, r2: u8)
    requires
        s.wf(),
        s.pc + 1 < 4096,
        family(s.opcode) == 0x2,
        s.sp < 16,
        later.wf(),
        later.opcode == 0x00EE,
        later.sp == execute(s, r1)->Ok_0.sp,
        later.stack[s.sp as int] == execute(s, r1)->Ok_0.stack[s.sp as int],
    ensures
        execute(s, r1) is Ok,
        execute(s, r1)->Ok_0.pc == field_nnn(s.opcode),
        execute(later, r2) is Ok,
        execute(later, r2)->Ok_0.pc == s.pc + 2,
        execute(later, r2)->Ok_0.sp == s.sp,
{
}

/// `Fx55` and then `Fx65` with the same `x` and `I` read back `V0..=Vx` as
/// they were stored, and the store changes no memory outside the `x + 1`
/// bytes from `I` on.
pub proof fn law_store_then_load(s: MachineState, later: MachineState, r1: u8, r2: u8)
    requires
        s.wf(),
        family(s.opcode) == 0xF,
        field_nn(s.opcode) == 0x55,
        later.wf(),
        family(later.opcode) == 0xF,
        field_nn(later.opcode) == 0x65,
        field_x(later.opcode) == field_x(s.opcode),
        later.i == s.i,
        later.memory == execute(s, r1)->Ok_0.memory,
    ensures
        execute(s, r1) is Ok,
        execute(later, r2) is Ok,
        forall|k: int|
            0 <= k <= field_x(s.opcode) ==> #[trigger] execute(later, r2)->Ok_0.v[k] == s.v[k],
        forall|a: int|
            0 <= a < 4096 && !(exists|k: int| 0 <= k <= field_x(s.opcode) && a == #[trigger] addr(s.i, k))
                ==> #[trigger] execute(s, r1)->Ok_0.memory[a] == s.memory[a],
{
    let x = field_x(s.opcode);
    assert forall|k: int| 0 <= k <= x implies #[trigger] execute(later, r2)->Ok_0.v[k] == s.v[k] by {
        lemma_offset_addr(s.i, k);
    }
    assert forall|a: int|
        0 <= a < 4096 && !(exists|k: int| 0 <= k <= x && a == #[trigger] addr(s.i, k))
            implies #[trigger] execute(s, r1)->Ok_0.memory[a] == s.memory[a] by {
        let k = offset_from(s.i, a);
        lemma_offset_addr(s.i, k);
        if k <= x {
            assert(a == #[trigger] addr(s.i, k));
        }
    }
}

/// `Annn` sets `I` to the opcode's low 12 bits; a following `Fx1E` with
/// `Vx = 0xFF` adds exactly, also past address 4095, and does not fault.
pub proof fn law_index_load_then_add(s: MachineState, later: MachineState, r1: u8, r2: u8)
    requires
        s.wf(),
        family(s.opcode) == 0xA,
        later.wf(),
        family(later.opcode) == 0xF,
        field_nn(later.opcode) == 0x1E,
        later.i == execute(s, r1)->Ok_0.i,
        later.v[field_x(later.opcode)] == 0xFF,
    ensures
        execute(s, r1) is Ok,
        execute(s, r1)->Ok_0.i == s.opcode & 0x0FFF,
        execute(later, r2) is Ok,
        execute(later, r2)->Ok_0.i == (s.opcode & 0x0FFF) + 0xFF,
{
    let op = s.opcode;
    assert(op & 0x0FFF == op % 0x1000) by (bit_vector);
}

/// A cycle that completes counts a delay timer of 1 down to 0 and leaves
/// one of 0 at 0, unless its instruction is `Fx15`, which loads the timer.
pub proof fn law_delay_timer_tick(s: MachineState, random: u8)
    requires
        s.wf(),
        s.delay_timer <= 1,
        cycle_result(s, random) is Ok,
        !(family(fetched(s).opcode) == 0xF && field_nn(fetched(s).opcode) == 0x15),
    ensures
        cycle_state(s, random).delay_timer == 0,
{
}

} // verus!
