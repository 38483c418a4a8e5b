//! Properties that relate several operations of the machine, proved over the
//! model in `semantics`.
use vstd::prelude::*;
use crate::instruction::{DecodeFault, Instruction, decode_spec, x_of, y_of};
use crate::semantics::{
    KeyState, MachineState, FLAG_REGISTER, KEY_COUNT, OP_LENGTH, RAM_SIZE, SCREEN_HEIGHT,
    SCREEN_PIXELS, SCREEN_WIDTH, STACK_DEPTH, draw_collides, draw_covers, execute_spec,
    index_span_ok, last_pressed, opcode_at, set_keys_spec, step_spec,
};

verus! {

/// The register operands are the second and third nibbles of the word,
/// exactly what masking first and shifting second selects.
pub proof fn lemma_operand_nibbles(op: u16)
    ensures
        x_of(op) as u16 == (op & 0x0F00) >> 8u16,
        y_of(op) as u16 == (op & 0x00F0) >> 4u16,
{
    assert((op & 0x0F00) >> 8u16 == (op / 0x100) % 0x10) by (bit_vector);
    assert((op & 0x00F0) >> 4u16 == (op / 0x10) % 0x10) by (bit_vector);
}

/// A call of `addr` followed by the return found there brings the program
/// counter back to the instruction after the call, with the stack as it was.
pub proof fn lemma_call_return(s: MachineState, addr: u16, rnd1: u8, rnd2: u8)
    requires
        s.valid(),
        s.key_wait is None,
        s.pc as int + 1 < RAM_SIZE,
        addr as int + 1 < RAM_SIZE,
        s.stack.len() < STACK_DEPTH,
        opcode_at(s.memory, s.pc) == 0x2000 + addr,
        opcode_at(s.memory, addr) == 0x00EE,
    ensures
        step_spec(s, rnd1) is Ok,
        step_spec(step_spec(s, rnd1)->Ok_0, rnd2) is Ok,
        step_spec(step_spec(s, rnd1)->Ok_0, rnd2)->Ok_0.pc == s.pc + OP_LENGTH,
        step_spec(step_spec(s, rnd1)->Ok_0, rnd2)->Ok_0.stack == s.stack,
{
    assert(decode_spec((0x2000 + addr) as u16) == Ok::<Instruction, DecodeFault>(
        Instruction::Call { addr },
    ));
    let s1 = step_spec(s, rnd1)->Ok_0;
    assert(s1.pc == addr);
    assert(s1.stack.drop_last() =~= s.stack);
}

/// Serving a key wait: after `FX0A` the machine waits, does nothing while
/// it waits, and a report whose highest pressed key is `k` puts `k` into
/// `VX` and lets execution go on at the instruction after the `FX0A`.
pub proof fn lemma_key_wait_round_trip(
    s: MachineState,
    x: u8,
    k: u8,
    t: Seq<Option<KeyState>>,
    rnd1: u8,
    rnd2: u8,
)
    requires
        s.valid(),
        s.key_wait is None,
        s.pc as int + 1 < RAM_SIZE,
        x < 16,
        k < 16,
        opcode_at(s.memory, s.pc) == 0xF00A + x as int * 0x100,
        t.len() == KEY_COUNT,
        t[k as int] == Some(KeyState::Pressed),
        forall|j: int| k < j < KEY_COUNT ==> t[j] != Some(KeyState::Pressed),
    ensures
        step_spec(s, rnd1) is Ok,
        step_spec(s, rnd1)->Ok_0.key_wait == Some(x),
        step_spec(step_spec(s, rnd1)->Ok_0, rnd2) == step_spec(s, rnd1),
        set_keys_spec(step_spec(s, rnd1)->Ok_0, t).key_wait is None,
        set_keys_spec(step_spec(s, rnd1)->Ok_0, t).reg(x) == k,
        set_keys_spec(step_spec(s, rnd1)->Ok_0, t).pc == s.pc + OP_LENGTH,
{
    let op = (0xF00A + x as int * 0x100) as u16;
    assert(x_of(op) == x);
    assert(decode_spec(op) == Ok::<Instruction, DecodeFault>(
        Instruction::WaitKey { x },
    ));
    lemma_last_pressed(t, k, KEY_COUNT as nat);
}

/// The highest pressed key below `n` is `k` when `k` is pressed and no key
/// between them is.
pub proof fn lemma_last_pressed(t: Seq<Option<KeyState>>, k: u8, n: nat)
    requires
        k < n <= t.len(),
        n <= 256,
        t[k as int] == Some(KeyState::Pressed),
        forall|j: int| k < j < n ==> t[j] != Some(KeyState::Pressed),
    ensures
        last_pressed(t, n) == Some(k),
    decreases n,
{
    if n - 1 > k {
        lemma_last_pressed(t, k, (n - 1) as nat);
    }
}

/// Drawing never wraps: every pixel a draw touches lies right of and below
/// the corner `(VX mod 64, VY mod 32)`, within 8 columns and `N` rows of it,
/// and on the display.
pub proof fn lemma_draw_clips(s: MachineState, x: u8, y: u8, n: u8, p: int)
    requires
        s.valid(),
        x < 16,
        y < 16,
        0 <= p < SCREEN_PIXELS,
        draw_covers(s, x, y, n, p),
    ensures
        (s.reg(x) as int % SCREEN_WIDTH as int) <= (p % SCREEN_WIDTH as int),
        (p % SCREEN_WIDTH as int) < (s.reg(x) as int % SCREEN_WIDTH as int) + 8,
        (s.reg(y) as int % SCREEN_HEIGHT as int) <= (p / SCREEN_WIDTH as int),
        (p / SCREEN_WIDTH as int) < (s.reg(y) as int % SCREEN_HEIGHT as int) + n,
{
}

/// Drawing the same sprite twice in a row restores the display, and the
/// second draw reports a collision exactly when the sprite covers a pixel
/// that was clear before the first.
pub proof fn lemma_draw_twice(s: MachineState, x: u8, y: u8, n: u8, rnd: u8)
    requires
        s.valid(),
        x < FLAG_REGISTER,
        y < FLAG_REGISTER,
        n < 16,
        index_span_ok(s, n as int),
        s.pc as int + 2 < RAM_SIZE,
    ensures
        execute_spec(s, Instruction::Draw { x, y, n }, rnd) is Ok,
        execute_spec(execute_spec(s, Instruction::Draw { x, y, n }, rnd)->Ok_0, Instruction::Draw { x, y, n }, rnd) is Ok,
        execute_spec(execute_spec(s, Instruction::Draw { x, y, n }, rnd)->Ok_0, Instruction::Draw { x, y, n }, rnd)->Ok_0.display == s.display,
        execute_spec(execute_spec(s, Instruction::Draw { x, y, n }, rnd)->Ok_0, Instruction::Draw { x, y, n }, rnd)->Ok_0.reg(FLAG_REGISTER) == (if exists|p: int| 0 <= p < SCREEN_PIXELS && !s.display[p] && #[trigger] draw_covers(s, x, y, n, p) { 1u8 } else { 0u8 }),
{
    let ins = Instruction::Draw { x, y, n };
    let s1 = execute_spec(s, ins, rnd)->Ok_0;
    let s2 = execute_spec(s1, ins, rnd)->Ok_0;
    assert forall|p: int| 0 <= p < SCREEN_PIXELS implies draw_covers(s1, x, y, n, p) == draw_covers(s, x, y, n, p) by {
        assert(s1.reg(x) == s.reg(x));
        assert(s1.reg(y) == s.reg(y));
    }
    assert(s2.display =~= s.display);
    if exists|p: int| 0 <= p < SCREEN_PIXELS && !s.display[p] && #[trigger] draw_covers(s, x, y, n, p) {
        let p = choose|p: int| 0 <= p < SCREEN_PIXELS && !s.display[p] && #[trigger] draw_covers(s, x, y, n, p);
        assert(s1.display[p] && draw_covers(s1, x, y, n, p));
        assert(draw_collides(s1, x, y, n));
    } else {
        if draw_collides(s1, x, y, n) {
            let p = choose|p: int| 0 <= p < SCREEN_PIXELS && s1.display[p] && #[trigger] draw_covers(s1, x, y, n, p);
            assert(!s.display[p] && draw_covers(s, x, y, n, p));
        }
    }
}

} // verus!
