//! The mathematical model of the machine and the meaning of each operation
//! on it. The executable machine in `machine` is proved against these
//! definitions.
use vstd::prelude::*;
use crate::instruction::{DecodeFault, Instruction, decode_spec};

verus! {

/// Bytes of addressable memory.
pub const RAM_SIZE: usize = 4096;

/// Depth of the return-address stack.
pub const STACK_DEPTH: usize = 16;

/// Display width in pixels.
pub const SCREEN_WIDTH: usize = 64;

/// Display height in pixels.
pub const SCREEN_HEIGHT: usize = 32;

/// Number of pixels on the display.
pub const SCREEN_PIXELS: usize = 2048;

/// Number of keys on the keypad, and of general registers.
pub const KEY_COUNT: usize = 16;

/// The flag register `VF`.
pub const FLAG_REGISTER: u8 = 0xF;

/// Address at which programs are loaded and execution starts.
pub const PROGRAM_START: u16 = 0x200;

/// Address of the built-in hexadecimal digit sprites.
pub const FONT_ADDR: u16 = 0x000;

/// Bytes (rows) in each digit sprite.
pub const FONT_SPRITE_SIZE: u16 = 5;

/// Width in bytes of one instruction.
pub const OP_LENGTH: u16 = 2;

/// Behaviours on which CHIP-8 interpreters differ, chosen per machine.
#[derive(Clone, Copy, Debug, PartialEq, Eq, Structural)]
pub struct Quirks {
    /// `SUB`/`SUBN` set `VF` to 1 when a borrow occurs, rather than when none does.
    pub borrow_sets_flag: bool,
    /// `SHR`/`SHL` shift `VX` in place, rather than shifting `VY` into `VX`.
    pub shift_in_place: bool,
    /// `FX55`/`FX65` leave the index register at `I + X + 1`, rather than unchanged.
    pub bulk_transfer_advances_index: bool,
}

impl Quirks {
    /// The default behaviour: `VF` is 1 when no borrow occurs, shifts read
    /// `VY`, and bulk transfers leave the index register unchanged.
    pub fn standard() -> (r: Quirks)
        ensures
            r == standard_quirks(),
    {
        Quirks { borrow_sets_flag: false, shift_in_place: false, bulk_transfer_advances_index: false }
    }
}

/// The default quirks: none of them on.
pub open spec fn standard_quirks() -> Quirks {
    Quirks { borrow_sets_flag: false, shift_in_place: false, bulk_transfer_advances_index: false }
}

/// What a host reports of one key during one update.
#[derive(Clone, Copy, Debug, PartialEq, Eq, Structural)]
pub enum KeyState {
    /// The key has been pressed during the last frame
    Pressed,
    /// The key has been released during the last frame
    Released,
}

/// A fatal condition met by one step. The machine is left exactly as it was
/// before that step.
#[derive(Clone, Copy, Debug, PartialEq, Eq, Structural)]
pub enum Chip8Error {
    /// The word at `pc` is not a defined instruction.
    InvalidOpcode { fault: DecodeFault, opcode: u16, pc: u16 },
    /// The program counter does not point at a whole instruction in memory.
    ProgramCounterOutOfRange { pc: u16 },
    /// A call with all stack slots in use.
    StackOverflow { pc: u16 },
    /// A return with an empty stack.
    StackUnderflow { pc: u16 },
    /// A draw, BCD or bulk register transfer would reach past the end of memory
    /// from the index register.
    MemoryOutOfRange { pc: u16, index: u16 },
}

/// The whole state of the machine, as mathematical values.
#[verifier::ext_equal]
pub struct MachineState {
    pub pc: u16,
    pub registers: Seq<u8>,
    pub index: u16,
    pub delay: u8,
    pub sound: u8,
    pub memory: Seq<u8>,
    /// Saved return addresses, oldest first.
    pub stack: Seq<u16>,
    /// Pixels in row-major order, origin top-left.
    pub display: Seq<bool>,
    pub keys: Seq<bool>,
    /// The register that the next key press goes to, while the machine waits for one.
    pub key_wait: Option<u8>,
    pub quirks: Quirks,
}

impl MachineState {
    /// Sizes of all parts are those of the machine, the stack is within its
    /// depth, and a pending key wait names a register.
    pub open spec fn valid(self) -> bool {
        &&& self.registers.len() == KEY_COUNT
        &&& self.memory.len() == RAM_SIZE
        &&& self.stack.len() <= STACK_DEPTH
        &&& self.display.len() == SCREEN_PIXELS
        &&& self.keys.len() == KEY_COUNT
        &&& (self.key_wait matches Some(x) ==> x < 16)
    }

    pub open spec fn reg(self, x: u8) -> u8 {
        self.registers[x as int]
    }
}

/// The hexadecimal digit sprites 0 to F, five rows each.
pub open spec fn font_spec() -> Seq<u8> {
    seq![
        0xF0u8, 0x90, 0x90, 0x90, 0xF0, 0x20, 0x60, 0x20, 0x20, 0x70,
        0xF0, 0x10, 0xF0, 0x80, 0xF0, 0xF0, 0x10, 0xF0, 0x10, 0xF0,
        0x90, 0x90, 0xF0, 0x10, 0x10, 0xF0, 0x80, 0xF0, 0x10, 0xF0,
        0xF0, 0x80, 0xF0, 0x90, 0xF0, 0xF0, 0x10, 0x20, 0x40, 0x40,
        0xF0, 0x90, 0xF0, 0x90, 0xF0, 0xF0, 0x90, 0xF0, 0x10, 0xF0,
        0xF0, 0x90, 0xF0, 0x90, 0x90, 0xE0, 0x90, 0xE0, 0x90, 0xE0,
        0xF0, 0x80, 0x80, 0x80, 0xF0, 0xE0, 0x90, 0x90, 0x90, 0xE0,
        0xF0, 0x80, 0xF0, 0x80, 0xF0, 0xF0, 0x80, 0xF0, 0x80, 0x80,
    ]
}

/// The machine at reset: everything zero but the font at `FONT_ADDR`, and
/// the program counter at `PROGRAM_START`.
pub open spec fn reset_state(quirks: Quirks) -> MachineState {
    MachineState {
        pc: PROGRAM_START,
        registers: Seq::new(KEY_COUNT as nat, |i: int| 0u8),
        index: 0,
        delay: 0,
        sound: 0,
        memory: Seq::new(
            RAM_SIZE as nat,
            |a: int|
                if FONT_ADDR <= a < FONT_ADDR + font_spec().len() {
                    font_spec()[a - FONT_ADDR]
                } else {
                    0u8
                },
        ),
        stack: Seq::empty(),
        display: Seq::new(SCREEN_PIXELS as nat, |p: int| false),
        keys: Seq::new(KEY_COUNT as nat, |i: int| false),
        key_wait: None,
        quirks,
    }
}

/// Memory after copying `rom` to `PROGRAM_START`.
pub open spec fn load_spec(s: MachineState, rom: Seq<u8>) -> MachineState {
    MachineState {
        memory: Seq::new(
            s.memory.len(),
            |a: int|
                if PROGRAM_START <= a < PROGRAM_START + rom.len() {
                    rom[a - PROGRAM_START]
                } else {
                    s.memory[a]
                },
        ),
        ..s
    }
}

/// The big-endian word at `addr`.
pub open spec fn opcode_at(memory: Seq<u8>, addr: u16) -> u16 {
    (memory[addr as int] as int * 0x100 + memory[addr as int + 1] as int) as u16
}

/// Moves on to the following instruction.
pub open spec fn advance(s: MachineState) -> MachineState {
    MachineState { pc: (s.pc + OP_LENGTH) as u16, ..s }
}

/// Skips the following instruction where `cond` holds, else moves on to it.
pub open spec fn skip_if(s: MachineState, cond: bool) -> MachineState {
    MachineState { pc: (s.pc + if cond { 2 * OP_LENGTH as int } else { OP_LENGTH as int }) as u16, ..s }
}

/// Register `x` set to `v`.
pub open spec fn with_reg(s: MachineState, x: u8, v: u8) -> MachineState {
    MachineState { registers: s.registers.update(x as int, v), ..s }
}

/// `x` set to `v`, then the flag register set to `flag`, in that order.
pub open spec fn with_result_and_flag(s: MachineState, x: u8, v: u8, flag: bool) -> MachineState {
    with_reg(with_reg(s, x, v), FLAG_REGISTER, if flag { 1 } else { 0 })
}

/// The flag that `SUB`/`SUBN` leave for `a - b`.
pub open spec fn sub_flag(q: Quirks, a: u8, b: u8) -> bool {
    if q.borrow_sets_flag {
        a < b
    } else {
        a >= b
    }
}

/// The register that `SHR`/`SHL` shift.
pub open spec fn shift_source(s: MachineState, x: u8, y: u8) -> u8 {
    if s.quirks.shift_in_place {
        s.reg(x)
    } else {
        s.reg(y)
    }
}

/// The index register after a bulk transfer of `V0` to `VX`.
pub open spec fn index_after_bulk(s: MachineState, x: u8) -> u16 {
    if s.quirks.bulk_transfer_advances_index {
        (s.index + x + 1) as u16
    } else {
        s.index
    }
}

/// `a + b` modulo 256.
pub open spec fn wrapping_add_u8(a: u8, b: u8) -> u8 {
    ((a as int + b as int) % 256) as u8
}

/// `a - b` modulo 256.
pub open spec fn wrapping_sub_u8(a: u8, b: u8) -> u8 {
    ((a as int - b as int + 256) % 256) as u8
}

/// Whether the sprite drawn with top-left corner `(x0, y0)`, `n` rows read
/// from `memory` at `index`, covers pixel `p` with a set bit. Sprites are 8
/// pixels wide, bit 7 of a row leftmost; what falls past the right or bottom
/// edge is clipped.
pub open spec fn sprite_covers(
    memory: Seq<u8>,
    index: u16,
    x0: int,
    y0: int,
    n: int,
    p: int,
) -> bool {
    let px = p % SCREEN_WIDTH as int;
    let py = p / SCREEN_WIDTH as int;
    &&& x0 <= px < x0 + 8
    &&& y0 <= py < y0 + n
    &&& (memory[index + py - y0] >> ((7 - (px - x0)) as u8)) & 1u8 == 1u8
}

/// Whether `DXYN` with these operands covers pixel `p` with a set bit: the
/// sprite's corner is `(VX mod 64, VY mod 32)`.
pub open spec fn draw_covers(s: MachineState, x: u8, y: u8, n: u8, p: int) -> bool {
    sprite_covers(
        s.memory,
        s.index,
        s.reg(x) as int % SCREEN_WIDTH as int,
        s.reg(y) as int % SCREEN_HEIGHT as int,
        n as int,
        p,
    )
}

/// Whether `DXYN` clears a pixel that was set.
pub open spec fn draw_collides(s: MachineState, x: u8, y: u8, n: u8) -> bool {
    exists|p: int| 0 <= p < SCREEN_PIXELS && s.display[p] && #[trigger] draw_covers(s, x, y, n, p)
}

/// `DXYN` once the operands are read: each covered pixel flips, and the
/// flag register tells whether a set pixel was cleared.
pub open spec fn draw_spec(s: MachineState, x: u8, y: u8, n: u8) -> MachineState {
    let drawn = MachineState {
        display: Seq::new(
            SCREEN_PIXELS as nat,
            |p: int| s.display[p] != draw_covers(s, x, y, n, p),
        ),
        ..s
    };
    advance(with_reg(drawn, FLAG_REGISTER, if draw_collides(s, x, y, n) { 1 } else { 0 }))
}

/// The three decimal digits of `v`, hundreds first.
pub open spec fn bcd_digits(v: u8) -> Seq<u8> {
    seq![v / 100, v / 10 % 10, v % 10]
}

/// `bytes` written to memory at `start`.
pub open spec fn write_memory(memory: Seq<u8>, start: int, bytes: Seq<u8>) -> Seq<u8> {
    Seq::new(
        memory.len(),
        |a: int| if start <= a < start + bytes.len() { bytes[a - start] } else { memory[a] },
    )
}

/// Whether `len` bytes from the index register lie within memory.
pub open spec fn index_span_ok(s: MachineState, len: int) -> bool {
    s.index as int + len <= RAM_SIZE
}

/// The effect of one decoded instruction, `rnd` being the random byte that
/// `CXNN` masks. An error leaves the state as it was.
pub open spec fn execute_spec(s: MachineState, ins: Instruction, rnd: u8) -> Result<
    MachineState,
    Chip8Error,
> {
    match ins {
        Instruction::ClearScreen => Ok(
            advance(MachineState { display: Seq::new(SCREEN_PIXELS as nat, |p: int| false), ..s }),
        ),
        Instruction::Return => if s.stack.len() == 0 {
            Err(Chip8Error::StackUnderflow { pc: s.pc })
        } else {
            Ok(MachineState { pc: s.stack.last(), stack: s.stack.drop_last(), ..s })
        },
        Instruction::Jump { addr } => Ok(MachineState { pc: addr, ..s }),
        Instruction::Call { addr } => if s.stack.len() >= STACK_DEPTH {
            Err(Chip8Error::StackOverflow { pc: s.pc })
        } else {
            Ok(MachineState { pc: addr, stack: s.stack.push((s.pc + OP_LENGTH) as u16), ..s })
        },
        Instruction::SkipEqImm { x, nn } => Ok(skip_if(s, s.reg(x) == nn)),
        Instruction::SkipNeImm { x, nn } => Ok(skip_if(s, s.reg(x) != nn)),
        Instruction::SkipEqReg { x, y } => Ok(skip_if(s, s.reg(x) == s.reg(y))),
        Instruction::SkipNeReg { x, y } => Ok(skip_if(s, s.reg(x) != s.reg(y))),
        Instruction::LoadImm { x, nn } => Ok(advance(with_reg(s, x, nn))),
        Instruction::AddImm { x, nn } => Ok(advance(with_reg(s, x, wrapping_add_u8(s.reg(x), nn)))),
        Instruction::Move { x, y } => Ok(advance(with_reg(s, x, s.reg(y)))),
        Instruction::Or { x, y } => Ok(advance(with_reg(s, x, s.reg(x) | s.reg(y)))),
        Instruction::And { x, y } => Ok(advance(with_reg(s, x, s.reg(x) & s.reg(y)))),
        Instruction::Xor { x, y } => Ok(advance(with_reg(s, x, s.reg(x) ^ s.reg(y)))),
        Instruction::AddReg { x, y } => Ok(
            advance(
                with_result_and_flag(
                    s,
                    x,
                    wrapping_add_u8(s.reg(x), s.reg(y)),
                    s.reg(x) as int + s.reg(y) as int > 255,
                ),
            ),
        ),
        Instruction::Sub { x, y } => Ok(
            advance(
                with_result_and_flag(
                    s,
                    x,
                    wrapping_sub_u8(s.reg(x), s.reg(y)),
                    sub_flag(s.quirks, s.reg(x), s.reg(y)),
                ),
            ),
        ),
        Instruction::SubN { x, y } => Ok(
            advance(
                with_result_and_flag(
                    s,
                    x,
                    wrapping_sub_u8(s.reg(y), s.reg(x)),
                    sub_flag(s.quirks, s.reg(y), s.reg(x)),
                ),
            ),
        ),
        Instruction::ShiftRight { x, y } => Ok(
            advance(
                with_result_and_flag(
                    s,
                    x,
                    shift_source(s, x, y) / 2,
                    shift_source(s, x, y) % 2 == 1,
                ),
            ),
        ),
        Instruction::ShiftLeft { x, y } => Ok(
            advance(
                with_result_and_flag(
                    s,
                    x,
                    (shift_source(s, x, y) as int * 2 % 256) as u8,
                    shift_source(s, x, y) >= 128,
                ),
            ),
        ),
        Instruction::LoadIndex { addr } => Ok(advance(MachineState { index: addr, ..s })),
        Instruction::JumpOffset { addr } => Ok(
            MachineState { pc: (addr + s.reg(0)) as u16, ..s },
        ),
        Instruction::Random { x, nn } => Ok(advance(with_reg(s, x, rnd & nn))),
        Instruction::Draw { x, y, n } => if !index_span_ok(s, n as int) {
            Err(Chip8Error::MemoryOutOfRange { pc: s.pc, index: s.index })
        } else {
            Ok(draw_spec(s, x, y, n))
        },
        // the key is named by the low nibble of `VX`
        Instruction::SkipKeyPressed { x } => Ok(skip_if(s, s.keys[s.reg(x) as int % 16])),
        Instruction::SkipKeyNotPressed { x } => Ok(skip_if(s, !s.keys[s.reg(x) as int % 16])),
        Instruction::LoadDelay { x } => Ok(advance(with_reg(s, x, s.delay))),
        Instruction::WaitKey { x } => Ok(advance(MachineState { key_wait: Some(x), ..s })),
        Instruction::SetDelay { x } => Ok(advance(MachineState { delay: s.reg(x), ..s })),
        Instruction::SetSound { x } => Ok(advance(MachineState { sound: s.reg(x), ..s })),
        Instruction::AddIndex { x } => Ok(
            advance(MachineState { index: ((s.index as int + s.reg(x) as int) % 0x10000) as u16, ..s }),
        ),
        Instruction::FontChar { x } => Ok(
            advance(
                MachineState {
                    index: (FONT_ADDR + (s.reg(x) % 16) as int * FONT_SPRITE_SIZE) as u16,
                    ..s
                },
            ),
        ),
        Instruction::StoreBcd { x } => if !index_span_ok(s, 3) {
            Err(Chip8Error::MemoryOutOfRange { pc: s.pc, index: s.index })
        } else {
            Ok(
                advance(
                    MachineState {
                        memory: write_memory(s.memory, s.index as int, bcd_digits(s.reg(x))),
                        ..s
                    },
                ),
            )
        },
        Instruction::StoreRegisters { x } => if !index_span_ok(s, x + 1) {
            Err(Chip8Error::MemoryOutOfRange { pc: s.pc, index: s.index })
        } else {
            Ok(
                advance(
                    MachineState {
                        memory: write_memory(
                            s.memory,
                            s.index as int,
                            s.registers.subrange(0, x + 1),
                        ),
                        index: index_after_bulk(s, x),
                        ..s
                    },
                ),
            )
        },
        Instruction::RestoreRegisters { x } => if !index_span_ok(s, x + 1) {
            Err(Chip8Error::MemoryOutOfRange { pc: s.pc, index: s.index })
        } else {
            Ok(
                advance(
                    MachineState {
                        registers: Seq::new(
                            KEY_COUNT as nat,
                            |k: int|
                                if k <= x {
                                    s.memory[s.index + k]
                                } else {
                                    s.registers[k]
                                },
                        ),
                        index: index_after_bulk(s, x),
                        ..s
                    },
                ),
            )
        },
    }
}

/// Both timers count down by one, stopping at zero.
pub open spec fn tick_timers(s: MachineState) -> MachineState {
    MachineState {
        delay: if s.delay > 0 { (s.delay - 1) as u8 } else { 0 },
        sound: if s.sound > 0 { (s.sound - 1) as u8 } else { 0 },
        ..s
    }
}

/// One fetch-decode-execute cycle. While a key wait is pending nothing
/// changes; otherwise the timers tick and the instruction at `pc` runs on
/// the ticked state. An error comes with no new state: the step has no
/// effect at all.
pub open spec fn step_spec(s: MachineState, rnd: u8) -> Result<MachineState, Chip8Error> {
    if s.key_wait is Some {
        Ok(s)
    } else if s.pc as int + 1 >= RAM_SIZE {
        Err(Chip8Error::ProgramCounterOutOfRange { pc: s.pc })
    } else {
        let op = opcode_at(s.memory, s.pc);
        match decode_spec(op) {
            Err(fault) => Err(Chip8Error::InvalidOpcode { fault, opcode: op, pc: s.pc }),
            Ok(ins) => execute_spec(tick_timers(s), ins, rnd),
        }
    }
}

/// `after` and `r` are what a step from `before` may give when `rnd` is the
/// random byte: the state that `step_spec` gives, or its error with the state
/// unchanged.
pub open spec fn step_outcome(
    before: MachineState,
    after: MachineState,
    r: Result<(), Chip8Error>,
    rnd: u8,
) -> bool {
    match step_spec(before, rnd) {
        Ok(s) => r is Ok && after == s,
        Err(e) => r == Err::<(), Chip8Error>(e) && after == before,
    }
}

/// What one key report does to a held-key flag.
pub open spec fn key_after(held: bool, t: Option<KeyState>) -> bool {
    match t {
        Some(KeyState::Pressed) => true,
        Some(KeyState::Released) => false,
        None => held,
    }
}

/// The highest key below `n` reported pressed in `t`.
pub open spec fn last_pressed(t: Seq<Option<KeyState>>, n: nat) -> Option<u8>
    decreases n,
{
    if n == 0 {
        None
    } else if t[n - 1] == Some(KeyState::Pressed) {
        Some((n - 1) as u8)
    } else {
        last_pressed(t, (n - 1) as nat)
    }
}

/// One key report from the host: every key takes its reported state, and a
/// pending key wait is served with the highest key reported pressed.
pub open spec fn set_keys_spec(s: MachineState, t: Seq<Option<KeyState>>) -> MachineState {
    let keys = Seq::new(KEY_COUNT as nat, |i: int| key_after(s.keys[i], t[i]));
    match (s.key_wait, last_pressed(t, KEY_COUNT as nat)) {
        (Some(x), Some(k)) => MachineState {
            keys,
            registers: s.registers.update(x as int, k),
            key_wait: None,
            ..s
        },
        _ => MachineState { keys, ..s },
    }
}

} // verus!
