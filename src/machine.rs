//! The executable machine: one owned state, advanced one instruction per step.
use vstd::prelude::*;
use crate::instruction::{Instruction, decode, operands_in_range};
use crate::semantics::{
    Chip8Error, KeyState, MachineState, Quirks, FLAG_REGISTER, FONT_ADDR, FONT_SPRITE_SIZE, KEY_COUNT,
    OP_LENGTH, PROGRAM_START, RAM_SIZE, SCREEN_HEIGHT, SCREEN_PIXELS, SCREEN_WIDTH, STACK_DEPTH,
    advance, bcd_digits, key_after, last_pressed, set_keys_spec, step_outcome, draw_covers, draw_spec, execute_spec, font_spec, index_span_ok, load_spec,
    index_after_bulk, reset_state, shift_source, skip_if, standard_quirks, sub_flag, sprite_covers, with_reg, with_result_and_flag, wrapping_add_u8,
    wrapping_sub_u8, write_memory,
};

verus! {

/// A CHIP-8 machine: registers, memory, stack, display, timers and keypad.
pub struct Chip8 {
    pc: u16,
    registers: Vec<u8>,
    index: u16,
    delay: u8,
    sound: u8,
    memory: Vec<u8>,
    stack: Vec<u16>,
    display: Vec<bool>,
    keys: Vec<bool>,
    key_wait: Option<u8>,
    quirks: Quirks,
}

impl View for Chip8 {
    type V = MachineState;

    closed spec fn view(&self) -> MachineState {
        MachineState {
            pc: self.pc,
            registers: self.registers@,
            index: self.index,
            delay: self.delay,
            sound: self.sound,
            memory: self.memory@,
            stack: self.stack@,
            display: self.display@,
            keys: self.keys@,
            key_wait: self.key_wait,
            quirks: self.quirks,
        }
    }
}

/// The digit sprites as bytes.
fn font_sprites() -> (r: Vec<u8>)
    ensures
        r@ == font_spec(),
{
    let r: Vec<u8> = vec![
        0xF0u8, 0x90, 0x90, 0x90, 0xF0, 0x20, 0x60, 0x20, 0x20, 0x70,
        0xF0, 0x10, 0xF0, 0x80, 0xF0, 0xF0, 0x10, 0xF0, 0x10, 0xF0,
        0x90, 0x90, 0xF0, 0x10, 0x10, 0xF0, 0x80, 0xF0, 0x10, 0xF0,
        0xF0, 0x80, 0xF0, 0x90, 0xF0, 0xF0, 0x10, 0x20, 0x40, 0x40,
        0xF0, 0x90, 0xF0, 0x90, 0xF0, 0xF0, 0x90, 0xF0, 0x10, 0xF0,
        0xF0, 0x90, 0xF0, 0x90, 0x90, 0xE0, 0x90, 0xE0, 0x90, 0xE0,
        0xF0, 0x80, 0x80, 0x80, 0xF0, 0xE0, 0x90, 0x90, 0x90, 0xE0,
        0xF0, 0x80, 0xF0, 0x80, 0xF0, 0xF0, 0x80, 0xF0, 0x80, 0x80,
    ];
    assert(r@ =~= font_spec());
    r
}

/// Relies on `rand::random::<u8>`: one byte from the thread-local generator.
/// Nothing is promised of its value.
#[verifier::external_body]
fn random_byte() -> u8 {
    rand::random::<u8>()
}

impl Chip8 {
    /// The state is well formed: see [`MachineState::valid`].
    pub open spec fn wf(&self) -> bool {
        self@.valid()
    }

    /// A machine at reset with the standard quirks: all zero but the font
    /// table, `pc` at the program origin.
    pub fn new() -> (r: Self)
        ensures
            r.wf(),
            r@ == reset_state(standard_quirks()),
    {
        Chip8::with_quirks(Quirks::standard())
    }

    /// A machine at reset that behaves as `quirks` chooses.
    pub fn with_quirks(quirks: Quirks) -> (r: Self)
        ensures
            r.wf(),
            r@ == reset_state(quirks),
    {
        let font = font_sprites();
        let mut memory: Vec<u8> = vec![0u8; RAM_SIZE];
        let mut i: usize = 0;
        while i < font.len()
            invariant
                font@ == font_spec(),
                memory@.len() == RAM_SIZE,
                0 <= i <= font@.len(),
                forall|a: int|
                    0 <= a < RAM_SIZE ==> memory@[a] == (if FONT_ADDR <= a < FONT_ADDR + i {
                        font@[a - FONT_ADDR]
                    } else {
                        0u8
                    }),
            decreases font@.len() - i,
        {
            memory.set(FONT_ADDR as usize + i, font[i]);
            i += 1;
        }
        let r = Chip8 {
            pc: PROGRAM_START,
            registers: vec![0u8; KEY_COUNT],
            index: 0,
            delay: 0,
            sound: 0,
            memory,
            stack: Vec::new(),
            display: vec![false; SCREEN_PIXELS],
            keys: vec![false; KEY_COUNT],
            key_wait: None,
            quirks,
        };
        assert(r@.memory =~= reset_state(quirks).memory);
        assert(r@ =~= reset_state(quirks));
        r
    }

    /// Puts the machine back to its state at reset, keeping its quirks.
    pub fn reset(&mut self)
        ensures
            final(self).wf(),
            final(self)@ == reset_state(old(self)@.quirks),
    {
        *self = Chip8::with_quirks(self.quirks);
    }

    /// The behaviours this machine was built with.
    pub fn quirks(&self) -> (r: Quirks)
        ensures
            r == self@.quirks,
    {
        self.quirks
    }

    /// Copies a program image into memory at the program origin.
    pub fn load_cartridge(&mut self, rom: &[u8])
        requires
            old(self).wf(),
            rom@.len() <= RAM_SIZE - PROGRAM_START,
        ensures
            final(self).wf(),
            final(self)@ == load_spec(old(self)@, rom@),
    {
        let ghost start = self@;
        let mut i: usize = 0;
        while i < rom.len()
            invariant
                self.wf(),
                rom@.len() <= RAM_SIZE - PROGRAM_START,
                0 <= i <= rom@.len(),
                self@ == (MachineState { memory: self@.memory, ..start }),
                forall|a: int|
                    0 <= a < RAM_SIZE ==> self@.memory[a] == (if PROGRAM_START <= a < PROGRAM_START + i {
                        rom@[a - PROGRAM_START]
                    } else {
                        start.memory[a]
                    }),
            decreases rom@.len() - i,
        {
            self.memory.set(PROGRAM_START as usize + i, rom[i]);
            i += 1;
        }
        assert(self@.memory =~= load_spec(start, rom@).memory);
        assert(self@ =~= load_spec(start, rom@));
    }

    /// The program counter.
    pub fn program_counter(&self) -> (r: u16)
        ensures
            r == self@.pc,
    {
        self.pc
    }

    /// The value of register `x`.
    pub fn register(&self, x: u8) -> (r: u8)
        requires
            self.wf(),
            x < 16,
        ensures
            r == self@.reg(x),
    {
        self.registers[x as usize]
    }

    /// The index register.
    pub fn index_register(&self) -> (r: u16)
        ensures
            r == self@.index,
    {
        self.index
    }

    /// The delay timer.
    pub fn delay_timer(&self) -> (r: u8)
        ensures
            r == self@.delay,
    {
        self.delay
    }

    /// The sound timer.
    pub fn sound_timer(&self) -> (r: u8)
        ensures
            r == self@.sound,
    {
        self.sound
    }

    /// Whether the host should play a tone: the sound timer is running.
    pub fn sound_active(&self) -> (r: bool)
        ensures
            r == (self@.sound > 0),
    {
        self.sound > 0
    }

    /// Whether the machine is blocked until a key is pressed.
    pub fn is_waiting_for_key(&self) -> (r: bool)
        ensures
            r == self@.key_wait is Some,
    {
        self.key_wait.is_some()
    }

    /// The byte at `addr`.
    pub fn memory_byte(&self, addr: u16) -> (r: u8)
        requires
            self.wf(),
            addr < RAM_SIZE,
        ensures
            r == self@.memory[addr as int],
    {
        self.memory[addr as usize]
    }

    /// Whether pixel `(x, y)` is set.
    pub fn pixel(&self, x: usize, y: usize) -> (r: bool)
        requires
            self.wf(),
            x < SCREEN_WIDTH,
            y < SCREEN_HEIGHT,
        ensures
            r == self@.display[(y * SCREEN_WIDTH + x) as int],
    {
        assert(y * SCREEN_WIDTH + x < SCREEN_PIXELS) by (nonlinear_arith)
            requires x < SCREEN_WIDTH, y < SCREEN_HEIGHT;
        self.display[y * SCREEN_WIDTH + x]
    }

    /// A copy of the display, one flag per pixel in row-major order.
    pub fn display_snapshot(&self) -> (r: Vec<bool>)
        ensures
            r@ == self@.display,
    {
        self.display.clone()
    }

    /// Moves on to the following instruction.
    fn next(&mut self)
        requires
            old(self).wf(),
            old(self)@.pc < RAM_SIZE,
        ensures
            final(self).wf(),
            final(self)@ == advance(old(self)@),
    {
        self.pc = self.pc + OP_LENGTH;
    }

    /// Skips the following instruction if `cond` holds, else moves on to it.
    fn skip_next_if(&mut self, cond: bool)
        requires
            old(self).wf(),
            old(self)@.pc < RAM_SIZE,
        ensures
            final(self).wf(),
            final(self)@ == skip_if(old(self)@, cond),
    {
        if cond {
            self.pc = self.pc + 2 * OP_LENGTH;
        } else {
            self.pc = self.pc + OP_LENGTH;
        }
    }

    fn set_register(&mut self, x: u8, v: u8)
        requires
            old(self).wf(),
            x < 16,
        ensures
            final(self).wf(),
            final(self)@ == with_reg(old(self)@, x, v),
    {
        self.registers.set(x as usize, v);
    }

    /// Writes a result to `VX`, then the flag to `VF`: the flag is the last write.
    fn set_result_and_flag(&mut self, x: u8, v: u8, flag: bool)
        requires
            old(self).wf(),
            x < 16,
        ensures
            final(self).wf(),
            final(self)@ == with_result_and_flag(old(self)@, x, v, flag),
    {
        self.set_register(x, v);
        self.set_register(FLAG_REGISTER, if flag { 1 } else { 0 });
    }

    /// `8XY4`: `VX += VY`, with the carry in `VF`.
    fn add_vy_to_vx(&mut self, x: u8, y: u8)
        requires
            old(self).wf(),
            x < 16,
            y < 16,
        ensures
            final(self).wf(),
            final(self)@ == with_result_and_flag(
                old(self)@,
                x,
                wrapping_add_u8(old(self)@.reg(x), old(self)@.reg(y)),
                old(self)@.reg(x) as int + old(self)@.reg(y) as int > 255,
            ),
    {
        let sum: u16 = self.registers[x as usize] as u16 + self.registers[y as usize] as u16;
        self.set_result_and_flag(x, (sum % 256) as u8, sum > 255);
    }

    /// `a - b` modulo 256, and the flag that the quirks give it.
    fn sub_with_flag(&self, a: u8, b: u8) -> (r: (u8, bool))
        ensures
            r.0 == wrapping_sub_u8(a, b),
            r.1 == sub_flag(self@.quirks, a, b),
    {
        let no_borrow = a >= b;
        let res = if no_borrow {
            a - b
        } else {
            (a as u16 + 256 - b as u16) as u8
        };
        (res, if self.quirks.borrow_sets_flag { !no_borrow } else { no_borrow })
    }

    /// `8XY5`: `VX -= VY`; `VF` is 1 where no borrow occurred.
    fn sub_vy_from_vx(&mut self, x: u8, y: u8)
        requires
            old(self).wf(),
            x < 16,
            y < 16,
        ensures
            final(self).wf(),
            final(self)@ == with_result_and_flag(
                old(self)@,
                x,
                wrapping_sub_u8(old(self)@.reg(x), old(self)@.reg(y)),
                sub_flag(old(self)@.quirks, old(self)@.reg(x), old(self)@.reg(y)),
            ),
    {
        let (res, flag) = self.sub_with_flag(self.registers[x as usize], self.registers[y as usize]);
        self.set_result_and_flag(x, res, flag);
    }

    /// `8XY7`: `VX = VY - VX`; `VF` is 1 where no borrow occurred.
    fn vy_minus_vx(&mut self, x: u8, y: u8)
        requires
            old(self).wf(),
            x < 16,
            y < 16,
        ensures
            final(self).wf(),
            final(self)@ == with_result_and_flag(
                old(self)@,
                x,
                wrapping_sub_u8(old(self)@.reg(y), old(self)@.reg(x)),
                sub_flag(old(self)@.quirks, old(self)@.reg(y), old(self)@.reg(x)),
            ),
    {
        let (res, flag) = self.sub_with_flag(self.registers[y as usize], self.registers[x as usize]);
        self.set_result_and_flag(x, res, flag);
    }

    /// The register that a shift reads: `VX` or `VY`, as the quirks choose.
    fn shift_operand(&self, x: u8, y: u8) -> (r: u8)
        requires
            self.wf(),
            x < 16,
            y < 16,
        ensures
            r == shift_source(self@, x, y),
    {
        if self.quirks.shift_in_place {
            self.registers[x as usize]
        } else {
            self.registers[y as usize]
        }
    }

    /// `8XY6`: `VX = VY >> 1`; `VF` gets the bit shifted out.
    fn rsh_vy_to_vx(&mut self, x: u8, y: u8)
        requires
            old(self).wf(),
            x < 16,
            y < 16,
        ensures
            final(self).wf(),
            final(self)@ == with_result_and_flag(
                old(self)@,
                x,
                shift_source(old(self)@, x, y) / 2,
                shift_source(old(self)@, x, y) % 2 == 1,
            ),
    {
        let v = self.shift_operand(x, y);
        self.set_result_and_flag(x, v / 2, v % 2 == 1);
    }

    /// `8XYE`: `VX = VY << 1`; `VF` gets the bit shifted out.
    fn lsh_vy_to_vx(&mut self, x: u8, y: u8)
        requires
            old(self).wf(),
            x < 16,
            y < 16,
        ensures
            final(self).wf(),
            final(self)@ == with_result_and_flag(
                old(self)@,
                x,
                (shift_source(old(self)@, x, y) as int * 2 % 256) as u8,
                shift_source(old(self)@, x, y) >= 128,
            ),
    {
        let v = self.shift_operand(x, y);
        self.set_result_and_flag(x, (v as u16 * 2 % 256) as u8, v >= 128);
    }

    /// Whether the sprite at `(x0, y0)`, `n` rows from the index register,
    /// covers pixel `p` with a set bit.
    fn sprite_covers_pixel(&self, x0: usize, y0: usize, n: u8, p: usize) -> (r: bool)
        requires
            self.wf(),
            x0 < SCREEN_WIDTH,
            y0 < SCREEN_HEIGHT,
            n < 16,
            p < SCREEN_PIXELS,
            index_span_ok(self@, n as int),
        ensures
            r == sprite_covers(self@.memory, self@.index, x0 as int, y0 as int, n as int, p as int),
    {
        let px = p % SCREEN_WIDTH;
        let py = p / SCREEN_WIDTH;
        if x0 <= px && px < x0 + 8 && y0 <= py && py < y0 + n as usize {
            let row = self.memory[self.index as usize + (py - y0)];
            (row >> ((7 - (px - x0)) as u8)) & 1u8 == 1u8
        } else {
            false
        }
    }

    /// `DXYN`: XORs the sprite onto the display, clipped at the right and
    /// bottom edges; `VF` tells whether a set pixel was cleared.
    fn draw_sprite(&mut self, x: u8, y: u8, n: u8)
        requires
            old(self).wf(),
            old(self)@.pc < RAM_SIZE,
            x < 16,
            y < 16,
            n < 16,
            index_span_ok(old(self)@, n as int),
        ensures
            final(self).wf(),
            final(self)@ == draw_spec(old(self)@, x, y, n),
    {
        let ghost s = self@;
        let x0: usize = (self.registers[x as usize] % 64) as usize;
        let y0: usize = (self.registers[y as usize] % 32) as usize;
        let mut collision = false;
        let mut p: usize = 0;
        while p < SCREEN_PIXELS
            invariant
                self.wf(),
                p <= SCREEN_PIXELS,
                x0 == s.reg(x) as int % SCREEN_WIDTH as int,
                y0 == s.reg(y) as int % SCREEN_HEIGHT as int,
                x < 16,
                y < 16,
                n < 16,
                index_span_ok(s, n as int),
                self@ == (MachineState { display: self@.display, ..s }),
                forall|q: int|
                    0 <= q < SCREEN_PIXELS ==> #[trigger] self@.display[q] == if q < p {
                        s.display[q] != draw_covers(s, x, y, n, q)
                    } else {
                        s.display[q]
                    },
                collision == exists|q: int| 0 <= q < p && s.display[q] && #[trigger] draw_covers(s, x, y, n, q),
            decreases SCREEN_PIXELS - p,
        {
            let cover = self.sprite_covers_pixel(x0, y0, n, p);
            let ghost before = collision;
            if cover {
                let cur = self.display[p];
                if cur {
                    collision = true;
                }
                self.display.set(p, !cur);
            }
            assert(collision == exists|q: int| 0 <= q < p + 1 && s.display[q] && #[trigger] draw_covers(s, x, y, n, q)) by {
                if exists|q: int| 0 <= q < p + 1 && s.display[q] && #[trigger] draw_covers(s, x, y, n, q) {
                    let q = choose|q: int| 0 <= q < p + 1 && s.display[q] && #[trigger] draw_covers(s, x, y, n, q);
                    if q < p {
                        assert(before);
                    }
                }
                if collision && !before {
                    assert(0 <= p < p + 1 && s.display[p as int] && draw_covers(s, x, y, n, p as int));
                }
            }
            p += 1;
        }
        assert(self@.display =~= Seq::new(SCREEN_PIXELS as nat, |q: int| s.display[q] != draw_covers(s, x, y, n, q)));
        self.set_register(FLAG_REGISTER, if collision { 1 } else { 0 });
        self.next();
    }

    /// `FX33`: stores the decimal digits of `VX` at `I`, `I + 1` and `I + 2`.
    fn store_bcd(&mut self, x: u8)
        requires
            old(self).wf(),
            old(self)@.pc < RAM_SIZE,
            x < 16,
            index_span_ok(old(self)@, 3),
        ensures
            final(self).wf(),
            final(self)@ == advance(
                MachineState {
                    memory: write_memory(
                        old(self)@.memory,
                        old(self)@.index as int,
                        bcd_digits(old(self)@.reg(x)),
                    ),
                    ..old(self)@
                },
            ),
    {
        let ghost s = self@;
        let v = self.registers[x as usize];
        let i = self.index as usize;
        self.memory.set(i, v / 100);
        self.memory.set(i + 1, v / 10 % 10);
        self.memory.set(i + 2, v % 10);
        assert(self@.memory =~= write_memory(s.memory, s.index as int, bcd_digits(v)));
        self.next();
    }

    /// Moves the index register past a bulk transfer of `V0` to `VX`, where
    /// the quirks ask for it.
    fn advance_index_after_bulk(&mut self, x: u8)
        requires
            old(self).wf(),
            x < 16,
            index_span_ok(old(self)@, x + 1),
        ensures
            final(self).wf(),
            final(self)@ == (MachineState { index: index_after_bulk(old(self)@, x), ..old(self)@ }),
    {
        if self.quirks.bulk_transfer_advances_index {
            self.index = self.index + x as u16 + 1;
        }
    }

    /// `FX55`: stores `V0` to `VX` in memory from `I` on.
    fn store_registers(&mut self, x: u8)
        requires
            old(self).wf(),
            old(self)@.pc < RAM_SIZE,
            x < 16,
            index_span_ok(old(self)@, x + 1),
        ensures
            final(self).wf(),
            final(self)@ == advance(
                MachineState {
                    memory: write_memory(
                        old(self)@.memory,
                        old(self)@.index as int,
                        old(self)@.registers.subrange(0, x + 1),
                    ),
                    index: index_after_bulk(old(self)@, x),
                    ..old(self)@
                },
            ),
    {
        let ghost s = self@;
        let mut k: usize = 0;
        while k <= x as usize
            invariant
                self.wf(),
                x < 16,
                k <= x + 1,
                index_span_ok(s, x + 1),
                self@ == (MachineState { memory: self@.memory, ..s }),
                self@.memory =~= write_memory(s.memory, s.index as int, s.registers.subrange(0, k as int)),
            decreases x + 1 - k,
        {
            let v = self.registers[k];
            self.memory.set(self.index as usize + k, v);
            assert(self@.memory =~= write_memory(s.memory, s.index as int, s.registers.subrange(0, k + 1)));
            k += 1;
        }
        self.advance_index_after_bulk(x);
        self.next();
    }

    /// `FX65`: loads `V0` to `VX` from memory from `I` on.
    fn restore_registers(&mut self, x: u8)
        requires
            old(self).wf(),
            old(self)@.pc < RAM_SIZE,
            x < 16,
            index_span_ok(old(self)@, x + 1),
        ensures
            final(self).wf(),
            final(self)@ == advance(
                MachineState {
                    registers: Seq::new(
                        KEY_COUNT as nat,
                        |k: int|
                            if k <= x {
                                old(self)@.memory[old(self)@.index + k]
                            } else {
                                old(self)@.registers[k]
                            },
                    ),
                    index: index_after_bulk(old(self)@, x),
                    ..old(self)@
                },
            ),
    {
        let ghost s = self@;
        let mut k: usize = 0;
        while k <= x as usize
            invariant
                self.wf(),
                x < 16,
                k <= x + 1,
                index_span_ok(s, x + 1),
                self@ == (MachineState { registers: self@.registers, ..s }),
                self@.registers =~= Seq::new(
                    KEY_COUNT as nat,
                    |j: int| if j < k { s.memory[s.index + j] } else { s.registers[j] },
                ),
            decreases x + 1 - k,
        {
            let v = self.memory[self.index as usize + k];
            self.registers.set(k, v);
            k += 1;
        }
        assert(self@.registers =~= Seq::new(
            KEY_COUNT as nat,
            |j: int| if j <= x { s.memory[s.index + j] } else { s.registers[j] },
        ));
        self.advance_index_after_bulk(x);
        self.next();
    }

    /// `00EE`: pops the return address into the program counter.
    fn ret_from_sub(&mut self) -> (r: Result<(), Chip8Error>)
        requires
            old(self).wf(),
        ensures
            final(self).wf(),
            match execute_spec(old(self)@, Instruction::Return, 0) {
                Ok(s) => r is Ok && final(self)@ == s,
                Err(e) => r == Err::<(), Chip8Error>(e) && final(self)@ == old(self)@,
            },
    {
        match self.stack.pop() {
            Some(addr) => {
                self.pc = addr;
                Ok(())
            },
            None => Err(Chip8Error::StackUnderflow { pc: self.pc }),
        }
    }

    /// Runs one decoded instruction; `rnd` is the random byte that `CXNN`
    /// masks. On an error nothing has changed.
    fn execute(&mut self, ins: Instruction, rnd: u8) -> (r: Result<(), Chip8Error>)
        requires
            old(self).wf(),
            old(self)@.pc < RAM_SIZE,
            operands_in_range(ins),
        ensures
            final(self).wf(),
            match execute_spec(old(self)@, ins, rnd) {
                Ok(s) => r is Ok && final(self)@ == s,
                Err(e) => r == Err::<(), Chip8Error>(e) && final(self)@ == old(self)@,
            },
    {
        match ins {
            Instruction::ClearScreen => {
                self.display = vec![false; SCREEN_PIXELS];
                self.next();
            },
            Instruction::Return => {
                return self.ret_from_sub();
            },
            Instruction::Jump { addr } => {
                self.pc = addr;
            },
            Instruction::Call { addr } => {
                if self.stack.len() >= STACK_DEPTH {
                    return Err(Chip8Error::StackOverflow { pc: self.pc });
                }
                self.stack.push(self.pc + OP_LENGTH);
                self.pc = addr;
            },
            Instruction::SkipEqImm { x, nn } => {
                let c = self.registers[x as usize] == nn;
                self.skip_next_if(c);
            },
            Instruction::SkipNeImm { x, nn } => {
                let c = self.registers[x as usize] != nn;
                self.skip_next_if(c);
            },
            Instruction::SkipEqReg { x, y } => {
                let c = self.registers[x as usize] == self.registers[y as usize];
                self.skip_next_if(c);
            },
            Instruction::SkipNeReg { x, y } => {
                let c = self.registers[x as usize] != self.registers[y as usize];
                self.skip_next_if(c);
            },
            Instruction::LoadImm { x, nn } => {
                self.set_register(x, nn);
                self.next();
            },
            Instruction::AddImm { x, nn } => {
                let v = (self.registers[x as usize] as u16 + nn as u16) % 256;
                self.set_register(x, v as u8);
                self.next();
            },
            Instruction::Move { x, y } => {
                let v = self.registers[y as usize];
                self.set_register(x, v);
                self.next();
            },
            Instruction::Or { x, y } => {
                let v = self.registers[x as usize] | self.registers[y as usize];
                self.set_register(x, v);
                self.next();
            },
            Instruction::And { x, y } => {
                let v = self.registers[x as usize] & self.registers[y as usize];
                self.set_register(x, v);
                self.next();
            },
            Instruction::Xor { x, y } => {
                let v = self.registers[x as usize] ^ self.registers[y as usize];
                self.set_register(x, v);
                self.next();
            },
            Instruction::AddReg { x, y } => {
                self.add_vy_to_vx(x, y);
                self.next();
            },
            Instruction::Sub { x, y } => {
                self.sub_vy_from_vx(x, y);
                self.next();
            },
            Instruction::ShiftRight { x, y } => {
                self.rsh_vy_to_vx(x, y);
                self.next();
            },
            Instruction::SubN { x, y } => {
                self.vy_minus_vx(x, y);
                self.next();
            },
            Instruction::ShiftLeft { x, y } => {
                self.lsh_vy_to_vx(x, y);
                self.next();
            },
            Instruction::LoadIndex { addr } => {
                self.index = addr;
                self.next();
            },
            Instruction::JumpOffset { addr } => {
                self.pc = addr + self.registers[0] as u16;
            },
            Instruction::Random { x, nn } => {
                self.set_register(x, rnd & nn);
                self.next();
            },
            Instruction::Draw { x, y, n } => {
                if self.index as usize + n as usize > RAM_SIZE {
                    return Err(Chip8Error::MemoryOutOfRange { pc: self.pc, index: self.index });
                }
                self.draw_sprite(x, y, n);
            },
            Instruction::SkipKeyPressed { x } => {
                let c = self.keys[(self.registers[x as usize] % 16) as usize];
                self.skip_next_if(c);
            },
            Instruction::SkipKeyNotPressed { x } => {
                let c = !self.keys[(self.registers[x as usize] % 16) as usize];
                self.skip_next_if(c);
            },
            Instruction::LoadDelay { x } => {
                let v = self.delay;
                self.set_register(x, v);
                self.next();
            },
            Instruction::WaitKey { x } => {
                self.key_wait = Some(x);
                self.next();
            },
            Instruction::SetDelay { x } => {
                self.delay = self.registers[x as usize];
                self.next();
            },
            Instruction::SetSound { x } => {
                self.sound = self.registers[x as usize];
                self.next();
            },
            Instruction::AddIndex { x } => {
                self.index = ((self.index as u32 + self.registers[x as usize] as u32) % 0x10000) as u16;
                self.next();
            },
            Instruction::FontChar { x } => {
                self.index = FONT_ADDR + (self.registers[x as usize] % 16) as u16 * FONT_SPRITE_SIZE;
                self.next();
            },
            Instruction::StoreBcd { x } => {
                if self.index as usize + 3 > RAM_SIZE {
                    return Err(Chip8Error::MemoryOutOfRange { pc: self.pc, index: self.index });
                }
                self.store_bcd(x);
            },
            Instruction::StoreRegisters { x } => {
                if self.index as usize + x as usize + 1 > RAM_SIZE {
                    return Err(Chip8Error::MemoryOutOfRange { pc: self.pc, index: self.index });
                }
                self.store_registers(x);
            },
            Instruction::RestoreRegisters { x } => {
                if self.index as usize + x as usize + 1 > RAM_SIZE {
                    return Err(Chip8Error::MemoryOutOfRange { pc: self.pc, index: self.index });
                }
                self.restore_registers(x);
            },
        }
        Ok(())
    }

    /// One fetch-decode-execute cycle, with `rnd` as the random byte that a
    /// `CXNN` instruction masks. While a key wait is pending this does
    /// nothing. Otherwise both timers count down and the instruction at the
    /// program counter runs. On an error the machine is left exactly as it was.
    pub fn step_with_random(&mut self, rnd: u8) -> (r: Result<(), Chip8Error>)
        requires
            old(self).wf(),
        ensures
            final(self).wf(),
            step_outcome(old(self)@, final(self)@, r, rnd),
            r is Err ==> final(self)@ == old(self)@,
    {
        if self.key_wait.is_some() {
            return Ok(());
        }
        if self.pc as usize + 1 >= RAM_SIZE {
            return Err(Chip8Error::ProgramCounterOutOfRange { pc: self.pc });
        }
        let pc = self.pc as usize;
        let op: u16 = self.memory[pc] as u16 * 0x100 + self.memory[pc + 1] as u16;
        match decode(op) {
            Err(fault) => Err(Chip8Error::InvalidOpcode { fault, opcode: op, pc: self.pc }),
            Ok(ins) => {
                let delay = self.delay;
                let sound = self.sound;
                self.delay = if delay > 0 { delay - 1 } else { 0 };
                self.sound = if sound > 0 { sound - 1 } else { 0 };
                let r = self.execute(ins, rnd);
                if r.is_err() {
                    self.delay = delay;
                    self.sound = sound;
                }
                r
            },
        }
    }

    /// One fetch-decode-execute cycle, as [`Chip8::step_with_random`] with a
    /// freshly drawn random byte. On an error the machine is left exactly as
    /// it was.
    pub fn step(&mut self) -> (r: Result<(), Chip8Error>)
        requires
            old(self).wf(),
        ensures
            final(self).wf(),
            exists|rnd: u8| step_outcome(old(self)@, final(self)@, r, rnd),
            r is Err ==> final(self)@ == old(self)@,
    {
        let rnd = random_byte();
        self.step_with_random(rnd)
    }

    /// Applies one key report from the host: each key takes its reported
    /// state, and a pending key wait is served with the highest-numbered key
    /// reported pressed.
    pub fn set_keys(&mut self, keys: [Option<KeyState>; KEY_COUNT])
        requires
            old(self).wf(),
        ensures
            final(self).wf(),
            final(self)@ == set_keys_spec(old(self)@, keys@),
    {
        let ghost s = self@;
        let mut last_key_pressed: Option<u8> = None;
        let mut i: usize = 0;
        while i < KEY_COUNT
            invariant
                self.wf(),
                i <= KEY_COUNT,
                self@ == (MachineState { keys: self@.keys, ..s }),
                forall|j: int|
                    0 <= j < KEY_COUNT ==> #[trigger] self@.keys[j] == if j < i {
                        key_after(s.keys[j], keys@[j])
                    } else {
                        s.keys[j]
                    },
                last_key_pressed == last_pressed(keys@, i as nat),
            decreases KEY_COUNT - i,
        {
            match keys[i] {
                Some(KeyState::Pressed) => {
                    self.keys.set(i, true);
                    last_key_pressed = Some(i as u8);
                },
                Some(KeyState::Released) => {
                    self.keys.set(i, false);
                },
                None => {},
            }
            i += 1;
        }
        assert(self@.keys =~= Seq::new(KEY_COUNT as nat, |j: int| key_after(s.keys[j], keys@[j])));
        if let Some(key) = last_key_pressed {
            if let Some(x) = self.key_wait {
                self.key_wait = None;
                self.registers.set(x as usize, key);
            }
        }
    }
}

} // verus!
