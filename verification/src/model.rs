//! The mathematical model of the machine: its state as plain values and its
//! operations as functions from state to state.
//!
//! The executable interpreter is specified against this model; the laws of
//! the instruction set are proved of it.

use vstd::prelude::*;
use crate::alu::{alu_spec, decimal_digits};
use crate::error::Chip8Error;
use crate::font::{FONTSET, FONTSET_SIZE};
use crate::instruction::{decode_spec, Instruction};

verus! {

/// Width of the display in pixels.
pub const SCREEN_WIDTH: usize = 64;

/// Height of the display in pixels.
pub const SCREEN_HEIGHT: usize = 32;

/// Number of pixels of the display.
pub const SCREEN_SIZE: usize = 2048;

/// Number of bytes of memory.
pub const RAM_SIZE: usize = 4096;

/// Number of general registers; the last one doubles as the flag register.
pub const NUM_REGS: usize = 16;

/// Number of return addresses the call stack can hold.
pub const STACK_SIZE: usize = 16;

/// Number of keys of the keypad.
pub const NUM_KEYS: usize = 16;

/// Address at which a program is loaded and at which execution starts.
pub const START_ADDR: u16 = 0x200;

/// Largest program that fits between the start address and the end of
/// memory.
pub const MAX_PROGRAM_SIZE: usize = 3584;

/// Index of the register that receives carry, borrow, shift and collision
/// flags.
pub const FLAG_REG: usize = 15;

/// The state of the machine.
///
/// `stack` holds the return addresses of the calls in progress, the most
/// recent one last. `screen` is row-major: the pixel in column `c` of row
/// `r` is `screen[c + 64 * r]`.
#[verifier::ext_equal]
pub struct Machine {
    pub pc: u16,
    pub memory: Seq<u8>,
    pub registers: Seq<u8>,
    pub index: u16,
    pub stack: Seq<u16>,
    pub keys: Seq<bool>,
    pub screen: Seq<bool>,
    pub delay: u8,
    pub sound: u8,
}

/// A value reduced to sixteen bits.
pub open spec fn wrap16(v: int) -> u16 {
    (v % 0x1_0000) as u16
}

/// A value reduced to eight bits.
pub open spec fn wrap8(v: int) -> u8 {
    (v % 0x100) as u8
}

/// Whether the pixel in column `col` of a sprite row is set; column 0 is the
/// most significant bit.
pub open spec fn sprite_bit(row: u8, col: int) -> bool {
    row & (0x80u8 >> (col as u8)) != 0
}

/// The screen cell in column `col` of row `row`.
pub open spec fn cell_at(col: int, row: int) -> int {
    col + SCREEN_WIDTH * row
}

/// The column and the row of a screen cell, given its index in the
/// row-major picture.
pub fn cell_position(cell: usize) -> (position: (usize, usize))
    ensures
        position.0 < SCREEN_WIDTH,
        cell < SCREEN_SIZE ==> position.1 < SCREEN_HEIGHT,
        cell_at(position.0 as int, position.1 as int) == cell,
{
    (cell % SCREEN_WIDTH, cell / SCREEN_WIDTH)
}

/// The sprite column that falls on the screen cell `cell` when the sprite's
/// left edge is in screen column `vx`: the distance from the left edge to the
/// cell's column, going right and wrapping at the edge of the screen.
pub open spec fn sprite_col(vx: u8, cell: int) -> int {
    (cell % 64 - vx) % 64
}

/// The sprite row that falls on the screen cell `cell` when the sprite's top
/// edge is in screen row `vy`: the distance from the top edge to the cell's
/// row, going down and wrapping at the edge of the screen.
pub open spec fn sprite_row(vy: u8, cell: int) -> int {
    (cell / 64 - vy) % 32
}

/// The index of the first pressed key at or after `from`, or the number of
/// keys if there is none.
pub open spec fn first_pressed(keys: Seq<bool>, from: int) -> int
    decreases keys.len() - from,
{
    if from < 0 || from >= keys.len() {
        keys.len() as int
    } else if keys[from] {
        from
    } else {
        first_pressed(keys, from + 1)
    }
}

impl Machine {
    /// Every part of the state has the size the machine gives it.
    pub open spec fn wf(self) -> bool {
        &&& self.memory.len() == RAM_SIZE
        &&& self.registers.len() == NUM_REGS
        &&& self.stack.len() <= STACK_SIZE
        &&& self.keys.len() == NUM_KEYS
        &&& self.screen.len() == SCREEN_SIZE
    }

    /// The machine as it is when created or reset: everything zero, except
    /// the program counter, which is at the start address, and the glyph
    /// table at the bottom of memory.
    pub open spec fn initial() -> Machine {
        Machine {
            pc: START_ADDR,
            memory: Seq::new(
                RAM_SIZE as nat,
                |a: int|
                    if 0 <= a < FONTSET_SIZE {
                        FONTSET[a]
                    } else {
                        0u8
                    },
            ),
            registers: Seq::new(NUM_REGS as nat, |i: int| 0u8),
            index: 0,
            stack: Seq::empty(),
            keys: Seq::new(NUM_KEYS as nat, |i: int| false),
            screen: Seq::new(SCREEN_SIZE as nat, |i: int| false),
            delay: 0,
            sound: 0,
        }
    }

    /// The program image `data` placed at the start address, or
    /// `LoadTooLarge` if it does not fit.
    pub open spec fn load(self, data: Seq<u8>) -> Result<Machine, Chip8Error> {
        if data.len() > MAX_PROGRAM_SIZE {
            Err(Chip8Error::LoadTooLarge)
        } else {
            Ok(
                Machine {
                    memory: Seq::new(
                        RAM_SIZE as nat,
                        |a: int|
                            if START_ADDR <= a < START_ADDR + data.len() {
                                data[a - START_ADDR]
                            } else {
                                self.memory[a]
                            },
                    ),
                    ..self
                },
            )
        }
    }

    /// The key `idx` set down or up, or `OutOfRangeKeyIndex` if there is no
    /// such key.
    pub open spec fn set_key(self, idx: int, pressed: bool) -> Result<Machine, Chip8Error> {
        if 0 <= idx < NUM_KEYS {
            Ok(Machine { keys: self.keys.update(idx, pressed), ..self })
        } else {
            Err(Chip8Error::OutOfRangeKeyIndex)
        }
    }

    /// Both timers moved one tick towards zero.
    pub open spec fn advance_timers(self) -> Machine {
        Machine {
            delay: if self.delay > 0 {
                (self.delay - 1) as u8
            } else {
                0
            },
            sound: if self.sound > 0 {
                (self.sound - 1) as u8
            } else {
                0
            },
            ..self
        }
    }

    /// Whether the next timer tick takes the sound timer from 1 to 0.
    pub open spec fn emits_sound(self) -> bool {
        self.sound == 1
    }

    /// The instruction word at the program counter, high byte first, or
    /// `None` if one of its two bytes lies outside memory.
    pub open spec fn fetch(self) -> Option<u16> {
        if self.pc + 1 < RAM_SIZE {
            Some((self.memory[self.pc as int] * 256 + self.memory[self.pc + 1]) as u16)
        } else {
            None
        }
    }

    /// The program counter moved past the next instruction if `condition`
    /// holds.
    pub open spec fn skip_if(self, condition: bool) -> Machine {
        if condition {
            Machine { pc: wrap16(self.pc + 2), ..self }
        } else {
            self
        }
    }

    /// The register `x` set to `value`.
    pub open spec fn with_register(self, x: int, value: u8) -> Machine {
        Machine { registers: self.registers.update(x, value), ..self }
    }

    /// A register-to-register operation applied to `Vx` and `Vy`: the result
    /// goes to `Vx` and then, if the operation defines a flag, the flag goes
    /// to the flag register. The flag is written last, so it wins where `Vx`
    /// is the flag register itself.
    pub open spec fn apply_alu(self, op: crate::alu::AluOp, x: int, y: int) -> Machine {
        let (value, flag) = alu_spec(op, self.registers[x], self.registers[y]);
        let stored = self.with_register(x, value);
        match flag {
            Some(f) => stored.with_register(FLAG_REG as int, f),
            None => stored,
        }
    }

    /// Whether the sprite of `rows` rows that starts at the index register,
    /// drawn with its top left corner at column `vx` and row `vy`, has a set
    /// pixel on the screen cell `cell`. Columns wrap at the right edge and
    /// rows at the bottom edge.
    pub open spec fn sprite_covers(self, vx: u8, vy: u8, rows: u8, cell: int) -> bool {
        let col = sprite_col(vx, cell);
        let row = sprite_row(vy, cell);
        col < 8 && row < rows && sprite_bit(self.memory[self.index + row], col)
    }

    /// Whether drawing the sprite turns off the lit pixel at `cell`.
    pub open spec fn sprite_erases(self, vx: u8, vy: u8, rows: u8, cell: int) -> bool {
        0 <= cell < SCREEN_SIZE && self.screen[cell] && self.sprite_covers(vx, vy, rows, cell)
    }

    /// Whether drawing the sprite turns off any lit pixel.
    pub open spec fn sprite_collides(self, vx: u8, vy: u8, rows: u8) -> bool {
        exists|cell: int| #[trigger] self.sprite_erases(vx, vy, rows, cell)
    }

    /// The screen after the sprite has been drawn: every cell under a set
    /// sprite pixel is flipped.
    pub open spec fn drawn_screen(self, vx: u8, vy: u8, rows: u8) -> Seq<bool> {
        Seq::new(
            SCREEN_SIZE as nat,
            |cell: int| self.screen[cell] != self.sprite_covers(vx, vy, rows, cell),
        )
    }

    /// The sprite drawn at the position held in `Vx` and `Vy`, and the flag
    /// register set to 1 if that turned off a lit pixel, else to 0. A draw
    /// that would read past the end of memory is `OutOfRangeAccess`.
    pub open spec fn draw(self, x: int, y: int, rows: u8) -> Result<Machine, Chip8Error> {
        if rows > 0 && self.index + rows > RAM_SIZE {
            Err(Chip8Error::OutOfRangeAccess)
        } else {
            let vx = self.registers[x];
            let vy = self.registers[y];
            let flag = if self.sprite_collides(vx, vy, rows) {
                1u8
            } else {
                0u8
            };
            Ok(
                Machine {
                    screen: self.drawn_screen(vx, vy, rows),
                    registers: self.registers.update(FLAG_REG as int, flag),
                    ..self
                },
            )
        }
    }

    /// The lowest pressed key stored in `Vx`; with no key pressed, the
    /// program counter moved back onto the instruction, so that it runs
    /// again.
    pub open spec fn wait_key(self, x: int) -> Machine {
        let key = first_pressed(self.keys, 0);
        if key < NUM_KEYS {
            self.with_register(x, key as u8)
        } else {
            Machine { pc: wrap16(self.pc - 2), ..self }
        }
    }

    /// The three decimal digits of `Vx` stored at the index register and the
    /// two cells after it.
    pub open spec fn store_decimal(self, x: int) -> Result<Machine, Chip8Error> {
        if self.index + 2 >= RAM_SIZE {
            Err(Chip8Error::OutOfRangeAccess)
        } else {
            let (hundreds, tens, ones) = decimal_digits(self.registers[x]);
            Ok(
                Machine {
                    memory: self.memory.update(self.index as int, hundreds).update(
                        self.index + 1,
                        tens,
                    ).update(self.index + 2, ones),
                    ..self
                },
            )
        }
    }

    /// The registers `V0..=Vx` copied to memory from the index register on.
    pub open spec fn store_registers(self, x: int) -> Result<Machine, Chip8Error> {
        if self.index + x >= RAM_SIZE {
            Err(Chip8Error::OutOfRangeAccess)
        } else {
            Ok(
                Machine {
                    memory: Seq::new(
                        RAM_SIZE as nat,
                        |a: int|
                            if self.index <= a <= self.index + x {
                                self.registers[a - self.index]
                            } else {
                                self.memory[a]
                            },
                    ),
                    ..self
                },
            )
        }
    }

    /// The registers `V0..=Vx` filled from memory from the index register
    /// on.
    pub open spec fn load_registers(self, x: int) -> Result<Machine, Chip8Error> {
        if self.index + x >= RAM_SIZE {
            Err(Chip8Error::OutOfRangeAccess)
        } else {
            Ok(
                Machine {
                    registers: Seq::new(
                        NUM_REGS as nat,
                        |i: int|
                            if i <= x {
                                self.memory[self.index + i]
                            } else {
                                self.registers[i]
                            },
                    ),
                    ..self
                },
            )
        }
    }

    /// The effect of one instruction on a machine whose program counter has
    /// already moved past it. `random` is the byte that the random
    /// instruction uses; no other instruction looks at it.
    ///
    /// An instruction whose operands are out of range, or that would touch a
    /// memory cell or a key that does not exist, is `OutOfRangeAccess`.
    pub open spec fn execute(self, instr: Instruction, random: u8) -> Result<
        Machine,
        Chip8Error,
    > {
        if !instr.valid() {
            Err(Chip8Error::OutOfRangeAccess)
        } else {
            match instr {
                Instruction::Nop => Ok(self),
                Instruction::ClearScreen => Ok(
                    Machine { screen: Seq::new(SCREEN_SIZE as nat, |i: int| false), ..self },
                ),
                Instruction::Return => if self.stack.len() == 0 {
                    Err(Chip8Error::StackUnderflow)
                } else {
                    Ok(Machine { pc: self.stack.last(), stack: self.stack.drop_last(), ..self })
                },
                Instruction::Jump { addr } => Ok(Machine { pc: addr, ..self }),
                Instruction::Call { addr } => if self.stack.len() >= STACK_SIZE {
                    Err(Chip8Error::StackOverflow)
                } else {
                    Ok(Machine { pc: addr, stack: self.stack.push(self.pc), ..self })
                },
                Instruction::SkipIfEqual { x, byte } => Ok(
                    self.skip_if(self.registers[x as int] == byte),
                ),
                Instruction::SkipIfNotEqual { x, byte } => Ok(
                    self.skip_if(self.registers[x as int] != byte),
                ),
                Instruction::SkipIfRegistersEqual { x, y } => Ok(
                    self.skip_if(self.registers[x as int] == self.registers[y as int]),
                ),
                Instruction::Load { x, byte } => Ok(self.with_register(x as int, byte)),
                Instruction::AddByte { x, byte } => Ok(
                    self.with_register(x as int, wrap8(self.registers[x as int] + byte)),
                ),
                Instruction::Alu { op, x, y } => Ok(self.apply_alu(op, x as int, y as int)),
                Instruction::SkipIfRegistersDiffer { x, y } => Ok(
                    self.skip_if(self.registers[x as int] != self.registers[y as int]),
                ),
                Instruction::LoadIndex { addr } => Ok(Machine { index: addr, ..self }),
                Instruction::JumpOffset { addr } => Ok(
                    Machine { pc: (addr + self.registers[0]) as u16, ..self },
                ),
                Instruction::Random { x, byte } => Ok(self.with_register(x as int, random & byte)),
                Instruction::Draw { x, y, rows } => self.draw(x as int, y as int, rows),
                Instruction::SkipIfKeyPressed { x } => if self.registers[x as int] >= NUM_KEYS {
                    Err(Chip8Error::OutOfRangeAccess)
                } else {
                    Ok(self.skip_if(self.keys[self.registers[x as int] as int]))
                },
                Instruction::SkipIfKeyReleased { x } => if self.registers[x as int] >= NUM_KEYS {
                    Err(Chip8Error::OutOfRangeAccess)
                } else {
                    Ok(self.skip_if(!self.keys[self.registers[x as int] as int]))
                },
                Instruction::ReadDelay { x } => Ok(self.with_register(x as int, self.delay)),
                Instruction::WaitKey { x } => Ok(self.wait_key(x as int)),
                Instruction::SetDelay { x } => Ok(
                    Machine { delay: self.registers[x as int], ..self },
                ),
                Instruction::SetSound { x } => Ok(
                    Machine { sound: self.registers[x as int], ..self },
                ),
                Instruction::AddIndex { x } => Ok(
                    Machine { index: wrap16(self.index + self.registers[x as int]), ..self },
                ),
                Instruction::Glyph { x } => Ok(
                    Machine { index: (self.registers[x as int] * 5) as u16, ..self },
                ),
                Instruction::StoreDecimal { x } => self.store_decimal(x as int),
                Instruction::StoreRegisters { x } => self.store_registers(x as int),
                Instruction::LoadRegisters { x } => self.load_registers(x as int),
            }
        }
    }

    /// Whether the next step draws a random byte: the word at the program
    /// counter decodes to the random instruction.
    pub open spec fn draws_random(self) -> bool {
        match self.fetch() {
            Some(word) => decode_spec(word) matches Some(Instruction::Random { .. }),
            None => false,
        }
    }

    /// One fetch-decode-execute cycle: the word at the program counter is
    /// read, the program counter moves past it, and the instruction that the
    /// word encodes is executed.
    pub open spec fn step(self, random: u8) -> Result<Machine, Chip8Error> {
        match self.fetch() {
            None => Err(Chip8Error::OutOfRangeAccess),
            Some(word) => match decode_spec(word) {
                None => Err(Chip8Error::UnimplementedOpcode(word)),
                Some(instr) => Machine { pc: (self.pc + 2) as u16, ..self }.execute(
                    instr,
                    random,
                ),
            },
        }
    }

    /// How an operation that changes the machine in place relates to its
    /// model: where the model gives a next state, the operation succeeds and
    /// the machine is in that state; where the model gives an error, the
    /// operation reports that error and the machine is as it was. Either way
    /// the machine is well formed afterwards.
    pub open spec fn settles(
        self,
        modelled: Result<Machine, Chip8Error>,
        after: Machine,
        reported: Result<(), Chip8Error>,
    ) -> bool {
        &&& after.wf()
        &&& match modelled {
            Ok(next) => reported is Ok && after == next,
            Err(e) => reported == Err::<(), Chip8Error>(e) && after == self,
        }
    }
}

/// The byte handed to a step matters only where the step executes the random
/// instruction: every other step has the same outcome for any two bytes.
pub proof fn lemma_random_matters_to_random_only(s: Machine, a: u8, b: u8)
    requires
        !s.draws_random(),
    ensures
        s.step(a) == s.step(b),
{
}

/// On a ring of 64 columns, the column that lies `k` steps right of column
/// `v` is the only one whose distance from `v`, going right, is `k`.
proof fn lemma_wrap_columns(v: int, k: int, c: int)
    requires
        0 <= v < 256,
        0 <= k < 64,
        0 <= c < 64,
    ensures
        (c - v) % 64 == k <==> c == (v + k) % 64,
{
}

/// On a ring of 32 rows, the row that lies `k` steps below row `v` is the
/// only one whose distance from `v`, going down, is `k`.
proof fn lemma_wrap_rows(v: int, k: int, c: int)
    requires
        0 <= v < 256,
        0 <= k < 32,
        0 <= c < 32,
    ensures
        (c - v) % 32 == k <==> c == (v + k) % 32,
{
}

/// The sprite pixel in column `col` of row `row` falls on exactly one screen
/// cell, the one that lies `col` columns right of the sprite's left edge and
/// `row` rows below its top edge, wrapping at the edges of the screen.
pub proof fn lemma_pixel_cell(vx: u8, vy: u8, row: int, col: int)
    requires
        0 <= row < 32,
        0 <= col < 64,
    ensures
        ({
            let cell = cell_at((vx + col) % 64, (vy + row) % 32);
            &&& 0 <= cell < SCREEN_SIZE
            &&& sprite_col(vx, cell) == col
            &&& sprite_row(vy, cell) == row
            &&& forall|c: int|
                #![trigger sprite_col(vx, c), sprite_row(vy, c)]
                0 <= c < SCREEN_SIZE && sprite_col(vx, c) == col && sprite_row(vy, c) == row
                    ==> c == cell
        }),
{
    let px = (vx + col) % 64;
    let py = (vy + row) % 32;
    let cell = cell_at(px, py);
    lemma_wrap_columns(vx as int, col, px);
    lemma_wrap_rows(vy as int, row, py);
    assert forall|c: int|
        #![trigger sprite_col(vx, c), sprite_row(vy, c)]
        0 <= c < SCREEN_SIZE && sprite_col(vx, c) == col && sprite_row(vy, c) == row implies c
            == cell by {
        lemma_wrap_columns(vx as int, col, c % 64);
        lemma_wrap_rows(vy as int, row, c / 64);
    }
}

} // verus!
