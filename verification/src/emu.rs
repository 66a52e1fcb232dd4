//! The interpreter: the machine state and the operations that a front end
//! drives it with.

use vstd::prelude::*;
use crate::alu::{alu, bcd};
use crate::error::Chip8Error;
use crate::font::{FONTSET, FONTSET_SIZE};
use crate::instruction::{decode, Instruction};
use crate::model::{
    first_pressed, lemma_pixel_cell, lemma_random_matters_to_random_only, sprite_col, sprite_row,
    Machine, FLAG_REG, MAX_PROGRAM_SIZE, NUM_KEYS, NUM_REGS, RAM_SIZE, SCREEN_HEIGHT,
    SCREEN_SIZE, SCREEN_WIDTH, STACK_SIZE, START_ADDR,
};
use crate::rng::random_byte;

verus! {

/// A CHIP-8 virtual machine.
///
/// The state is private. A front end loads a program, then calls
/// [`Emu::tick`] a number of times per frame and [`Emu::tick_timers`] once
/// per frame, sets keys with [`Emu::keypress`] and reads the picture with
/// [`Emu::get_display`].
pub struct Emu {
    pc: u16,
    ram: [u8; RAM_SIZE],
    screen: [bool; SCREEN_SIZE],
    v_regs: [u8; NUM_REGS],
    i_reg: u16,
    stack: [u16; STACK_SIZE],
    sp: u16,
    keys: [bool; NUM_KEYS],
    dt: u8,
    st: u8,
}

impl View for Emu {
    type V = Machine;

    /// The machine state as the model sees it. Of the stack only the slots
    /// below the stack pointer are part of the state.
    closed spec fn view(&self) -> Machine {
        Machine {
            pc: self.pc,
            memory: self.ram@,
            registers: self.v_regs@,
            index: self.i_reg,
            stack: self.stack@.take(self.sp as int),
            keys: self.keys@,
            screen: self.screen@,
            delay: self.dt,
            sound: self.st,
        }
    }
}

impl Emu {
    #[verifier::type_invariant]
    spec fn stack_pointer_in_range(&self) -> bool {
        self.sp <= STACK_SIZE
    }

    /// All of the state but the screen is the same in both machines.
    closed spec fn same_but_screen(&self, other: &Emu) -> bool {
        &&& self.pc == other.pc
        &&& self.ram == other.ram
        &&& self.v_regs == other.v_regs
        &&& self.i_reg == other.i_reg
        &&& self.stack == other.stack
        &&& self.sp == other.sp
        &&& self.keys == other.keys
        &&& self.dt == other.dt
        &&& self.st == other.st
    }

    /// All of the state but memory is the same in both machines.
    closed spec fn same_but_memory(&self, other: &Emu) -> bool {
        &&& self.pc == other.pc
        &&& self.screen == other.screen
        &&& self.v_regs == other.v_regs
        &&& self.i_reg == other.i_reg
        &&& self.stack == other.stack
        &&& self.sp == other.sp
        &&& self.keys == other.keys
        &&& self.dt == other.dt
        &&& self.st == other.st
    }

    /// All of the state but the registers is the same in both machines.
    closed spec fn same_but_registers(&self, other: &Emu) -> bool {
        &&& self.pc == other.pc
        &&& self.ram == other.ram
        &&& self.screen == other.screen
        &&& self.i_reg == other.i_reg
        &&& self.stack == other.stack
        &&& self.sp == other.sp
        &&& self.keys == other.keys
        &&& self.dt == other.dt
        &&& self.st == other.st
    }

    /// Writes the glyph table to the bottom of memory.
    fn seed_font(&mut self)
        ensures
            final(self).same_but_memory(old(self)),
            forall|a: int| 0 <= a < FONTSET_SIZE ==> final(self).ram[a] == FONTSET[a],
            forall|a: int| FONTSET_SIZE <= a < RAM_SIZE ==> final(self).ram[a] == old(self).ram[a],
    {
        proof {
            use_type_invariant(&*self);
        }
        let mut a: usize = 0;
        while a < FONTSET_SIZE
            invariant
                a <= FONTSET_SIZE,
                self.sp <= STACK_SIZE,
                self.same_but_memory(old(self)),
                forall|b: int| 0 <= b < a ==> self.ram[b] == FONTSET[b],
                forall|b: int| FONTSET_SIZE <= b < RAM_SIZE ==> self.ram[b] == old(self).ram[b],
            decreases FONTSET_SIZE - a,
        {
            self.ram[a] = FONTSET[a];
            a += 1;
        }
    }

    /// Creates a machine in its initial state.
    pub fn new() -> (emu: Self)
        ensures
            emu@ == Machine::initial(),
            emu@.wf(),
    {
        let mut new_emu = Emu {
            pc: START_ADDR,
            ram: [0u8;RAM_SIZE],
            screen: [false;SCREEN_SIZE],
            v_regs: [0u8;NUM_REGS],
            i_reg: 0,
            stack: [0u16;STACK_SIZE],
            sp: 0,
            keys: [false;NUM_KEYS],
            dt: 0,
            st: 0,
        };
        new_emu.seed_font();
        new_emu
    }

    /// Puts the machine back into its initial state.
    pub fn reset(&mut self)
        ensures
            final(self)@ == Machine::initial(),
            final(self)@.wf(),
    {
        proof {
            use_type_invariant(&*self);
        }
        self.pc = START_ADDR;
        self.ram = [0u8;RAM_SIZE];
        self.screen = [false;SCREEN_SIZE];
        self.v_regs = [0u8;NUM_REGS];
        self.i_reg = 0;
        self.stack = [0u16;STACK_SIZE];
        self.sp = 0;
        self.keys = [false;NUM_KEYS];
        self.dt = 0;
        self.st = 0;
        self.seed_font();
    }

    /// Moves both timers one tick towards zero and tells whether sound is
    /// due for this tick, which is the case exactly when the sound timer
    /// goes from 1 to 0.
    pub fn tick_timers(&mut self) -> (emitted: bool)
        ensures
            final(self)@ == old(self)@.advance_timers(),
            final(self)@.wf(),
            emitted == old(self)@.emits_sound(),
    {
        proof {
            use_type_invariant(&*self);
        }
        if self.dt > 0 {
            self.dt -= 1;
        }
        let mut emitted = false;
        if self.st > 0 {
            if self.st == 1 {
                emitted = true;
            }
            self.st -= 1;
        }
        emitted
    }

    /// Reads the instruction word at the program counter, high byte first.
    fn peek(&self) -> (word: Option<u16>)
        ensures
            word == self@.fetch(),
    {
        let pc = self.pc as usize;
        if pc + 1 >= RAM_SIZE {
            return None;
        }
        let higher_byte = self.ram[pc] as u16;
        let lower_byte = self.ram[pc + 1] as u16;
        assert((higher_byte << 8) | lower_byte == higher_byte * 256 + lower_byte) by (bit_vector)
            requires
                higher_byte < 256,
                lower_byte < 256,
        ;
        Some((higher_byte << 8) | lower_byte)
    }

    /// Reads the instruction word at the program counter, high byte first,
    /// and moves the program counter past it.
    ///
    /// Where one of the two bytes lies outside memory, nothing is read and
    /// nothing moves.
    pub fn fetch(&mut self) -> (r: Result<u16, Chip8Error>)
        ensures
            match old(self)@.fetch() {
                Some(word) => r == Ok::<u16, Chip8Error>(word) && final(self)@ == (Machine {
                    pc: (old(self)@.pc + 2) as u16,
                    ..old(self)@
                }),
                None => r == Err::<u16, Chip8Error>(Chip8Error::OutOfRangeAccess) && final(self)@
                    == old(self)@,
            },
            final(self)@.wf(),
    {
        proof {
            use_type_invariant(&*self);
        }
        match self.peek() {
            Some(op) => {
                self.pc += 2;
                Ok(op)
            },
            None => Err(Chip8Error::OutOfRangeAccess),
        }
    }

    /// Puts a return address on the call stack.
    pub fn push(&mut self, val: u16) -> (r: Result<(), Chip8Error>)
        ensures
            old(self)@.settles(
                if old(self)@.stack.len() < STACK_SIZE {
                    Ok(Machine { stack: old(self)@.stack.push(val), ..old(self)@ })
                } else {
                    Err(Chip8Error::StackOverflow)
                },
                final(self)@,
                r,
            ),
    {
        proof {
            use_type_invariant(&*self);
        }
        if self.sp as usize >= STACK_SIZE {
            return Err(Chip8Error::StackOverflow);
        }
        self.stack[self.sp as usize] = val;
        self.sp += 1;
        assert(self@.stack =~= old(self)@.stack.push(val));
        Ok(())
    }

    /// Takes the most recent return address off the call stack.
    pub fn pop(&mut self) -> (r: Result<u16, Chip8Error>)
        ensures
            if old(self)@.stack.len() > 0 {
                r == Ok::<u16, Chip8Error>(old(self)@.stack.last()) && final(self)@ == (Machine {
                    stack: old(self)@.stack.drop_last(),
                    ..old(self)@
                })
            } else {
                r == Err::<u16, Chip8Error>(Chip8Error::StackUnderflow) && final(self)@
                    == old(self)@
            },
            final(self)@.wf(),
    {
        proof {
            use_type_invariant(&*self);
        }
        if self.sp == 0 {
            return Err(Chip8Error::StackUnderflow);
        }
        self.sp -= 1;
        Ok(self.stack[self.sp as usize])
    }

    /// The picture: 64 by 32 pixels in row-major order, `true` for a lit
    /// pixel.
    pub fn get_display(&self) -> (display: &[bool])
        ensures
            display@ == self@.screen,
            display@.len() == SCREEN_SIZE,
    {
        &self.screen
    }

    /// The address of the next instruction.
    pub fn program_counter(&self) -> (pc: u16)
        ensures
            pc == self@.pc,
    {
        self.pc
    }

    /// The index register.
    pub fn index_register(&self) -> (index: u16)
        ensures
            index == self@.index,
    {
        self.i_reg
    }

    /// The sixteen general registers; the last one is the flag register.
    pub fn registers(&self) -> (registers: &[u8])
        ensures
            registers@ == self@.registers,
            registers@.len() == NUM_REGS,
    {
        &self.v_regs
    }

    /// The whole of memory.
    pub fn memory(&self) -> (memory: &[u8])
        ensures
            memory@ == self@.memory,
            memory@.len() == RAM_SIZE,
    {
        &self.ram
    }

    /// The state of the sixteen keys, `true` for a key that is down.
    pub fn keys(&self) -> (keys: &[bool])
        ensures
            keys@ == self@.keys,
            keys@.len() == NUM_KEYS,
    {
        &self.keys
    }

    /// The number of calls in progress, which is sixteen at most.
    pub fn stack_depth(&self) -> (depth: usize)
        ensures
            depth == self@.stack.len(),
            self@.wf(),
    {
        proof {
            use_type_invariant(self);
        }
        self.sp as usize
    }

    /// The delay timer.
    pub fn delay_timer(&self) -> (delay: u8)
        ensures
            delay == self@.delay,
    {
        self.dt
    }

    /// The sound timer.
    pub fn sound_timer(&self) -> (sound: u8)
        ensures
            sound == self@.sound,
    {
        self.st
    }

    /// Sets the key `idx` down or up.
    pub fn keypress(&mut self, idx: usize, pressed: bool) -> (r: Result<(), Chip8Error>)
        ensures
            old(self)@.settles(old(self)@.set_key(idx as int, pressed), final(self)@, r),
    {
        proof {
            use_type_invariant(&*self);
        }
        if idx >= NUM_KEYS {
            return Err(Chip8Error::OutOfRangeKeyIndex);
        }
        self.keys[idx] = pressed;
        Ok(())
    }

    /// Copies a program image into memory, starting at the start address.
    ///
    /// An image that does not fit is refused and memory is left alone.
    pub fn load(&mut self, data: &[u8]) -> (r: Result<(), Chip8Error>)
        ensures
            old(self)@.settles(old(self)@.load(data@), final(self)@, r),
    {
        proof {
            use_type_invariant(&*self);
        }
        if data.len() > MAX_PROGRAM_SIZE {
            return Err(Chip8Error::LoadTooLarge);
        }
        let start = START_ADDR as usize;
        let mut i: usize = 0;
        while i < data.len()
            invariant
                i <= data.len() <= MAX_PROGRAM_SIZE,
                start == START_ADDR,
                self.sp <= STACK_SIZE,
                self.same_but_memory(old(self)),
                forall|a: int| start <= a < start + i ==> self.ram[a] == data[a - start],
                forall|a: int|
                    0 <= a < start || start + i <= a < RAM_SIZE ==> self.ram[a] == old(self).ram[a],
            decreases data.len() - i,
        {
            self.ram[start + i] = data[i];
            i += 1;
        }
        assert(self@ =~= old(self)@.load(data@)->Ok_0);
        Ok(())
    }

    /// Moves the program counter past the next instruction if `condition`
    /// holds.
    fn skip_if(&mut self, condition: bool)
        ensures
            final(self)@ == old(self)@.skip_if(condition),
    {
        proof {
            use_type_invariant(&*self);
        }
        if condition {
            self.pc = self.pc.wrapping_add(2);
        }
    }

    /// Sets the register `x`.
    fn set_register(&mut self, x: usize, value: u8)
        requires
            x < NUM_REGS,
        ensures
            final(self)@ == old(self)@.with_register(x as int, value),
    {
        proof {
            use_type_invariant(&*self);
        }
        self.v_regs[x] = value;
    }

    /// Draws the sprite of `rows` rows that starts at the index register to
    /// the position held in `Vx` and `Vy`, flipping the pixels under its set
    /// bits, and records in the flag register whether a lit pixel went out.
    fn draw_sprite(&mut self, x: usize, y: usize, rows: u8) -> (r: Result<(), Chip8Error>)
        requires
            x < NUM_REGS,
            y < NUM_REGS,
            rows < 16,
        ensures
            old(self)@.settles(old(self)@.draw(x as int, y as int, rows), final(self)@, r),
    {
        proof {
            use_type_invariant(&*self);
        }
        let n = rows as usize;
        let base = self.i_reg as usize;
        if n > 0 && base + n > RAM_SIZE {
            return Err(Chip8Error::OutOfRangeAccess);
        }
        let vx: u8 = self.v_regs[x];
        let vy: u8 = self.v_regs[y];
        let x_coord = vx as usize;
        let y_coord = vy as usize;
        let ghost before = old(self)@;
        let mut flipped = false;
        let mut y_line: usize = 0;
        while y_line < n
            invariant
                y_line <= n,
                n == rows,
                rows < 16,
                base == self.i_reg,
                n > 0 ==> base + n <= RAM_SIZE,
                x_coord == vx,
                y_coord == vy,
                self.sp <= STACK_SIZE,
                self.same_but_screen(old(self)),
                before == old(self)@,
                forall|c: int|
                    0 <= c < SCREEN_SIZE ==> self.screen[c] == (before.screen[c] != (
                    before.sprite_covers(vx, vy, rows, c) && sprite_row(vy, c) < y_line)),
                flipped <==> exists|c: int| #[trigger]
                    erased_before(before, vx, vy, rows, y_line as int, 0, c),
            decreases n - y_line,
        {
            let pixels = self.ram[base + y_line];
            let mut x_line: u8 = 0;
            while x_line < 8
                invariant
                    x_line <= 8,
                    y_line < n,
                    n == rows,
                    rows < 16,
                    base == self.i_reg,
                    base + n <= RAM_SIZE,
                    x_coord == vx,
                    y_coord == vy,
                    self.sp <= STACK_SIZE,
                    self.same_but_screen(old(self)),
                    before == old(self)@,
                    pixels == before.memory[before.index + y_line],
                    forall|c: int|
                        0 <= c < SCREEN_SIZE ==> self.screen[c] == (before.screen[c] != (
                        before.sprite_covers(vx, vy, rows, c) && painted(
                            vx,
                            vy,
                            y_line as int,
                            x_line as int,
                            c,
                        ))),
                    flipped <==> exists|c: int| #[trigger]
                        erased_before(before, vx, vy, rows, y_line as int, x_line as int, c),
                decreases 8 - x_line,
            {
                let px = (x_coord + x_line as usize) % SCREEN_WIDTH;
                let py = (y_coord + y_line) % SCREEN_HEIGHT;
                let idx = px + SCREEN_WIDTH * py;
                let ghost was_flipped = flipped;
                proof {
                    lemma_pixel_cell(vx, vy, y_line as int, x_line as int);
                }
                let lit = pixels & (0x80u8 >> x_line) != 0;
                if lit {
                    if self.screen[idx] {
                        flipped = true;
                    }
                    self.screen[idx] = !self.screen[idx];
                }
                proof {
                    let r = y_line as int;
                    let k = x_line as int;
                    let k1 = k + 1;
                    assert forall|c: int| 0 <= c < SCREEN_SIZE implies #[trigger] painted(
                        vx,
                        vy,
                        r,
                        k1,
                        c,
                    ) == (painted(vx, vy, r, k, c) || c == idx) by {}
                    assert forall|c: int| #[trigger]
                        erased_before(before, vx, vy, rows, r, k1, c) == (erased_before(
                            before,
                            vx,
                            vy,
                            rows,
                            r,
                            k,
                            c,
                        ) || (c == idx && lit && before.screen[c])) by {}
                    if flipped {
                        if was_flipped {
                            let c = choose|c: int| #[trigger]
                                erased_before(before, vx, vy, rows, r, k, c);
                            assert(erased_before(before, vx, vy, rows, r, k1, c));
                        } else {
                            assert(erased_before(before, vx, vy, rows, r, k1, idx as int));
                        }
                    }
                }
                x_line += 1;
            }
            proof {
                let r = y_line as int;
                let r1 = r + 1;
                assert forall|c: int| #[trigger]
                    erased_before(before, vx, vy, rows, r1, 0, c) == erased_before(
                        before,
                        vx,
                        vy,
                        rows,
                        r,
                        8,
                        c,
                    ) by {}
                if flipped {
                    let c = choose|c: int| #[trigger] erased_before(before, vx, vy, rows, r, 8, c);
                    assert(erased_before(before, vx, vy, rows, r1, 0, c));
                }
            }
            y_line += 1;
        }
        proof {
            assert forall|c: int|
                erased_before(before, vx, vy, rows, rows as int, 0, c) == before.sprite_erases(
                    vx,
                    vy,
                    rows,
                    c,
                ) by {}
            if flipped {
                let c = choose|c: int| #[trigger]
                    erased_before(before, vx, vy, rows, rows as int, 0, c);
                assert(before.sprite_erases(vx, vy, rows, c));
            }
        }
        if flipped {
            self.v_regs[0xF] = 1;
        } else {
            self.v_regs[0xF] = 0;
        }
        assert(self@ =~= before.draw(x as int, y as int, rows)->Ok_0);
        Ok(())
    }

    /// Finds the pressed key with the lowest index.
    fn first_pressed_key(&self) -> (k: Option<u8>)
        ensures
            match k {
                Some(key) => key < NUM_KEYS && key == first_pressed(self@.keys, 0),
                None => first_pressed(self@.keys, 0) == NUM_KEYS,
            },
    {
        let mut i: usize = 0;
        while i < NUM_KEYS
            invariant
                i <= NUM_KEYS,
                first_pressed(self.keys@, 0) == first_pressed(self.keys@, i as int),
            decreases NUM_KEYS - i,
        {
            if self.keys[i] {
                return Some(i as u8);
            }
            i += 1;
        }
        None
    }

    /// Stores the lowest pressed key in `Vx`, or moves the program counter
    /// back onto the instruction if no key is pressed.
    fn wait_key(&mut self, x: usize)
        requires
            x < NUM_REGS,
        ensures
            final(self)@ == old(self)@.wait_key(x as int),
    {
        proof {
            use_type_invariant(&*self);
        }
        match self.first_pressed_key() {
            Some(key) => {
                self.v_regs[x] = key;
            },
            None => {
                self.pc = self.pc.wrapping_sub(2);
            },
        }
    }

    /// Stores the decimal digits of `Vx` at the index register and the two
    /// cells after it.
    fn store_decimal(&mut self, x: usize) -> (r: Result<(), Chip8Error>)
        requires
            x < NUM_REGS,
        ensures
            old(self)@.settles(old(self)@.store_decimal(x as int), final(self)@, r),
    {
        proof {
            use_type_invariant(&*self);
        }
        let i = self.i_reg as usize;
        if i + 2 >= RAM_SIZE {
            return Err(Chip8Error::OutOfRangeAccess);
        }
        let (hundreds, tens, ones) = bcd(self.v_regs[x]);
        self.ram[i] = hundreds;
        self.ram[i + 1] = tens;
        self.ram[i + 2] = ones;
        Ok(())
    }

    /// Copies the registers `V0..=Vx` to memory from the index register on.
    fn store_registers(&mut self, x: usize) -> (r: Result<(), Chip8Error>)
        requires
            x < NUM_REGS,
        ensures
            old(self)@.settles(old(self)@.store_registers(x as int), final(self)@, r),
    {
        proof {
            use_type_invariant(&*self);
        }
        let i = self.i_reg as usize;
        if i + x >= RAM_SIZE {
            return Err(Chip8Error::OutOfRangeAccess);
        }
        let mut idx: usize = 0;
        while idx <= x
            invariant
                idx <= x + 1,
                x < NUM_REGS,
                i == self.i_reg,
                i + x < RAM_SIZE,
                self.sp <= STACK_SIZE,
                self.same_but_memory(old(self)),
                forall|a: int| i <= a < i + idx ==> self.ram[a] == self.v_regs[a - i],
                forall|a: int|
                    0 <= a < RAM_SIZE && !(i <= a < i + idx) ==> self.ram[a] == old(self).ram[a],
            decreases x + 1 - idx,
        {
            self.ram[i + idx] = self.v_regs[idx];
            idx += 1;
        }
        assert(self@ =~= old(self)@.store_registers(x as int)->Ok_0);
        Ok(())
    }

    /// Fills the registers `V0..=Vx` from memory from the index register on.
    fn load_registers(&mut self, x: usize) -> (r: Result<(), Chip8Error>)
        requires
            x < NUM_REGS,
        ensures
            old(self)@.settles(old(self)@.load_registers(x as int), final(self)@, r),
    {
        proof {
            use_type_invariant(&*self);
        }
        let i = self.i_reg as usize;
        if i + x >= RAM_SIZE {
            return Err(Chip8Error::OutOfRangeAccess);
        }
        let mut idx: usize = 0;
        while idx <= x
            invariant
                idx <= x + 1,
                x < NUM_REGS,
                i == self.i_reg,
                i + x < RAM_SIZE,
                self.sp <= STACK_SIZE,
                self.same_but_registers(old(self)),
                forall|j: int| 0 <= j < idx ==> self.v_regs[j] == self.ram[i + j],
                forall|j: int| idx <= j < NUM_REGS ==> self.v_regs[j] == old(self).v_regs[j],
            decreases x + 1 - idx,
        {
            self.v_regs[idx] = self.ram[i + idx];
            idx += 1;
        }
        assert(self@ =~= old(self)@.load_registers(x as int)->Ok_0);
        Ok(())
    }

    /// Executes one instruction on a machine whose program counter has
    /// already moved past it.
    ///
    /// `random_byte` is what the random instruction stores, masked; no other
    /// instruction uses it. An instruction either takes full effect or, if
    /// it fails, none.
    pub fn execute(&mut self, instr: Instruction, random_byte: u8) -> (r: Result<(), Chip8Error>)
        ensures
            old(self)@.settles(old(self)@.execute(instr, random_byte), final(self)@, r),
    {
        proof {
            use_type_invariant(&*self);
        }
        if !instr.is_valid() {
            return Err(Chip8Error::OutOfRangeAccess);
        }
        match instr {
            Instruction::Nop => Ok(()),
            Instruction::ClearScreen => {
                self.screen = [false;SCREEN_SIZE];
                assert(self@ =~= old(self)@.execute(instr, random_byte)->Ok_0);
                Ok(())
            },
            Instruction::Return => {
                match self.pop() {
                    Ok(ret_addr) => {
                        proof {
                            use_type_invariant(&*self);
                        }
                        self.pc = ret_addr;
                        Ok(())
                    },
                    Err(e) => Err(e),
                }
            },
            Instruction::Jump { addr } => {
                self.pc = addr;
                Ok(())
            },
            Instruction::Call { addr } => {
                let pc = self.pc;
                match self.push(pc) {
                    Ok(()) => {
                        proof {
                            use_type_invariant(&*self);
                        }
                        self.pc = addr;
                        Ok(())
                    },
                    Err(e) => Err(e),
                }
            },
            Instruction::SkipIfEqual { x, byte } => {
                let condition = self.v_regs[x] == byte;
                self.skip_if(condition);
                Ok(())
            },
            Instruction::SkipIfNotEqual { x, byte } => {
                let condition = self.v_regs[x] != byte;
                self.skip_if(condition);
                Ok(())
            },
            Instruction::SkipIfRegistersEqual { x, y } => {
                let condition = self.v_regs[x] == self.v_regs[y];
                self.skip_if(condition);
                Ok(())
            },
            Instruction::Load { x, byte } => {
                self.set_register(x, byte);
                Ok(())
            },
            Instruction::AddByte { x, byte } => {
                let sum = self.v_regs[x].wrapping_add(byte);
                self.set_register(x, sum);
                Ok(())
            },
            Instruction::Alu { op, x, y } => {
                let (value, flag) = alu(op, self.v_regs[x], self.v_regs[y]);
                self.set_register(x, value);
                match flag {
                    Some(f) => self.set_register(FLAG_REG, f),
                    None => {},
                }
                Ok(())
            },
            Instruction::SkipIfRegistersDiffer { x, y } => {
                let condition = self.v_regs[x] != self.v_regs[y];
                self.skip_if(condition);
                Ok(())
            },
            Instruction::LoadIndex { addr } => {
                self.i_reg = addr;
                Ok(())
            },
            Instruction::JumpOffset { addr } => {
                self.pc = addr + (self.v_regs[0] as u16);
                Ok(())
            },
            Instruction::Random { x, byte } => {
                self.set_register(x, random_byte & byte);
                Ok(())
            },
            Instruction::Draw { x, y, rows } => self.draw_sprite(x, y, rows),
            Instruction::SkipIfKeyPressed { x } => {
                let vx = self.v_regs[x] as usize;
                if vx >= NUM_KEYS {
                    return Err(Chip8Error::OutOfRangeAccess);
                }
                let key = self.keys[vx];
                self.skip_if(key);
                Ok(())
            },
            Instruction::SkipIfKeyReleased { x } => {
                let vx = self.v_regs[x] as usize;
                if vx >= NUM_KEYS {
                    return Err(Chip8Error::OutOfRangeAccess);
                }
                let key = self.keys[vx];
                self.skip_if(!key);
                Ok(())
            },
            Instruction::ReadDelay { x } => {
                let dt = self.dt;
                self.set_register(x, dt);
                Ok(())
            },
            Instruction::WaitKey { x } => {
                self.wait_key(x);
                Ok(())
            },
            Instruction::SetDelay { x } => {
                self.dt = self.v_regs[x];
                Ok(())
            },
            Instruction::SetSound { x } => {
                self.st = self.v_regs[x];
                Ok(())
            },
            Instruction::AddIndex { x } => {
                self.i_reg = self.i_reg.wrapping_add(self.v_regs[x] as u16);
                Ok(())
            },
            Instruction::Glyph { x } => {
                let c = self.v_regs[x] as u16;
                self.i_reg = c * 5;
                Ok(())
            },
            Instruction::StoreDecimal { x } => self.store_decimal(x),
            Instruction::StoreRegisters { x } => self.store_registers(x),
            Instruction::LoadRegisters { x } => self.load_registers(x),
        }
    }

    /// Runs one fetch-decode-execute cycle. A random instruction uses the
    /// byte `given`, or draws one from the generator where none is given.
    fn cycle(&mut self, given: Option<u8>) -> (r: Result<(), Chip8Error>)
        ensures
            given matches Some(random) ==> old(self)@.settles(
                old(self)@.step(random),
                final(self)@,
                r,
            ),
            exists|random: u8| #[trigger]
                old(self)@.settles(old(self)@.step(random), final(self)@, r),
            !old(self)@.draws_random() ==> forall|random: u8| #[trigger]
                old(self)@.settles(old(self)@.step(random), final(self)@, r),
    {
        let ghost before = old(self)@;
        let ghost mut used: u8 = 0;
        let outcome = match self.fetch() {
            Ok(op) => {
                let outcome = match decode(op) {
                    Ok(instr) => {
                        let random: u8 = match given {
                            Some(random) => random,
                            None => match instr {
                                Instruction::Random { .. } => random_byte(),
                                _ => 0,
                            },
                        };
                        proof {
                            used = random;
                        }
                        self.execute(instr, random)
                    },
                    Err(e) => Err(e),
                };
                if outcome.is_err() {
                    proof {
                        use_type_invariant(&*self);
                    }
                    self.pc -= 2;
                }
                outcome
            },
            Err(e) => Err(e),
        };
        proof {
            assert(before.settles(before.step(used), self@, outcome));
            if !before.draws_random() {
                assert forall|random: u8| #[trigger]
                    before.settles(before.step(random), self@, outcome) by {
                    lemma_random_matters_to_random_only(before, used, random);
                }
            }
        }
        outcome
    }

    /// Runs one fetch-decode-execute cycle with `random_byte` as the byte
    /// that a random instruction would draw.
    ///
    /// If the cycle fails, the machine is left as it was, program counter
    /// included.
    pub fn tick_with(&mut self, random_byte: u8) -> (r: Result<(), Chip8Error>)
        ensures
            old(self)@.settles(old(self)@.step(random_byte), final(self)@, r),
    {
        self.cycle(Some(random_byte))
    }

    /// Runs one fetch-decode-execute cycle.
    ///
    /// A random instruction draws its byte from the thread-local generator
    /// of the `rand` crate, so its outcome is one of those that
    /// [`Emu::tick_with`] has for some byte. The outcome of every other
    /// instruction does not depend on a byte at all.
    ///
    /// If the cycle fails, the machine is left as it was, program counter
    /// included.
    pub fn tick(&mut self) -> (r: Result<(), Chip8Error>)
        ensures
            exists|random: u8| #[trigger]
                old(self)@.settles(old(self)@.step(random), final(self)@, r),
            !old(self)@.draws_random() ==> forall|random: u8| #[trigger]
                old(self)@.settles(old(self)@.step(random), final(self)@, r),
    {
        self.cycle(None)
    }
}

/// Whether the sprite pixel that falls on `cell` comes before the pixel in
/// column `col` of row `row`, in the order in which a sprite is drawn: row by
/// row, and each row from left to right.
spec fn painted(vx: u8, vy: u8, row: int, col: int, cell: int) -> bool {
    sprite_row(vy, cell) < row || (sprite_row(vy, cell) == row && sprite_col(vx, cell) < col)
}

/// Whether the lit pixel at `cell` has gone out by the time the drawing
/// reaches the pixel in column `col` of row `row`.
spec fn erased_before(m: Machine, vx: u8, vy: u8, rows: u8, row: int, col: int, cell: int) -> bool {
    m.sprite_erases(vx, vy, rows, cell) && painted(vx, vy, row, col, cell)
}

} // verus!
