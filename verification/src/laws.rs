//! Laws of the instruction set, proved of the model.

use vstd::prelude::*;
use crate::alu::{alu_spec, AluOp};
use crate::error::Chip8Error;
use crate::instruction::{decode_spec, Instruction};
use crate::model::{
    cell_at, first_pressed, lemma_pixel_cell, sprite_bit, Machine, FLAG_REG, MAX_PROGRAM_SIZE,
    NUM_KEYS, NUM_REGS, RAM_SIZE, SCREEN_SIZE, STACK_SIZE, START_ADDR,
};

verus! {

/// The machine starts out well formed.
pub proof fn lemma_initial_is_wf()
    ensures
        Machine::initial().wf(),
{
}

/// Every operation takes a well-formed machine to a well-formed machine.
pub proof fn lemma_operations_preserve_wf(
    s: Machine,
    instr: Instruction,
    random: u8,
    data: Seq<u8>,
    key: int,
    pressed: bool,
)
    requires
        s.wf(),
    ensures
        s.execute(instr, random) matches Ok(next) ==> next.wf(),
        s.step(random) matches Ok(next) ==> next.wf(),
        s.load(data) matches Ok(next) ==> next.wf(),
        s.set_key(key, pressed) matches Ok(next) ==> next.wf(),
        s.advance_timers().wf(),
{
}

/// A register-to-register operation that defines a flag leaves that flag in
/// the flag register whichever registers it works on, the flag register
/// included; one that defines none leaves the flag register alone unless it
/// is the target.
pub proof fn lemma_flag_is_written_last(s: Machine, op: AluOp, x: int, y: int)
    requires
        s.wf(),
        0 <= x < NUM_REGS,
        0 <= y < NUM_REGS,
    ensures
        ({
            let (value, flag) = alu_spec(op, s.registers[x], s.registers[y]);
            let after = s.apply_alu(op, x, y);
            &&& flag matches Some(f) ==> after.registers[FLAG_REG as int] == f
            &&& flag is None && x != FLAG_REG ==> after.registers[FLAG_REG as int]
                == s.registers[FLAG_REG as int]
            &&& flag is None || x != FLAG_REG ==> after.registers[x] == value
        }),
{
}

/// A register changes only where the instruction names it as its target or,
/// for the flag register, where the instruction defines a flag.
pub proof fn lemma_registers_change_only_as_named(
    s: Machine,
    instr: Instruction,
    random: u8,
    reg: int,
)
    requires
        s.wf(),
        0 <= reg < NUM_REGS,
        !instr.targets(reg),
        reg == FLAG_REG ==> !instr.defines_flag(),
    ensures
        s.execute(instr, random) matches Ok(next) ==> next.registers[reg] == s.registers[reg],
{
}

/// An instruction that defines a flag leaves 0 or 1 in the flag register.
pub proof fn lemma_flag_is_a_bit(s: Machine, instr: Instruction, random: u8)
    requires
        s.wf(),
        instr.defines_flag(),
    ensures
        s.execute(instr, random) matches Ok(next) ==> next.registers[FLAG_REG as int] <= 1,
{
}

/// Only the sprite draw and the screen clear change the picture; only the
/// two store instructions change memory; no instruction changes a key.
pub proof fn lemma_instructions_keep_to_their_part(s: Machine, instr: Instruction, random: u8)
    requires
        s.wf(),
    ensures
        s.execute(instr, random) matches Ok(next) ==> {
            &&& !instr.paints() ==> next.screen == s.screen
            &&& !instr.stores_to_memory() ==> next.memory == s.memory
            &&& next.keys == s.keys
        },
        s.step(random) matches Ok(next) ==> next.keys == s.keys,
{
}

/// The timers change nothing but the timers, setting a key changes nothing
/// but that key, and loading a program changes nothing but memory from the
/// start address on: the glyph table and everything else below the start
/// address stay as they are.
pub proof fn lemma_host_operations_keep_to_their_part(
    s: Machine,
    data: Seq<u8>,
    key: int,
    pressed: bool,
)
    requires
        s.wf(),
    ensures
        s.advance_timers() == (Machine {
            delay: s.advance_timers().delay,
            sound: s.advance_timers().sound,
            ..s
        }),
        s.set_key(key, pressed) matches Ok(next) ==> next == (Machine { keys: next.keys, ..s })
            && forall|k: int| 0 <= k < NUM_KEYS && k != key ==> next.keys[k] == s.keys[k],
        s.load(data) matches Ok(next) ==> next == (Machine { memory: next.memory, ..s })
            && forall|a: int|
            0 <= a < START_ADDR || START_ADDR + data.len() <= a < RAM_SIZE ==> next.memory[a]
                == s.memory[a],
{
}

/// A call followed at once by a return comes back to the instruction after
/// the call, with the stack as it was.
pub proof fn lemma_return_undoes_call(s: Machine, addr: u16, random: u8)
    requires
        s.wf(),
        addr < 0x1000,
        s.stack.len() < STACK_SIZE,
    ensures
        s.execute(Instruction::Call { addr }, random) is Ok,
        s.execute(Instruction::Call { addr }, random)->Ok_0.execute(Instruction::Return, random)
            == Ok::<Machine, Chip8Error>(s),
{
    let called = s.execute(Instruction::Call { addr }, random)->Ok_0;
    assert(called.stack.drop_last() =~= s.stack);
}

/// Loading a block of registers is the inverse of storing it: whatever has
/// happened to the registers in between, loading `V0..=Vx` from where they
/// were stored brings their stored values back.
pub proof fn lemma_load_undoes_store(s: Machine, t: Machine, x: usize, random: u8)
    requires
        s.wf(),
        t.wf(),
        x < NUM_REGS,
        s.execute(Instruction::StoreRegisters { x }, random) matches Ok(stored) && t.memory
            == stored.memory,
        t.index == s.index,
    ensures
        t.execute(Instruction::LoadRegisters { x }, random) matches Ok(loaded) && forall|i: int|
            0 <= i <= x ==> loaded.registers[i] == s.registers[i],
{
}

/// `first_pressed` gives the least index of a pressed key at or after
/// `from`, and the number of keys exactly when there is none.
pub proof fn lemma_first_pressed_is_least(keys: Seq<bool>, from: int)
    requires
        0 <= from <= keys.len(),
    ensures
        from <= first_pressed(keys, from) <= keys.len(),
        first_pressed(keys, from) < keys.len() ==> keys[first_pressed(keys, from)],
        forall|j: int| from <= j < first_pressed(keys, from) ==> !keys[j],
    decreases keys.len() - from,
{
    if from < keys.len() && !keys[from] {
        lemma_first_pressed_is_least(keys, from + 1);
    }
}

/// Clearing the screen succeeds and leaves no pixel lit.
pub proof fn lemma_clear_screen_blanks(s: Machine, random: u8)
    requires
        s.wf(),
    ensures
        s.execute(Instruction::ClearScreen, random) is Ok,
        s.execute(Instruction::ClearScreen, random)->Ok_0.screen.len() == SCREEN_SIZE,
        forall|cell: int|
            0 <= cell < SCREEN_SIZE ==> !s.execute(
                Instruction::ClearScreen,
                random,
            )->Ok_0.screen[cell],
{
}

/// A program of at least one instruction word that fits is loaded, and the
/// word then fetched at the start address is made of its first two bytes,
/// the first one high.
pub proof fn lemma_loaded_program_is_fetched(s: Machine, data: Seq<u8>)
    requires
        s.wf(),
        s.pc == START_ADDR,
        2 <= data.len() <= MAX_PROGRAM_SIZE,
    ensures
        s.load(data) is Ok,
        s.load(data)->Ok_0.fetch() == Some((data[0] * 256 + data[1]) as u16),
{
}

/// A program that does not fit is refused, whatever the machine holds.
pub proof fn lemma_oversized_program_is_refused(s: Machine, data: Seq<u8>)
    requires
        data.len() > MAX_PROGRAM_SIZE,
    ensures
        s.load(data) == Err::<Machine, Chip8Error>(Chip8Error::LoadTooLarge),
{
}

/// While no key is pressed, a step on the key-wait instruction changes
/// nothing at all: the program counter is back where it was.
pub proof fn lemma_wait_key_blocks(s: Machine, x: usize, random: u8)
    requires
        s.wf(),
        s.fetch() matches Some(word) && decode_spec(word) == Some(Instruction::WaitKey { x }),
        forall|k: int| 0 <= k < NUM_KEYS ==> !s.keys[k],
    ensures
        s.step(random) == Ok::<Machine, Chip8Error>(s),
{
    lemma_first_pressed_is_least(s.keys, 0);
}

/// With a key pressed, a step on the key-wait instruction stores the lowest
/// pressed key in the target register and goes on to the next instruction.
pub proof fn lemma_wait_key_takes_lowest(s: Machine, x: usize, key: int, random: u8)
    requires
        s.wf(),
        s.fetch() matches Some(word) && decode_spec(word) == Some(Instruction::WaitKey { x }),
        0 <= key < NUM_KEYS,
        s.keys[key],
        forall|k: int| 0 <= k < key ==> !s.keys[k],
    ensures
        s.step(random) == Ok::<Machine, Chip8Error>(
            Machine {
                pc: (s.pc + 2) as u16,
                registers: s.registers.update(x as int, key as u8),
                ..s
            },
        ),
{
    lemma_first_pressed_is_least(s.keys, 0);
}

/// The leftmost pixel of a sprite row is its most significant bit: the
/// pixel in column `col` is the binary digit of weight `2^(7 - col)`.
pub proof fn lemma_sprite_bit_counts_from_the_left(row: u8, col: u8)
    requires
        col < 8,
    ensures
        sprite_bit(row, col as int) == ((row >> ((7 - col) as u8)) % 2 == 1),
        col == 0 ==> sprite_bit(row, col as int) == (row >= 128),
        col == 7 ==> sprite_bit(row, col as int) == (row % 2 == 1),
{
    assert((row & (0x80u8 >> col) != 0) == ((row >> ((7 - col) as u8)) % 2 == 1)) by (bit_vector)
        requires
            col < 8,
    ;
    assert(row >> 7u8 == row / 128) by (bit_vector);
    assert(row >> 0u8 == row) by (bit_vector);
}

/// A sprite wraps at the edges of the screen: its pixel in column `col` of
/// row `row` lands `col` columns right of `vx` and `row` rows below `vy`,
/// counted modulo the width and the height, and drawing flips that cell
/// exactly when the pixel is set.
pub proof fn lemma_sprite_wraps(s: Machine, vx: u8, vy: u8, rows: u8, row: int, col: int)
    requires
        s.wf(),
        rows < 16,
        0 <= row < rows,
        0 <= col < 8,
    ensures
        ({
            let cell = cell_at((vx + col) % 64, (vy + row) % 32);
            let pixel = sprite_bit(s.memory[s.index + row], col);
            &&& 0 <= cell < SCREEN_SIZE
            &&& s.sprite_covers(vx, vy, rows, cell) == pixel
            &&& s.drawn_screen(vx, vy, rows)[cell] == (s.screen[cell] != pixel)
        }),
{
    lemma_pixel_cell(vx, vy, row, col);
}

/// Drawing is its own inverse: a second draw of the same sprite at the same
/// place puts the screen back as it was before the first. The pair changes
/// nothing but the flag register, and the second draw reports a collision
/// exactly when the first one lit a pixel.
///
/// The position registers must not be the flag register, which the first
/// draw overwrites.
pub proof fn lemma_draw_twice_restores_screen(
    s: Machine,
    x: usize,
    y: usize,
    rows: u8,
    random: u8,
)
    requires
        s.wf(),
        x < FLAG_REG,
        y < FLAG_REG,
        rows < 16,
        s.execute(Instruction::Draw { x, y, rows }, random) is Ok,
    ensures
        ({
            let draw = Instruction::Draw { x, y, rows };
            let once = s.execute(draw, random)->Ok_0;
            let vx = s.registers[x as int];
            let vy = s.registers[y as int];
            let lights = exists|cell: int|
                0 <= cell < SCREEN_SIZE && !s.screen[cell] && #[trigger] s.sprite_covers(
                    vx,
                    vy,
                    rows,
                    cell,
                );
            &&& once.execute(draw, random) is Ok
            &&& once.execute(draw, random)->Ok_0 == Machine {
                registers: s.registers.update(
                    FLAG_REG as int,
                    if lights {
                        1u8
                    } else {
                        0u8
                    },
                ),
                ..s
            }
        }),
{
    let draw = Instruction::Draw { x, y, rows };
    let once = s.execute(draw, random)->Ok_0;
    let vx = s.registers[x as int];
    let vy = s.registers[y as int];
    assert forall|cell: int| 0 <= cell < SCREEN_SIZE implies #[trigger] once.sprite_covers(
        vx,
        vy,
        rows,
        cell,
    ) == s.sprite_covers(vx, vy, rows, cell) by {}
    let twice = once.execute(draw, random)->Ok_0;
    let lights = exists|cell: int|
        0 <= cell < SCREEN_SIZE && !s.screen[cell] && #[trigger] s.sprite_covers(
            vx,
            vy,
            rows,
            cell,
        );
    if once.sprite_collides(vx, vy, rows) {
        let cell = choose|cell: int| #[trigger] once.sprite_erases(vx, vy, rows, cell);
        assert(!s.screen[cell] && s.sprite_covers(vx, vy, rows, cell));
    }
    if lights {
        let cell = choose|cell: int|
            0 <= cell < SCREEN_SIZE && !s.screen[cell] && #[trigger] s.sprite_covers(
                vx,
                vy,
                rows,
                cell,
            );
        assert(once.sprite_erases(vx, vy, rows, cell));
    }
    assert(twice.registers =~= s.registers.update(
        FLAG_REG as int,
        if lights {
            1u8
        } else {
            0u8
        },
    ));
}

} // verus!
