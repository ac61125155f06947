use vstd::prelude::*;
use crate::framebuffer::{collides, composited, visible_rows, CELLS};
use crate::opcode::{decoded, Opcode};

verus! {

/// Bytes of addressable memory.
pub const MEMORY_SIZE: usize = 4096;

/// Address at which a program image is placed and execution starts.
pub const PROGRAM_START: u16 = 0x200;

/// Number of general registers, and of keys on the keypad.
pub const REGISTERS: usize = 16;

/// Bytes of one built-in font glyph.
pub const GLYPH_BYTES: u16 = 5;

/// A condition that stops the run: the program is malformed.
#[derive(Clone, Copy, Debug, PartialEq, Eq, Structural)]
pub enum Fault {
    /// Return with an empty call stack.
    EmptyStack,
    /// The program counter points past the last whole instruction word.
    PcOutOfRange,
    /// The index register points to a block that runs past the end of memory.
    IndexOutOfRange,
}

/// What an executed instruction asks of the machine's surroundings.
#[derive(Clone, Copy, Debug, PartialEq, Eq, Structural)]
pub enum Outcome {
    /// Nothing beyond the state change.
    Done,
    /// The display was cleared and should be repainted.
    Cleared,
    /// A sprite was drawn and the display should be repainted.
    Drew,
    /// The word is no instruction this machine knows; it was skipped.
    Unrecognized,
}

/// The machine as a mathematical value.
pub struct MachineView {
    pub memory: Seq<u8>,
    pub screen: Seq<bool>,
    pub pc: u16,
    pub i: u16,
    pub stack: Seq<u16>,
    pub vars: Seq<u8>,
    pub keys: Seq<bool>,
    pub delay: u8,
    pub sound: u8,
    pub waiting: bool,
}

impl MachineView {
    /// Memory, display, registers and keypad have their fixed sizes.
    pub open spec fn wf(self) -> bool {
        &&& self.memory.len() == MEMORY_SIZE
        &&& self.screen.len() == CELLS
        &&& self.vars.len() == REGISTERS
        &&& self.keys.len() == REGISTERS
    }
}

/// The built-in hexadecimal font: five rows per glyph, glyphs 0 to F.
pub open spec fn font() -> Seq<u8> {
    seq![
        0xF0u8, 0x90, 0x90, 0x90, 0xF0,
        0x20, 0x60, 0x20, 0x20, 0x70,
        0xF0, 0x10, 0xF0, 0x80, 0xF0,
        0xF0, 0x10, 0xF0, 0x10, 0xF0,
        0x90, 0x90, 0xF0, 0x10, 0x10,
        0xF0, 0x80, 0xF0, 0x10, 0xF0,
        0xF0, 0x80, 0xF0, 0x90, 0xF0,
        0xF0, 0x10, 0x20, 0x40, 0x40,
        0xF0, 0x90, 0xF0, 0x90, 0xF0,
        0xF0, 0x90, 0xF0, 0x10, 0xF0,
        0xF0, 0x90, 0xF0, 0x90, 0x90,
        0xE0, 0x90, 0xE0, 0x90, 0xE0,
        0xF0, 0x80, 0x80, 0x80, 0xF0,
        0xE0, 0x90, 0x90, 0x90, 0xE0,
        0xF0, 0x80, 0xF0, 0x80, 0xF0,
        0xF0, 0x80, 0xF0, 0x80, 0x80,
    ]
}

/// The machine as it is switched on: the font at address 0, the rest of memory
/// zero, a dark display, execution and the index at the program start.
pub open spec fn initial() -> MachineView {
    MachineView {
        memory: font() + Seq::new((MEMORY_SIZE - 80) as nat, |k: int| 0u8),
        screen: Seq::new(CELLS as nat, |k: int| false),
        pc: PROGRAM_START,
        i: PROGRAM_START,
        stack: Seq::empty(),
        vars: Seq::new(REGISTERS as nat, |k: int| 0u8),
        keys: Seq::new(REGISTERS as nat, |k: int| false),
        delay: 0,
        sound: 0,
        waiting: false,
    }
}

/// `m` after a program image is placed at the program start.
pub open spec fn loaded(m: MachineView, rom: Seq<u8>) -> MachineView {
    MachineView {
        memory: Seq::new(
            m.memory.len(),
            |a: int|
                if PROGRAM_START <= a < PROGRAM_START + rom.len() {
                    rom[a - PROGRAM_START]
                } else {
                    m.memory[a]
                },
        ),
        pc: PROGRAM_START,
        i: PROGRAM_START,
        ..m
    }
}

/// `m` after one timer tick: each timer above zero goes down by one.
pub open spec fn ticked(m: MachineView) -> MachineView {
    MachineView {
        delay: if m.delay > 0 { (m.delay - 1) as u8 } else { 0 },
        sound: if m.sound > 0 { (m.sound - 1) as u8 } else { 0 },
        ..m
    }
}

/// Fetching: the word at the program counter, which moves on by two.
pub open spec fn fetched(m: MachineView) -> (MachineView, Result<Opcode, Fault>) {
    if m.pc as int + 1 >= MEMORY_SIZE {
        (m, Err(Fault::PcOutOfRange))
    } else {
        (
            MachineView { pc: (m.pc + 2) as u16, ..m },
            Ok(decoded(m.memory[m.pc as int], m.memory[m.pc + 1])),
        )
    }
}

/// The flag register's value for a condition.
pub open spec fn flag(b: bool) -> u8 {
    if b { 1 } else { 0 }
}

/// The lowest key at or after `from` that is down, or 16 when none is.
pub open spec fn first_pressed(keys: Seq<bool>, from: int) -> int
    decreases 16 - from,
{
    if from >= 16 {
        16
    } else if keys[from] {
        from
    } else {
        first_pressed(keys, from + 1)
    }
}

/// Whether the key named by register value `v` is down; a value above F names no key.
pub open spec fn key_down(m: MachineView, v: u8) -> bool {
    v < 16 && m.keys[v as int]
}

/// A step that completes with no request to the surroundings.
pub open spec fn done(m: MachineView) -> (MachineView, Result<Outcome, Fault>) {
    (m, Ok(Outcome::Done))
}

/// Register `x` takes `v`.
pub open spec fn set_var(m: MachineView, x: u8, v: u8) -> MachineView {
    MachineView { vars: m.vars.update(x as int, v), ..m }
}

/// Register `x` takes `v` after the flag register takes the flag of `carry`.
pub open spec fn set_flagged(m: MachineView, x: u8, carry: bool, v: u8) -> MachineView {
    MachineView { vars: m.vars.update(15, flag(carry)).update(x as int, v), ..m }
}

/// The program counter moves past the next instruction when `cond` holds.
pub open spec fn skip_if(m: MachineView, cond: bool) -> (MachineView, Result<Outcome, Fault>) {
    if cond {
        done(MachineView { pc: m.pc.wrapping_add(2), ..m })
    } else {
        done(m)
    }
}

/// The register-to-register family `8xyn`.
pub open spec fn step_alu(m: MachineView, op: Opcode) -> (MachineView, Result<Outcome, Fault>) {
    let vx = m.vars[op.x as int];
    let vy = m.vars[op.y as int];
    if op.n == 0x0 {
        done(set_var(m, op.x, vy))
    } else if op.n == 0x1 {
        done(set_var(m, op.x, vx | vy))
    } else if op.n == 0x2 {
        done(set_var(m, op.x, vx & vy))
    } else if op.n == 0x3 {
        done(set_var(m, op.x, vx ^ vy))
    } else if op.n == 0x4 {
        done(set_flagged(m, op.x, vx + vy > 255, ((vx + vy) % 256) as u8))
    } else if op.n == 0x5 {
        done(set_flagged(m, op.x, vx > vy, ((vx - vy + 256) % 256) as u8))
    } else if op.n == 0x6 {
        done(set_flagged(m, op.x, vx % 2 == 1, vx / 2))
    } else if op.n == 0x7 {
        done(set_flagged(m, op.x, vy > vx, ((vy - vx + 256) % 256) as u8))
    } else if op.n == 0xE {
        done(set_flagged(m, op.x, vx >= 128, ((vx * 2) % 256) as u8))
    } else {
        (m, Ok(Outcome::Unrecognized))
    }
}

/// `Dxyn`: the sprite of `n` rows at the index register, drawn at `(Vx mod 64, Vy mod 32)`.
pub open spec fn step_draw(m: MachineView, op: Opcode) -> (MachineView, Result<Outcome, Fault>) {
    let ox = m.vars[op.x as int] % 64;
    let oy = m.vars[op.y as int] % 32;
    if m.i + visible_rows(oy as int, op.n as int) > MEMORY_SIZE {
        (m, Err(Fault::IndexOutOfRange))
    } else {
        (
            MachineView {
                screen: composited(m.screen, m.memory, m.i as int, ox as int, oy as int, op.n as int),
                vars: m.vars.update(
                    15,
                    flag(collides(m.screen, m.memory, m.i as int, ox as int, oy as int, op.n as int)),
                ),
                ..m
            },
            Ok(Outcome::Drew),
        )
    }
}

/// Memory with the decimal digits of `v` written at `at`: hundreds, tens, ones.
pub open spec fn with_digits(memory: Seq<u8>, at: int, v: u8) -> Seq<u8> {
    memory.update(at, v / 100).update(at + 1, (v / 10) % 10).update(at + 2, v % 10)
}

/// Memory with `vals` written from `at` on.
pub open spec fn with_block(memory: Seq<u8>, at: int, vals: Seq<u8>) -> Seq<u8> {
    Seq::new(
        memory.len(),
        |a: int|
            if at <= a < at + vals.len() {
                vals[a - at]
            } else {
                memory[a]
            },
    )
}

/// The family `Fxnn`: timers, index arithmetic, key wait and memory blocks.
pub open spec fn step_misc(m: MachineView, op: Opcode) -> (MachineView, Result<Outcome, Fault>) {
    let vx = m.vars[op.x as int];
    if op.nn == 0x07 {
        done(set_var(m, op.x, m.delay))
    } else if op.nn == 0x0A {
        let k = first_pressed(m.keys, 0);
        if k < 16 {
            done(MachineView { vars: m.vars.update(op.x as int, k as u8), waiting: false, ..m })
        } else {
            done(MachineView { pc: m.pc.wrapping_sub(2), waiting: true, ..m })
        }
    } else if op.nn == 0x15 {
        done(MachineView { delay: vx, ..m })
    } else if op.nn == 0x18 {
        done(MachineView { sound: vx, ..m })
    } else if op.nn == 0x1E {
        done(MachineView { i: m.i.wrapping_add(vx as u16), ..m })
    } else if op.nn == 0x29 {
        done(MachineView { i: ((vx % 16) * 5) as u16, ..m })
    } else if op.nn == 0x33 {
        if m.i + 3 > MEMORY_SIZE {
            (m, Err(Fault::IndexOutOfRange))
        } else {
            done(MachineView { memory: with_digits(m.memory, m.i as int, vx), ..m })
        }
    } else if op.nn == 0x55 {
        if m.i + 16 > MEMORY_SIZE {
            (m, Err(Fault::IndexOutOfRange))
        } else {
            done(MachineView { memory: with_block(m.memory, m.i as int, m.vars), ..m })
        }
    } else if op.nn == 0x65 {
        if m.i + 16 > MEMORY_SIZE {
            (m, Err(Fault::IndexOutOfRange))
        } else {
            done(MachineView { vars: m.memory.subrange(m.i as int, m.i + 16), ..m })
        }
    } else {
        (m, Ok(Outcome::Unrecognized))
    }
}

/// Executing one decoded instruction; `rnd` is the random byte that `Cxnn` masks.
pub open spec fn step(m: MachineView, op: Opcode, rnd: u8) -> (MachineView, Result<
    Outcome,
    Fault,
>) {
    let vx = m.vars[op.x as int];
    let vy = m.vars[op.y as int];
    if op.c == 0x0 {
        if op.nnn == 0x0E0 {
            (MachineView { screen: Seq::new(CELLS as nat, |k: int| false), ..m }, Ok(Outcome::Cleared))
        } else if op.nnn == 0x0EE {
            if m.stack.len() == 0 {
                (m, Err(Fault::EmptyStack))
            } else {
                done(MachineView { pc: m.stack.last(), stack: m.stack.drop_last(), ..m })
            }
        } else {
            (m, Ok(Outcome::Unrecognized))
        }
    } else if op.c == 0x1 {
        done(MachineView { pc: op.nnn, ..m })
    } else if op.c == 0x2 {
        done(MachineView { pc: op.nnn, stack: m.stack.push(m.pc), ..m })
    } else if op.c == 0x3 {
        skip_if(m, vx == op.nn)
    } else if op.c == 0x4 {
        skip_if(m, vx != op.nn)
    } else if op.c == 0x5 {
        skip_if(m, vx == vy)
    } else if op.c == 0x6 {
        done(set_var(m, op.x, op.nn))
    } else if op.c == 0x7 {
        done(set_var(m, op.x, ((vx + op.nn) % 256) as u8))
    } else if op.c == 0x8 {
        step_alu(m, op)
    } else if op.c == 0x9 {
        skip_if(m, vx != vy)
    } else if op.c == 0xA {
        done(MachineView { i: op.nnn, ..m })
    } else if op.c == 0xB {
        done(MachineView { pc: (op.nnn + m.vars[0]) as u16, ..m })
    } else if op.c == 0xC {
        done(set_var(m, op.x, op.nn & rnd))
    } else if op.c == 0xD {
        step_draw(m, op)
    } else if op.c == 0xE {
        if op.nn == 0x9E {
            skip_if(m, key_down(m, vx))
        } else if op.nn == 0xA1 {
            skip_if(m, !key_down(m, vx))
        } else {
            (m, Ok(Outcome::Unrecognized))
        }
    } else {
        step_misc(m, op)
    }
}

} // verus!
