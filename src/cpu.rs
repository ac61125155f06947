use vstd::prelude::*;
use crate::framebuffer::{composite, CELLS, HEIGHT, WIDTH};
use crate::opcode::Opcode;
use crate::semantics::{
    fetched, loaded, ticked,
    skip_if, Fault, Outcome, GLYPH_BYTES,
    first_pressed, font, initial, step, step_alu, step_draw, step_misc, with_block, MachineView, MEMORY_SIZE,
    PROGRAM_START, REGISTERS,
};

verus! {

/// The whole machine: memory, registers, call stack, keypad, timers and display.
pub struct State {
    memory: Vec<u8>,
    screen: Vec<bool>,
    pc: u16,
    i: u16,
    stack: Vec<u16>,
    vars: Vec<u8>,
    keys: Vec<bool>,
    delay: u8,
    sound: u8,
    waiting: bool,
}

impl View for State {
    type V = MachineView;

    closed spec fn view(&self) -> MachineView {
        MachineView {
            memory: self.memory@,
            screen: self.screen@,
            pc: self.pc,
            i: self.i,
            stack: self.stack@,
            vars: self.vars@,
            keys: self.keys@,
            delay: self.delay,
            sound: self.sound,
            waiting: self.waiting,
        }
    }
}

/// Turns every cell of the display off.
fn blank(screen: &mut Vec<bool>)
    requires
        old(screen)@.len() == CELLS,
    ensures
        final(screen)@ == Seq::new(CELLS as nat, |k: int| false),
{
    let mut k: usize = 0;
    while k < CELLS
        invariant
            screen@.len() == CELLS,
            k <= CELLS,
            forall|j: int| 0 <= j < k ==> !#[trigger] screen@[j],
        decreases CELLS - k,
    {
        screen.set(k, false);
        k = k + 1;
    }
    assert(screen@ =~= Seq::new(CELLS as nat, |k: int| false));
}

/// Writes `vals` into `memory` from `at` on.
fn write_block(memory: &mut Vec<u8>, at: usize, vals: &[u8])
    requires
        at + vals@.len() <= old(memory)@.len(),
    ensures
        final(memory)@ == with_block(old(memory)@, at as int, vals@),
{
    let ghost m0 = memory@;
    let len = memory.len();
    let mut k: usize = 0;
    while k < vals.len()
        invariant
            at + vals@.len() <= memory@.len(),
            memory@.len() == m0.len(),
            len == m0.len(),
            k <= vals@.len(),
            forall|a: int|
                0 <= a < m0.len() ==> #[trigger] memory@[a] == if at <= a < at + k {
                    vals@[a - at]
                } else {
                    m0[a]
                },
        decreases vals@.len() - k,
    {
        memory.set(at + k, vals[k]);
        k = k + 1;
    }
    assert(memory@ =~= with_block(m0, at as int, vals@));
}

/// The lowest key that is down, or 16 when none is.
fn lowest_pressed(keys: &Vec<bool>) -> (k: usize)
    requires
        keys@.len() == REGISTERS,
    ensures
        k as int == first_pressed(keys@, 0),
{
    let mut k: usize = 0;
    while k < REGISTERS && !keys[k]
        invariant
            keys@.len() == REGISTERS,
            k <= REGISTERS,
            first_pressed(keys@, 0) == first_pressed(keys@, k as int),
        decreases REGISTERS - k,
    {
        k = k + 1;
    }
    k
}

/// Relies on rand::random::<u8>: a byte from the thread-local generator, of which
/// nothing is promised (any of the 256 values may come). It panics only where the
/// operating system's entropy source cannot seed that generator.
#[verifier::external_body]
fn random_byte() -> u8 {
    rand::random::<u8>()
}

impl State {
    /// The machine as it is switched on: the font at address 0, execution at the
    /// program start.
    pub fn new() -> (r: Self)
        ensures
            r@ == initial(),
    {
        let glyphs: [u8; 80] = [
            0xF0, 0x90, 0x90, 0x90, 0xF0,
            0x20, 0x60, 0x20, 0x20, 0x70,
            0xF0, 0x10, 0xF0, 0x80, 0xF0,
            0xF0, 0x10, 0xF0, 0x10, 0xF0,
            0x90, 0x90, 0xF0, 0x10, 0x10,
            0xF0, 0x80, 0xF0, 0x10, 0xF0,
            0xF0, 0x80, 0xF0, 0x90, 0xF0,
            0xF0, 0x10, 0x20, 0x40, 0x40,
            0xF0, 0x90, 0xF0, 0x90, 0xF0,
            0xF0, 0x90, 0xF0, 0x10, 0xF0,
            0xF0, 0x90, 0xF0, 0x90, 0x90,
            0xE0, 0x90, 0xE0, 0x90, 0xE0,
            0xF0, 0x80, 0x80, 0x80, 0xF0,
            0xE0, 0x90, 0x90, 0x90, 0xE0,
            0xF0, 0x80, 0xF0, 0x80, 0xF0,
            0xF0, 0x80, 0xF0, 0x80, 0x80,
        ];
        assert(glyphs@ =~= font());
        let mut memory: Vec<u8> = vec![0u8; MEMORY_SIZE];
        write_block(&mut memory, 0, &glyphs);
        assert(memory@ =~= initial().memory);
        let r = State {
            memory,
            screen: vec![false; CELLS],
            pc: PROGRAM_START,
            i: PROGRAM_START,
            stack: Vec::new(),
            vars: vec![0u8; REGISTERS],
            keys: vec![false; REGISTERS],
            delay: 0,
            sound: 0,
            waiting: false,
        };
        assert(r@.screen =~= initial().screen);
        assert(r@.vars =~= initial().vars);
        assert(r@.keys =~= initial().keys);
        r
    }

    /// The arithmetic and logic family `8xyn`.
    fn exec_alu(&mut self, op: Opcode) -> (r: Result<Outcome, Fault>)
        requires
            old(self)@.wf(),
            op.wf(),
            op.c == 0x8,
        ensures
            (final(self)@, r) == step_alu(old(self)@, op),
    {
        let x = op.x as usize;
        let vx = self.vars[x];
        let vy = self.vars[op.y as usize];
        if op.n == 0x0 {
            self.vars.set(x, vy);
        } else if op.n == 0x1 {
            self.vars.set(x, vx | vy);
        } else if op.n == 0x2 {
            self.vars.set(x, vx & vy);
        } else if op.n == 0x3 {
            self.vars.set(x, vx ^ vy);
        } else if op.n == 0x4 {
            self.vars.set(15, if vx as u16 + vy as u16 > 255 { 1 } else { 0 });
            self.vars.set(x, vx.wrapping_add(vy));
        } else if op.n == 0x5 {
            self.vars.set(15, if vx > vy { 1 } else { 0 });
            self.vars.set(x, vx.wrapping_sub(vy));
        } else if op.n == 0x6 {
            assert(vx & 1u8 == vx % 2 && vx >> 1u8 == vx / 2) by (bit_vector);
            self.vars.set(15, vx & 1);
            self.vars.set(x, vx >> 1);
        } else if op.n == 0x7 {
            self.vars.set(15, if vy > vx { 1 } else { 0 });
            self.vars.set(x, vy.wrapping_sub(vx));
        } else if op.n == 0xE {
            assert(vx >> 7u8 == (if vx >= 128 { 1u8 } else { 0u8 })) by (bit_vector);
            assert(vx << 1u8 == ((vx * 2) % 256) as u8) by (bit_vector);
            self.vars.set(15, vx >> 7);
            self.vars.set(x, vx << 1);
        } else {
            return Ok(Outcome::Unrecognized);
        }
        Ok(Outcome::Done)
    }

    /// The sprite draw `Dxyn`.
    fn exec_draw(&mut self, op: Opcode) -> (r: Result<Outcome, Fault>)
        requires
            old(self)@.wf(),
            op.wf(),
            op.c == 0xD,
        ensures
            (final(self)@, r) == step_draw(old(self)@, op),
    {
        let ox = (self.vars[op.x as usize] % 64) as usize;
        let oy = (self.vars[op.y as usize] % 32) as usize;
        let rows = op.n as usize;
        let vis_rows: usize = if oy + rows <= HEIGHT {
            rows
        } else {
            HEIGHT - oy
        };
        if self.i as usize + vis_rows > MEMORY_SIZE {
            return Err(Fault::IndexOutOfRange);
        }
        let collided = composite(&mut self.screen, &self.memory, self.i as usize, ox, oy, rows);
        self.vars.set(15, if collided { 1 } else { 0 });
        Ok(Outcome::Drew)
    }

    /// The family `Fxnn`.
    fn exec_misc(&mut self, op: Opcode) -> (r: Result<Outcome, Fault>)
        requires
            old(self)@.wf(),
            op.wf(),
            op.c == 0xF,
        ensures
            (final(self)@, r) == step_misc(old(self)@, op),
    {
        let x = op.x as usize;
        let vx = self.vars[x];
        if op.nn == 0x07 {
            self.vars.set(x, self.delay);
        } else if op.nn == 0x0A {
            let k = lowest_pressed(&self.keys);
            if k < REGISTERS {
                self.vars.set(x, k as u8);
                self.waiting = false;
            } else {
                self.pc = self.pc.wrapping_sub(2);
                self.waiting = true;
            }
        } else if op.nn == 0x15 {
            self.delay = vx;
        } else if op.nn == 0x18 {
            self.sound = vx;
        } else if op.nn == 0x1E {
            self.i = self.i.wrapping_add(vx as u16);
        } else if op.nn == 0x29 {
            assert(vx & 0x0Fu8 == vx % 16) by (bit_vector);
            self.i = (vx & 0x0F) as u16 * GLYPH_BYTES;
        } else if op.nn == 0x33 {
            let at = self.i as usize;
            if at + 3 > MEMORY_SIZE {
                return Err(Fault::IndexOutOfRange);
            }
            self.memory.set(at, vx / 100);
            self.memory.set(at + 1, (vx / 10) % 10);
            self.memory.set(at + 2, vx % 10);
        } else if op.nn == 0x55 {
            let at = self.i as usize;
            if at + REGISTERS > MEMORY_SIZE {
                return Err(Fault::IndexOutOfRange);
            }
            write_block(&mut self.memory, at, self.vars.as_slice());
        } else if op.nn == 0x65 {
            let at = self.i as usize;
            if at + REGISTERS > MEMORY_SIZE {
                return Err(Fault::IndexOutOfRange);
            }
            let mut k: usize = 0;
            while k < REGISTERS
                invariant
                    self.memory@.len() == MEMORY_SIZE,
                    self.vars@.len() == REGISTERS,
                    at == self.i,
                    at + REGISTERS <= MEMORY_SIZE,
                    k <= REGISTERS,
                    self@ == (MachineView { vars: self.vars@, ..old(self)@ }),
                    forall|j: int|
                        0 <= j < REGISTERS ==> #[trigger] self.vars@[j] == if j < k {
                            self.memory@[at + j]
                        } else {
                            old(self)@.vars[j]
                        },
                decreases REGISTERS - k,
            {
                let b = self.memory[at + k];
                self.vars.set(k, b);
                k = k + 1;
            }
            assert(self.vars@ =~= old(self)@.memory.subrange(at as int, at + 16));
        } else {
            return Ok(Outcome::Unrecognized);
        }
        Ok(Outcome::Done)
    }

    fn skip_if(&mut self, cond: bool) -> (r: Result<Outcome, Fault>)
        ensures
            (final(self)@, r) == skip_if(old(self)@, cond),
    {
        if cond {
            self.pc = self.pc.wrapping_add(2);
        }
        Ok(Outcome::Done)
    }

    /// Executes one decoded instruction; `rnd` is the random byte that `Cxnn`
    /// masks with its immediate.
    pub fn execute(&mut self, op: Opcode, rnd: u8) -> (r: Result<Outcome, Fault>)
        requires
            old(self)@.wf(),
            op.wf(),
        ensures
            (final(self)@, r) == step(old(self)@, op, rnd),
            final(self)@.wf(),
    {
        let x = op.x as usize;
        let vx = self.vars[x];
        let vy = self.vars[op.y as usize];
        let r = if op.c == 0x0 {
            if op.nnn == 0x0E0 {
                blank(&mut self.screen);
                Ok(Outcome::Cleared)
            } else if op.nnn == 0x0EE {
                match self.stack.pop() {
                    Some(a) => {
                        self.pc = a;
                        Ok(Outcome::Done)
                    },
                    None => Err(Fault::EmptyStack),
                }
            } else {
                Ok(Outcome::Unrecognized)
            }
        } else if op.c == 0x1 {
            self.pc = op.nnn;
            Ok(Outcome::Done)
        } else if op.c == 0x2 {
            self.stack.push(self.pc);
            self.pc = op.nnn;
            Ok(Outcome::Done)
        } else if op.c == 0x3 {
            self.skip_if(vx == op.nn)
        } else if op.c == 0x4 {
            self.skip_if(vx != op.nn)
        } else if op.c == 0x5 {
            self.skip_if(vx == vy)
        } else if op.c == 0x6 {
            self.vars.set(x, op.nn);
            Ok(Outcome::Done)
        } else if op.c == 0x7 {
            self.vars.set(x, vx.wrapping_add(op.nn));
            Ok(Outcome::Done)
        } else if op.c == 0x8 {
            self.exec_alu(op)
        } else if op.c == 0x9 {
            self.skip_if(vx != vy)
        } else if op.c == 0xA {
            self.i = op.nnn;
            Ok(Outcome::Done)
        } else if op.c == 0xB {
            self.pc = op.nnn + self.vars[0] as u16;
            Ok(Outcome::Done)
        } else if op.c == 0xC {
            self.vars.set(x, op.nn & rnd);
            Ok(Outcome::Done)
        } else if op.c == 0xD {
            self.exec_draw(op)
        } else if op.c == 0xE {
            let down = vx < 16 && self.keys[vx as usize];
            if op.nn == 0x9E {
                self.skip_if(down)
            } else if op.nn == 0xA1 {
                self.skip_if(!down)
            } else {
                Ok(Outcome::Unrecognized)
            }
        } else {
            self.exec_misc(op)
        };
        assert(self@.stack =~= step(old(self)@, op, rnd).0.stack);
        r
    }

    /// Executes one decoded instruction, drawing the random byte that `Cxnn` needs.
    pub fn process(&mut self, code: Opcode) -> (r: Result<Outcome, Fault>)
        requires
            old(self)@.wf(),
            code.wf(),
        ensures
            exists|rnd: u8| (final(self)@, r) == step(old(self)@, code, rnd),
            code.c != 0xC ==> (final(self)@, r) == step(old(self)@, code, 0),
            final(self)@.wf(),
    {
        let rnd = if code.c == 0xC {
            random_byte()
        } else {
            0
        };
        let r = self.execute(code, rnd);
        assert((self@, r) == step(old(self)@, code, rnd));
        r
    }

    /// Reads the instruction word at the program counter and moves the counter
    /// past it.
    pub fn fetch(&mut self) -> (r: Result<Opcode, Fault>)
        requires
            old(self)@.wf(),
        ensures
            (final(self)@, r) == fetched(old(self)@),
            final(self)@.wf(),
    {
        let at = self.pc as usize;
        if at + 1 >= MEMORY_SIZE {
            return Err(Fault::PcOutOfRange);
        }
        let a = self.memory[at];
        let b = self.memory[at + 1];
        self.pc = self.pc + 2;
        Ok(Opcode::from(a, b))
    }

    /// One timer tick: each timer above zero goes down by one.
    pub fn decrement(&mut self)
        ensures
            final(self)@ == ticked(old(self)@),
    {
        if self.delay > 0 {
            self.delay = self.delay - 1;
        }
        if self.sound > 0 {
            self.sound = self.sound - 1;
        }
    }

    /// Records that keypad key `key` went down (`pressed`) or up.
    pub fn key_moved(&mut self, key: u8, pressed: bool)
        requires
            old(self)@.wf(),
            key < 16,
        ensures
            final(self)@ == (MachineView { keys: old(self)@.keys.update(key as int, pressed), ..old(self)@ }),
            final(self)@.wf(),
    {
        self.keys.set(key as usize, pressed);
    }

    /// Places a program image at the program start and points execution and the
    /// index register there.
    pub fn load_rom(&mut self, rom: &[u8])
        requires
            old(self)@.wf(),
            PROGRAM_START + rom@.len() <= MEMORY_SIZE,
        ensures
            final(self)@ == loaded(old(self)@, rom@),
            final(self)@.wf(),
    {
        write_block(&mut self.memory, PROGRAM_START as usize, rom);
        self.pc = PROGRAM_START;
        self.i = PROGRAM_START;
        assert(self@.memory =~= loaded(old(self)@, rom@).memory);
    }

    /// The program counter.
    pub fn pc(&self) -> (r: u16)
        ensures
            r == self@.pc,
    {
        self.pc
    }

    /// The index register.
    pub fn index(&self) -> (r: u16)
        ensures
            r == self@.i,
    {
        self.i
    }

    /// General register `x`.
    pub fn register(&self, x: u8) -> (r: u8)
        requires
            self@.wf(),
            x < 16,
        ensures
            r == self@.vars[x as int],
    {
        self.vars[x as usize]
    }

    /// The byte at address `addr`.
    pub fn memory_at(&self, addr: u16) -> (r: u8)
        requires
            self@.wf(),
            addr < MEMORY_SIZE,
        ensures
            r == self@.memory[addr as int],
    {
        self.memory[addr as usize]
    }

    /// Whether the display cell in column `x` and row `y` is lit.
    pub fn pixel(&self, x: usize, y: usize) -> (r: bool)
        requires
            self@.wf(),
            x < WIDTH,
            y < HEIGHT,
        ensures
            r == self@.screen[y * 64 + x],
    {
        self.screen[y * WIDTH + x]
    }

    /// Whether keypad key `key` is down.
    pub fn key(&self, key: u8) -> (r: bool)
        requires
            self@.wf(),
            key < 16,
        ensures
            r == self@.keys[key as int],
    {
        self.keys[key as usize]
    }

    /// The number of return addresses on the call stack.
    pub fn stack_depth(&self) -> (r: usize)
        ensures
            r == self@.stack.len(),
    {
        self.stack.len()
    }

    /// The delay timer.
    pub fn delay(&self) -> (r: u8)
        ensures
            r == self@.delay,
    {
        self.delay
    }

    /// The sound timer; the tone sounds while it is above zero.
    pub fn sound(&self) -> (r: u8)
        ensures
            r == self@.sound,
    {
        self.sound
    }

    /// Whether the last key-wait instruction found no key down.
    pub fn is_waiting(&self) -> (r: bool)
        ensures
            r == self@.waiting,
    {
        self.waiting
    }
}

} // verus!
