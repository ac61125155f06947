use vstd::prelude::*;
use crate::framebuffer::{col_of, composited, row_of, sprite_pixel, under_sprite, CELLS};
use crate::opcode::{decoded, Opcode};
use crate::semantics::{
    fetched, first_pressed, initial, step, ticked, Fault, MachineView, Outcome, MEMORY_SIZE,
};

verus! {

/// Drawing the same sprite twice at the same place gives the display back as it
/// was: every cell that the first draw lit, the second turns off again. The
/// second draw reports a collision exactly when the first lit some cell, and the
/// first reports one exactly when the sprite met a cell that was already lit. The sprite's registers must not be the flag
/// register, which the first draw overwrites.
pub proof fn lemma_draw_twice_restores(m: MachineView, op: Opcode, rnd: u8)
    requires
        m.wf(),
        op.wf(),
        op.c == 0xD,
        op.x != 15,
        op.y != 15,
        step(m, op, rnd).1 is Ok,
    ensures
        ({
            let ox = (m.vars[op.x as int] % 64) as int;
            let oy = (m.vars[op.y as int] % 32) as int;
            let first = step(m, op, rnd);
            let second = step(first.0, op, rnd);
            &&& second.1 == Ok::<Outcome, Fault>(Outcome::Drew)
            &&& second.0.screen == m.screen
            &&& (first.0.vars[15] == 1 <==> exists|k: int|
                under_sprite(ox, oy, op.n as int, k) && #[trigger] m.screen[k] && sprite_pixel(
                    m.memory,
                    m.i as int,
                    ox,
                    oy,
                    k,
                ))
            &&& (second.0.vars[15] == 1 <==> exists|k: int|
                under_sprite(ox, oy, op.n as int, k) && !#[trigger] m.screen[k] && sprite_pixel(
                    m.memory,
                    m.i as int,
                    ox,
                    oy,
                    k,
                ))
        }),
{
    let ox = (m.vars[op.x as int] % 64) as int;
    let oy = (m.vars[op.y as int] % 32) as int;
    let h = op.n as int;
    let a = m.i as int;
    let m1 = step(m, op, rnd).0;
    assert(m1.vars[op.x as int] == m.vars[op.x as int]);
    assert(m1.vars[op.y as int] == m.vars[op.y as int]);
    let s2 = composited(m1.screen, m.memory, a, ox, oy, h);
    assert(s2 =~= m.screen);
    let m2 = step(m1, op, rnd).0;
    assert(m2.screen == s2);
    if exists|k: int|
        under_sprite(ox, oy, h, k) && !#[trigger] m.screen[k] && sprite_pixel(m.memory, a, ox, oy, k) {
        let k = choose|k: int|
            under_sprite(ox, oy, h, k) && !#[trigger] m.screen[k] && sprite_pixel(
                m.memory,
                a,
                ox,
                oy,
                k,
            );
        assert(m1.screen[k]);
    }
}

/// Drawing never wraps: a cell left of the sprite's origin column or above its
/// origin row keeps its state, whatever the sprite holds.
pub proof fn lemma_draw_clips(m: MachineView, op: Opcode, rnd: u8, k: int)
    requires
        m.wf(),
        op.wf(),
        op.c == 0xD,
        0 <= k < CELLS,
        col_of(k) < m.vars[op.x as int] % 64 || row_of(k) < m.vars[op.y as int] % 32,
    ensures
        step(m, op, rnd).0.screen[k] == m.screen[k],
{
}

/// Clearing the display twice leaves it dark, as it was at switch-on, and the
/// second clear changes nothing.
pub proof fn lemma_clear_twice(m: MachineView, rnd1: u8, rnd2: u8)
    requires
        m.wf(),
    ensures
        ({
            let op = decoded(0x00, 0xE0);
            let first = step(m, op, rnd1).0;
            let second = step(first, op, rnd2).0;
            &&& second.screen == initial().screen
            &&& second == first
        }),
{
    let op = decoded(0x00, 0xE0);
    assert(op.c == 0 && op.nnn == 0x0E0);
    let first = step(m, op, rnd1).0;
    let second = step(first, op, rnd2).0;
    assert(second.screen =~= initial().screen);
    assert(second =~= first);
}

/// With no key down, fetching and executing a key-wait instruction leaves the
/// program counter where it was, so the same instruction runs again, and nothing
/// changes but the waiting mark.
pub proof fn lemma_wait_holds_pc(m: MachineView, rnd: u8)
    requires
        m.wf(),
        m.pc + 1 < MEMORY_SIZE,
        m.memory[m.pc as int] / 16 == 0xF,
        m.memory[m.pc + 1] == 0x0A,
        forall|k: int| 0 <= k < 16 ==> !#[trigger] m.keys[k],
    ensures
        ({
            let f = fetched(m);
            let e = step(f.0, f.1->Ok_0, rnd);
            &&& f.1 is Ok
            &&& e.1 == Ok::<Outcome, Fault>(Outcome::Done)
            &&& e.0 == (MachineView { waiting: true, ..m })
        }),
{
    lemma_none_pressed(m.keys, 0);
}

/// Once a key is down, fetching and executing a key-wait instruction stores the
/// lowest key that is down and moves on past the instruction.
pub proof fn lemma_wait_takes_key(m: MachineView, rnd: u8, key: int)
    requires
        m.wf(),
        m.pc + 1 < MEMORY_SIZE,
        m.memory[m.pc as int] / 16 == 0xF,
        m.memory[m.pc + 1] == 0x0A,
        0 <= key < 16,
        m.keys[key],
        forall|j: int| 0 <= j < key ==> !#[trigger] m.keys[j],
    ensures
        ({
            let f = fetched(m);
            let op = f.1->Ok_0;
            let e = step(f.0, op, rnd);
            &&& f.1 is Ok
            &&& e.1 == Ok::<Outcome, Fault>(Outcome::Done)
            &&& e.0.pc == m.pc + 2
            &&& e.0.vars == m.vars.update(op.x as int, key as u8)
            &&& !e.0.waiting
        }),
{
    lemma_lowest_pressed(m.keys, 0, key);
}

proof fn lemma_none_pressed(keys: Seq<bool>, from: int)
    requires
        0 <= from <= 16,
        keys.len() == 16,
        forall|k: int| 0 <= k < 16 ==> !#[trigger] keys[k],
    ensures
        first_pressed(keys, from) == 16,
    decreases 16 - from,
{
    if from < 16 {
        lemma_none_pressed(keys, from + 1);
    }
}

proof fn lemma_lowest_pressed(keys: Seq<bool>, from: int, key: int)
    requires
        0 <= from <= key < 16,
        keys.len() == 16,
        keys[key],
        forall|j: int| 0 <= j < key ==> !#[trigger] keys[j],
    ensures
        first_pressed(keys, from) == key,
    decreases key - from,
{
    if from < key {
        lemma_lowest_pressed(keys, from + 1, key);
    }
}

/// A timer tick never takes a timer below zero: one at zero stays at zero, and
/// one above zero goes down by exactly one.
pub proof fn lemma_tick_floor(m: MachineView)
    ensures
        m.delay == 0 ==> ticked(m).delay == 0,
        m.sound == 0 ==> ticked(m).sound == 0,
        m.delay > 0 ==> ticked(m).delay == m.delay - 1,
        m.sound > 0 ==> ticked(m).sound == m.sound - 1,
{
}

} // verus!
