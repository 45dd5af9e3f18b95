use vstd::prelude::*;

use crate::cpu::{decode_spec, fetch, new_key, step, tick, Chip8Error, Keypad, MachineState, MEM_SIZE, VF};
use crate::display::{blit, collides, sprite_hits};

verus! {

/// The register fields of a word are nibbles.
pub proof fn lemma_decode_bounds(w: u16)
    ensures
        decode_spec(w).family < 16,
        decode_spec(w).x < 16,
        decode_spec(w).y < 16,
        decode_spec(w).n < 16,
        decode_spec(w).nnn < 4096,
{
    assert((w >> 12u16) < 16 && ((w >> 8u16) & 0xFu16) < 16 && ((w >> 4u16) & 0xFu16) < 16
        && (w & 0xFu16) < 16 && (w & 0xFFFu16) < 4096) by (bit_vector);
}

/// The word that the next step fetches.
pub open spec fn next_word(s: MachineState) -> u16 {
    fetch(s.mem, s.pc as int)
}

/// `8XY4` on any bytes a = VX and b = VY sets VF to 1 exactly when a + b > 255 and
/// leaves (a + b) mod 256 in VX. X is not F: there the sum overwrites the flag.
pub proof fn lemma_add_sets_carry(s: MachineState, keys: Keypad, rnd: u8)
    requires
        s.wf(),
        s.pc + 1 < MEM_SIZE,
        decode_spec(next_word(s)).family == 8,
        decode_spec(next_word(s)).n == 4,
        decode_spec(next_word(s)).x != 15,
    ensures
        ({
            let op = decode_spec(next_word(s));
            let a = s.v[op.x as int];
            let b = s.v[op.y as int];
            &&& step(s, keys, rnd) is Ok
            &&& step(s, keys, rnd)->Ok_0.v[VF as int] == (if a + b > 255 { 1u8 } else { 0u8 })
            &&& step(s, keys, rnd)->Ok_0.v[op.x as int] == (a + b) % 256
        }),
{
    lemma_decode_bounds(next_word(s));
}

/// `8XY5` on any bytes a = VX and b = VY sets VF to 1 exactly when a >= b and leaves
/// (a - b) mod 256 in VX. X is not F: there the difference overwrites the flag.
pub proof fn lemma_sub_sets_no_borrow(s: MachineState, keys: Keypad, rnd: u8)
    requires
        s.wf(),
        s.pc + 1 < MEM_SIZE,
        decode_spec(next_word(s)).family == 8,
        decode_spec(next_word(s)).n == 5,
        decode_spec(next_word(s)).x != 15,
    ensures
        ({
            let op = decode_spec(next_word(s));
            let a = s.v[op.x as int];
            let b = s.v[op.y as int];
            &&& step(s, keys, rnd) is Ok
            &&& step(s, keys, rnd)->Ok_0.v[VF as int] == (if a >= b { 1u8 } else { 0u8 })
            &&& step(s, keys, rnd)->Ok_0.v[op.x as int] == (a - b) % 256
        }),
{
    lemma_decode_bounds(next_word(s));
}

/// `FX0A` with no new key leaves the whole machine as it was, PC included, so every
/// later step presents the same instruction again; with a new key k it stores k in VX
/// and moves PC past the instruction.
pub proof fn lemma_wait_for_key(s: MachineState, keys: Keypad, rnd: u8)
    requires
        s.wf(),
        s.pc + 1 < MEM_SIZE,
        decode_spec(next_word(s)).family == 0xF,
        decode_spec(next_word(s)).nn == 0x0A,
    ensures
        new_key(keys) is None ==> step(s, keys, rnd) == Ok::<MachineState, Chip8Error>(s),
        new_key(keys) is Some ==> ({
            let t = step(s, keys, rnd)->Ok_0;
            &&& step(s, keys, rnd) is Ok
            &&& t.v[decode_spec(next_word(s)).x as int] == new_key(keys)->Some_0
            &&& t.pc == s.pc + 2
        }),
{
    lemma_decode_bounds(next_word(s));
    if new_key(keys) is None {
        let t = step(s, keys, rnd)->Ok_0;
        assert(t == s);
    }
}

/// A return with an empty stack fails with `StackUnderflow` (and a failed step changes
/// nothing, PC included).
pub proof fn lemma_return_underflow(s: MachineState, keys: Keypad, rnd: u8)
    requires
        s.wf(),
        s.pc + 1 < MEM_SIZE,
        next_word(s) == 0x00EE,
        s.stack.len() == 0,
    ensures
        step(s, keys, rnd) == Err::<MachineState, Chip8Error>(Chip8Error::StackUnderflow),
{
    assert(0x00EEu16 >> 12u16 == 0u16) by (bit_vector);
}

/// With saturating timers a tick takes exactly one off a running timer and leaves a
/// stopped one at zero.
pub proof fn lemma_timer_tick(t: u8)
    ensures
        t > 0 ==> tick(t, true) == t - 1,
        t == 0 ==> tick(t, true) == 0,
{
}

/// Drawing the same sprite twice at the same anchor restores the display.
pub proof fn lemma_draw_twice_restores(grid: Seq<bool>, rows: Seq<u8>, x0: int, y0: int)
    ensures
        blit(blit(grid, rows, x0, y0), rows, x0, y0) == grid,
{
    assert(blit(blit(grid, rows, x0, y0), rows, x0, y0) =~= grid);
}

/// Only `CXNN` reads the random byte: for every other instruction the step is the
/// same whatever byte is drawn.
pub proof fn lemma_step_ignores_random(s: MachineState, keys: Keypad, r1: u8, r2: u8)
    requires
        s.wf(),
        s.pc + 1 < MEM_SIZE ==> decode_spec(next_word(s)).family != 0xC,
    ensures
        step(s, keys, r1) == step(s, keys, r2),
{
}

/// On a dark display a first draw never collides, and drawing the same sprite again at
/// the same anchor collides as soon as the sprite lit any cell.
pub proof fn lemma_redraw_on_dark_display(grid: Seq<bool>, rows: Seq<u8>, x0: int, y0: int)
    requires
        forall|k: int| 0 <= k < grid.len() ==> !grid[k],
    ensures
        !collides(grid, rows, x0, y0),
        (exists|k: int| 0 <= k < grid.len() && #[trigger] sprite_hits(rows, x0, y0, k)) ==> collides(
            blit(grid, rows, x0, y0),
            rows,
            x0,
            y0,
        ),
{
    if exists|k: int| 0 <= k < grid.len() && #[trigger] sprite_hits(rows, x0, y0, k) {
        let k = choose|k: int| 0 <= k < grid.len() && #[trigger] sprite_hits(rows, x0, y0, k);
        assert(blit(grid, rows, x0, y0)[k]);
    }
}

} // verus!
