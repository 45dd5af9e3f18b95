use vstd::prelude::*;

use crate::display::{blit, collides, draw_sprite, HEIGHT, PIXELS, WIDTH};
use crate::font::{FONT_SET, FONT_START, GLYPH_BYTES};
use crate::random::random_byte;

verus! {

/// Bytes of addressable memory.
pub const MEM_SIZE: usize = 4096;

/// Address at which programs are loaded and execution starts.
pub const PROGRAM_START: usize = 0x200;

/// Number of general registers V0 to VF.
pub const REGISTERS: usize = 16;

/// Index of VF, the flag register.
pub const VF: usize = 15;

/// Return-stack depth used unless another is configured.
pub const DEFAULT_STACK_DEPTH: usize = 16;

/// Why an instruction or a load was refused. Whenever one is returned the machine is
/// left exactly as it was before the call.
#[derive(Clone, Copy, Debug, PartialEq, Eq, Structural)]
pub enum Chip8Error {
    /// The fetched word matches no instruction; it is carried along.
    UnsupportedInstruction(u16),
    /// A subroutine call with the return stack already at its configured depth.
    StackOverflow,
    /// A return with an empty return stack.
    StackUnderflow,
    /// A fetch, sprite read or memory transfer would reach past the end of memory.
    MemoryOutOfRange,
    /// The program does not fit between the load address and the end of memory.
    ProgramTooLarge,
}

/// What the host reports of the keypad for one instruction: `held` has bit `k` set
/// while logical key `k` is down, and `pressed` is the key newly pressed since the
/// host last checked, if any.
#[derive(Clone, Copy, Debug, PartialEq, Eq, Structural)]
pub struct Keypad {
    pub held: u16,
    pub pressed: Option<u8>,
}

/// Behaviours on which interpreters historically differ.
#[derive(Clone, Copy, Debug, PartialEq, Eq, Structural)]
pub struct Quirks {
    /// Whether `8XY6` / `8XYE` put the bit shifted out into VF (default: no).
    pub shift_sets_vf: bool,
    /// Whether the timers stop at zero (default: yes) or wrap round to 255.
    pub timers_saturate: bool,
    /// Most return addresses the stack may hold (default: 16).
    pub max_stack_depth: usize,
}

impl Default for Quirks {
    fn default() -> (q: Quirks)
        ensures
            q == (Quirks { shift_sets_vf: false, timers_saturate: true, max_stack_depth: DEFAULT_STACK_DEPTH }),
    {
        Quirks { shift_sets_vf: false, timers_saturate: true, max_stack_depth: DEFAULT_STACK_DEPTH }
    }
}

/// The fields of an instruction word: `family` is the top nibble, then `x`, `y` and
/// `n` are the other three nibbles, `nn` the low byte and `nnn` the low twelve bits.
#[derive(Clone, Copy, Debug, PartialEq, Eq, Structural)]
pub struct Opcode {
    pub family: u8,
    pub x: u8,
    pub y: u8,
    pub n: u8,
    pub nn: u8,
    pub nnn: u16,
}

/// The fields of `w`.
pub open spec fn decode_spec(w: u16) -> Opcode {
    Opcode {
        family: (w >> 12u16) as u8,
        x: ((w >> 8u16) & 0xFu16) as u8,
        y: ((w >> 4u16) & 0xFu16) as u8,
        n: (w & 0xFu16) as u8,
        nn: (w & 0xFFu16) as u8,
        nnn: w & 0xFFFu16,
    }
}

/// Splits an instruction word into its fields.
pub fn decode(w: u16) -> (op: Opcode)
    ensures
        op == decode_spec(w),
        op.family < 16,
        op.x < 16,
        op.y < 16,
        op.n < 16,
        op.nnn < 4096,
{
    assert((w >> 12u16) < 16 && ((w >> 8u16) & 0xFu16) < 16 && ((w >> 4u16) & 0xFu16) < 16
        && (w & 0xFu16) < 16 && (w & 0xFFFu16) < 4096) by (bit_vector);
    Opcode {
        family: (w >> 12u16) as u8,
        x: ((w >> 8u16) & 0xFu16) as u8,
        y: ((w >> 4u16) & 0xFu16) as u8,
        n: (w & 0xFu16) as u8,
        nn: (w & 0xFFu16) as u8,
        nnn: w & 0xFFFu16,
    }
}

/// The machine as the contracts see it.
pub struct MachineState {
    pub mem: Seq<u8>,
    pub v: Seq<u8>,
    pub i: u16,
    pub pc: usize,
    pub stack: Seq<usize>,
    pub delay: u8,
    pub sound: u8,
    pub display: Seq<bool>,
    pub dirty: bool,
    pub quirks: Quirks,
}

impl MachineState {
    /// Memory, registers and display have their fixed sizes, and the return stack is
    /// within its configured depth.
    pub open spec fn wf(self) -> bool {
        &&& self.mem.len() == MEM_SIZE
        &&& self.v.len() == REGISTERS
        &&& self.display.len() == PIXELS
        &&& self.stack.len() <= self.quirks.max_stack_depth
    }

    /// Register `x` set to `val`.
    pub open spec fn with_reg(self, x: int, val: u8) -> MachineState {
        MachineState { v: self.v.update(x, val), ..self }
    }

    /// VF set to 1 when `f` holds, else to 0.
    pub open spec fn with_flag(self, f: bool) -> MachineState {
        self.with_reg(VF as int, if f { 1u8 } else { 0u8 })
    }

    /// PC set to `pc`.
    pub open spec fn with_pc(self, pc: int) -> MachineState {
        MachineState { pc: pc as usize, ..self }
    }

    /// Skips the next instruction when `c` holds.
    pub open spec fn skip_if(self, c: bool) -> MachineState {
        if c { self.with_pc(self.pc + 2) } else { self }
    }
}

/// The big-endian word at `pc`.
pub open spec fn fetch(mem: Seq<u8>, pc: int) -> u16 {
    ((mem[pc] as u16) << 8u16) | (mem[pc + 1] as u16)
}

/// Whether the host reports logical key `k` as held.
pub open spec fn key_held(held: u16, k: u8) -> bool {
    k < 16 && (held >> (k as u16)) & 1u16 == 1u16
}

/// The newly pressed logical key, if the host reported one in 0 to 15.
pub open spec fn new_key(keys: Keypad) -> Option<u8> {
    match keys.pressed {
        Some(k) => if k < 16 { Some(k) } else { None },
        None => None,
    }
}

/// One tick of a countdown timer.
pub open spec fn tick(t: u8, saturate: bool) -> u8 {
    if t > 0 { (t - 1) as u8 } else if saturate { 0 } else { 255 }
}

/// The `8XYN` register-to-register family.
pub open spec fn alu_spec(s: MachineState, op: Opcode, w: u16) -> Result<MachineState, Chip8Error> {
    let x = op.x as int;
    let vx = s.v[op.x as int];
    let vy = s.v[op.y as int];
    if op.n == 0 {
        Ok(s.with_reg(x, vy))
    } else if op.n == 1 {
        Ok(s.with_reg(x, vx | vy))
    } else if op.n == 2 {
        Ok(s.with_reg(x, vx & vy))
    } else if op.n == 3 {
        Ok(s.with_reg(x, vx ^ vy))
    } else if op.n == 4 {
        Ok(s.with_flag(vx + vy > 255).with_reg(x, ((vx + vy) % 256) as u8))
    } else if op.n == 5 {
        Ok(s.with_flag(vx >= vy).with_reg(x, ((vx - vy) % 256) as u8))
    } else if op.n == 7 {
        Ok(s.with_flag(vy >= vx).with_reg(x, ((vy - vx) % 256) as u8))
    } else if op.n == 6 {
        let t = s.with_reg(x, vy / 2);
        Ok(if s.quirks.shift_sets_vf { t.with_reg(VF as int, vy % 2) } else { t })
    } else if op.n == 0xE {
        let t = s.with_reg(x, ((vy * 2) % 256) as u8);
        Ok(if s.quirks.shift_sets_vf { t.with_reg(VF as int, vy / 128) } else { t })
    } else {
        Err(Chip8Error::UnsupportedInstruction(w))
    }
}

/// `DXYN`: the sprite of `n` rows at I, anchored at (VX mod 64, VY mod 32).
pub open spec fn draw_spec(s: MachineState, op: Opcode) -> Result<MachineState, Chip8Error> {
    if s.i + op.n > MEM_SIZE {
        Err(Chip8Error::MemoryOutOfRange)
    } else {
        let rows = s.mem.subrange(s.i as int, s.i + op.n);
        let x0 = (s.v[op.x as int] % 64) as int;
        let y0 = (s.v[op.y as int] % 32) as int;
        Ok(MachineState { display: blit(s.display, rows, x0, y0), dirty: true, ..s }.with_flag(
            collides(s.display, rows, x0, y0),
        ))
    }
}

/// The `FXNN` family: timers, keys, the index register and memory transfers.
pub open spec fn misc_spec(s: MachineState, op: Opcode, w: u16, keys: Keypad) -> Result<
    MachineState,
    Chip8Error,
> {
    let x = op.x as int;
    let vx = s.v[x];
    if op.nn == 0x07 {
        Ok(s.with_reg(x, s.delay))
    } else if op.nn == 0x15 {
        Ok(MachineState { delay: vx, ..s })
    } else if op.nn == 0x18 {
        Ok(MachineState { sound: vx, ..s })
    } else if op.nn == 0x1E {
        Ok(MachineState { i: ((s.i + vx) % 0x10000) as u16, ..s })
    } else if op.nn == 0x0A {
        match new_key(keys) {
            Some(k) => Ok(s.with_reg(x, k)),
            None => Ok(s.with_pc(s.pc - 2)),
        }
    } else if op.nn == 0x29 {
        Ok(MachineState { i: (FONT_START + vx * GLYPH_BYTES) as u16, ..s })
    } else if op.nn == 0x33 {
        if s.i + 2 >= MEM_SIZE {
            Err(Chip8Error::MemoryOutOfRange)
        } else {
            Ok(
                MachineState {
                    mem: s.mem.update(s.i as int, vx / 100).update(s.i + 1, (vx % 100) / 10).update(
                        s.i + 2,
                        vx % 10,
                    ),
                    ..s
                },
            )
        }
    } else if op.nn == 0x55 {
        if s.i + x >= MEM_SIZE {
            Err(Chip8Error::MemoryOutOfRange)
        } else {
            Ok(
                MachineState {
                    mem: Seq::new(
                        s.mem.len(),
                        |a: int|
                            if s.i <= a <= s.i + x {
                                s.v[a - s.i]
                            } else {
                                s.mem[a]
                            },
                    ),
                    ..s
                },
            )
        }
    } else if op.nn == 0x65 {
        if s.i + x >= MEM_SIZE {
            Err(Chip8Error::MemoryOutOfRange)
        } else {
            Ok(
                MachineState {
                    v: Seq::new(
                        s.v.len(),
                        |r: int|
                            if r <= x {
                                s.mem[s.i + r]
                            } else {
                                s.v[r]
                            },
                    ),
                    ..s
                },
            )
        }
    } else {
        Err(Chip8Error::UnsupportedInstruction(w))
    }
}

/// What the instruction `w` does to `s`, whose program counter already points past it;
/// `rnd` is the random byte that `CXNN` uses.
pub open spec fn dispatch(s: MachineState, w: u16, keys: Keypad, rnd: u8) -> Result<
    MachineState,
    Chip8Error,
> {
    let op = decode_spec(w);
    let x = op.x as int;
    let vx = s.v[x];
    let vy = s.v[op.y as int];
    if op.family == 0 {
        if w == 0x00E0 {
            Ok(MachineState { display: Seq::new(s.display.len(), |k: int| false), dirty: true, ..s })
        } else if w == 0x00EE {
            if s.stack.len() == 0 {
                Err(Chip8Error::StackUnderflow)
            } else {
                Ok(MachineState { pc: s.stack.last(), stack: s.stack.drop_last(), ..s })
            }
        } else {
            Err(Chip8Error::UnsupportedInstruction(w))
        }
    } else if op.family == 1 {
        Ok(s.with_pc(op.nnn as int))
    } else if op.family == 2 {
        if s.stack.len() >= s.quirks.max_stack_depth {
            Err(Chip8Error::StackOverflow)
        } else {
            Ok(MachineState { stack: s.stack.push(s.pc), ..s }.with_pc(op.nnn as int))
        }
    } else if op.family == 3 {
        Ok(s.skip_if(vx == op.nn))
    } else if op.family == 4 {
        Ok(s.skip_if(vx != op.nn))
    } else if op.family == 5 && op.n == 0 {
        Ok(s.skip_if(vx == vy))
    } else if op.family == 6 {
        Ok(s.with_reg(x, op.nn))
    } else if op.family == 7 {
        Ok(s.with_reg(x, ((vx + op.nn) % 256) as u8))
    } else if op.family == 8 {
        alu_spec(s, op, w)
    } else if op.family == 9 && op.n == 0 {
        Ok(s.skip_if(vx != vy))
    } else if op.family == 0xA {
        Ok(MachineState { i: op.nnn, ..s })
    } else if op.family == 0xB {
        Ok(s.with_pc(op.nnn + s.v[0]))
    } else if op.family == 0xC {
        Ok(s.with_reg(x, rnd & op.nn))
    } else if op.family == 0xD {
        draw_spec(s, op)
    } else if op.family == 0xE && op.nn == 0x9E {
        Ok(s.skip_if(key_held(keys.held, vx)))
    } else if op.family == 0xE && op.nn == 0xA1 {
        Ok(s.skip_if(!key_held(keys.held, vx)))
    } else if op.family == 0xF {
        misc_spec(s, op, w, keys)
    } else {
        Err(Chip8Error::UnsupportedInstruction(w))
    }
}

/// One fetch-decode-execute cycle: the word at PC is fetched, PC moves past it, and
/// the instruction runs. On an error the machine is left as it was.
pub open spec fn step(s: MachineState, keys: Keypad, rnd: u8) -> Result<MachineState, Chip8Error> {
    if s.pc + 1 >= MEM_SIZE {
        Err(Chip8Error::MemoryOutOfRange)
    } else {
        dispatch(s.with_pc(s.pc + 2), fetch(s.mem, s.pc as int), keys, rnd)
    }
}

/// `after` and `r` are what a call with the outcome `expected` leaves from `before`:
/// the new state with `Ok`, or the untouched state with the error.
pub open spec fn settles(
    before: MachineState,
    after: MachineState,
    r: Result<(), Chip8Error>,
    expected: Result<MachineState, Chip8Error>,
) -> bool {
    match expected {
        Ok(t) => r == Ok::<(), Chip8Error>(()) && after == t,
        Err(e) => r == Err::<(), Chip8Error>(e) && after == before,
    }
}


/// The machine right after construction: everything zero, PC at the load address.
pub open spec fn initial_state(q: Quirks) -> MachineState {
    MachineState {
        mem: Seq::new(MEM_SIZE as nat, |a: int| 0u8),
        v: Seq::new(REGISTERS as nat, |r: int| 0u8),
        i: 0,
        pc: PROGRAM_START,
        stack: Seq::empty(),
        delay: 0,
        sound: 0,
        display: Seq::new(PIXELS as nat, |k: int| false),
        dirty: false,
        quirks: q,
    }
}

/// Memory after loading `prog` at the load address and the font at its base; every
/// other byte is kept.
pub open spec fn loaded_memory(mem: Seq<u8>, prog: Seq<u8>) -> Seq<u8> {
    Seq::new(
        mem.len(),
        |a: int|
            if FONT_START <= a < FONT_START + FONT_SET@.len() {
                FONT_SET@[a - FONT_START]
            } else if PROGRAM_START <= a < PROGRAM_START + prog.len() {
                prog[a - PROGRAM_START]
            } else {
                mem[a]
            },
    )
}

/// What loading `prog` does: the program must fit between the load address and
/// the end of memory.
pub open spec fn load_spec(s: MachineState, prog: Seq<u8>) -> Result<MachineState, Chip8Error> {
    if prog.len() > MEM_SIZE - PROGRAM_START {
        Err(Chip8Error::ProgramTooLarge)
    } else {
        Ok(MachineState { mem: loaded_memory(s.mem, prog), ..s })
    }
}

/// A vector of `n` copies of `val`.
fn filled<T: Copy>(val: T, n: usize) -> (r: Vec<T>)
    ensures
        r@ == Seq::new(n as nat, |k: int| val),
{
    let mut r: Vec<T> = Vec::new();
    let mut k: usize = 0;
    while k < n
        invariant
            k <= n,
            r@ == Seq::new(k as nat, |j: int| val),
        decreases n - k,
    {
        r.push(val);
        k += 1;
        assert(r@ =~= Seq::new(k as nat, |j: int| val));
    }
    r
}

/// Copies `bytes` to `mem[base..base + bytes.len()]`.
fn write_bytes(mem: &mut Vec<u8>, base: usize, bytes: &[u8])
    requires
        base + bytes@.len() <= old(mem).len(),
    ensures
        final(mem)@ == Seq::new(
            old(mem)@.len(),
            |a: int| if base <= a < base + bytes@.len() { bytes@[a - base] } else { old(mem)@[a] },
        ),
{
    let ghost m0 = mem@;
    let mut k: usize = 0;
    while k < bytes.len()
        invariant
            k <= bytes@.len(),
            base + bytes@.len() <= mem.len(),
            mem@.len() == m0.len(),
            forall|a: int|
                0 <= a < m0.len() ==> mem@[a] == if base <= a < base + k {
                    bytes@[a - base]
                } else {
                    m0[a]
                },
        decreases bytes@.len() - k,
    {
        mem.set(base + k, bytes[k]);
        k += 1;
    }
    assert(mem@ =~= Seq::new(
        m0.len(),
        |a: int| if base <= a < base + bytes@.len() { bytes@[a - base] } else { m0[a] },
    ));
}

/// Copies `regs[0..=last]` to `mem[base..=base + last]`.
fn store_registers(mem: &mut Vec<u8>, regs: &Vec<u8>, base: usize, last: usize)
    requires
        last < regs.len(),
        base + last < old(mem).len(),
    ensures
        final(mem)@ == Seq::new(
            old(mem)@.len(),
            |a: int| if base <= a <= base + last { regs@[a - base] } else { old(mem)@[a] },
        ),
{
    let ghost m0 = mem@;
    let mut k: usize = 0;
    while k <= last
        invariant
            k <= last + 1,
            last < regs.len(),
            base + last < mem.len(),
            mem@.len() == m0.len(),
            forall|a: int|
                0 <= a < m0.len() ==> mem@[a] == if base <= a < base + k {
                    regs@[a - base]
                } else {
                    m0[a]
                },
        decreases last + 1 - k,
    {
        mem.set(base + k, regs[k]);
        k += 1;
    }
    assert(mem@ =~= Seq::new(
        m0.len(),
        |a: int| if base <= a <= base + last { regs@[a - base] } else { m0[a] },
    ));
}

/// Copies `mem[base..=base + last]` to `regs[0..=last]`.
fn load_registers(regs: &mut Vec<u8>, mem: &Vec<u8>, base: usize, last: usize)
    requires
        last < old(regs).len(),
        base + last < mem.len(),
    ensures
        final(regs)@ == Seq::new(
            old(regs)@.len(),
            |r: int| if r <= last { mem@[base + r] } else { old(regs)@[r] },
        ),
{
    let ghost r0 = regs@;
    let mut k: usize = 0;
    while k <= last
        invariant
            k <= last + 1,
            last < r0.len(),
            base + last < mem.len(),
            regs@.len() == r0.len(),
            forall|r: int| 0 <= r < r0.len() ==> regs@[r] == if r < k { mem@[base + r] } else { r0[r] },
        decreases last + 1 - k,
    {
        regs.set(k, mem[base + k]);
        k += 1;
    }
    assert(regs@ =~= Seq::new(
        r0.len(),
        |r: int| if r <= last { mem@[base + r] } else { r0[r] },
    ));
}

/// A CHIP-8 machine: 4 KiB of memory, sixteen byte registers, the index register I,
/// the program counter, a bounded return stack, the delay and sound timers and a
/// 64x32 display. `display_flag` is set whenever the display changes and cleared when
/// the display is copied out.
#[derive(Debug)]
pub struct CPU {
    mem: Vec<u8>,
    pc: usize,
    display: Vec<bool>,
    i: u16,
    stack: Vec<usize>,
    delay_timer: u8,
    sound_timer: u8,
    register: Vec<u8>,
    pub display_flag: bool,
    quirks: Quirks,
}

impl View for CPU {
    type V = MachineState;

    closed spec fn view(&self) -> MachineState {
        MachineState {
            mem: self.mem@,
            v: self.register@,
            i: self.i,
            pc: self.pc,
            stack: self.stack@,
            delay: self.delay_timer,
            sound: self.sound_timer,
            display: self.display@,
            dirty: self.display_flag,
            quirks: self.quirks,
        }
    }
}

impl CPU {
    /// A machine with the default quirks.
    pub fn new() -> (cpu: CPU)
        ensures
            cpu@.wf(),
            cpu@ == initial_state(
                Quirks { shift_sets_vf: false, timers_saturate: true, max_stack_depth: DEFAULT_STACK_DEPTH },
            ),
    {
        CPU::with_quirks(Quirks::default())
    }

    /// A machine with the given quirks.
    pub fn with_quirks(quirks: Quirks) -> (cpu: CPU)
        ensures
            cpu@.wf(),
            cpu@ == initial_state(quirks),
    {
        let cpu = CPU {
            mem: filled(0u8, MEM_SIZE),
            pc: PROGRAM_START,
            display: filled(false, PIXELS),
            i: 0,
            stack: Vec::new(),
            delay_timer: 0,
            sound_timer: 0,
            register: filled(0u8, REGISTERS),
            display_flag: false,
            quirks,
        };
        assert(cpu.stack@ =~= Seq::<usize>::empty());
        cpu
    }

    /// Writes the font table at its base address and `program` at the load address.
    pub fn load(&mut self, program: &[u8]) -> (r: Result<(), Chip8Error>)
        requires
            old(self)@.wf(),
        ensures
            final(self)@.wf(),
            settles(old(self)@, final(self)@, r, load_spec(old(self)@, program@)),
    {
        if program.len() > MEM_SIZE - PROGRAM_START {
            return Err(Chip8Error::ProgramTooLarge);
        }
        let ghost m0 = self.mem@;
        write_bytes(&mut self.mem, FONT_START, FONT_SET.as_slice());
        write_bytes(&mut self.mem, PROGRAM_START, program);
        assert(self.mem@ =~= loaded_memory(m0, program@));
        Ok(())
    }

    /// Decrements both timers by one tick.
    pub fn advance_timers(&mut self)
        requires
            old(self)@.wf(),
        ensures
            final(self)@.wf(),
            final(self)@ == (MachineState {
                delay: tick(old(self)@.delay, old(self)@.quirks.timers_saturate),
                sound: tick(old(self)@.sound, old(self)@.quirks.timers_saturate),
                ..old(self)@
            }),
    {
        let sat = self.quirks.timers_saturate;
        self.delay_timer = if self.delay_timer > 0 { self.delay_timer - 1 } else if sat { 0 } else { 255 };
        self.sound_timer = if self.sound_timer > 0 { self.sound_timer - 1 } else if sat { 0 } else { 255 };
    }

    /// Fills `buffer` with one value per display cell, row by row: `on` for a lit cell
    /// and `off` for a dark one, and clears `display_flag`.
    pub fn update_display_buffer(&mut self, buffer: &mut [u32; 2048], on: u32, off: u32)
        requires
            old(self)@.wf(),
        ensures
            final(self)@.wf(),
            final(self)@ == (MachineState { dirty: false, ..old(self)@ }),
            forall|k: int| 0 <= k < PIXELS ==> final(buffer)@[k] == if old(self)@.display[k] { on } else { off },
    {
        let mut k: usize = 0;
        while k < PIXELS
            invariant
                k <= PIXELS,
                self.display@.len() == PIXELS,
                buffer@.len() == PIXELS,
                forall|j: int| 0 <= j < k ==> buffer@[j] == if self.display@[j] { on } else { off },
            decreases PIXELS - k,
        {
            buffer[k] = if self.display[k] { on } else { off };
            k += 1;
        }
        self.display_flag = false;
    }

    /// Sets register V`x`.
    fn set_reg(&mut self, x: usize, val: u8)
        requires
            old(self)@.wf(),
            x < REGISTERS,
        ensures
            final(self)@.wf(),
            final(self)@ == old(self)@.with_reg(x as int, val),
    {
        self.register.set(x, val);
    }

    /// Sets VF to 1 when `f` holds, else to 0.
    fn set_flag(&mut self, f: bool)
        requires
            old(self)@.wf(),
        ensures
            final(self)@.wf(),
            final(self)@ == old(self)@.with_flag(f),
    {
        self.register.set(VF, if f { 1u8 } else { 0u8 });
    }

    /// Skips the next instruction when `c` holds.
    fn skip_if(&mut self, c: bool)
        requires
            old(self)@.wf(),
            old(self).pc <= MEM_SIZE,
        ensures
            final(self)@.wf(),
            final(self)@ == old(self)@.skip_if(c),
    {
        if c {
            self.pc = self.pc + 2;
        }
    }

    /// Runs one `8XYN` instruction.
    fn exec_alu(&mut self, op: Opcode, w: u16) -> (r: Result<(), Chip8Error>)
        requires
            old(self)@.wf(),
            op == decode_spec(w),
            op.x < 16,
            op.y < 16,
        ensures
            final(self)@.wf(),
            settles(old(self)@, final(self)@, r, alu_spec(old(self)@, op, w)),
    {
        let x = op.x as usize;
        let vx = self.register[x];
        let vy = self.register[op.y as usize];
        if op.n == 0 {
            self.set_reg(x, vy);
        } else if op.n == 1 {
            self.set_reg(x, vx | vy);
        } else if op.n == 2 {
            self.set_reg(x, vx & vy);
        } else if op.n == 3 {
            self.set_reg(x, vx ^ vy);
        } else if op.n == 4 {
            let sum = vx as u16 + vy as u16;
            self.set_flag(sum > 255);
            self.set_reg(x, (sum % 256) as u8);
        } else if op.n == 5 {
            self.set_flag(vx >= vy);
            self.set_reg(x, vx.wrapping_sub(vy));
        } else if op.n == 7 {
            self.set_flag(vy >= vx);
            self.set_reg(x, vy.wrapping_sub(vx));
        } else if op.n == 6 {
            assert(vy >> 1u8 == vy / 2 && vy & 1u8 == vy % 2) by (bit_vector);
            self.set_reg(x, vy >> 1);
            if self.quirks.shift_sets_vf {
                self.set_reg(VF, vy & 1);
            }
        } else if op.n == 0xE {
            assert(vy << 1u8 == (vy * 2) % 256 && vy >> 7u8 == vy / 128) by (bit_vector);
            self.set_reg(x, vy << 1);
            if self.quirks.shift_sets_vf {
                self.set_reg(VF, vy >> 7);
            }
        } else {
            return Err(Chip8Error::UnsupportedInstruction(w));
        }
        Ok(())
    }

    /// Runs one `DXYN` instruction.
    fn exec_draw(&mut self, op: Opcode) -> (r: Result<(), Chip8Error>)
        requires
            old(self)@.wf(),
            op.x < 16,
            op.y < 16,
            op.n < 16,
        ensures
            final(self)@.wf(),
            settles(old(self)@, final(self)@, r, draw_spec(old(self)@, op)),
    {
        if self.i as usize + op.n as usize > MEM_SIZE {
            return Err(Chip8Error::MemoryOutOfRange);
        }
        let x0 = (self.register[op.x as usize] % 64) as usize;
        let y0 = (self.register[op.y as usize] % 32) as usize;
        let hit = draw_sprite(&mut self.display, &self.mem, self.i as usize, op.n as usize, x0, y0);
        self.display_flag = true;
        self.set_flag(hit);
        Ok(())
    }

    /// Runs one `FXNN` instruction; PC already points past it.
    fn exec_misc(&mut self, op: Opcode, w: u16, keys: &Keypad) -> (r: Result<(), Chip8Error>)
        requires
            old(self)@.wf(),
            2 <= old(self).pc <= MEM_SIZE,
            op == decode_spec(w),
            op.x < 16,
        ensures
            final(self)@.wf(),
            settles(old(self)@, final(self)@, r, misc_spec(old(self)@, op, w, *keys)),
    {
        let x = op.x as usize;
        let vx = self.register[x];
        if op.nn == 0x07 {
            self.set_reg(x, self.delay_timer);
        } else if op.nn == 0x15 {
            self.delay_timer = vx;
        } else if op.nn == 0x18 {
            self.sound_timer = vx;
        } else if op.nn == 0x1E {
            self.i = self.i.wrapping_add(vx as u16);
        } else if op.nn == 0x0A {
            match keys.pressed {
                Some(k) => {
                    if k < 16 {
                        self.set_reg(x, k);
                    } else {
                        self.pc = self.pc - 2;
                    }
                },
                None => {
                    self.pc = self.pc - 2;
                },
            }
        } else if op.nn == 0x29 {
            self.i = (FONT_START + vx as usize * GLYPH_BYTES) as u16;
        } else if op.nn == 0x33 {
            let base = self.i as usize;
            if base + 2 >= MEM_SIZE {
                return Err(Chip8Error::MemoryOutOfRange);
            }
            self.mem.set(base, vx / 100);
            self.mem.set(base + 1, (vx % 100) / 10);
            self.mem.set(base + 2, vx % 10);
        } else if op.nn == 0x55 {
            let base = self.i as usize;
            if base + x >= MEM_SIZE {
                return Err(Chip8Error::MemoryOutOfRange);
            }
            store_registers(&mut self.mem, &self.register, base, x);
        } else if op.nn == 0x65 {
            let base = self.i as usize;
            if base + x >= MEM_SIZE {
                return Err(Chip8Error::MemoryOutOfRange);
            }
            load_registers(&mut self.register, &self.mem, base, x);
        } else {
            return Err(Chip8Error::UnsupportedInstruction(w));
        }
        Ok(())
    }

    /// Runs the instruction `w`; PC already points past it.
    fn run(&mut self, w: u16, keys: &Keypad, rnd: u8) -> (r: Result<(), Chip8Error>)
        requires
            old(self)@.wf(),
            2 <= old(self).pc <= MEM_SIZE,
        ensures
            final(self)@.wf(),
            settles(old(self)@, final(self)@, r, dispatch(old(self)@, w, *keys, rnd)),
    {
        let op = decode(w);
        let x = op.x as usize;
        let vx = self.register[x];
        let vy = self.register[op.y as usize];
        if op.family == 0 {
            if w == 0x00E0 {
                self.display = filled(false, PIXELS);
                self.display_flag = true;
                assert(self.display@ =~= Seq::new(PIXELS as nat, |k: int| false));
            } else if w == 0x00EE {
                match self.stack.pop() {
                    Some(a) => {
                        self.pc = a;
                    },
                    None => {
                        return Err(Chip8Error::StackUnderflow);
                    },
                }
            } else {
                return Err(Chip8Error::UnsupportedInstruction(w));
            }
        } else if op.family == 1 {
            self.pc = op.nnn as usize;
        } else if op.family == 2 {
            if self.stack.len() >= self.quirks.max_stack_depth {
                return Err(Chip8Error::StackOverflow);
            }
            self.stack.push(self.pc);
            self.pc = op.nnn as usize;
        } else if op.family == 3 {
            self.skip_if(vx == op.nn);
        } else if op.family == 4 {
            self.skip_if(vx != op.nn);
        } else if op.family == 5 && op.n == 0 {
            self.skip_if(vx == vy);
        } else if op.family == 6 {
            self.set_reg(x, op.nn);
        } else if op.family == 7 {
            self.set_reg(x, vx.wrapping_add(op.nn));
        } else if op.family == 8 {
            return self.exec_alu(op, w);
        } else if op.family == 9 && op.n == 0 {
            self.skip_if(vx != vy);
        } else if op.family == 0xA {
            self.i = op.nnn;
        } else if op.family == 0xB {
            self.pc = op.nnn as usize + self.register[0] as usize;
        } else if op.family == 0xC {
            self.set_reg(x, rnd & op.nn);
        } else if op.family == 0xD {
            return self.exec_draw(op);
        } else if op.family == 0xE && op.nn == 0x9E {
            self.skip_if(vx < 16 && (keys.held >> (vx as u16)) & 1 == 1);
        } else if op.family == 0xE && op.nn == 0xA1 {
            self.skip_if(!(vx < 16 && (keys.held >> (vx as u16)) & 1 == 1));
        } else if op.family == 0xF {
            return self.exec_misc(op, w, keys);
        } else {
            return Err(Chip8Error::UnsupportedInstruction(w));
        }
        Ok(())
    }

    /// Fetches, decodes and runs one instruction, with `rnd` as the byte that `CXNN`
    /// draws from. On an error nothing changes, PC included.
    pub fn execute_with(&mut self, keys: &Keypad, rnd: u8) -> (r: Result<(), Chip8Error>)
        requires
            old(self)@.wf(),
        ensures
            final(self)@.wf(),
            settles(old(self)@, final(self)@, r, step(old(self)@, *keys, rnd)),
    {
        if self.pc >= MEM_SIZE - 1 {
            return Err(Chip8Error::MemoryOutOfRange);
        }
        let w = ((self.mem[self.pc] as u16) << 8) | (self.mem[self.pc + 1] as u16);
        let saved = self.pc;
        self.pc = self.pc + 2;
        let r = self.run(w, keys, rnd);
        if r.is_err() {
            self.pc = saved;
        }
        r
    }

    /// Fetches, decodes and runs one instruction; `CXNN` draws a fresh random byte.
    /// On an error nothing changes, PC included.
    pub fn execute(&mut self, keys: &Keypad) -> (r: Result<(), Chip8Error>)
        requires
            old(self)@.wf(),
        ensures
            final(self)@.wf(),
            exists|rnd: u8| settles(old(self)@, final(self)@, r, #[trigger] step(old(self)@, *keys, rnd)),
    {
        let rnd = random_byte();
        self.execute_with(keys, rnd)
    }

    /// The program counter.
    pub fn pc(&self) -> (r: usize)
        ensures
            r == self@.pc,
    {
        self.pc
    }

    /// The index register I.
    pub fn index(&self) -> (r: u16)
        ensures
            r == self@.i,
    {
        self.i
    }

    /// Register V`x`.
    pub fn register(&self, x: usize) -> (r: u8)
        requires
            self@.wf(),
            x < REGISTERS,
        ensures
            r == self@.v[x as int],
    {
        self.register[x]
    }

    /// The byte at `addr`.
    pub fn memory(&self, addr: usize) -> (r: u8)
        requires
            self@.wf(),
            addr < MEM_SIZE,
        ensures
            r == self@.mem[addr as int],
    {
        self.mem[addr]
    }

    /// Whether the display cell at `row`, `col` is lit.
    pub fn pixel(&self, row: usize, col: usize) -> (r: bool)
        requires
            self@.wf(),
            row < HEIGHT,
            col < WIDTH,
        ensures
            r == self@.display[row * WIDTH + col],
    {
        self.display[row * WIDTH + col]
    }

    /// The delay timer.
    pub fn delay_timer(&self) -> (r: u8)
        ensures
            r == self@.delay,
    {
        self.delay_timer
    }

    /// The sound timer.
    pub fn sound_timer(&self) -> (r: u8)
        ensures
            r == self@.sound,
    {
        self.sound_timer
    }

    /// Number of return addresses on the stack.
    pub fn stack_depth(&self) -> (r: usize)
        ensures
            r == self@.stack.len(),
    {
        self.stack.len()
    }

    /// The quirks this machine was built with.
    pub fn quirks(&self) -> (r: Quirks)
        ensures
            r == self@.quirks,
    {
        self.quirks
    }
}

} // verus!
