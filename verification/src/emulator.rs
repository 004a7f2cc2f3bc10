//! The interpreter core: one struct owns all mutable machine state —
//! registers, program counter, address register, call stack, timers, key
//! latch and pixel buffer — and exposes `fetch` (read and advance) and
//! `execute` (apply one decoded instruction).
use vstd::prelude::*;

verus! {

use crate::frame_buffer::{
    collision, collision_prefix, draw, draw_prefix, hits, lemma_prefix_finish,
    lemma_prefix_row_end, lemma_prefix_start, lemma_prefix_step, pix_target, sprite_bit,
    DrawParams,
};
use crate::memory::{font_table, Memory};
use crate::op_code::OpCode;
use crate::{Fault, FB_HEIGHT, FB_WIDTH, FONT_BASE, MEM_SIZE, Progress, ROM_CAPACITY, ROM_START,
    STACK_DEPTH};
use vstd::wrapping::{u16_specs, u8_specs};

/// Points on which historical machine dialects diverge. The defaults pick
/// the dialect of the canonical machine description: shifts read Vx itself,
/// and sprites are clipped at the buffer edges rather than wrapped.
#[derive(Clone, Copy, Debug, PartialEq, Eq, Structural)]
pub struct Quirks {
    /// Shift instructions read Vy and store the shifted value into Vx,
    /// instead of shifting Vx in place.
    pub shift_source_vy: bool,
    /// Sprite pixels whose coordinates run off the buffer edge wrap to the
    /// opposite edge, instead of being clipped.
    pub wrap_sprites: bool,
}

/// The mathematical model of the whole machine state.
#[verifier::ext_equal]
pub struct SystemView {
    /// The address space, one byte per address.
    pub mem: Seq<u8>,
    /// The program counter.
    pub pc: u16,
    /// The 16-bit address register I.
    pub i: u16,
    /// The call stack slots; slot 0 is never used, slots 1..=STACK_DEPTH
    /// hold saved program counters.
    pub stack: Seq<u16>,
    /// The stack pointer: index of the current top slot, 0 when empty.
    pub sp: int,
    /// The 16 general-purpose registers V0..VF.
    pub v: Seq<u8>,
    /// The pixel buffer, row-major: pixel (x, y) sits at index y * 64 + x.
    pub fb: Seq<bool>,
    /// The delay timer.
    pub delay: u8,
    /// The sound timer.
    pub sound: u8,
    /// The currently pressed key, if any.
    pub key: Option<u8>,
    /// The configured dialect choices.
    pub quirks: Quirks,
}

impl SystemView {
    /// Structural validity: every component has its declared size and the
    /// key latch holds a nibble.
    pub open spec fn wf(self) -> bool {
        &&& self.mem.len() == MEM_SIZE
        &&& self.stack.len() == STACK_DEPTH + 1
        &&& 0 <= self.sp <= STACK_DEPTH
        &&& self.v.len() == 16
        &&& self.fb.len() == FB_WIDTH * FB_HEIGHT
        &&& (self.key matches Some(k) ==> k < 16)
    }

    /// The state every machine starts from: all zero, program counter at the
    /// program base, no key pressed, default dialect.
    pub open spec fn initial() -> SystemView {
        SystemView {
            mem: Seq::new(MEM_SIZE as nat, |a: int| 0u8),
            pc: ROM_START,
            i: 0,
            stack: Seq::new((STACK_DEPTH + 1) as nat, |d: int| 0u16),
            sp: 0,
            v: Seq::new(16, |x: int| 0u8),
            fb: Seq::new((FB_WIDTH * FB_HEIGHT) as nat, |p: int| false),
            delay: 0,
            sound: 0,
            key: None,
            quirks: Quirks { shift_source_vy: false, wrap_sprites: false },
        }
    }

    /// The address space after startup: font table in the reserved low
    /// region, the ROM at the program base, zero elsewhere.
    pub open spec fn loaded_mem(rom: Seq<u8>) -> Seq<u8> {
        Seq::new(
            MEM_SIZE as nat,
            |a: int|
                if FONT_BASE <= a < FONT_BASE + 80 {
                    font_table()[a - FONT_BASE]
                } else if ROM_START <= a < ROM_START + rom.len() {
                    rom[a - ROM_START]
                } else {
                    0u8
                },
        )
    }

    /// The initial state with font and ROM in place.
    pub open spec fn initial_with_rom(rom: Seq<u8>) -> SystemView {
        SystemView { mem: Self::loaded_mem(rom), ..Self::initial() }
    }

    /// What one draw instruction depends on: the sprite at address I, the
    /// anchor from Vx and Vy reduced modulo the grid once, and the edge
    /// dialect.
    pub open spec fn drw_params(self, vx: int, vy: int, n: int) -> DrawParams {
        DrawParams {
            mem: self.mem,
            base: self.i as int,
            wrap: self.quirks.wrap_sprites,
            sx: self.v[vx] as int % (FB_WIDTH as int),
            sy: self.v[vy] as int % (FB_HEIGHT as int),
            n,
        }
    }

    /// Whether a draw of `n` sprite rows would read past the address space:
    /// every one of the `n` rows is read, clipped or not.
    pub open spec fn drw_oob(self, n: int) -> bool {
        n > 0 && self.i + n > MEM_SIZE
    }

    /// Whether a bulk memory operation on `count` bytes at I would run past
    /// the address space.
    pub open spec fn bulk_oob(self, count: int) -> bool {
        self.i + count > MEM_SIZE
    }

    /// The state after a draw that is in bounds: the buffer XORed with the
    /// sprite, and VF set — as the last effect — to whether any sprite bit
    /// landed on an already-set pixel.
    pub open spec fn drw_applied(self, vx: int, vy: int, n: int) -> SystemView {
        let p = self.drw_params(vx, vy, n);
        SystemView {
            fb: draw(self.fb, p),
            v: self.v.update(
                15,
                if collision(self.fb, p) {
                    1u8
                } else {
                    0u8
                },
            ),
            ..self
        }
    }
}

impl SystemView {
    /// The whole instruction semantics: the state after executing `op` from
    /// this state. `rnd` is the byte the uniform source supplies; only the
    /// random instruction reads it. A faulting instruction leaves the state
    /// unchanged — `step_result` says which instructions fault and when.
    pub open spec fn step(self, op: OpCode, rnd: u8) -> SystemView {
        match op {
            OpCode::Cls => SystemView {
                fb: Seq::new((FB_WIDTH * FB_HEIGHT) as nat, |q: int| false),
                ..self
            },
            OpCode::Ret => if self.sp < 1 {
                self
            } else {
                SystemView { pc: self.stack[self.sp], sp: self.sp - 1, ..self }
            },
            OpCode::Jmp(addr) => SystemView { pc: addr, ..self },
            OpCode::Call(addr) => if self.sp >= STACK_DEPTH {
                self
            } else {
                SystemView {
                    sp: self.sp + 1,
                    stack: self.stack.update(self.sp + 1, self.pc),
                    pc: addr,
                    ..self
                }
            },
            OpCode::Se { vx, value } => if self.v[vx as int] == value {
                SystemView { pc: pc_after_skip(self.pc), ..self }
            } else {
                self
            },
            OpCode::Sne { vx, value } => if self.v[vx as int] != value {
                SystemView { pc: pc_after_skip(self.pc), ..self }
            } else {
                self
            },
            OpCode::SeVxVy { vx, vy } => if self.v[vx as int] == self.v[vy as int] {
                SystemView { pc: pc_after_skip(self.pc), ..self }
            } else {
                self
            },
            OpCode::LdVx { vx, value } => SystemView { v: self.v.update(vx as int, value), ..self },
            OpCode::LdVxVy { vx, vy } => SystemView {
                v: self.v.update(vx as int, self.v[vy as int]),
                ..self
            },
            OpCode::OrVxVy { vx, vy } => SystemView {
                v: self.v.update(vx as int, self.v[vx as int] | self.v[vy as int]),
                ..self
            },
            OpCode::AndVxVy { vx, vy } => SystemView {
                v: self.v.update(vx as int, self.v[vx as int] & self.v[vy as int]),
                ..self
            },
            OpCode::XorVxVy { vx, vy } => SystemView {
                v: self.v.update(vx as int, self.v[vx as int] ^ self.v[vy as int]),
                ..self
            },
            OpCode::AddVxVy { vx, vy } => {
                let x = self.v[vx as int];
                let y = self.v[vy as int];
                SystemView {
                    v: self.v.update(vx as int, u8_specs::wrapping_add(x, y)).update(
                        15,
                        if x + y > 255 {
                            1u8
                        } else {
                            0u8
                        },
                    ),
                    ..self
                }
            },
            OpCode::Sub { vx, vy } => {
                let x = self.v[vx as int];
                let y = self.v[vy as int];
                SystemView {
                    v: self.v.update(vx as int, u8_specs::wrapping_sub(x, y)).update(
                        15,
                        if x > y {
                            1u8
                        } else {
                            0u8
                        },
                    ),
                    ..self
                }
            },
            OpCode::SubN { vx, vy } => {
                let x = self.v[vx as int];
                let y = self.v[vy as int];
                SystemView {
                    v: self.v.update(vx as int, u8_specs::wrapping_sub(y, x)).update(
                        15,
                        if y > x {
                            1u8
                        } else {
                            0u8
                        },
                    ),
                    ..self
                }
            },
            OpCode::Shr { vx, vy } => {
                let src = if self.quirks.shift_source_vy {
                    self.v[vy as int]
                } else {
                    self.v[vx as int]
                };
                SystemView {
                    v: self.v.update(vx as int, src >> 1).update(15, src & 1),
                    ..self
                }
            },
            OpCode::Shl { vx, vy } => {
                let src = if self.quirks.shift_source_vy {
                    self.v[vy as int]
                } else {
                    self.v[vx as int]
                };
                SystemView {
                    v: self.v.update(vx as int, src << 1).update(15, (src & 0x80) >> 7),
                    ..self
                }
            },
            OpCode::AddVx { vx, value } => SystemView {
                v: self.v.update(vx as int, u8_specs::wrapping_add(self.v[vx as int], value)),
                ..self
            },
            OpCode::SneVxVy { vx, vy } => if self.v[vx as int] != self.v[vy as int] {
                SystemView { pc: pc_after_skip(self.pc), ..self }
            } else {
                self
            },
            OpCode::LdI(value) => SystemView { i: value, ..self },
            OpCode::JmpV0(value) => SystemView { pc: ((self.v[0] + value) as u16), ..self },
            OpCode::Rnd { vx, value } => SystemView {
                v: self.v.update(vx as int, rnd & value),
                ..self
            },
            OpCode::Drw { vx, vy, n } => if self.drw_oob(n as int) {
                self
            } else {
                self.drw_applied(vx as int, vy as int, n as int)
            },
            OpCode::Skp(vx) => if self.key == Some(self.v[vx as int]) {
                SystemView { pc: pc_after_skip(self.pc), ..self }
            } else {
                self
            },
            OpCode::Sknp(vx) => if self.key != Some(self.v[vx as int]) {
                SystemView { pc: pc_after_skip(self.pc), ..self }
            } else {
                self
            },
            OpCode::LdVxDt(vx) => SystemView { v: self.v.update(vx as int, self.delay), ..self },
            OpCode::LdVxK(vx) => match self.key {
                Some(k) => SystemView { v: self.v.update(vx as int, k), ..self },
                None => self,
            },
            OpCode::LdDtVx(vx) => SystemView { delay: self.v[vx as int], ..self },
            OpCode::LdStVx(vx) => SystemView { sound: self.v[vx as int], ..self },
            OpCode::AddIVx(vx) => SystemView {
                i: u16_specs::wrapping_add(self.i, self.v[vx as int] as u16),
                ..self
            },
            OpCode::LdFVx(vx) => SystemView {
                i: ((FONT_BASE + 5 * (self.v[vx as int] & 0x0F)) as u16),
                ..self
            },
            OpCode::LdBVx(vx) => if self.bulk_oob(3) {
                self
            } else {
                let val = self.v[vx as int];
                SystemView {
                    mem: self.mem.update(self.i as int, (val / 100) as u8).update(
                        self.i + 1,
                        ((val / 10) % 10) as u8,
                    ).update(self.i + 2, (val % 10) as u8),
                    ..self
                }
            },
            OpCode::LdIVx(vx) => if self.bulk_oob(vx + 1) {
                self
            } else {
                SystemView {
                    mem: Seq::new(
                        MEM_SIZE as nat,
                        |a: int|
                            if self.i <= a <= self.i + vx {
                                self.v[a - self.i]
                            } else {
                                self.mem[a]
                            },
                    ),
                    ..self
                }
            },
            OpCode::LdVxI(vx) => if self.bulk_oob(vx + 1) {
                self
            } else {
                SystemView {
                    v: Seq::new(
                        16,
                        |q: int|
                            if q <= vx {
                                self.mem[self.i + q]
                            } else {
                                self.v[q]
                            },
                    ),
                    ..self
                }
            },
            OpCode::Unrecognized(w) => self,
        }
    }

    /// Which instructions fault, on exactly which states, and what a
    /// successful execution reports: completion, or suspension awaiting a
    /// key.
    pub open spec fn step_result(self, op: OpCode) -> Result<Progress, Fault> {
        match op {
            OpCode::Ret => if self.sp < 1 {
                Err(Fault::StackUnderflow)
            } else {
                Ok(Progress::Complete)
            },
            OpCode::Call(addr) => if self.sp >= STACK_DEPTH {
                Err(Fault::StackOverflow)
            } else {
                Ok(Progress::Complete)
            },
            OpCode::Drw { vx, vy, n } => if self.drw_oob(n as int) {
                Err(Fault::MemoryOutOfBounds(first_oob(self.i)))
            } else {
                Ok(Progress::Complete)
            },
            OpCode::LdBVx(vx) => if self.bulk_oob(3) {
                Err(Fault::MemoryOutOfBounds(first_oob(self.i)))
            } else {
                Ok(Progress::Complete)
            },
            OpCode::LdIVx(vx) => if self.bulk_oob(vx + 1) {
                Err(Fault::MemoryOutOfBounds(first_oob(self.i)))
            } else {
                Ok(Progress::Complete)
            },
            OpCode::LdVxI(vx) => if self.bulk_oob(vx + 1) {
                Err(Fault::MemoryOutOfBounds(first_oob(self.i)))
            } else {
                Ok(Progress::Complete)
            },
            OpCode::LdVxK(vx) => if self.key is Some {
                Ok(Progress::Complete)
            } else {
                Ok(Progress::AwaitingKey)
            },
            OpCode::Unrecognized(w) => Err(Fault::DecodeUnrecognized(w)),
            _ => Ok(Progress::Complete),
        }
    }
}

/// The program counter after a skip: advanced by one instruction, wrapping
/// at the top of the 16-bit range.
pub open spec fn pc_after_skip(pc: u16) -> u16 {
    u16_specs::wrapping_add(pc, 2)
}

/// The first address a run of accesses starting at `i` touches outside the
/// address space.
pub open spec fn first_oob(i: u16) -> u16 {
    if i >= MEM_SIZE {
        i
    } else {
        (MEM_SIZE as u16)
    }
}

/// The machine. All state is owned here; nothing is global, so independent
/// machines can coexist.
pub struct System {
    mem: Memory,
    pc: u16,
    i: u16,
    stack: Vec<u16>,
    sp: usize,
    v: Vec<u8>,
    fb: Vec<bool>,
    delay: u8,
    sound: u8,
    key: Option<u8>,
    quirks: Quirks,
}

impl View for System {
    type V = SystemView;

    closed spec fn view(&self) -> SystemView {
        SystemView {
            mem: self.mem@,
            pc: self.pc,
            i: self.i,
            stack: self.stack@,
            sp: self.sp as int,
            v: self.v@,
            fb: self.fb@,
            delay: self.delay,
            sound: self.sound,
            key: self.key,
            quirks: self.quirks,
        }
    }
}

/// A vector holding `len` copies of `value`.
fn repeat_value<T: Copy>(len: usize, value: T) -> (v: Vec<T>)
    ensures
        v@.len() == len,
        forall|j: int| 0 <= j < len ==> v@[j] == value,
{
    let mut v: Vec<T> = Vec::new();
    while v.len() < len
        invariant
            v@.len() <= len,
            forall|j: int| 0 <= j < v@.len() ==> v@[j] == value,
        decreases len - v@.len(),
    {
        v.push(value);
    }
    v
}

impl System {
    pub open spec fn wf(&self) -> bool {
        self@.wf()
    }

    /// A machine in the startup state, before any font or ROM is placed.
    pub fn new() -> (s: System)
        ensures
            s.wf(),
            s@ == SystemView::initial(),
    {
        let s = System {
            mem: Memory::new(),
            pc: ROM_START,
            i: 0,
            stack: repeat_value(STACK_DEPTH + 1, 0u16),
            sp: 0,
            v: repeat_value(16, 0u8),
            fb: repeat_value(FB_WIDTH * FB_HEIGHT, false),
            delay: 0,
            sound: 0,
            key: None,
            quirks: Quirks { shift_source_vy: false, wrap_sprites: false },
        };
        proof {
            assert(s@ =~= SystemView::initial());
        }
        s
    }

    /// A machine ready to run: font loaded, ROM bytes placed at the program
    /// base, everything else in the startup state. A ROM over the program
    /// region's capacity is rejected whole.
    pub fn init(rom: &Vec<u8>) -> (r: Result<System, Fault>)
        ensures
            match r {
                Ok(s) => {
                    &&& rom@.len() <= ROM_CAPACITY
                    &&& s.wf()
                    &&& s@ == SystemView::initial_with_rom(rom@)
                },
                Err(f) => {
                    &&& rom@.len() > ROM_CAPACITY
                    &&& f == Fault::RomTooLarge
                },
            },
    {
        let mut s = Self::new();
        s.mem.load_font();
        match s.mem.load_rom(rom) {
            Ok(()) => {
                proof {
                    assert(s.mem@ =~= SystemView::loaded_mem(rom@));
                    assert(s@ =~= SystemView::initial_with_rom(rom@));
                }
                Ok(s)
            },
            Err(f) => Err(f),
        }
    }

    /// Reads the two-byte instruction word at the program counter big-endian
    /// and advances the program counter by exactly 2. A program counter
    /// whose word would run outside the address space is a fault, and the
    /// state is left unchanged.
    pub fn fetch(&mut self) -> (r: Result<u16, Fault>)
        requires
            old(self).wf(),
        ensures
            final(self).wf(),
            match r {
                Ok(w) => {
                    &&& old(self)@.pc + 1 < MEM_SIZE
                    &&& w == old(self)@.mem[old(self)@.pc as int] * 256 + old(self)@.mem[old(
                        self,
                    )@.pc + 1]
                    &&& final(self)@ == (SystemView { pc: (old(self)@.pc + 2) as u16, ..old(self)@ })
                },
                Err(f) => {
                    &&& old(self)@.pc + 1 >= MEM_SIZE
                    &&& f == Fault::MemoryOutOfBounds(old(self)@.pc)
                    &&& final(self)@ == old(self)@
                },
            },
    {
        match self.mem.fetch_word(self.pc) {
            Ok(w) => {
                self.pc = self.pc + 2;
                Ok(w)
            },
            Err(f) => Err(f),
        }
    }

    /// One tick of the external 60 Hz clock: each timer that is above zero
    /// decrements by one; a zero timer stays at zero.
    pub fn tick_timers(&mut self)
        requires
            old(self).wf(),
        ensures
            final(self).wf(),
            final(self)@ == (SystemView {
                delay: tick_down(old(self)@.delay),
                sound: tick_down(old(self)@.sound),
                ..old(self)@
            }),
    {
        if self.delay > 0 {
            self.delay = self.delay - 1;
        }
        if self.sound > 0 {
            self.sound = self.sound - 1;
        }
    }

    /// Latches the currently pressed key, or clears the latch. Supplied by
    /// the external input collaborator once per cycle before `execute`.
    pub fn set_key(&mut self, key: Option<u8>)
        requires
            old(self).wf(),
            key matches Some(k) ==> k < 16,
        ensures
            final(self).wf(),
            final(self)@ == (SystemView { key, ..old(self)@ }),
    {
        self.key = key;
    }

    /// Picks the dialect choices the loaded content expects.
    pub fn set_quirks(&mut self, quirks: Quirks)
        requires
            old(self).wf(),
        ensures
            final(self).wf(),
            final(self)@ == (SystemView { quirks, ..old(self)@ }),
    {
        self.quirks = quirks;
    }

    /// The configured dialect choices.
    pub fn quirks(&self) -> (q: Quirks)
        ensures
            q == self@.quirks,
    {
        self.quirks
    }

    /// The program counter.
    pub fn pc(&self) -> (r: u16)
        ensures
            r == self@.pc,
    {
        self.pc
    }

    /// The stack pointer: how many return addresses are on the call stack.
    pub fn sp(&self) -> (r: usize)
        ensures
            r == self@.sp,
    {
        self.sp
    }

    /// The address register I.
    pub fn i_register(&self) -> (r: u16)
        ensures
            r == self@.i,
    {
        self.i
    }

    /// The delay timer.
    pub fn delay_timer(&self) -> (r: u8)
        ensures
            r == self@.delay,
    {
        self.delay
    }

    /// The sound timer.
    pub fn sound_timer(&self) -> (r: u8)
        ensures
            r == self@.sound,
    {
        self.sound
    }

    /// General-purpose register Vx.
    pub fn register(&self, x: usize) -> (r: u8)
        requires
            self.wf(),
            x < 16,
        ensures
            r == self@.v[x as int],
    {
        self.v[x]
    }

    /// Sets general-purpose register Vx.
    pub fn set_register(&mut self, x: usize, value: u8)
        requires
            old(self).wf(),
            x < 16,
        ensures
            final(self).wf(),
            final(self)@ == (SystemView { v: old(self)@.v.update(x as int, value), ..old(self)@ }),
    {
        self.v.set(x, value);
    }

    /// Sets the program counter.
    pub fn set_pc(&mut self, pc: u16)
        requires
            old(self).wf(),
        ensures
            final(self).wf(),
            final(self)@ == (SystemView { pc, ..old(self)@ }),
    {
        self.pc = pc;
    }

    /// Sets the address register I.
    pub fn set_i_register(&mut self, value: u16)
        requires
            old(self).wf(),
        ensures
            final(self).wf(),
            final(self)@ == (SystemView { i: value, ..old(self)@ }),
    {
        self.i = value;
    }

    /// Sets the stack pointer.
    pub fn set_sp(&mut self, sp: usize)
        requires
            old(self).wf(),
            sp <= STACK_DEPTH,
        ensures
            final(self).wf(),
            final(self)@ == (SystemView { sp: sp as int, ..old(self)@ }),
    {
        self.sp = sp;
    }

    /// The saved program counter in stack slot `d`.
    pub fn stack_slot(&self, d: usize) -> (r: u16)
        requires
            self.wf(),
            d <= STACK_DEPTH,
        ensures
            r == self@.stack[d as int],
    {
        self.stack[d]
    }

    /// Writes a saved program counter into stack slot `d`.
    pub fn set_stack_slot(&mut self, d: usize, value: u16)
        requires
            old(self).wf(),
            d <= STACK_DEPTH,
        ensures
            final(self).wf(),
            final(self)@ == (SystemView {
                stack: old(self)@.stack.update(d as int, value),
                ..old(self)@
            }),
    {
        self.stack.set(d, value);
    }

    /// The pixel at column `x`, row `y`; origin top-left.
    pub fn pixel(&self, x: usize, y: usize) -> (r: bool)
        requires
            self.wf(),
            x < FB_WIDTH,
            y < FB_HEIGHT,
        ensures
            r == self@.fb[y * FB_WIDTH + x],
    {
        self.fb[y * FB_WIDTH + x]
    }

    /// Sets the pixel at column `x`, row `y`.
    pub fn set_pixel(&mut self, x: usize, y: usize, on: bool)
        requires
            old(self).wf(),
            x < FB_WIDTH,
            y < FB_HEIGHT,
        ensures
            final(self).wf(),
            final(self)@ == (SystemView {
                fb: old(self)@.fb.update((y * FB_WIDTH + x) as int, on),
                ..old(self)@
            }),
    {
        self.fb.set(y * FB_WIDTH + x, on);
    }

    /// The whole pixel buffer, row-major: pixel (x, y) at index y * 64 + x.
    pub fn frame_buffer(&self) -> (r: &Vec<bool>)
        ensures
            r@ == self@.fb,
    {
        &self.fb
    }

    /// Bounds-checked read of one memory byte.
    pub fn read_byte(&self, addr: u16) -> (r: Result<u8, Fault>)
        requires
            self.wf(),
        ensures
            match r {
                Ok(b) => addr < MEM_SIZE && b == self@.mem[addr as int],
                Err(f) => addr >= MEM_SIZE && f == Fault::MemoryOutOfBounds(addr),
            },
    {
        self.mem.read_byte(addr)
    }

    /// Bounds-checked write of one memory byte; out of range, nothing
    /// changes.
    pub fn write_byte(&mut self, addr: u16, value: u8) -> (r: Result<(), Fault>)
        requires
            old(self).wf(),
        ensures
            final(self).wf(),
            match r {
                Ok(()) => addr < MEM_SIZE && final(self)@ == (SystemView {
                    mem: old(self)@.mem.update(addr as int, value),
                    ..old(self)@
                }),
                Err(f) => addr >= MEM_SIZE && f == Fault::MemoryOutOfBounds(addr) && final(self)@
                    == old(self)@,
            },
    {
        let r = self.mem.write_byte(addr, value);
        proof {
            if r is Ok {
                assert(self@ =~= SystemView {
                    mem: old(self)@.mem.update(addr as int, value),
                    ..old(self)@
                });
            }
        }
        r
    }

    /// The sprite blit: draws `sprite_rows` bytes from address I as an
    /// 8-pixel-wide sprite anchored at (Vx mod 64, Vy mod 32), XORing each
    /// sprite bit into its pixel, and sets VF to 1 exactly when some sprite
    /// bit lands on an already-set pixel, evaluated across the whole sprite.
    /// Every sprite row is read from memory whether or not its pixels land
    /// on the grid; a read past the address space is a fault that leaves
    /// the state unchanged.
    #[verifier::loop_isolation(false)]
    pub fn update_frame_buffer(&mut self, vx: usize, vy: usize, sprite_rows: usize) -> (r: Result<
        (),
        Fault,
    >)
        requires
            old(self).wf(),
            vx < 16,
            vy < 16,
            sprite_rows < 16,
        ensures
            final(self).wf(),
            match r {
                Ok(()) => !old(self)@.drw_oob(sprite_rows as int) && final(self)@ == old(
                    self,
                )@.drw_applied(vx as int, vy as int, sprite_rows as int),
                Err(f) => {
                    &&& old(self)@.drw_oob(sprite_rows as int)
                    &&& f == Fault::MemoryOutOfBounds(first_oob(old(self)@.i))
                    &&& final(self)@ == old(self)@
                },
            },
    {
        let base = self.i as usize;
        if sprite_rows > 0 && base + sprite_rows > MEM_SIZE {
            let addr = if base >= MEM_SIZE {
                self.i
            } else {
                MEM_SIZE as u16
            };
            return Err(Fault::MemoryOutOfBounds(addr));
        }
        let wrap = self.quirks.wrap_sprites;
        let sx = (self.v[vx] % 64) as usize;
        let sy = (self.v[vy] % 32) as usize;
        let ghost fb0 = self@.fb;
        let ghost v0 = self@.v;
        let ghost p = self@.drw_params(vx as int, vy as int, sprite_rows as int);
        proof {
            assert(p.wf());
            lemma_prefix_start(fb0, p);
        }
        self.v.set(0xF, 0);
        let mut row: usize = 0;
        while row < sprite_rows
            invariant
                row <= sprite_rows,
                self@.fb == draw_prefix(fb0, p, row as int, 0),
                self@.v == v0.update(
                    15,
                    if collision_prefix(fb0, p, row as int, 0) {
                        1u8
                    } else {
                        0u8
                    },
                ),
                self@.mem == old(self)@.mem,
                self@.pc == old(self)@.pc,
                self@.i == old(self)@.i,
                self@.stack == old(self)@.stack,
                self@.sp == old(self)@.sp,
                self@.delay == old(self)@.delay,
                self@.sound == old(self)@.sound,
                self@.key == old(self)@.key,
                self@.quirks == old(self)@.quirks,
            decreases sprite_rows - row,
        {
            let row_byte = self.mem.byte_at(base + row);
            let mut bit: usize = 0;
            while bit < 8
                invariant
                    bit <= 8,
                    row < sprite_rows,
                    row_byte == p.mem[p.base + row],
                    self@.fb == draw_prefix(fb0, p, row as int, bit as int),
                    self@.v == v0.update(
                        15,
                        if collision_prefix(fb0, p, row as int, bit as int) {
                            1u8
                        } else {
                            0u8
                        },
                    ),
                    self@.mem == old(self)@.mem,
                    self@.pc == old(self)@.pc,
                    self@.i == old(self)@.i,
                    self@.stack == old(self)@.stack,
                    self@.sp == old(self)@.sp,
                    self@.delay == old(self)@.delay,
                    self@.sound == old(self)@.sound,
                    self@.key == old(self)@.key,
                    self@.quirks == old(self)@.quirks,
                decreases 8 - bit,
            {
                proof {
                    lemma_prefix_step(fb0, p, row as int, bit as int);
                }
                let x0 = sx + bit;
                let y0 = sy + row;
                let x = if wrap {
                    x0 % 64
                } else {
                    x0
                };
                let y = if wrap {
                    y0 % 32
                } else {
                    y0
                };
                if x < 64 && y < 32 {
                    let shift = (7 - bit) as u8;
                    let pixel = ((row_byte >> shift) & 0x01) == 1;
                    let idx = y * 64 + x;
                    proof {
                        assert(pix_target(p, row as int, bit as int) == Some((x as int, y as int)));
                        assert(pixel == sprite_bit(p.mem[p.base + row], bit as int));
                    }
                    let old_pixel = self.fb[idx];
                    if old_pixel && pixel {
                        self.v.set(0xF, 1);
                    }
                    self.fb.set(idx, old_pixel ^ pixel);
                    proof {
                        assert(self@.fb =~= draw_prefix(fb0, p, row as int, bit as int + 1));
                        assert(self@.v =~= v0.update(
                            15,
                            if collision_prefix(fb0, p, row as int, bit as int + 1) {
                                1u8
                            } else {
                                0u8
                            },
                        ));
                    }
                } else {
                    proof {
                        assert(pix_target(p, row as int, bit as int) is None);
                        assert(!hits(fb0, p, row as int, bit as int));
                    }
                }
                bit = bit + 1;
            }
            proof {
                lemma_prefix_row_end(fb0, p, row as int);
            }
            row = row + 1;
        }
        proof {
            lemma_prefix_finish(fb0, p);
            assert(self@ =~= old(self)@.drw_applied(vx as int, vy as int, sprite_rows as int));
        }
        Ok(())
    }

    /// Bulk store: V0..=Vx to memory at I, I+1, ..., I+x. A run past the
    /// address space is a fault that leaves the state unchanged.
    #[verifier::loop_isolation(false)]
    fn store_registers(&mut self, vx: usize) -> (r: Result<Progress, Fault>)
        requires
            old(self).wf(),
            vx < 16,
        ensures
            final(self).wf(),
            final(self)@ == old(self)@.step(OpCode::LdIVx(vx), 0),
            r == old(self)@.step_result(OpCode::LdIVx(vx)),
    {
        let base = self.i as usize;
        if base + vx + 1 > MEM_SIZE {
            let addr = if base >= MEM_SIZE {
                self.i
            } else {
                MEM_SIZE as u16
            };
            return Err(Fault::MemoryOutOfBounds(addr));
        }
        let mut j: usize = 0;
        while j <= vx
            invariant
                j <= vx + 1,
                forall|a: int| base <= a < base + j ==> self@.mem[a] == old(self)@.v[a - base],
                forall|a: int|
                    0 <= a < MEM_SIZE && !(base <= a < base + j) ==> self@.mem[a] == old(
                        self,
                    )@.mem[a],
                self@.mem.len() == MEM_SIZE,
                self@.pc == old(self)@.pc,
                self@.i == old(self)@.i,
                self@.stack == old(self)@.stack,
                self@.sp == old(self)@.sp,
                self@.v == old(self)@.v,
                self@.fb == old(self)@.fb,
                self@.delay == old(self)@.delay,
                self@.sound == old(self)@.sound,
                self@.key == old(self)@.key,
                self@.quirks == old(self)@.quirks,
            decreases vx + 1 - j,
        {
            self.mem.set_byte_at(base + j, self.v[j]);
            j = j + 1;
        }
        proof {
            assert(self@.mem =~= old(self)@.step(OpCode::LdIVx(vx), 0).mem);
            assert(self@ =~= old(self)@.step(OpCode::LdIVx(vx), 0));
        }
        Ok(Progress::Complete)
    }

    /// Bulk load: memory at I, I+1, ..., I+x into V0..=Vx. A run past the
    /// address space is a fault that leaves the state unchanged.
    #[verifier::loop_isolation(false)]
    fn load_registers(&mut self, vx: usize) -> (r: Result<Progress, Fault>)
        requires
            old(self).wf(),
            vx < 16,
        ensures
            final(self).wf(),
            final(self)@ == old(self)@.step(OpCode::LdVxI(vx), 0),
            r == old(self)@.step_result(OpCode::LdVxI(vx)),
    {
        let base = self.i as usize;
        if base + vx + 1 > MEM_SIZE {
            let addr = if base >= MEM_SIZE {
                self.i
            } else {
                MEM_SIZE as u16
            };
            return Err(Fault::MemoryOutOfBounds(addr));
        }
        let mut j: usize = 0;
        while j <= vx
            invariant
                j <= vx + 1,
                forall|q: int| 0 <= q < j ==> self@.v[q] == old(self)@.mem[base + q],
                forall|q: int| j <= q < 16 ==> self@.v[q] == old(self)@.v[q],
                self@.v.len() == 16,
                self@.mem == old(self)@.mem,
                self@.pc == old(self)@.pc,
                self@.i == old(self)@.i,
                self@.stack == old(self)@.stack,
                self@.sp == old(self)@.sp,
                self@.fb == old(self)@.fb,
                self@.delay == old(self)@.delay,
                self@.sound == old(self)@.sound,
                self@.key == old(self)@.key,
                self@.quirks == old(self)@.quirks,
            decreases vx + 1 - j,
        {
            let b = self.mem.byte_at(base + j);
            self.v.set(j, b);
            j = j + 1;
        }
        proof {
            assert(self@.v =~= old(self)@.step(OpCode::LdVxI(vx), 0).v);
            assert(self@ =~= old(self)@.step(OpCode::LdVxI(vx), 0));
        }
        Ok(Progress::Complete)
    }

    /// Stores the three decimal digits of Vx at I, I+1, I+2, most
    /// significant first. A run past the address space is a fault that
    /// leaves the state unchanged.
    fn store_bcd(&mut self, vx: usize) -> (r: Result<Progress, Fault>)
        requires
            old(self).wf(),
            vx < 16,
        ensures
            final(self).wf(),
            final(self)@ == old(self)@.step(OpCode::LdBVx(vx), 0),
            r == old(self)@.step_result(OpCode::LdBVx(vx)),
    {
        let base = self.i as usize;
        if base + 3 > MEM_SIZE {
            let addr = if base >= MEM_SIZE {
                self.i
            } else {
                MEM_SIZE as u16
            };
            return Err(Fault::MemoryOutOfBounds(addr));
        }
        let val = self.v[vx];
        self.mem.set_byte_at(base, val / 100);
        self.mem.set_byte_at(base + 1, (val / 10) % 10);
        self.mem.set_byte_at(base + 2, val % 10);
        proof {
            assert(self@ =~= old(self)@.step(OpCode::LdBVx(vx), 0));
        }
        Ok(Progress::Complete)
    }

    /// Applies the random-number instruction with a caller-supplied byte:
    /// Vx = byte AND mask. `execute` feeds it the process-wide uniform
    /// source; a test may substitute any deterministic byte.
    pub fn store_random(&mut self, vx: usize, mask: u8, byte: u8)
        requires
            old(self).wf(),
            vx < 16,
        ensures
            final(self).wf(),
            final(self)@ == old(self)@.step(OpCode::Rnd { vx, value: mask }, byte),
    {
        self.v.set(vx, byte & mask);
        proof {
            assert(self@ =~= old(self)@.step(OpCode::Rnd { vx, value: mask }, byte));
        }
    }

    /// Applies one decoded instruction to the machine state: the sole
    /// mutator. 8-bit arithmetic wraps modulo 256, and the flag register VF
    /// is written as the last effect of the instructions that set it. A
    /// successful key-wait with no key pressed changes nothing and reports
    /// that the machine awaits a key. Faults — stack discipline violations,
    /// memory runs past the address space, an unrecognized instruction —
    /// leave the state unchanged.
    pub fn execute(&mut self, op: &OpCode) -> (r: Result<Progress, Fault>)
        requires
            old(self).wf(),
            op.wf(),
        ensures
            final(self).wf(),
            r == old(self)@.step_result(*op),
            !op.is_random() ==> (final(self)@ == old(self)@.step(*op, 0)),
            op.is_random() ==> (exists|b: u8| final(self)@ == old(self)@.step(*op, b)),
    {
        match *op {
            OpCode::Cls => {
                self.fb = repeat_value(FB_WIDTH * FB_HEIGHT, false);
                proof {
                    assert(self@ =~= old(self)@.step(*op, 0));
                }
                Ok(Progress::Complete)
            },
            OpCode::Ret => {
                if self.sp < 1 {
                    Err(Fault::StackUnderflow)
                } else {
                    self.pc = self.stack[self.sp];
                    self.sp = self.sp - 1;
                    proof {
                        assert(self@ =~= old(self)@.step(*op, 0));
                    }
                    Ok(Progress::Complete)
                }
            },
            OpCode::Jmp(addr) => {
                self.pc = addr;
                Ok(Progress::Complete)
            },
            OpCode::Call(addr) => {
                if self.sp >= STACK_DEPTH {
                    Err(Fault::StackOverflow)
                } else {
                    self.sp = self.sp + 1;
                    self.stack.set(self.sp, self.pc);
                    self.pc = addr;
                    proof {
                        assert(self@ =~= old(self)@.step(*op, 0));
                    }
                    Ok(Progress::Complete)
                }
            },
            OpCode::Se { vx, value } => {
                if self.v[vx] == value {
                    self.pc = self.pc.wrapping_add(2);
                }
                Ok(Progress::Complete)
            },
            OpCode::Sne { vx, value } => {
                if self.v[vx] != value {
                    self.pc = self.pc.wrapping_add(2);
                }
                Ok(Progress::Complete)
            },
            OpCode::SeVxVy { vx, vy } => {
                if self.v[vx] == self.v[vy] {
                    self.pc = self.pc.wrapping_add(2);
                }
                Ok(Progress::Complete)
            },
            OpCode::LdVx { vx, value } => {
                self.v.set(vx, value);
                Ok(Progress::Complete)
            },
            OpCode::LdVxVy { vx, vy } => {
                let y = self.v[vy];
                self.v.set(vx, y);
                Ok(Progress::Complete)
            },
            OpCode::OrVxVy { vx, vy } => {
                let r = self.v[vx] | self.v[vy];
                self.v.set(vx, r);
                Ok(Progress::Complete)
            },
            OpCode::AndVxVy { vx, vy } => {
                let r = self.v[vx] & self.v[vy];
                self.v.set(vx, r);
                Ok(Progress::Complete)
            },
            OpCode::XorVxVy { vx, vy } => {
                let r = self.v[vx] ^ self.v[vy];
                self.v.set(vx, r);
                Ok(Progress::Complete)
            },
            OpCode::AddVxVy { vx, vy } => {
                let x = self.v[vx];
                let y = self.v[vy];
                self.v.set(vx, x.wrapping_add(y));
                let carry: u8 = if (x as u16) + (y as u16) > 255 {
                    1
                } else {
                    0
                };
                self.v.set(0xF, carry);
                proof {
                    assert(self@ =~= old(self)@.step(*op, 0));
                }
                Ok(Progress::Complete)
            },
            OpCode::Sub { vx, vy } => {
                let x = self.v[vx];
                let y = self.v[vy];
                self.v.set(vx, x.wrapping_sub(y));
                self.v.set(
                    0xF,
                    if x > y {
                        1
                    } else {
                        0
                    },
                );
                proof {
                    assert(self@ =~= old(self)@.step(*op, 0));
                }
                Ok(Progress::Complete)
            },
            OpCode::SubN { vx, vy } => {
                let x = self.v[vx];
                let y = self.v[vy];
                self.v.set(vx, y.wrapping_sub(x));
                self.v.set(
                    0xF,
                    if y > x {
                        1
                    } else {
                        0
                    },
                );
                proof {
                    assert(self@ =~= old(self)@.step(*op, 0));
                }
                Ok(Progress::Complete)
            },
            OpCode::Shr { vx, vy } => {
                let src = if self.quirks.shift_source_vy {
                    self.v[vy]
                } else {
                    self.v[vx]
                };
                self.v.set(vx, src >> 1);
                self.v.set(0xF, src & 1);
                proof {
                    assert(self@ =~= old(self)@.step(*op, 0));
                }
                Ok(Progress::Complete)
            },
            OpCode::Shl { vx, vy } => {
                let src = if self.quirks.shift_source_vy {
                    self.v[vy]
                } else {
                    self.v[vx]
                };
                self.v.set(vx, src << 1);
                self.v.set(0xF, (src & 0x80) >> 7);
                proof {
                    assert(self@ =~= old(self)@.step(*op, 0));
                }
                Ok(Progress::Complete)
            },
            OpCode::AddVx { vx, value } => {
                let r = self.v[vx].wrapping_add(value);
                self.v.set(vx, r);
                Ok(Progress::Complete)
            },
            OpCode::SneVxVy { vx, vy } => {
                if self.v[vx] != self.v[vy] {
                    self.pc = self.pc.wrapping_add(2);
                }
                Ok(Progress::Complete)
            },
            OpCode::LdI(value) => {
                self.i = value;
                Ok(Progress::Complete)
            },
            OpCode::JmpV0(value) => {
                self.pc = (self.v[0] as u16) + value;
                Ok(Progress::Complete)
            },
            OpCode::Rnd { vx, value } => {
                let b = random_byte();
                self.store_random(vx, value, b);
                Ok(Progress::Complete)
            },
            OpCode::Drw { vx, vy, n } => {
                match self.update_frame_buffer(vx, vy, n) {
                    Ok(()) => Ok(Progress::Complete),
                    Err(f) => Err(f),
                }
            },
            OpCode::Skp(vx) => {
                let pressed = match self.key {
                    Some(k) => k == self.v[vx],
                    None => false,
                };
                if pressed {
                    self.pc = self.pc.wrapping_add(2);
                }
                Ok(Progress::Complete)
            },
            OpCode::Sknp(vx) => {
                let pressed = match self.key {
                    Some(k) => k == self.v[vx],
                    None => false,
                };
                if !pressed {
                    self.pc = self.pc.wrapping_add(2);
                }
                Ok(Progress::Complete)
            },
            OpCode::LdVxDt(vx) => {
                let d = self.delay;
                self.v.set(vx, d);
                Ok(Progress::Complete)
            },
            OpCode::LdVxK(vx) => {
                match self.key {
                    Some(k) => {
                        self.v.set(vx, k);
                        Ok(Progress::Complete)
                    },
                    None => Ok(Progress::AwaitingKey),
                }
            },
            OpCode::LdDtVx(vx) => {
                self.delay = self.v[vx];
                Ok(Progress::Complete)
            },
            OpCode::LdStVx(vx) => {
                self.sound = self.v[vx];
                Ok(Progress::Complete)
            },
            OpCode::AddIVx(vx) => {
                self.i = self.i.wrapping_add(self.v[vx] as u16);
                Ok(Progress::Complete)
            },
            OpCode::LdFVx(vx) => {
                let digit = (self.v[vx] & 0x0F) as u16;
                proof {
                    let b = self.v[vx as int];
                    assert((b & 0x0F) < 16) by (bit_vector);
                }
                self.i = FONT_BASE + 5 * digit;
                Ok(Progress::Complete)
            },
            OpCode::LdBVx(vx) => self.store_bcd(vx),
            OpCode::LdIVx(vx) => self.store_registers(vx),
            OpCode::LdVxI(vx) => self.load_registers(vx),
            OpCode::Unrecognized(w) => Err(Fault::DecodeUnrecognized(w)),
        }
    }
}

/// Relies on rand::random: one byte drawn from the process-wide uniform
/// source. Nothing is promised of the value; callers state what holds of
/// every outcome.
#[verifier::external_body]
fn random_byte() -> u8 {
    rand::random::<u8>()
}

/// Law: a call followed by a return restores the program counter and the
/// stack pointer, whatever the call's target address, and touches no
/// register, memory byte or pixel. The call itself lands on its target.
pub proof fn lemma_call_ret_round_trip(s: SystemView, addr: u16)
    requires
        s.wf(),
        s.sp < STACK_DEPTH,
    ensures
        s.step_result(OpCode::Call(addr)) == Ok::<Progress, Fault>(Progress::Complete),
        s.step(OpCode::Call(addr), 0).pc == addr,
        s.step(OpCode::Call(addr), 0).step_result(OpCode::Ret) == Ok::<Progress, Fault>(
            Progress::Complete,
        ),
        s.step(OpCode::Call(addr), 0).step(OpCode::Ret, 0).pc == s.pc,
        s.step(OpCode::Call(addr), 0).step(OpCode::Ret, 0).sp == s.sp,
        s.step(OpCode::Call(addr), 0).step(OpCode::Ret, 0).v == s.v,
        s.step(OpCode::Call(addr), 0).step(OpCode::Ret, 0).mem == s.mem,
        s.step(OpCode::Call(addr), 0).step(OpCode::Ret, 0).fb == s.fb,
{
}

/// Law: an unrecognized instruction word surfaces as a fault carrying the
/// word, and mutates no register, memory cell or other machine state.
pub proof fn lemma_unrecognized_preserves_state(s: SystemView, w: u16, rnd: u8)
    ensures
        s.step(OpCode::Unrecognized(w), rnd) == s,
        s.step_result(OpCode::Unrecognized(w)) == Err::<Progress, Fault>(
            Fault::DecodeUnrecognized(w),
        ),
{
}

/// Law: executing any well-formed instruction keeps the machine state
/// well-formed, whatever byte the uniform source supplies.
pub proof fn lemma_step_preserves_wf(s: SystemView, op: OpCode, rnd: u8)
    requires
        s.wf(),
        op.wf(),
    ensures
        s.step(op, rnd).wf(),
{
}

/// Law: drawing the same sprite twice at the same coordinates restores
/// every pixel the first draw touched — the XOR blit cancels itself —
/// whatever the buffer held before. The coordinate registers must not be
/// VF, which the draw itself overwrites with the collision flag.
pub proof fn lemma_draw_twice_restores(s: SystemView, vx: usize, vy: usize, n: usize)
    requires
        s.wf(),
        vx < 16,
        vy < 16,
        n < 16,
        vx != 15,
        vy != 15,
        !s.drw_oob(n as int),
    ensures
        s.step(OpCode::Drw { vx, vy, n }, 0).step(OpCode::Drw { vx, vy, n }, 0).fb == s.fb,
{
    let op = OpCode::Drw { vx, vy, n };
    let p = s.drw_params(vx as int, vy as int, n as int);
    let s1 = s.step(op, 0);
    assert(s1.drw_params(vx as int, vy as int, n as int) == p);
    crate::frame_buffer::lemma_draw_twice_cancels(s.fb, p);
}

/// Law: a draw on an empty buffer reports no collision, and drawing the
/// same sprite again reports one, as soon as some sprite bit is set and
/// lands on the grid. The coordinate registers must not be VF.
pub proof fn lemma_draw_twice_collides(
    s: SystemView,
    vx: usize,
    vy: usize,
    n: usize,
    row: int,
    bit: int,
)
    requires
        s.wf(),
        vx < 16,
        vy < 16,
        n < 16,
        vx != 15,
        vy != 15,
        !s.drw_oob(n as int),
        forall|idx: int| 0 <= idx < s.fb.len() ==> !s.fb[idx],
        0 <= row < n,
        0 <= bit < 8,
        (pix_target(s.drw_params(vx as int, vy as int, n as int), row, bit) is Some),
        sprite_bit(s.mem[s.i + row], bit),
    ensures
        s.step(OpCode::Drw { vx, vy, n }, 0).v[15] == 0,
        s.step(OpCode::Drw { vx, vy, n }, 0).step(OpCode::Drw { vx, vy, n }, 0).v[15] == 1,
{
    let op = OpCode::Drw { vx, vy, n };
    let p = s.drw_params(vx as int, vy as int, n as int);
    let s1 = s.step(op, 0);
    assert(s1.drw_params(vx as int, vy as int, n as int) == p);
    crate::frame_buffer::lemma_draw_collision_on_empty(s.fb, p, row, bit);
}

/// One 60 Hz decrement of a timer value.
pub open spec fn tick_down(t: u8) -> u8 {
    if t > 0 {
        (t - 1) as u8
    } else {
        0
    }
}

} // verus!

