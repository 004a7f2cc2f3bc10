//! The instruction decoder: a pure, total function from a raw 16-bit
//! instruction word to one member of a closed set of instruction variants.
//! Any pattern outside the defined families decodes to an explicit
//! `Unrecognized` variant carrying the word.
use vstd::prelude::*;

verus! {

/// One decoded instruction. Each variant carries only the operand fields
/// relevant to it: register indices, 8-bit immediates, 12-bit addresses and
/// sprite heights.
#[derive(Clone, Copy, Debug, PartialEq, Eq, Structural)]
pub enum OpCode {
    /// 00E0: clear the pixel buffer.
    Cls,
    /// 00EE: return, popping the program counter from the stack.
    Ret,
    /// 1nnn: jump to address nnn.
    Jmp(u16),
    /// 2nnn: push the program counter, then jump to nnn.
    Call(u16),
    /// 3xkk: skip the next instruction if Vx == kk.
    Se { vx: usize, value: u8 },
    /// 4xkk: skip the next instruction if Vx != kk.
    Sne { vx: usize, value: u8 },
    /// 5xy0: skip the next instruction if Vx == Vy.
    SeVxVy { vx: usize, vy: usize },
    /// 6xkk: Vx = kk.
    LdVx { vx: usize, value: u8 },
    /// 8xy0: Vx = Vy.
    LdVxVy { vx: usize, vy: usize },
    /// 8xy1: Vx |= Vy.
    OrVxVy { vx: usize, vy: usize },
    /// 8xy2: Vx &= Vy.
    AndVxVy { vx: usize, vy: usize },
    /// 8xy3: Vx ^= Vy.
    XorVxVy { vx: usize, vy: usize },
    /// 8xy4: Vx += Vy wrapping, carry into VF.
    AddVxVy { vx: usize, vy: usize },
    /// 8xy5: Vx -= Vy wrapping, VF = 1 when no borrow.
    Sub { vx: usize, vy: usize },
    /// 8xy7: Vx = Vy - Vx wrapping, VF = 1 when no borrow.
    SubN { vx: usize, vy: usize },
    /// 8xy6: shift right by one, VF = the dropped low bit.
    Shr { vx: usize, vy: usize },
    /// 8xyE: shift left by one, VF = the dropped high bit.
    Shl { vx: usize, vy: usize },
    /// 7xkk: Vx += kk wrapping, no flag.
    AddVx { vx: usize, value: u8 },
    /// 9xy0: skip the next instruction if Vx != Vy.
    SneVxVy { vx: usize, vy: usize },
    /// Annn: I = nnn.
    LdI(u16),
    /// Bnnn: jump to nnn + V0.
    JmpV0(u16),
    /// Cxkk: Vx = random byte AND kk.
    Rnd { vx: usize, value: u8 },
    /// Dxyn: draw the n-byte sprite at address I to (Vx, Vy).
    Drw { vx: usize, vy: usize, n: usize },
    /// Ex9E: skip the next instruction if key Vx is pressed.
    Skp(usize),
    /// ExA1: skip the next instruction if key Vx is not pressed.
    Sknp(usize),
    /// Fx07: Vx = delay timer.
    LdVxDt(usize),
    /// Fx0A: wait for a key press and store it in Vx.
    LdVxK(usize),
    /// Fx15: delay timer = Vx.
    LdDtVx(usize),
    /// Fx18: sound timer = Vx.
    LdStVx(usize),
    /// Fx1E: I += Vx wrapping.
    AddIVx(usize),
    /// Fx29: I = address of the font glyph for the low nibble of Vx.
    LdFVx(usize),
    /// Fx33: store the decimal digits of Vx at I, I+1, I+2.
    LdBVx(usize),
    /// Fx55: store V0..=Vx to memory at I.
    LdIVx(usize),
    /// Fx65: load V0..=Vx from memory at I.
    LdVxI(usize),
    /// Any word matching no defined pattern.
    Unrecognized(u16),
}

/// The x register index field: the second-highest nibble.
pub open spec fn spec_op_x(op: u16) -> usize {
    (((op & 0x0F00) >> 8) as usize)
}

/// The y register index field: the second-lowest nibble.
pub open spec fn spec_op_y(op: u16) -> usize {
    (((op & 0x00F0) >> 4) as usize)
}

/// The 12-bit address field.
pub open spec fn spec_op_nnn(op: u16) -> u16 {
    op & 0x0FFF
}

/// The 8-bit immediate field: the low byte.
pub open spec fn spec_op_kk(op: u16) -> u8 {
    ((op & 0x00FF) as u8)
}

/// The 4-bit sprite height field: the low nibble.
pub open spec fn spec_op_n(op: u16) -> usize {
    ((op & 0x000F) as usize)
}

/// What `decode` returns for every 16-bit word: the single defined variant
/// whose pattern the word matches, or `Unrecognized`.
pub open spec fn spec_decode(op: u16) -> OpCode {
    if op == 0x00E0 {
        OpCode::Cls
    } else if op == 0x00EE {
        OpCode::Ret
    } else {
        let family = op & 0xF000;
        if family == 0x1000 {
            OpCode::Jmp(spec_op_nnn(op))
        } else if family == 0x2000 {
            OpCode::Call(spec_op_nnn(op))
        } else if family == 0x3000 {
            OpCode::Se { vx: spec_op_x(op), value: spec_op_kk(op) }
        } else if family == 0x4000 {
            OpCode::Sne { vx: spec_op_x(op), value: spec_op_kk(op) }
        } else if family == 0x5000 {
            if op & 0x000F == 0x0000 {
                OpCode::SeVxVy { vx: spec_op_x(op), vy: spec_op_y(op) }
            } else {
                OpCode::Unrecognized(op)
            }
        } else if family == 0x6000 {
            OpCode::LdVx { vx: spec_op_x(op), value: spec_op_kk(op) }
        } else if family == 0x7000 {
            OpCode::AddVx { vx: spec_op_x(op), value: spec_op_kk(op) }
        } else if family == 0x8000 {
            let sub = op & 0x000F;
            if sub == 0x0000 {
                OpCode::LdVxVy { vx: spec_op_x(op), vy: spec_op_y(op) }
            } else if sub == 0x0001 {
                OpCode::OrVxVy { vx: spec_op_x(op), vy: spec_op_y(op) }
            } else if sub == 0x0002 {
                OpCode::AndVxVy { vx: spec_op_x(op), vy: spec_op_y(op) }
            } else if sub == 0x0003 {
                OpCode::XorVxVy { vx: spec_op_x(op), vy: spec_op_y(op) }
            } else if sub == 0x0004 {
                OpCode::AddVxVy { vx: spec_op_x(op), vy: spec_op_y(op) }
            } else if sub == 0x0005 {
                OpCode::Sub { vx: spec_op_x(op), vy: spec_op_y(op) }
            } else if sub == 0x0006 {
                OpCode::Shr { vx: spec_op_x(op), vy: spec_op_y(op) }
            } else if sub == 0x0007 {
                OpCode::SubN { vx: spec_op_x(op), vy: spec_op_y(op) }
            } else if sub == 0x000E {
                OpCode::Shl { vx: spec_op_x(op), vy: spec_op_y(op) }
            } else {
                OpCode::Unrecognized(op)
            }
        } else if family == 0x9000 {
            if op & 0x000F == 0x0000 {
                OpCode::SneVxVy { vx: spec_op_x(op), vy: spec_op_y(op) }
            } else {
                OpCode::Unrecognized(op)
            }
        } else if family == 0xA000 {
            OpCode::LdI(spec_op_nnn(op))
        } else if family == 0xB000 {
            OpCode::JmpV0(spec_op_nnn(op))
        } else if family == 0xC000 {
            OpCode::Rnd { vx: spec_op_x(op), value: spec_op_kk(op) }
        } else if family == 0xD000 {
            OpCode::Drw { vx: spec_op_x(op), vy: spec_op_y(op), n: spec_op_n(op) }
        } else if family == 0xE000 {
            let sub = op & 0x00FF;
            if sub == 0x009E {
                OpCode::Skp(spec_op_x(op))
            } else if sub == 0x00A1 {
                OpCode::Sknp(spec_op_x(op))
            } else {
                OpCode::Unrecognized(op)
            }
        } else if family == 0xF000 {
            let sub = op & 0x00FF;
            if sub == 0x0007 {
                OpCode::LdVxDt(spec_op_x(op))
            } else if sub == 0x000A {
                OpCode::LdVxK(spec_op_x(op))
            } else if sub == 0x0015 {
                OpCode::LdDtVx(spec_op_x(op))
            } else if sub == 0x0018 {
                OpCode::LdStVx(spec_op_x(op))
            } else if sub == 0x001E {
                OpCode::AddIVx(spec_op_x(op))
            } else if sub == 0x0029 {
                OpCode::LdFVx(spec_op_x(op))
            } else if sub == 0x0033 {
                OpCode::LdBVx(spec_op_x(op))
            } else if sub == 0x0055 {
                OpCode::LdIVx(spec_op_x(op))
            } else if sub == 0x0065 {
                OpCode::LdVxI(spec_op_x(op))
            } else {
                OpCode::Unrecognized(op)
            }
        } else {
            OpCode::Unrecognized(op)
        }
    }
}

impl OpCode {
    /// Every operand field lies in its machine range: register indices are
    /// nibbles, addresses are 12 bits, sprite heights are nibbles. `decode`
    /// only produces such instructions.
    pub open spec fn wf(self) -> bool {
        match self {
            OpCode::Cls => true,
            OpCode::Ret => true,
            OpCode::Jmp(a) => a <= 0xFFF,
            OpCode::Call(a) => a <= 0xFFF,
            OpCode::Se { vx, value } => vx < 16,
            OpCode::Sne { vx, value } => vx < 16,
            OpCode::SeVxVy { vx, vy } => vx < 16 && vy < 16,
            OpCode::LdVx { vx, value } => vx < 16,
            OpCode::LdVxVy { vx, vy } => vx < 16 && vy < 16,
            OpCode::OrVxVy { vx, vy } => vx < 16 && vy < 16,
            OpCode::AndVxVy { vx, vy } => vx < 16 && vy < 16,
            OpCode::XorVxVy { vx, vy } => vx < 16 && vy < 16,
            OpCode::AddVxVy { vx, vy } => vx < 16 && vy < 16,
            OpCode::Sub { vx, vy } => vx < 16 && vy < 16,
            OpCode::SubN { vx, vy } => vx < 16 && vy < 16,
            OpCode::Shr { vx, vy } => vx < 16 && vy < 16,
            OpCode::Shl { vx, vy } => vx < 16 && vy < 16,
            OpCode::AddVx { vx, value } => vx < 16,
            OpCode::SneVxVy { vx, vy } => vx < 16 && vy < 16,
            OpCode::LdI(a) => a <= 0xFFF,
            OpCode::JmpV0(a) => a <= 0xFFF,
            OpCode::Rnd { vx, value } => vx < 16,
            OpCode::Drw { vx, vy, n } => vx < 16 && vy < 16 && n < 16,
            OpCode::Skp(vx) => vx < 16,
            OpCode::Sknp(vx) => vx < 16,
            OpCode::LdVxDt(vx) => vx < 16,
            OpCode::LdVxK(vx) => vx < 16,
            OpCode::LdDtVx(vx) => vx < 16,
            OpCode::LdStVx(vx) => vx < 16,
            OpCode::AddIVx(vx) => vx < 16,
            OpCode::LdFVx(vx) => vx < 16,
            OpCode::LdBVx(vx) => vx < 16,
            OpCode::LdIVx(vx) => vx < 16,
            OpCode::LdVxI(vx) => vx < 16,
            OpCode::Unrecognized(w) => true,
        }
    }

    /// Whether this is the random-number instruction: the one instruction
    /// whose effect is not a function of the machine state alone.
    pub open spec fn is_random(self) -> bool {
        self matches OpCode::Rnd { .. }
    }

    /// Runtime check for `wf`, for callers outside verified code.
    pub fn valid(&self) -> (b: bool)
        ensures
            b == self.wf(),
    {
        match *self {
            OpCode::Cls => true,
            OpCode::Ret => true,
            OpCode::Jmp(a) => a <= 0xFFF,
            OpCode::Call(a) => a <= 0xFFF,
            OpCode::Se { vx, value: _ } => vx < 16,
            OpCode::Sne { vx, value: _ } => vx < 16,
            OpCode::SeVxVy { vx, vy } => vx < 16 && vy < 16,
            OpCode::LdVx { vx, value: _ } => vx < 16,
            OpCode::LdVxVy { vx, vy } => vx < 16 && vy < 16,
            OpCode::OrVxVy { vx, vy } => vx < 16 && vy < 16,
            OpCode::AndVxVy { vx, vy } => vx < 16 && vy < 16,
            OpCode::XorVxVy { vx, vy } => vx < 16 && vy < 16,
            OpCode::AddVxVy { vx, vy } => vx < 16 && vy < 16,
            OpCode::Sub { vx, vy } => vx < 16 && vy < 16,
            OpCode::SubN { vx, vy } => vx < 16 && vy < 16,
            OpCode::Shr { vx, vy } => vx < 16 && vy < 16,
            OpCode::Shl { vx, vy } => vx < 16 && vy < 16,
            OpCode::AddVx { vx, value: _ } => vx < 16,
            OpCode::SneVxVy { vx, vy } => vx < 16 && vy < 16,
            OpCode::LdI(a) => a <= 0xFFF,
            OpCode::JmpV0(a) => a <= 0xFFF,
            OpCode::Rnd { vx, value: _ } => vx < 16,
            OpCode::Drw { vx, vy, n } => vx < 16 && vy < 16 && n < 16,
            OpCode::Skp(vx) => vx < 16,
            OpCode::Sknp(vx) => vx < 16,
            OpCode::LdVxDt(vx) => vx < 16,
            OpCode::LdVxK(vx) => vx < 16,
            OpCode::LdDtVx(vx) => vx < 16,
            OpCode::LdStVx(vx) => vx < 16,
            OpCode::AddIVx(vx) => vx < 16,
            OpCode::LdFVx(vx) => vx < 16,
            OpCode::LdBVx(vx) => vx < 16,
            OpCode::LdIVx(vx) => vx < 16,
            OpCode::LdVxI(vx) => vx < 16,
            OpCode::Unrecognized(_) => true,
        }
    }
}

/// Whatever the word, the decoded instruction's operand fields lie in their
/// machine ranges.
pub proof fn lemma_decode_wf(op: u16)
    ensures
        spec_decode(op).wf(),
{
    assert(((op & 0x0F00) >> 8) < 16 && ((op & 0x00F0) >> 4) < 16 && (op & 0x0FFF) <= 0xFFF && (op
        & 0x000F) < 16) by (bit_vector);
}

/// The x register index field of the word.
fn op_x(op: u16) -> (r: usize)
    ensures
        r == spec_op_x(op),
{
    ((op & 0x0F00) >> 8) as usize
}

/// The y register index field of the word.
fn op_y(op: u16) -> (r: usize)
    ensures
        r == spec_op_y(op),
{
    ((op & 0x00F0) >> 4) as usize
}

/// The 12-bit address field of the word.
fn op_nnn(op: u16) -> (r: u16)
    ensures
        r == spec_op_nnn(op),
{
    op & 0x0FFF
}

/// The 8-bit immediate field of the word.
fn op_kk(op: u16) -> (r: u8)
    ensures
        r == spec_op_kk(op),
{
    (op & 0x00FF) as u8
}

/// The 4-bit sprite height field of the word.
fn op_n(op: u16) -> (r: usize)
    ensures
        r == spec_op_n(op),
{
    (op & 0x000F) as usize
}

/// Maps a raw instruction word to its instruction. Total and deterministic:
/// every word yields exactly the variant `spec_decode` names, with
/// `Unrecognized` for any unmapped pattern, and equal words always yield
/// equal instructions. No machine state is read.
pub fn decode(op: u16) -> (r: OpCode)
    ensures
        r == spec_decode(op),
        r.wf(),
{
    proof {
        lemma_decode_wf(op);
    }
    if op == 0x00E0 {
        OpCode::Cls
    } else if op == 0x00EE {
        OpCode::Ret
    } else {
        match op & 0xF000 {
            0x1000 => OpCode::Jmp(op_nnn(op)),
            0x2000 => OpCode::Call(op_nnn(op)),
            0x3000 => OpCode::Se { vx: op_x(op), value: op_kk(op) },
            0x4000 => OpCode::Sne { vx: op_x(op), value: op_kk(op) },
            0x5000 => match op & 0x000F {
                0x0000 => OpCode::SeVxVy { vx: op_x(op), vy: op_y(op) },
                _ => OpCode::Unrecognized(op),
            },
            0x6000 => OpCode::LdVx { vx: op_x(op), value: op_kk(op) },
            0x7000 => OpCode::AddVx { vx: op_x(op), value: op_kk(op) },
            0x8000 => match op & 0x000F {
                0x0000 => OpCode::LdVxVy { vx: op_x(op), vy: op_y(op) },
                0x0001 => OpCode::OrVxVy { vx: op_x(op), vy: op_y(op) },
                0x0002 => OpCode::AndVxVy { vx: op_x(op), vy: op_y(op) },
                0x0003 => OpCode::XorVxVy { vx: op_x(op), vy: op_y(op) },
                0x0004 => OpCode::AddVxVy { vx: op_x(op), vy: op_y(op) },
                0x0005 => OpCode::Sub { vx: op_x(op), vy: op_y(op) },
                0x0006 => OpCode::Shr { vx: op_x(op), vy: op_y(op) },
                0x0007 => OpCode::SubN { vx: op_x(op), vy: op_y(op) },
                0x000E => OpCode::Shl { vx: op_x(op), vy: op_y(op) },
                _ => OpCode::Unrecognized(op),
            },
            0x9000 => match op & 0x000F {
                0x0000 => OpCode::SneVxVy { vx: op_x(op), vy: op_y(op) },
                _ => OpCode::Unrecognized(op),
            },
            0xA000 => OpCode::LdI(op_nnn(op)),
            0xB000 => OpCode::JmpV0(op_nnn(op)),
            0xC000 => OpCode::Rnd { vx: op_x(op), value: op_kk(op) },
            0xD000 => OpCode::Drw { vx: op_x(op), vy: op_y(op), n: op_n(op) },
            0xE000 => match op & 0x00FF {
                0x009E => OpCode::Skp(op_x(op)),
                0x00A1 => OpCode::Sknp(op_x(op)),
                _ => OpCode::Unrecognized(op),
            },
            0xF000 => match op & 0x00FF {
                0x0007 => OpCode::LdVxDt(op_x(op)),
                0x000A => OpCode::LdVxK(op_x(op)),
                0x0015 => OpCode::LdDtVx(op_x(op)),
                0x0018 => OpCode::LdStVx(op_x(op)),
                0x001E => OpCode::AddIVx(op_x(op)),
                0x0029 => OpCode::LdFVx(op_x(op)),
                0x0033 => OpCode::LdBVx(op_x(op)),
                0x0055 => OpCode::LdIVx(op_x(op)),
                0x0065 => OpCode::LdVxI(op_x(op)),
                _ => OpCode::Unrecognized(op),
            },
            _ => OpCode::Unrecognized(op),
        }
    }
}

} // verus!
