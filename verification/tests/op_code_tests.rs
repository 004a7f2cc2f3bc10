use chip8::op_code::{decode, OpCode};

#[test]
fn unknown() {
    let result = decode(0x0);
    assert_eq!(OpCode::Unrecognized(0x0), result);
}

#[test]
fn op_code_cls() {
    let result = decode(0x00E0);
    assert_eq!(OpCode::Cls, result);
}

#[test]
fn op_code_ret() {
    let result = decode(0x00EE);
    assert_eq!(OpCode::Ret, result);
}

#[test]
fn op_code_jmp() {
    let result = decode(0x1ABC);
    assert_eq!(OpCode::Jmp(0x0ABC), result);
}

#[test]
fn op_code_call() {
    let result = decode(0x2ABC);
    assert_eq!(OpCode::Call(0x0ABC), result);
}

#[test]
fn op_code_se() {
    let result = decode(0x31AB);
    assert_eq!(
        OpCode::Se {
            vx: 0x0001,
            value: 0x00AB
        },
        result
    );
}

#[test]
fn op_code_sne() {
    let result = decode(0x41AB);
    assert_eq!(
        OpCode::Sne {
            vx: 0x0001,
            value: 0x00AB
        },
        result
    );
}

#[test]
fn op_code_se_vx_vy() {
    let result = decode(0x51A0);
    assert_eq!(
        OpCode::SeVxVy {
            vx: 0x0001,
            vy: 0x000A
        },
        result
    );
}

#[test]
fn op_code_ld_vx() {
    let result = decode(0x61AB);
    assert_eq!(
        OpCode::LdVx {
            vx: 0x0001,
            value: 0x00AB
        },
        result
    );
}

#[test]
fn op_code_ldi() {
    let result = decode(0xA123);
    assert_eq!(OpCode::LdI(0x0123), result);
}

#[test]
fn op_code_jmp_v0() {
    let result = decode(0xB123);
    assert_eq!(OpCode::JmpV0(0x0123), result);
}

#[test]
fn add() {
    let result = decode(0x7234);
    assert_eq!(
        OpCode::AddVx {
            vx: 0x0002,
            value: 0x0034
        },
        result
    );
}

#[test]
fn op_code_ld_vx_vy() {
    let result = decode(0x8A10);
    assert_eq!(
        OpCode::LdVxVy {
            vx: 0x000A,
            vy: 0x0001,
        },
        result
    );
}

#[test]
fn op_code_or_vx_vy() {
    let result = decode(0x8A11);
    assert_eq!(
        OpCode::OrVxVy {
            vx: 0x000A,
            vy: 0x0001,
        },
        result
    );
}

#[test]
fn op_code_and_vx_vy() {
    let result = decode(0x8A12);
    assert_eq!(
        OpCode::AndVxVy {
            vx: 0x000A,
            vy: 0x0001,
        },
        result
    );
}

#[test]
fn op_code_xor_vx_vy() {
    let result = decode(0x8A13);
    assert_eq!(
        OpCode::XorVxVy {
            vx: 0x000A,
            vy: 0x0001,
        },
        result
    );
}

#[test]
fn op_code_add_vx_vy() {
    let result = decode(0x8A14);
    assert_eq!(
        OpCode::AddVxVy {
            vx: 0x000A,
            vy: 0x0001,
        },
        result
    );
}

#[test]
fn op_code_sub() {
    let result = decode(0x8A15);
    assert_eq!(
        OpCode::Sub {
            vx: 0x000A,
            vy: 0x0001,
        },
        result
    );
}

#[test]
fn sub_n() {
    let result = decode(0x8A17);
    assert_eq!(
        OpCode::SubN {
            vx: 0x000A,
            vy: 0x0001,
        },
        result
    );
}

#[test]
fn op_code_shr() {
    let result = decode(0x8A16);
    assert_eq!(
        OpCode::Shr {
            vx: 0x000A,
            vy: 0x0001,
        },
        result
    );
}

#[test]
fn op_code_shl() {
    let result = decode(0x8A1E);
    assert_eq!(
        OpCode::Shl {
            vx: 0x000A,
            vy: 0x0001,
        },
        result
    );
}

#[test]
fn op_code_sne_vx_vy() {
    let result = decode(0x9A10);
    assert_eq!(
        OpCode::SneVxVy {
            vx: 0x000A,
            vy: 0x0001,
        },
        result
    );
}

#[test]
fn drw() {
    let result = decode(0xDAB1);
    assert_eq!(
        OpCode::Drw {
            vx: 0x000A,
            vy: 0x000B,
            n: 0x0001
        },
        result
    );
}

#[test]
fn op_code_skp_sknp() {
    assert_eq!(OpCode::Skp(0x3), decode(0xE39E));
    assert_eq!(OpCode::Sknp(0x3), decode(0xE3A1));
    assert_eq!(OpCode::Unrecognized(0xE300), decode(0xE300));
}

#[test]
fn op_code_timers_and_memory_family() {
    assert_eq!(OpCode::LdVxDt(0x4), decode(0xF407));
    assert_eq!(OpCode::LdVxK(0x4), decode(0xF40A));
    assert_eq!(OpCode::LdDtVx(0x4), decode(0xF415));
    assert_eq!(OpCode::LdStVx(0x4), decode(0xF418));
    assert_eq!(OpCode::AddIVx(0x4), decode(0xF41E));
    assert_eq!(OpCode::LdFVx(0x4), decode(0xF429));
    assert_eq!(OpCode::LdBVx(0x4), decode(0xF433));
    assert_eq!(OpCode::LdIVx(0x4), decode(0xF455));
    assert_eq!(OpCode::LdVxI(0x4), decode(0xF465));
    assert_eq!(OpCode::Unrecognized(0xF4FF), decode(0xF4FF));
}

#[test]
fn op_code_rnd() {
    assert_eq!(
        OpCode::Rnd {
            vx: 0x7,
            value: 0x5A
        },
        decode(0xC75A)
    );
}

// Every 16-bit word decodes, re-decoding gives an equal instruction, and
// every decoded instruction carries operand fields in machine range.
#[test]
fn decode_total_and_deterministic() {
    for word in 0..=0xFFFFu16 {
        let first = decode(word);
        let second = decode(word);
        assert_eq!(first, second);
        assert!(first.valid());
    }
}

#[test]
fn unmapped_patterns_are_unrecognized() {
    assert_eq!(OpCode::Unrecognized(0x00EF), decode(0x00EF));
    assert_eq!(OpCode::Unrecognized(0x8A18), decode(0x8A18));
    assert_eq!(OpCode::Unrecognized(0xFFFF), decode(0xFFFF));
}

// The register-skip patterns fix the low nibble at zero: any other low
// nibble in those families matches no defined variant.
#[test]
fn register_skip_families_require_a_zero_low_nibble() {
    assert_eq!(OpCode::Unrecognized(0x51A3), decode(0x51A3));
    assert_eq!(OpCode::Unrecognized(0x9A11), decode(0x9A11));
    assert_eq!(OpCode::Unrecognized(0x5ABF), decode(0x5ABF));
    assert_eq!(
        OpCode::SeVxVy {
            vx: 0x0001,
            vy: 0x000A
        },
        decode(0x51A0)
    );
    assert_eq!(
        OpCode::SneVxVy {
            vx: 0x000A,
            vy: 0x0001
        },
        decode(0x9A10)
    );
}
