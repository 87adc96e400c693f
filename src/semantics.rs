use vstd::prelude::*;
use crate::decode::{at, is_kind, is_value, decode_destination, decode_register, decode_source, size_keyword};
use crate::error::ErrorKind;
use crate::machine::{
    Flags, LogicOp, Place, State, STACK_BYTES, add_spec, cmp_spec_flags, fits_signed, le_read, le_write, logic_spec, modulus,
    read_at, read_place, set_reg, sf_of, signed, slice_read, slice_write, sub_spec, trunc, write_place, zf_of,
};
use crate::token::{Token, TokenType, TokenValue};

verus! {

/// The machine before its first instruction: registers zero but ESP and EBP
/// at the top of the stack, flags clear, stack and memory zero, depth 1.
pub open spec fn initial_state(eip: int) -> State {
    State {
        regs: seq![0u32, 0u32, 0u32, 0u32, 0u32, 0u32, (STACK_BYTES - 1) as u32, (STACK_BYTES - 1) as u32],
        eip,
        flags: Flags { cf: false, zf: false, sf: false, of: false },
        stack: Seq::new(STACK_BYTES as nat, |i: int| 0u8),
        memory: Seq::new(crate::machine::MEM_BYTES as nat, |i: int| 0u8),
        depth: 1,
    }
}

pub open spec fn with_eip(s: State, eip: int) -> State {
    State { eip, ..s }
}

pub open spec fn wrap32(v: int) -> int {
    v % 4294967296
}

/// `mov dst, src`: an immediate fits a destination at least its size and is
/// stored as its two's-complement bits; other sources match the size exactly.
pub open spec fn mov_spec(text: Seq<Token>, s: State) -> Result<State, ErrorKind> {
    match decode_destination(text, s.regs, s.eip + 1) {
        Err(e) => Err(e),
        Ok((d, j)) => if !is_value(text, j, TokenValue::COMMA) {
            Err(ErrorKind::UnexpectedToken)
        } else {
            match decode_source(text, s.regs, j + 1) {
                Err(e) => Err(e),
                Ok((src, k)) => match src {
                    Place::Immediate { value, size } => if d.spec_size() < size {
                        Err(ErrorKind::SizeMismatch)
                    } else {
                        Ok(write_place(with_eip(s, k), d, value))
                    },
                    _ => if d.spec_size() != src.spec_size() {
                        Err(ErrorKind::SizeMismatch)
                    } else {
                        Ok(write_place(with_eip(s, k), d, read_place(s, src)))
                    },
                },
            }
        },
    }
}

/// Sign extension of a value of `size` bytes to 32 bits.
pub open spec fn sign_extend(v: u32, size: nat) -> u32 {
    trunc(signed(v as int, size), 4)
}

/// `movzx` / `movsx reg, src`: src is a register or memory, narrower than reg.
pub open spec fn movx_spec(text: Seq<Token>, s: State, sign: bool) -> Result<State, ErrorKind> {
    match decode_register(text, s.eip + 1) {
        Err(e) => Err(e),
        Ok((d, j)) => if !is_value(text, j, TokenValue::COMMA) {
            Err(ErrorKind::UnexpectedToken)
        } else if !(is_kind(text, j + 1, TokenType::REGISTER) || (at(text, j + 1) && size_keyword(text[j + 1].value) != 0)) {
            Err(ErrorKind::UnexpectedToken)
        } else {
            match decode_source(text, s.regs, j + 1) {
                Err(e) => Err(e),
                Ok((src, k)) => if d.spec_size() <= src.spec_size() {
                    Err(ErrorKind::SizeMismatch)
                } else {
                    let v = read_place(s, src);
                    let w = if sign { sign_extend(v, src.spec_size()) } else { v };
                    Ok(write_place(with_eip(s, k), d, w))
                },
            }
        },
    }
}

/// `add`, `sub`, `and`, `or`, `xor dst, src`, at the destination's width.
pub open spec fn alu_spec(text: Seq<Token>, s: State, op: TokenValue) -> Result<State, ErrorKind> {
    match decode_destination(text, s.regs, s.eip + 1) {
        Err(e) => Err(e),
        Ok((d, j)) => if !is_value(text, j, TokenValue::COMMA) {
            Err(ErrorKind::UnexpectedToken)
        } else {
            match decode_source(text, s.regs, j + 1) {
                Err(e) => Err(e),
                Ok((src, k)) => if src.spec_size() > d.spec_size() {
                    Err(ErrorKind::SizeMismatch)
                } else {
                    let n = d.spec_size();
                    let a = read_place(s, d);
                    let b = read_at(s, src, n);
                    let rf = match op {
                        TokenValue::ADD => Some(add_spec(a as int, b as int, n)),
                        TokenValue::SUB => Some(sub_spec(a as int, b as int, n)),
                        TokenValue::AND => Some(logic_spec(LogicOp::And, a, b, n)),
                        TokenValue::OR => Some(logic_spec(LogicOp::Or, a, b, n)),
                        TokenValue::XOR => Some(logic_spec(LogicOp::Xor, a, b, n)),
                        _ => None,
                    };
                    match rf {
                        None => Err(ErrorKind::UnexpectedToken),
                        Some((r, f)) => Ok(write_place(State { eip: k, flags: f, ..s }, d, r)),
                    }
                },
            }
        },
    }
}

/// `cmp dst, src`: the flags of `sub` without the store, SF taken from the
/// operands sign-extended to 32 bits.
pub open spec fn cmp_spec(text: Seq<Token>, s: State) -> Result<State, ErrorKind> {
    match decode_destination(text, s.regs, s.eip + 1) {
        Err(e) => Err(e),
        Ok((d, j)) => if !is_value(text, j, TokenValue::COMMA) {
            Err(ErrorKind::UnexpectedToken)
        } else {
            match decode_source(text, s.regs, j + 1) {
                Err(e) => Err(e),
                Ok((src, k)) => if src.spec_size() > d.spec_size() {
                    Err(ErrorKind::SizeMismatch)
                } else {
                    let n = d.spec_size();
                    let f = cmp_spec_flags(read_place(s, d) as int, read_at(s, src, n) as int, n);
                    Ok(State { eip: k, flags: f, ..s })
                },
            }
        },
    }
}

/// `mul src`: unsigned product of the accumulator slice and src.
pub open spec fn mul_spec(text: Seq<Token>, s: State) -> Result<State, ErrorKind> {
    match decode_destination(text, s.regs, s.eip + 1) {
        Err(e) => Err(e),
        Ok((src, k)) => {
            let n = src.spec_size();
            let p = slice_read(s.regs[0], 0, n) as int * read_place(s, src) as int;
            let m = modulus(n);
            let f = Flags { cf: p >= m, of: p >= m, sf: sf_of(p, n), zf: zf_of(p, n) };
            let regs = if n == 1 {
                s.regs.update(0, slice_write(s.regs[0], 0, 2, p as u32))
            } else if n == 2 {
                s.regs.update(0, slice_write(s.regs[0], 0, 2, (p % m) as u32)).update(
                    3,
                    slice_write(s.regs[3], 0, 2, (p / m) as u32),
                )
            } else {
                s.regs.update(0, (p % m) as u32).update(3, (p / m) as u32)
            };
            Ok(State { eip: k, regs, flags: f, ..s })
        },
    }
}

/// `imul reg, src` and `imul reg, src, imm`: product at the register's width;
/// CF tells whether the signed product does not fit that width.
pub open spec fn imul_spec(text: Seq<Token>, s: State) -> Result<State, ErrorKind> {
    match decode_register(text, s.eip + 1) {
        Err(e) => Err(e),
        Ok((d, j)) => if !is_value(text, j, TokenValue::COMMA) {
            Err(ErrorKind::UnexpectedToken)
        } else {
            match decode_destination(text, s.regs, j + 1) {
                Err(e) => Err(e),
                Ok((src, k)) => {
                    let n = d.spec_size();
                    let three = is_value(text, k, TokenValue::COMMA);
                    if three && !is_kind(text, k + 1, TokenType::IMMEDIATE_DATA) {
                        Err(ErrorKind::UnexpectedToken)
                    } else {
                        let a = if three { trunc(read_place(s, src) as int, n) } else { read_place(s, d) };
                        let b = if three { trunc(text[k + 1].int_value as int, n) } else { trunc(read_place(s, src) as int, n) };
                        let next = if three { k + 2 } else { k };
                        let r = trunc(a as int * b as int, n);
                        let cf = !fits_signed(signed(a as int, n) * signed(b as int, n), n);
                        Ok(write_place(State { eip: next, flags: Flags { cf, ..s.flags }, ..s }, d, r))
                    }
                },
            }
        },
    }
}

/// Double-width dividend: AX, DX:AX or EDX:EAX.
pub open spec fn dividend(regs: Seq<u32>, n: nat) -> int {
    if n == 1 {
        slice_read(regs[0], 0, 2) as int
    } else if n == 2 {
        slice_read(regs[3], 0, 2) as int * 65536 + slice_read(regs[0], 0, 2) as int
    } else {
        regs[3] as int * 4294967296 + regs[0] as int
    }
}

pub open spec fn abs(a: int) -> int {
    if a < 0 {
        -a
    } else {
        a
    }
}

/// Division rounding toward zero, and its remainder (the sign of `a`).
pub open spec fn tdiv(a: int, b: int) -> int {
    let q = abs(a) / abs(b);
    if (a < 0) != (b < 0) {
        -q
    } else {
        q
    }
}

pub open spec fn trem(a: int, b: int) -> int {
    let r = abs(a) % abs(b);
    if a < 0 {
        -r
    } else {
        r
    }
}

/// Quotient and remainder of a double-width dividend by a divisor of `n`
/// bytes: unsigned, or with both read as signed.
pub open spec fn div_result(big: int, d: int, n: nat, sign: bool) -> (int, int) {
    let m = modulus(n);
    let sd = if big >= m * m / 2 { big - m * m } else { big };
    if sign {
        (tdiv(sd, signed(d, n)), trem(sd, signed(d, n)))
    } else {
        (big / d, big % d)
    }
}

/// `div` / `idiv src`: quotient to AL/AX/EAX, remainder to AH/DX/EDX, each
/// wrapped to the width.
pub open spec fn div_spec(text: Seq<Token>, s: State, sign: bool) -> Result<State, ErrorKind> {
    match decode_destination(text, s.regs, s.eip + 1) {
        Err(e) => Err(e),
        Ok((src, k)) => {
            let n = src.spec_size();
            let d = read_place(s, src) as int;
            if d == 0 {
                Err(ErrorKind::DivideByZero)
            } else {
                let (q, r) = div_result(dividend(s.regs, n), d, n, sign);
                let regs = if n == 1 {
                    s.regs.update(0, slice_write(slice_write(s.regs[0], 0, 1, trunc(q, 1)), 1, 1, trunc(r, 1)))
                } else if n == 2 {
                    s.regs.update(0, slice_write(s.regs[0], 0, 2, trunc(q, 2))).update(
                        3,
                        slice_write(s.regs[3], 0, 2, trunc(r, 2)),
                    )
                } else {
                    s.regs.update(0, trunc(q, 4)).update(3, trunc(r, 4))
                };
                Ok(State { eip: k, regs, ..s })
            }
        },
    }
}

/// `inc`, `dec`, `not`, `neg dst`.
pub open spec fn unary_spec(text: Seq<Token>, s: State, op: TokenValue) -> Result<State, ErrorKind> {
    match decode_destination(text, s.regs, s.eip + 1) {
        Err(e) => Err(e),
        Ok((d, k)) => {
            let n = d.spec_size();
            let m = modulus(n);
            let a = read_place(s, d) as int;
            let rf: Option<(int, Flags)> = match op {
                TokenValue::INC => Some(
                    (a + 1, Flags { cf: s.flags.cf, of: !fits_signed(signed(a, n) + 1, n), sf: sf_of(a + 1, n), zf: zf_of(a + 1, n) }),
                ),
                TokenValue::DEC => Some(
                    (
                        a - 1 + m,
                        Flags { cf: s.flags.cf, of: !fits_signed(signed(a, n) - 1, n), sf: sf_of(a - 1 + m, n), zf: zf_of(a - 1 + m, n) },
                    ),
                ),
                TokenValue::NOT => Some((m - 1 - a, s.flags)),
                TokenValue::NEG => Some(
                    (m - a, Flags { cf: a != 0, of: !fits_signed(-signed(a, n), n), sf: sf_of(m - a, n), zf: zf_of(m - a, n) }),
                ),
                _ => None,
            };
            match rf {
                None => Err(ErrorKind::UnexpectedToken),
                Some((r, f)) => Ok(write_place(State { eip: k, flags: f, ..s }, d, trunc(r, n))),
            }
        },
    }
}

/// Result and CF, OF of a shift of the `size`-byte value `a` by `c`.
pub open spec fn shift_result(op: TokenValue, a: u32, c: u64, size: nat) -> (int, bool, bool) {
    let nb = (8 * size) as u64;
    let m = modulus(size);
    let x = a as u64;
    match op {
        TokenValue::SHL => {
            let wide: u64 = if c > nb { 0 } else { x << c };
            let r = wide as int % m;
            let cf = 1 <= c <= nb && (wide >> nb) & 1 == 1;
            (r, cf, sf_of(r, size) != cf)
        },
        TokenValue::SHR => {
            let r: u64 = if c >= nb { 0 } else { x >> c };
            let cf = 1 <= c <= nb && (x >> ((c - 1) as u64)) & 1 == 1;
            (r as int, cf, sf_of(a as int, size))
        },
        _ => {
            let sx: u64 = if sf_of(a as int, size) { (x + (18446744073709551616 - m)) as u64 } else { x };
            let k: u64 = if c > nb { nb } else { c };
            let r = (sx >> k) as int % m;
            let cf = c >= 1 && (sx >> ((k - 1) as u64)) & 1 == 1;
            (r, cf, false)
        },
    }
}

/// `shl` / `sal`, `shr`, `sar dst, count`.
pub open spec fn shift_spec(text: Seq<Token>, s: State, op: TokenValue) -> Result<State, ErrorKind> {
    match decode_destination(text, s.regs, s.eip + 1) {
        Err(e) => Err(e),
        Ok((d, j)) => if !is_value(text, j, TokenValue::COMMA) || !is_kind(text, j + 1, TokenType::IMMEDIATE_DATA) {
            Err(ErrorKind::UnexpectedToken)
        } else if text[j + 1].int_value > 255 {
            Err(ErrorKind::ShiftCountOutOfRange)
        } else {
            let n = d.spec_size();
            let (r, cf, of) = shift_result(op, read_place(s, d), text[j + 1].int_value as u64, n);
            let f = Flags { cf, of, sf: sf_of(r, n), zf: zf_of(r, n) };
            Ok(write_place(State { eip: j + 2, flags: f, ..s }, d, r as u32))
        },
    }
}

/// ESP after taking `n` bytes, with 32-bit wrap-around.
pub open spec fn esp_down(s: State, n: nat) -> int {
    wrap32(s.regs[6] + 4294967296 - n)
}

/// `push src`: ESP drops by the source's size, then its bytes go to the stack.
pub open spec fn push_spec(text: Seq<Token>, s: State) -> Result<State, ErrorKind> {
    match decode_source(text, s.regs, s.eip + 1) {
        Err(e) => Err(e),
        Ok((src, k)) => {
            let n = src.spec_size();
            let sp = esp_down(s, n);
            if sp + n > STACK_BYTES {
                Err(ErrorKind::StackOutOfRange)
            } else {
                Ok(State { eip: k, regs: s.regs.update(6, sp as u32), stack: le_write(s.stack, sp, n, read_place(s, src)), ..s })
            }
        },
    }
}

/// `pop dst`: the destination's size in bytes from the stack, then ESP rises.
pub open spec fn pop_spec(text: Seq<Token>, s: State) -> Result<State, ErrorKind> {
    match decode_destination(text, s.regs, s.eip + 1) {
        Err(e) => Err(e),
        Ok((d, k)) => {
            let n = d.spec_size();
            let sp = s.regs[6] as int;
            if sp + n > STACK_BYTES {
                Err(ErrorKind::StackOutOfRange)
            } else {
                let s1 = write_place(with_eip(s, k), d, le_read(s.stack, sp, n));
                Ok(set_reg(s1, 6, wrap32(s1.regs[6] + n) as u32))
            }
        },
    }
}

/// Whether a branch is taken on the flags.
pub open spec fn condition(op: TokenValue, f: Flags) -> bool {
    match op {
        TokenValue::JE => f.zf,
        TokenValue::JNE => !f.zf,
        TokenValue::JG => !f.zf && f.sf == f.of,
        TokenValue::JGE => f.sf == f.of,
        TokenValue::JL => f.sf != f.of,
        TokenValue::JLE => f.zf || f.sf != f.of,
        TokenValue::JA => !f.cf && !f.zf,
        TokenValue::JAE => !f.cf,
        TokenValue::JB => f.cf,
        TokenValue::JBE => f.cf || f.zf,
        _ => true,
    }
}

pub open spec fn in_pc_range(v: int) -> bool {
    0 <= v < 4294967296
}

/// `jmp` and the conditional jumps: the displacement is added to the position
/// after the operand when the condition holds.
pub open spec fn jump_spec(text: Seq<Token>, s: State, op: TokenValue) -> Result<State, ErrorKind> {
    let i = s.eip + 1;
    if !is_kind(text, i, TokenType::IMMEDIATE_DATA) {
        Err(ErrorKind::UnexpectedToken)
    } else if condition(op, s.flags) {
        let target = i + 1 + signed(text[i].int_value as int, 4);
        if !in_pc_range(target) {
            Err(ErrorKind::ProgramCounterOutOfRange)
        } else {
            Ok(with_eip(s, target))
        }
    } else {
        Ok(with_eip(s, i + 1))
    }
}

/// `call`: pushes the position after the operand, deepens the call depth and jumps.
pub open spec fn call_spec(text: Seq<Token>, s: State) -> Result<State, ErrorKind> {
    let i = s.eip + 1;
    if !is_kind(text, i, TokenType::IMMEDIATE_DATA) {
        Err(ErrorKind::UnexpectedToken)
    } else {
        let back = i + 1;
        let target = back + signed(text[i].int_value as int, 4);
        let sp = esp_down(s, 4);
        if !in_pc_range(back) || !in_pc_range(target) {
            Err(ErrorKind::ProgramCounterOutOfRange)
        } else if sp + 4 > STACK_BYTES {
            Err(ErrorKind::StackOutOfRange)
        } else if s.depth + 1 > u64::MAX {
            Err(ErrorKind::CallDepthOverflow)
        } else {
            Ok(State {
                eip: target,
                regs: s.regs.update(6, sp as u32),
                stack: le_write(s.stack, sp, 4, back as u32),
                depth: s.depth + 1,
                ..s
            })
        }
    }
}

/// `ret`: above depth 1 pops the return position; at depth 1 only ends the run.
pub open spec fn ret_spec(text: Seq<Token>, s: State) -> Result<State, ErrorKind> {
    if s.depth > 1 {
        let sp = s.regs[6] as int;
        if sp + 4 > STACK_BYTES {
            Err(ErrorKind::StackOutOfRange)
        } else {
            Ok(State {
                eip: le_read(s.stack, sp, 4) as int,
                regs: s.regs.update(6, wrap32(sp + 4) as u32),
                depth: (s.depth - 1) as nat,
                ..s
            })
        }
    } else {
        Ok(State { eip: s.eip + 1, depth: 0, ..s })
    }
}

/// `enter`: push EBP, then EBP takes ESP.
pub open spec fn enter_spec(s: State) -> Result<State, ErrorKind> {
    let sp = esp_down(s, 4);
    if sp + 4 > STACK_BYTES {
        Err(ErrorKind::StackOutOfRange)
    } else {
        Ok(State {
            eip: s.eip + 1,
            regs: s.regs.update(6, sp as u32).update(7, sp as u32),
            stack: le_write(s.stack, sp, 4, s.regs[7]),
            ..s
        })
    }
}

/// `leave`: ESP takes EBP, then pop EBP.
pub open spec fn leave_spec(s: State) -> Result<State, ErrorKind> {
    let bp = s.regs[7] as int;
    if bp + 4 > STACK_BYTES {
        Err(ErrorKind::StackOutOfRange)
    } else {
        Ok(State {
            eip: s.eip + 1,
            regs: s.regs.update(7, le_read(s.stack, bp, 4)).update(6, wrap32(bp + 4) as u32),
            ..s
        })
    }
}

/// One instruction whose mnemonic is `op`, at `s.eip`.
pub open spec fn instruction_spec(text: Seq<Token>, s: State, op: TokenValue) -> Result<State, ErrorKind> {
    match op {
        TokenValue::MOV => mov_spec(text, s),
        TokenValue::MOVSX => movx_spec(text, s, true),
        TokenValue::MOVZX => movx_spec(text, s, false),
        TokenValue::ADD | TokenValue::SUB | TokenValue::AND | TokenValue::OR | TokenValue::XOR => alu_spec(text, s, op),
        TokenValue::MUL => mul_spec(text, s),
        TokenValue::IMUL => imul_spec(text, s),
        TokenValue::DIV => div_spec(text, s, false),
        TokenValue::IDIV => div_spec(text, s, true),
        TokenValue::INC | TokenValue::DEC | TokenValue::NOT | TokenValue::NEG => unary_spec(text, s, op),
        TokenValue::SHL | TokenValue::SHR | TokenValue::SAR => shift_spec(text, s, op),
        TokenValue::PUSH => push_spec(text, s),
        TokenValue::POP => pop_spec(text, s),
        TokenValue::CMP => cmp_spec(text, s),
        TokenValue::JMP | TokenValue::JE | TokenValue::JNE | TokenValue::JG | TokenValue::JGE | TokenValue::JL
        | TokenValue::JLE | TokenValue::JA | TokenValue::JAE | TokenValue::JB | TokenValue::JBE => jump_spec(text, s, op),
        TokenValue::CALL => call_spec(text, s),
        TokenValue::RET => ret_spec(text, s),
        TokenValue::ENTER => enter_spec(s),
        TokenValue::LEAVE => leave_spec(s),
        _ => Err(ErrorKind::UnexpectedToken),
    }
}

/// One step of the dispatch loop: the state after it, and whether the run
/// ends there (`int`, or a `ret` that leaves depth 0).
pub open spec fn step_spec(text: Seq<Token>, s: State) -> Result<(State, bool), ErrorKind> {
    if !at(text, s.eip) {
        Err(ErrorKind::EndOfText)
    } else if text[s.eip].token_type == TokenType::LABEL {
        if !in_pc_range(s.eip + 2) {
            Err(ErrorKind::ProgramCounterOutOfRange)
        } else {
            Ok((with_eip(s, s.eip + 2), false))
        }
    } else if text[s.eip].token_type != TokenType::INSTRUCTION {
        Err(ErrorKind::UnexpectedToken)
    } else if text[s.eip].value == TokenValue::INT {
        Ok((s, true))
    } else {
        match instruction_spec(text, s, text[s.eip].value) {
            Err(e) => Err(e),
            Ok(t) => Ok((t, t.depth == 0)),
        }
    }
}

/// At most `fuel` steps from `s`: the halted state, or the error and the
/// position of the instruction that met it.
#[verifier::opaque]
pub open spec fn run_spec(text: Seq<Token>, s: State, fuel: nat) -> Result<State, (ErrorKind, int)>
    decreases fuel,
{
    if fuel == 0 {
        Err((ErrorKind::StepLimit, s.eip))
    } else {
        match step_spec(text, s) {
            Err(e) => Err((e, s.eip)),
            Ok((t, true)) => Ok(t),
            Ok((t, false)) => run_spec(text, t, (fuel - 1) as nat),
        }
    }
}

} // verus!
