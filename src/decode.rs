use vstd::prelude::*;
use crate::error::ErrorKind;
use crate::machine::{Place, MEM_BYTES, slice_read, slice_read_exec, place_ok};
use crate::token::{Token, TokenType, TokenValue};

verus! {

pub open spec fn at(text: Seq<Token>, i: int) -> bool {
    0 <= i < text.len()
}

pub open spec fn is_value(text: Seq<Token>, i: int, v: TokenValue) -> bool {
    at(text, i) && text[i].value == v
}

pub open spec fn is_kind(text: Seq<Token>, i: int, t: TokenType) -> bool {
    at(text, i) && text[i].token_type == t
}

/// The register slice a register name stands for (`EIP` is none).
pub open spec fn register_place(v: TokenValue) -> Option<Place> {
    match v {
        TokenValue::EAX => Some(Place::Register { index: 0, offset: 0, size: 4 }),
        TokenValue::AX => Some(Place::Register { index: 0, offset: 0, size: 2 }),
        TokenValue::AH => Some(Place::Register { index: 0, offset: 1, size: 1 }),
        TokenValue::AL => Some(Place::Register { index: 0, offset: 0, size: 1 }),
        TokenValue::EBX => Some(Place::Register { index: 1, offset: 0, size: 4 }),
        TokenValue::BX => Some(Place::Register { index: 1, offset: 0, size: 2 }),
        TokenValue::BH => Some(Place::Register { index: 1, offset: 1, size: 1 }),
        TokenValue::BL => Some(Place::Register { index: 1, offset: 0, size: 1 }),
        TokenValue::ECX => Some(Place::Register { index: 2, offset: 0, size: 4 }),
        TokenValue::CX => Some(Place::Register { index: 2, offset: 0, size: 2 }),
        TokenValue::CH => Some(Place::Register { index: 2, offset: 1, size: 1 }),
        TokenValue::CL => Some(Place::Register { index: 2, offset: 0, size: 1 }),
        TokenValue::EDX => Some(Place::Register { index: 3, offset: 0, size: 4 }),
        TokenValue::DX => Some(Place::Register { index: 3, offset: 0, size: 2 }),
        TokenValue::DH => Some(Place::Register { index: 3, offset: 1, size: 1 }),
        TokenValue::DL => Some(Place::Register { index: 3, offset: 0, size: 1 }),
        TokenValue::ESI => Some(Place::Register { index: 4, offset: 0, size: 4 }),
        TokenValue::SI => Some(Place::Register { index: 4, offset: 0, size: 2 }),
        TokenValue::EDI => Some(Place::Register { index: 5, offset: 0, size: 4 }),
        TokenValue::DI => Some(Place::Register { index: 5, offset: 0, size: 2 }),
        TokenValue::ESP => Some(Place::Register { index: 6, offset: 0, size: 4 }),
        TokenValue::SP => Some(Place::Register { index: 6, offset: 0, size: 2 }),
        TokenValue::EBP => Some(Place::Register { index: 7, offset: 0, size: 4 }),
        TokenValue::BP => Some(Place::Register { index: 7, offset: 0, size: 2 }),
        _ => None,
    }
}

/// Byte size a size keyword names, 0 for any other token.
pub open spec fn size_keyword(v: TokenValue) -> nat {
    match v {
        TokenValue::BYTE => 1,
        TokenValue::WORD => 2,
        TokenValue::DWORD => 4,
        _ => 0,
    }
}

/// Register operand at `i`: its place and the position after it.
pub open spec fn decode_register(text: Seq<Token>, i: int) -> Result<(Place, int), ErrorKind> {
    if !at(text, i) {
        Err(ErrorKind::EndOfText)
    } else if text[i].token_type != TokenType::REGISTER {
        Err(ErrorKind::UnexpectedToken)
    } else {
        match register_place(text[i].value) {
            Some(p) => Ok((p, i + 1)),
            None => Err(ErrorKind::UnexpectedToken),
        }
    }
}

/// Smallest of 1, 2, 4 bytes whose unsigned (for `v >= 0`) or signed range holds `v`.
pub open spec fn immediate_size(v: int) -> nat {
    if v >= 0 {
        if v < 256 {
            1
        } else if v < 65536 {
            2
        } else {
            4
        }
    } else {
        if v >= -128 {
            1
        } else if v >= -32768 {
            2
        } else {
            4
        }
    }
}

/// Immediate operand at `i`: an optional `-` and immediate data.
pub open spec fn decode_immediate(text: Seq<Token>, i: int) -> Result<(Place, int), ErrorKind> {
    let neg = is_value(text, i, TokenValue::MINUS);
    let j = if neg { i + 1 } else { i };
    if !at(text, j) {
        Err(ErrorKind::EndOfText)
    } else if text[j].token_type != TokenType::IMMEDIATE_DATA {
        Err(ErrorKind::UnexpectedToken)
    } else {
        let v: int = if neg { -(text[j].int_value as int) } else { text[j].int_value as int };
        if v < -2147483648 {
            Err(ErrorKind::ImmediateOutOfRange)
        } else {
            Ok((Place::Immediate { value: ((v + 4294967296) % 4294967296) as u32, size: immediate_size(v) as usize }, j + 1))
        }
    }
}

pub open spec fn neg32(v: u32) -> u32 {
    ((4294967296 - v) % 4294967296) as u32
}

/// An atom of an address expression: a register's value, immediate data, or
/// `-` and immediate data.
pub open spec fn decode_atom(text: Seq<Token>, regs: Seq<u32>, i: int) -> Result<(u32, int), ErrorKind> {
    if !at(text, i) {
        Err(ErrorKind::EndOfText)
    } else if text[i].token_type == TokenType::REGISTER {
        match decode_register(text, i) {
            Ok((p, j)) => match p {
                Place::Register { index, offset, size } => Ok((slice_read(regs[index as int], offset as nat, size as nat), j)),
                _ => Err(ErrorKind::UnexpectedToken),
            },
            Err(e) => Err(e),
        }
    } else if text[i].token_type == TokenType::IMMEDIATE_DATA {
        Ok((text[i].int_value, i + 1))
    } else if text[i].value == TokenValue::MINUS && is_kind(text, i + 1, TokenType::IMMEDIATE_DATA) {
        Ok((neg32(text[i + 1].int_value), i + 2))
    } else {
        Err(ErrorKind::UnexpectedToken)
    }
}

/// Binding strength of the token at `i`; -1 for all but symbols.
pub open spec fn prec_at(text: Seq<Token>, i: int) -> int {
    if is_kind(text, i, TokenType::SYMBOL) {
        text[i].precedence as int
    } else {
        -1
    }
}

/// `+`, `-` and `*` in 32-bit wrap-around arithmetic.
pub open spec fn apply_op(op: TokenValue, a: u32, b: u32) -> Option<u32> {
    match op {
        TokenValue::PLUS => Some(((a + b) % 4294967296) as u32),
        TokenValue::MINUS => Some(((a - b + 4294967296) % 4294967296) as u32),
        TokenValue::TIMES => Some(((a * b) % 4294967296) as u32),
        _ => None,
    }
}

/// Precedence climbing: folds into `lhs` every operator at `i` and on whose
/// precedence is at least `min`, left-associatively, with tighter operators
/// grouped first. Returns the value and the position of the first token left.
pub open spec fn climb(text: Seq<Token>, regs: Seq<u32>, lhs: u32, min: int, i: int) -> Result<(u32, int), ErrorKind>
    decreases text.len() - i,
{
    let p = prec_at(text, i);
    if p < min {
        Ok((lhs, i))
    } else if !at(text, i) {
        Err(ErrorKind::EndOfText)
    } else {
        match decode_atom(text, regs, i + 1) {
            Err(e) => Err(e),
            Ok((rhs, j)) => {
                if !(i < j <= text.len()) {
                    Err(ErrorKind::EndOfText)
                } else {
                    let inner = if p < prec_at(text, j) {
                        climb(text, regs, rhs, p + 1, j)
                    } else {
                        Ok((rhs, j))
                    };
                    match inner {
                        Err(e) => Err(e),
                        Ok((rhs2, k)) => {
                            if !(i < k <= text.len()) {
                                Err(ErrorKind::EndOfText)
                            } else {
                                match apply_op(text[i].value, lhs, rhs2) {
                                    None => Err(ErrorKind::UnexpectedToken),
                                    Some(v) => climb(text, regs, v, min, k),
                                }
                            }
                        }
                    }
                }
            }
        }
    }
}

/// `SIZE PTR [ expression ]` at `i`.
pub open spec fn decode_memory(text: Seq<Token>, regs: Seq<u32>, i: int) -> Result<(Place, int), ErrorKind> {
    if !at(text, i) {
        Err(ErrorKind::EndOfText)
    } else {
        let size = size_keyword(text[i].value);
        if size == 0 {
            Err(ErrorKind::UnexpectedToken)
        } else if !is_value(text, i + 1, TokenValue::PTR) {
            Err(ErrorKind::MissingPtr)
        } else if !is_value(text, i + 2, TokenValue::LBRACK) {
            Err(ErrorKind::MissingBracket)
        } else {
            match decode_atom(text, regs, i + 3) {
                Err(e) => Err(e),
                Ok((lhs, j)) => match climb(text, regs, lhs, 0, j) {
                    Err(e) => Err(e),
                    Ok((addr, k)) => {
                        if !is_value(text, k, TokenValue::RBRACK) {
                            Err(ErrorKind::MissingBracket)
                        } else if addr + size > MEM_BYTES {
                            Err(ErrorKind::AddressOutOfRange)
                        } else {
                            Ok((Place::Memory { address: addr as usize, size: size as usize }, k + 1))
                        }
                    }
                },
            }
        }
    }
}

/// A source operand: memory, register or immediate.
pub open spec fn decode_source(text: Seq<Token>, regs: Seq<u32>, i: int) -> Result<(Place, int), ErrorKind> {
    if !at(text, i) {
        Err(ErrorKind::EndOfText)
    } else if size_keyword(text[i].value) != 0 {
        decode_memory(text, regs, i)
    } else if text[i].token_type == TokenType::REGISTER {
        decode_register(text, i)
    } else if text[i].token_type == TokenType::IMMEDIATE_DATA || text[i].value == TokenValue::MINUS {
        decode_immediate(text, i)
    } else {
        Err(ErrorKind::UnexpectedToken)
    }
}

/// A destination operand: memory or register.
pub open spec fn decode_destination(text: Seq<Token>, regs: Seq<u32>, i: int) -> Result<(Place, int), ErrorKind> {
    if !at(text, i) {
        Err(ErrorKind::EndOfText)
    } else if size_keyword(text[i].value) != 0 {
        decode_memory(text, regs, i)
    } else if text[i].token_type == TokenType::REGISTER {
        decode_register(text, i)
    } else {
        Err(ErrorKind::UnexpectedToken)
    }
}

/// What a decoder returns, told in its spec form.
pub open spec fn decoded<T>(r: Result<(T, usize), ErrorKind>, s: Result<(T, int), ErrorKind>) -> bool {
    match s {
        Ok((v, j)) => r matches Ok((w, k)) && w == v && k == j,
        Err(e) => r == Err::<(T, usize), ErrorKind>(e),
    }
}

pub fn register_place_exec(v: TokenValue) -> (r: Option<Place>)
    ensures
        r == register_place(v),
        r matches Some(p) ==> place_ok(p),
{
    match v {
        TokenValue::EAX => Some(Place::Register { index: 0, offset: 0, size: 4 }),
        TokenValue::AX => Some(Place::Register { index: 0, offset: 0, size: 2 }),
        TokenValue::AH => Some(Place::Register { index: 0, offset: 1, size: 1 }),
        TokenValue::AL => Some(Place::Register { index: 0, offset: 0, size: 1 }),
        TokenValue::EBX => Some(Place::Register { index: 1, offset: 0, size: 4 }),
        TokenValue::BX => Some(Place::Register { index: 1, offset: 0, size: 2 }),
        TokenValue::BH => Some(Place::Register { index: 1, offset: 1, size: 1 }),
        TokenValue::BL => Some(Place::Register { index: 1, offset: 0, size: 1 }),
        TokenValue::ECX => Some(Place::Register { index: 2, offset: 0, size: 4 }),
        TokenValue::CX => Some(Place::Register { index: 2, offset: 0, size: 2 }),
        TokenValue::CH => Some(Place::Register { index: 2, offset: 1, size: 1 }),
        TokenValue::CL => Some(Place::Register { index: 2, offset: 0, size: 1 }),
        TokenValue::EDX => Some(Place::Register { index: 3, offset: 0, size: 4 }),
        TokenValue::DX => Some(Place::Register { index: 3, offset: 0, size: 2 }),
        TokenValue::DH => Some(Place::Register { index: 3, offset: 1, size: 1 }),
        TokenValue::DL => Some(Place::Register { index: 3, offset: 0, size: 1 }),
        TokenValue::ESI => Some(Place::Register { index: 4, offset: 0, size: 4 }),
        TokenValue::SI => Some(Place::Register { index: 4, offset: 0, size: 2 }),
        TokenValue::EDI => Some(Place::Register { index: 5, offset: 0, size: 4 }),
        TokenValue::DI => Some(Place::Register { index: 5, offset: 0, size: 2 }),
        TokenValue::ESP => Some(Place::Register { index: 6, offset: 0, size: 4 }),
        TokenValue::SP => Some(Place::Register { index: 6, offset: 0, size: 2 }),
        TokenValue::EBP => Some(Place::Register { index: 7, offset: 0, size: 4 }),
        TokenValue::BP => Some(Place::Register { index: 7, offset: 0, size: 2 }),
        _ => None,
    }
}

pub fn size_keyword_exec(v: TokenValue) -> (r: usize)
    ensures
        r == size_keyword(v),
{
    match v {
        TokenValue::BYTE => 1,
        TokenValue::WORD => 2,
        TokenValue::DWORD => 4,
        _ => 0,
    }
}

pub fn parse_register(text: &Vec<Token>, i: usize) -> (r: Result<(Place, usize), ErrorKind>)
    ensures
        decoded(r, decode_register(text@, i as int)),
        r matches Ok((p, j)) ==> place_ok(p),
{
    if i >= text.len() {
        return Err(ErrorKind::EndOfText);
    }
    if text[i].token_type != TokenType::REGISTER {
        return Err(ErrorKind::UnexpectedToken);
    }
    match register_place_exec(text[i].value) {
        Some(p) => Ok((p, i + 1)),
        None => Err(ErrorKind::UnexpectedToken),
    }
}

fn immediate_size_exec(v: i64) -> (r: usize)
    ensures
        r == immediate_size(v as int),
{
    if v >= 0 {
        if v < 256 {
            1
        } else if v < 65536 {
            2
        } else {
            4
        }
    } else {
        if v >= -128 {
            1
        } else if v >= -32768 {
            2
        } else {
            4
        }
    }
}

pub fn parse_immediate_data(text: &Vec<Token>, i: usize) -> (r: Result<(Place, usize), ErrorKind>)
    ensures
        decoded(r, decode_immediate(text@, i as int)),
        r matches Ok((p, j)) ==> place_ok(p),
{
    let neg = i < text.len() && text[i].value == TokenValue::MINUS;
    let j = if neg { i + 1 } else { i };
    if j >= text.len() {
        return Err(ErrorKind::EndOfText);
    }
    if text[j].token_type != TokenType::IMMEDIATE_DATA {
        return Err(ErrorKind::UnexpectedToken);
    }
    let v: i64 = if neg { -(text[j].int_value as i64) } else { text[j].int_value as i64 };
    if v < -2147483648 {
        return Err(ErrorKind::ImmediateOutOfRange);
    }
    let bits = ((v + 4294967296) % 4294967296) as u32;
    Ok((Place::Immediate { value: bits, size: immediate_size_exec(v) }, j + 1))
}

fn parse_atom(text: &Vec<Token>, regs: &Vec<u32>, i: usize) -> (r: Result<(u32, usize), ErrorKind>)
    requires
        regs@.len() == 8,
    ensures
        decoded(r, decode_atom(text@, regs@, i as int)),
        r matches Ok((v, j)) ==> i < j <= text@.len(),
{
    if i >= text.len() {
        return Err(ErrorKind::EndOfText);
    }
    if text[i].token_type == TokenType::REGISTER {
        match parse_register(text, i) {
            Ok((p, j)) => match p {
                Place::Register { index, offset, size } => Ok((slice_read_exec(regs[index], offset, size), j)),
                _ => Err(ErrorKind::UnexpectedToken),
            },
            Err(e) => Err(e),
        }
    } else if text[i].token_type == TokenType::IMMEDIATE_DATA {
        Ok((text[i].int_value, i + 1))
    } else if text[i].value == TokenValue::MINUS && i + 1 < text.len() && text[i + 1].token_type
        == TokenType::IMMEDIATE_DATA {
        let v = text[i + 1].int_value;
        Ok((((4294967296 - v as u64) % 4294967296) as u32, i + 2))
    } else {
        Err(ErrorKind::UnexpectedToken)
    }
}

fn prec_at_exec(text: &Vec<Token>, i: usize) -> (r: i64)
    ensures
        r == prec_at(text@, i as int),
{
    if i < text.len() && text[i].token_type == TokenType::SYMBOL {
        text[i].precedence as i64
    } else {
        -1
    }
}

fn apply_op_exec(op: TokenValue, a: u32, b: u32) -> (r: Option<u32>)
    ensures
        r == apply_op(op, a, b),
{
    match op {
        TokenValue::PLUS => Some(a.wrapping_add(b)),
        TokenValue::MINUS => Some(a.wrapping_sub(b)),
        TokenValue::TIMES => Some(a.wrapping_mul(b)),
        _ => None,
    }
}

/// Folds the operators at `i` and on into `lhs` by precedence climbing.
pub fn parse_binary_operation(text: &Vec<Token>, regs: &Vec<u32>, lhs: u32, precedence: i64, i: usize) -> (r: Result<(u32, usize), ErrorKind>)
    requires
        regs@.len() == 8,
        i <= text@.len(),
        -1 <= precedence <= 0x8000_0000,
    ensures
        decoded(r, climb(text@, regs@, lhs, precedence as int, i as int)),
        r matches Ok((v, k)) ==> i <= k <= text@.len(),
    decreases text@.len() - i,
{
    let p = prec_at_exec(text, i);
    if p < precedence {
        return Ok((lhs, i));
    }
    if i >= text.len() {
        return Err(ErrorKind::EndOfText);
    }
    let (rhs, j) = match parse_atom(text, regs, i + 1) {
        Err(e) => return Err(e),
        Ok(x) => x,
    };
    let (rhs2, k) = if p < prec_at_exec(text, j) {
        match parse_binary_operation(text, regs, rhs, p + 1, j) {
            Err(e) => return Err(e),
            Ok(x) => x,
        }
    } else {
        (rhs, j)
    };
    match apply_op_exec(text[i].value, lhs, rhs2) {
        None => Err(ErrorKind::UnexpectedToken),
        Some(v) => parse_binary_operation(text, regs, v, precedence, k),
    }
}

pub fn parse_memory(text: &Vec<Token>, regs: &Vec<u32>, i: usize) -> (r: Result<(Place, usize), ErrorKind>)
    requires
        regs@.len() == 8,
    ensures
        decoded(r, decode_memory(text@, regs@, i as int)),
        r matches Ok((p, j)) ==> place_ok(p),
{
    if i >= text.len() {
        return Err(ErrorKind::EndOfText);
    }
    let size = size_keyword_exec(text[i].value);
    if size == 0 {
        return Err(ErrorKind::UnexpectedToken);
    }
    if !(i + 1 < text.len() && text[i + 1].value == TokenValue::PTR) {
        return Err(ErrorKind::MissingPtr);
    }
    if !(i + 2 < text.len() && text[i + 2].value == TokenValue::LBRACK) {
        return Err(ErrorKind::MissingBracket);
    }
    let (lhs, j) = match parse_atom(text, regs, i + 3) {
        Err(e) => return Err(e),
        Ok(x) => x,
    };
    let (addr, k) = match parse_binary_operation(text, regs, lhs, 0, j) {
        Err(e) => return Err(e),
        Ok(x) => x,
    };
    if !(k < text.len() && text[k].value == TokenValue::RBRACK) {
        return Err(ErrorKind::MissingBracket);
    }
    if addr as u64 + size as u64 > MEM_BYTES as u64 {
        return Err(ErrorKind::AddressOutOfRange);
    }
    Ok((Place::Memory { address: addr as usize, size }, k + 1))
}

pub fn parse_source(text: &Vec<Token>, regs: &Vec<u32>, i: usize) -> (r: Result<(Place, usize), ErrorKind>)
    requires
        regs@.len() == 8,
    ensures
        decoded(r, decode_source(text@, regs@, i as int)),
        r matches Ok((p, j)) ==> place_ok(p),
{
    if i >= text.len() {
        Err(ErrorKind::EndOfText)
    } else if size_keyword_exec(text[i].value) != 0 {
        parse_memory(text, regs, i)
    } else if text[i].token_type == TokenType::REGISTER {
        parse_register(text, i)
    } else if text[i].token_type == TokenType::IMMEDIATE_DATA || text[i].value == TokenValue::MINUS {
        parse_immediate_data(text, i)
    } else {
        Err(ErrorKind::UnexpectedToken)
    }
}

pub fn parse_destination(text: &Vec<Token>, regs: &Vec<u32>, i: usize) -> (r: Result<(Place, usize), ErrorKind>)
    requires
        regs@.len() == 8,
    ensures
        decoded(r, decode_destination(text@, regs@, i as int)),
        r matches Ok((p, j)) ==> place_ok(p) && !(p is Immediate),
{
    if i >= text.len() {
        Err(ErrorKind::EndOfText)
    } else if size_keyword_exec(text[i].value) != 0 {
        parse_memory(text, regs, i)
    } else if text[i].token_type == TokenType::REGISTER {
        parse_register(text, i)
    } else {
        Err(ErrorKind::UnexpectedToken)
    }
}

} // verus!
