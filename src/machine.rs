use vstd::prelude::*;

verus! {

/// Bytes of the stack array.
pub const STACK_BYTES: usize = 1048576;

/// Bytes of the memory array.
pub const MEM_BYTES: usize = 1048576;

/// Register numbers in the register file.
pub const EAX: usize = 0;
pub const EBX: usize = 1;
pub const ECX: usize = 2;
pub const EDX: usize = 3;
pub const ESI: usize = 4;
pub const EDI: usize = 5;
pub const ESP: usize = 6;
pub const EBP: usize = 7;

/// Where an operand lives: a slice of a register, a sized memory cell, or an
/// immediate (its full 32-bit two's-complement value and its inferred size).
#[derive(Clone, Copy, Debug, PartialEq, Eq, Structural)]
pub enum Place {
    Register { index: usize, offset: usize, size: usize },
    Memory { address: usize, size: usize },
    Immediate { value: u32, size: usize },
}

impl Place {
    pub open spec fn spec_size(self) -> nat {
        match self {
            Place::Register { size, .. } => size as nat,
            Place::Memory { size, .. } => size as nat,
            Place::Immediate { size, .. } => size as nat,
        }
    }

    pub fn size(&self) -> (r: usize)
        ensures
            r == self.spec_size(),
    {
        match self {
            Place::Register { size, .. } => *size,
            Place::Memory { size, .. } => *size,
            Place::Immediate { size, .. } => *size,
        }
    }
}

pub open spec fn legal_size(size: nat) -> bool {
    size == 1 || size == 2 || size == 4
}

/// A register slice as x86 names them: low byte, high byte, word or dword.
pub open spec fn legal_slice(offset: nat, size: nat) -> bool {
    (offset == 0 && legal_size(size)) || (offset == 1 && size == 1)
}

/// The places a decoder hands out.
pub open spec fn place_ok(p: Place) -> bool {
    match p {
        Place::Register { index, offset, size } => index < 8 && legal_slice(offset as nat, size as nat),
        Place::Memory { address, size } => legal_size(size as nat) && address + size <= MEM_BYTES,
        Place::Immediate { value, size } => legal_size(size as nat),
    }
}

/// Status flags.
#[derive(Clone, Copy, Debug, PartialEq, Eq, Structural)]
pub struct Flags {
    pub cf: bool,
    pub zf: bool,
    pub sf: bool,
    pub of: bool,
}

/// The machine as the instruction semantics see it.
pub struct State {
    pub regs: Seq<u32>,
    pub eip: int,
    pub flags: Flags,
    pub stack: Seq<u8>,
    pub memory: Seq<u8>,
    pub depth: nat,
}

pub open spec fn state_ok(s: State) -> bool {
    &&& s.regs.len() == 8
    &&& s.stack.len() == STACK_BYTES
    &&& s.memory.len() == MEM_BYTES
}

pub open spec fn modulus(size: nat) -> int {
    if size == 1 {
        256
    } else if size == 2 {
        65536
    } else {
        4294967296
    }
}

pub open spec fn half(size: nat) -> int {
    modulus(size) / 2
}

/// The value `v` (taken modulo the width) read as a signed integer of `size` bytes.
pub open spec fn signed(v: int, size: nat) -> int {
    let m = v % modulus(size);
    if m >= half(size) {
        m - modulus(size)
    } else {
        m
    }
}

pub open spec fn trunc(v: int, size: nat) -> u32 {
    (v % modulus(size)) as u32
}

/// Reads `size` bytes at byte `offset` of a register holding `d`.
pub open spec fn slice_read(d: u32, offset: nat, size: nat) -> u32 {
    if size == 4 {
        d
    } else if size == 2 {
        d & 0xffff
    } else if offset == 0 {
        d & 0xff
    } else {
        (d >> 8u32) & 0xff
    }
}

/// Writes the low `size` bytes of `v` at byte `offset` of a register holding
/// `d`; the other bits of the register stay.
pub open spec fn slice_write(d: u32, offset: nat, size: nat, v: u32) -> u32 {
    if size == 4 {
        v
    } else if size == 2 {
        (d & 0xffff0000) | (v & 0xffff)
    } else if offset == 0 {
        (d & 0xffffff00) | (v & 0xff)
    } else {
        (d & 0xffff00ff) | ((v & 0xff) << 8u32)
    }
}

/// Little-endian value of `size` bytes at `a`.
pub open spec fn le_read(b: Seq<u8>, a: int, size: nat) -> u32 {
    if size == 1 {
        b[a] as u32
    } else if size == 2 {
        (b[a] as u32) | ((b[a + 1] as u32) << 8u32)
    } else {
        (b[a] as u32) | ((b[a + 1] as u32) << 8u32) | ((b[a + 2] as u32) << 16u32) | ((b[a + 3] as u32) << 24u32)
    }
}

/// Writes the low `size` bytes of `v` little-endian at `a`.
pub open spec fn le_write(b: Seq<u8>, a: int, size: nat, v: u32) -> Seq<u8> {
    if size == 1 {
        b.update(a, v as u8)
    } else if size == 2 {
        b.update(a, v as u8).update(a + 1, (v >> 8u32) as u8)
    } else {
        b.update(a, v as u8).update(a + 1, (v >> 8u32) as u8).update(a + 2, (v >> 16u32) as u8).update(
            a + 3,
            (v >> 24u32) as u8,
        )
    }
}

/// Value of an operand, zero-extended.
pub open spec fn read_place(s: State, p: Place) -> u32 {
    match p {
        Place::Register { index, offset, size } => slice_read(s.regs[index as int], offset as nat, size as nat),
        Place::Memory { address, size } => le_read(s.memory, address as int, size as nat),
        Place::Immediate { value, size } => trunc(value as int, size as nat),
    }
}

/// Value of an operand taken at the width of `size` bytes: an immediate gives
/// its two's-complement value at that width, any other operand its own value.
pub open spec fn read_at(s: State, p: Place, size: nat) -> u32 {
    match p {
        Place::Immediate { value, .. } => trunc(value as int, size),
        _ => read_place(s, p),
    }
}

/// Stores the low bytes of `v` in an operand; an immediate is not a store.
pub open spec fn write_place(s: State, p: Place, v: u32) -> State {
    match p {
        Place::Register { index, offset, size } => State {
            regs: s.regs.update(index as int, slice_write(s.regs[index as int], offset as nat, size as nat, v)),
            ..s
        },
        Place::Memory { address, size } => State {
            memory: le_write(s.memory, address as int, size as nat, v),
            ..s
        },
        Place::Immediate { .. } => s,
    }
}

pub open spec fn set_reg(s: State, r: int, v: u32) -> State {
    State { regs: s.regs.update(r, v), ..s }
}

/// Sign and zero flags of a result of `size` bytes.
pub open spec fn sf_of(r: int, size: nat) -> bool {
    r % modulus(size) >= half(size)
}

pub open spec fn zf_of(r: int, size: nat) -> bool {
    r % modulus(size) == 0
}

/// Value in range for a width.
pub open spec fn fits(a: int, size: nat) -> bool {
    0 <= a < modulus(size)
}

pub open spec fn fits_signed(v: int, size: nat) -> bool {
    -half(size) <= v < half(size)
}

/// `add`: result and flags (`a`, `b` already at the width).
pub open spec fn add_spec(a: int, b: int, size: nat) -> (u32, Flags) {
    let r = a + b;
    (trunc(r, size), Flags {
        cf: r >= modulus(size),
        zf: zf_of(r, size),
        sf: sf_of(r, size),
        of: !fits_signed(signed(a, size) + signed(b, size), size),
    })
}

/// `sub` and `cmp`: result and flags.
pub open spec fn sub_spec(a: int, b: int, size: nat) -> (u32, Flags) {
    let r = a - b + modulus(size);
    (trunc(r, size), Flags {
        cf: a < b,
        zf: zf_of(r, size),
        sf: sf_of(r, size),
        of: !fits_signed(signed(a, size) - signed(b, size), size),
    })
}

/// `cmp`: the flags of `sub`, but SF is the sign of the 32-bit difference of
/// both operands sign-extended to 32 bits.
pub open spec fn cmp_spec_flags(a: int, b: int, size: nat) -> Flags {
    Flags { sf: sf_of(signed(a, size) - signed(b, size) + modulus(4), 4), ..sub_spec(a, b, size).1 }
}

pub enum LogicOp {
    And,
    Or,
    Xor,
}

pub open spec fn logic_result(op: LogicOp, a: u32, b: u32) -> u32 {
    match op {
        LogicOp::And => a & b,
        LogicOp::Or => a | b,
        LogicOp::Xor => a ^ b,
    }
}

/// `and`, `or`, `xor`: bitwise result, CF and OF cleared.
pub open spec fn logic_spec(op: LogicOp, a: u32, b: u32, size: nat) -> (u32, Flags) {
    let r = logic_result(op, a, b);
    (trunc(r as int, size), Flags { cf: false, zf: zf_of(r as int, size), sf: sf_of(r as int, size), of: false })
}

/// An operand's value lies within its width, and within any wider width.
pub proof fn lemma_read_fits(s: State, p: Place, n: nat)
    requires
        state_ok(s),
        place_ok(p),
        legal_size(n),
        p.spec_size() <= n,
    ensures
        read_place(s, p) < modulus(p.spec_size()),
        read_place(s, p) < modulus(n),
        read_at(s, p, n) < modulus(n),
{
    match p {
        Place::Register { index, offset, size } => {
            let d = s.regs[index as int];
            assert(d & 0xff < 256) by (bit_vector);
            assert((d >> 8u32) & 0xff < 256) by (bit_vector);
            assert(d & 0xffff < 65536) by (bit_vector);
        },
        Place::Memory { address, size } => {
            let a = address as int;
            let b0 = s.memory[a];
            if size >= 2 {
                let b1 = s.memory[a + 1];
                assert((b0 as u32) | ((b1 as u32) << 8u32) < 65536) by (bit_vector);
            }
        },
        Place::Immediate { value, size } => {},
    }
}

pub fn modulus_of(size: usize) -> (r: u64)
    requires
        legal_size(size as nat),
    ensures
        r == modulus(size as nat),
{
    if size == 1 {
        256
    } else if size == 2 {
        65536
    } else {
        4294967296
    }
}

pub fn signed_of(v: u32, size: usize) -> (r: i64)
    requires
        legal_size(size as nat),
    ensures
        r == signed(v as int, size as nat),
{
    let m = modulus_of(size);
    let x = (v as u64) % m;
    if x >= m / 2 {
        x as i64 - m as i64
    } else {
        x as i64
    }
}

pub fn fits_signed_exec(v: i64, size: usize) -> (r: bool)
    requires
        legal_size(size as nat),
    ensures
        r == fits_signed(v as int, size as nat),
{
    let h = (modulus_of(size) / 2) as i64;
    -h <= v && v < h
}

/// Result flags of a value that already lies in `0..2 * modulus`.
pub fn sign_zero(r: u64, size: usize) -> (f: (bool, bool))
    requires
        legal_size(size as nat),
    ensures
        f.0 == sf_of(r as int, size as nat),
        f.1 == zf_of(r as int, size as nat),
{
    let m = modulus_of(size);
    let x = r % m;
    (x >= m / 2, x == 0)
}

pub fn add_flags(a: u32, b: u32, size: usize) -> (r: (u32, Flags))
    requires
        legal_size(size as nat),
    ensures
        r == add_spec(a as int, b as int, size as nat),
{
    let m = modulus_of(size);
    let sum = a as u64 + b as u64;
    let (sf, zf) = sign_zero(sum, size);
    let of = !fits_signed_exec(signed_of(a, size) + signed_of(b, size), size);
    ((sum % m) as u32, Flags { cf: sum >= m, zf, sf, of })
}

pub fn sub_flags(a: u32, b: u32, size: usize) -> (r: (u32, Flags))
    requires
        legal_size(size as nat),
        a < modulus(size as nat),
        b < modulus(size as nat),
    ensures
        r == sub_spec(a as int, b as int, size as nat),
{
    let m = modulus_of(size);
    let d = a as u64 + m - b as u64;
    let (sf, zf) = sign_zero(d, size);
    let of = !fits_signed_exec(signed_of(a, size) - signed_of(b, size), size);
    ((d % m) as u32, Flags { cf: a < b, zf, sf, of })
}

pub fn cmp_flags(a: u32, b: u32, size: usize) -> (r: Flags)
    requires
        legal_size(size as nat),
        a < modulus(size as nat),
        b < modulus(size as nat),
    ensures
        r == cmp_spec_flags(a as int, b as int, size as nat),
{
    let (_, f) = sub_flags(a, b, size);
    let d = signed_of(a, size) - signed_of(b, size) + 4294967296;
    let (sf, _) = sign_zero(d as u64, 4);
    Flags { sf, ..f }
}

pub fn logic_flags(op: LogicOp, a: u32, b: u32, size: usize) -> (r: (u32, Flags))
    requires
        legal_size(size as nat),
    ensures
        r == logic_spec(op, a, b, size as nat),
{
    let v = match op {
        LogicOp::And => a & b,
        LogicOp::Or => a | b,
        LogicOp::Xor => a ^ b,
    };
    let (sf, zf) = sign_zero(v as u64, size);
    (((v as u64) % modulus_of(size)) as u32, Flags { cf: false, zf, sf, of: false })
}

/// Two's-complement bits at a width of a value given by its sign and magnitude.
pub fn wrap_signed(neg: bool, x: u128, size: usize) -> (r: u32)
    requires
        legal_size(size as nat),
    ensures
        r == trunc(if neg { -(x as int) } else { x as int }, size as nat),
{
    let m = modulus_of(size) as u128;
    let xm = x % m;
    if neg {
        proof {
            let mi = m as int;
            let xi = x as int;
            let q = xi / mi;
            vstd::arithmetic::div_mod::lemma_fundamental_div_mod(xi, mi);
            if xm == 0 {
                assert(-xi == (-q) * mi) by (nonlinear_arith)
                    requires
                        xi == mi * q,
                ;
                vstd::arithmetic::div_mod::lemma_fundamental_div_mod_converse(-xi, mi, -q, 0);
                vstd::arithmetic::div_mod::lemma_mod_self_0(mi);
            } else {
                vstd::arithmetic::div_mod::lemma_small_mod((mi - xm) as nat, mi as nat);
                assert(-xi == (-q - 1) * mi + (mi - xm)) by (nonlinear_arith)
                    requires
                        xi == mi * q + xm,
                ;
                vstd::arithmetic::div_mod::lemma_fundamental_div_mod_converse(-xi, mi, -q - 1, mi - xm);
            }
        }
        ((m - xm) % m) as u32
    } else {
        assert(xm < m);
        xm as u32
    }
}

pub fn slice_read_exec(d: u32, offset: usize, size: usize) -> (r: u32)
    ensures
        r == slice_read(d, offset as nat, size as nat),
{
    if size == 4 {
        d
    } else if size == 2 {
        d & 0xffff
    } else if offset == 0 {
        d & 0xff
    } else {
        (d >> 8u32) & 0xff
    }
}

pub fn slice_write_exec(d: u32, offset: usize, size: usize, v: u32) -> (r: u32)
    ensures
        r == slice_write(d, offset as nat, size as nat, v),
{
    if size == 4 {
        v
    } else if size == 2 {
        (d & 0xffff0000) | (v & 0xffff)
    } else if offset == 0 {
        (d & 0xffffff00) | (v & 0xff)
    } else {
        (d & 0xffff00ff) | ((v & 0xff) << 8u32)
    }
}

pub fn le_read_exec(b: &Vec<u8>, a: usize, size: usize) -> (r: u32)
    requires
        legal_size(size as nat),
        a as int + size as int <= b@.len(),
    ensures
        r == le_read(b@, a as int, size as nat),
{
    let _n = b.len();
    if size == 1 {
        b[a] as u32
    } else if size == 2 {
        (b[a] as u32) | ((b[a + 1] as u32) << 8u32)
    } else {
        (b[a] as u32) | ((b[a + 1] as u32) << 8u32) | ((b[a + 2] as u32) << 16u32) | ((b[a + 3] as u32) << 24u32)
    }
}

pub fn le_write_exec(b: &mut Vec<u8>, a: usize, size: usize, v: u32)
    requires
        legal_size(size as nat),
        a as int + size as int <= old(b)@.len(),
    ensures
        final(b)@ == le_write(old(b)@, a as int, size as nat, v),
{
    let _n = b.len();
    b.set(a, #[verifier::truncate] (v as u8));
    if size >= 2 {
        b.set(a + 1, #[verifier::truncate] ((v >> 8u32) as u8));
    }
    if size == 4 {
        b.set(a + 2, #[verifier::truncate] ((v >> 16u32) as u8));
        b.set(a + 3, #[verifier::truncate] ((v >> 24u32) as u8));
    }
}

} // verus!
