use vstd::prelude::*;
use crate::decode::{at, decode_destination, decode_source};
use crate::machine::{
    State, Place, legal_size, place_ok, state_ok, fits, modulus, signed, trunc, slice_read, slice_write, sub_spec,
    le_read, le_write, legal_slice, write_place, read_place, read_at, lemma_read_fits,
};
use crate::preprocess::{find_label_before, is_operand, resolve_from, rewrite_at};
use crate::semantics::{alu_spec, call_spec, condition, jump_spec, pop_spec, push_spec, ret_spec, run_spec, step_spec, with_eip};
use crate::token::{Token, TokenType, TokenValue};

verus! {

/// Writing a register slice changes exactly the bits of that slice: the low
/// byte leaves bits 8..31 as they were, the high byte leaves bits 0..7 and
/// 16..31, the word leaves bits 16..31, and the dword sets all 32 bits; in each
/// case reading the slice back gives the written value at its width.
pub proof fn lemma_register_aliasing(d: u32, v: u32)
    ensures
        slice_write(d, 0, 1, v) & 0xffffff00 == d & 0xffffff00,
        slice_write(d, 1, 1, v) & 0xffff00ff == d & 0xffff00ff,
        slice_write(d, 0, 2, v) & 0xffff0000 == d & 0xffff0000,
        slice_write(d, 0, 4, v) == v,
        slice_read(slice_write(d, 0, 1, v), 0, 1) == v & 0xff,
        slice_read(slice_write(d, 1, 1, v), 1, 1) == v & 0xff,
        slice_read(slice_write(d, 0, 2, v), 0, 2) == v & 0xffff,
        slice_read(slice_write(d, 0, 4, v), 0, 4) == v,
{
    assert(((d & 0xffffff00) | (v & 0xff)) & 0xffffff00 == d & 0xffffff00) by (bit_vector);
    assert(((d & 0xffff00ff) | ((v & 0xff) << 8u32)) & 0xffff00ff == d & 0xffff00ff) by (bit_vector);
    assert(((d & 0xffff0000) | (v & 0xffff)) & 0xffff0000 == d & 0xffff0000) by (bit_vector);
    assert(((d & 0xffffff00) | (v & 0xff)) & 0xff == v & 0xff) by (bit_vector);
    assert((((d & 0xffff00ff) | ((v & 0xff) << 8u32)) >> 8u32) & 0xff == v & 0xff) by (bit_vector);
    assert(((d & 0xffff0000) | (v & 0xffff)) & 0xffff == v & 0xffff) by (bit_vector);
}

/// Writing one register leaves every other register as it was.
pub proof fn lemma_other_registers_kept(s: State, index: usize, offset: usize, size: usize, v: u32, r: int)
    requires
        state_ok(s),
        place_ok(Place::Register { index, offset, size }),
        0 <= r < 8,
        r != index,
    ensures
        write_place(s, Place::Register { index, offset, size }, v).regs[r] == s.regs[r],
{
}

/// After `sub a, b` at a width: ZF holds exactly when `a == b`, CF exactly when
/// `a < b` unsigned, and when OF is clear, SF holds exactly when `a < b` signed;
/// so a `je` right after it branches exactly when `a == b`.
pub proof fn lemma_sub_flags(a: int, b: int, size: nat)
    requires
        legal_size(size),
        fits(a, size),
        fits(b, size),
    ensures
        sub_spec(a, b, size).1.zf <==> a == b,
        sub_spec(a, b, size).1.cf <==> a < b,
        !sub_spec(a, b, size).1.of ==> (sub_spec(a, b, size).1.sf <==> signed(a, size) < signed(b, size)),
        condition(TokenValue::JE, sub_spec(a, b, size).1) <==> a == b,
{
    let m = modulus(size);
    let r = a - b + m;
    assert(0 < r < 2 * m);
    if r < m {
        assert(r % m == r);
    } else {
        assert(r % m == r - m);
    }
    assert(a % m == a);
    assert(b % m == b);
}

/// Little-endian bytes written at an address read back as the value at that width.
pub proof fn lemma_le_round_trip(b: Seq<u8>, a: int, size: nat, v: u32)
    requires
        legal_size(size),
        0 <= a,
        a + size <= b.len(),
    ensures
        le_read(le_write(b, a, size, v), a, size) == trunc(v as int, size),
{
    let w = le_write(b, a, size, v);
    if size == 1 {
        assert(w[a] == v as u8);
        assert((v as u8) as u32 == v & 0xff) by (bit_vector);
        assert(v & 0xff == v % 256) by (bit_vector);
    } else if size == 2 {
        assert(w[a] == v as u8);
        assert(w[a + 1] == (v >> 8u32) as u8);
        assert(((v as u8) as u32) | ((((v >> 8u32) as u8) as u32) << 8u32) == v & 0xffff) by (bit_vector);
        assert(v & 0xffff == v % 65536) by (bit_vector);
    } else {
        assert(w[a] == v as u8);
        assert(w[a + 1] == (v >> 8u32) as u8);
        assert(w[a + 2] == (v >> 16u32) as u8);
        assert(w[a + 3] == (v >> 24u32) as u8);
        assert(((v as u8) as u32) | ((((v >> 8u32) as u8) as u32) << 8u32) | ((((v >> 16u32) as u8) as u32)
            << 16u32) | ((((v >> 24u32) as u8) as u32) << 24u32) == v) by (bit_vector);
    }
}

/// A `sub dst, src` that succeeds leaves ZF set exactly when the two operands
/// were equal at the destination's width, so a `je` after it branches exactly then.
pub proof fn lemma_sub_then_je(text: Seq<Token>, s: State, s1: State)
    requires
        state_ok(s),
        alu_spec(text, s, TokenValue::SUB) == Ok::<State, crate::error::ErrorKind>(s1),
    ensures
        ({
            let (d, j) = decode_destination(text, s.regs, s.eip + 1)->Ok_0;
            let src = decode_source(text, s.regs, j + 1)->Ok_0.0;
            condition(TokenValue::JE, s1.flags) <==> read_place(s, d) == read_at(s, src, d.spec_size())
        }),
{
    let (d, j) = decode_destination(text, s.regs, s.eip + 1)->Ok_0;
    let src = decode_source(text, s.regs, j + 1)->Ok_0.0;
    let n = d.spec_size();
    lemma_read_fits(s, d, n);
    lemma_read_fits(s, src, n);
    lemma_sub_flags(read_place(s, d) as int, read_at(s, src, n) as int, n);
}

proof fn lemma_slice_round_trip(d: u32, offset: nat, size: nat, v: u32)
    requires
        legal_slice(offset, size),
        v < modulus(size),
    ensures
        slice_read(slice_write(d, offset, size, v), offset, size) == v,
{
    lemma_register_aliasing(d, v);
    assert(v < 256 ==> v & 0xff == v) by (bit_vector);
    assert(v < 65536 ==> v & 0xffff == v) by (bit_vector);
}

/// `push R` then `pop S`, with S a register of R's width other than ESP and
/// SP: S holds R's value from before the push, and ESP is back where it was.
pub proof fn lemma_push_pop_round_trip(text: Seq<Token>, s: State, s1: State, s2: State)
    requires
        state_ok(s),
        push_spec(text, s) == Ok::<State, crate::error::ErrorKind>(s1),
        pop_spec(text, s1) == Ok::<State, crate::error::ErrorKind>(s2),
        decode_source(text, s.regs, s.eip + 1) matches Ok((Place::Register { .. }, _)),
        decode_destination(text, s1.regs, s1.eip + 1) matches Ok((Place::Register { index, size, .. }, _))
            && index != 6 && size == decode_source(text, s.regs, s.eip + 1)->Ok_0.0.spec_size(),
    ensures
        read_place(s2, decode_destination(text, s1.regs, s1.eip + 1)->Ok_0.0) == read_place(
            s,
            decode_source(text, s.regs, s.eip + 1)->Ok_0.0,
        ),
        s2.regs[6] == s.regs[6],
{
    let (p, k) = decode_source(text, s.regs, s.eip + 1)->Ok_0;
    let (q, k2) = decode_destination(text, s1.regs, s1.eip + 1)->Ok_0;
    let n = p.spec_size();
    let v = read_place(s, p);
    lemma_read_fits(s, p, n);
    let sp = crate::semantics::esp_down(s, n);
    lemma_le_round_trip(s.stack, sp, n, v);
    assert(v as int % modulus(n) == v as int);
    assert(le_read(s1.stack, sp, n) == v);
    match q {
        Place::Register { index, offset, size } => {
            let w = write_place(crate::semantics::with_eip(s1, k2), q, v);
            lemma_slice_round_trip(s1.regs[index as int], offset as nat, size as nat, v);
            assert(w.regs[index as int] == slice_write(s1.regs[index as int], offset as nat, size as nat, v));
            assert(w.regs[6] == s1.regs[6]);
        },
        _ => {},
    }
}

/// `call L`, any code that leaves ESP, the call depth and the four stacked
/// bytes as the call left them, then `ret`: EIP is the instruction after the
/// call, and ESP and the call depth are what they were before it.
pub proof fn lemma_call_ret(text: Seq<Token>, s: State, s1: State, s2: State, s3: State)
    requires
        state_ok(s),
        s.depth >= 1,
        call_spec(text, s) == Ok::<State, crate::error::ErrorKind>(s1),
        s2.regs.len() == 8,
        s2.regs[6] == s1.regs[6],
        s2.depth == s1.depth,
        le_read(s2.stack, s1.regs[6] as int, 4) == le_read(s1.stack, s1.regs[6] as int, 4),
        ret_spec(text, s2) == Ok::<State, crate::error::ErrorKind>(s3),
    ensures
        s3.eip == s.eip + 2,
        s3.regs[6] == s.regs[6],
        s3.depth == s.depth,
{
    let sp = crate::semantics::esp_down(s, 4);
    let back = s.eip + 2;
    lemma_le_round_trip(s.stack, sp, 4, back as u32);
    assert((back as u32) as int % modulus(4) == back);
}

proof fn lemma_resolve_index(t: Seq<Token>, k: int, i: int)
    requires
        0 <= k <= i < t.len(),
        resolve_from(t, k) is Ok,
    ensures
        rewrite_at(t, i) is Ok,
        resolve_from(t, k)->Ok_0.len() > i - k,
        resolve_from(t, k)->Ok_0[i - k] == rewrite_at(t, i)->Ok_0,
    decreases i - k,
{
    if k < i {
        lemma_resolve_index(t, k + 1, i);
    }
}

/// Each branch or call operand of a resolved program is the displacement
/// `target - site - 1` to the last definition of its label, and a jump by it
/// from the position after the operand lands on that label: a `jmp` at the
/// site goes there.
pub proof fn lemma_displacement(t: Seq<Token>, text: Seq<Token>, i: int)
    requires
        resolve_from(t, 0) == Ok::<Seq<Token>, (crate::error::ErrorKind, int)>(text),
        0 <= i < t.len(),
        is_operand(t, i),
        t.len() <= 0x8000_0000,
    ensures
        find_label_before(t, t[i].name@, t.len() as int) is Some,
        text[i].token_type == TokenType::IMMEDIATE_DATA,
        text[i].int_value == trunc(find_label_before(t, t[i].name@, t.len() as int)->Some_0 - i - 1, 4),
        i + 1 + signed(text[i].int_value as int, 4) == find_label_before(t, t[i].name@, t.len() as int)->Some_0,
        forall|s: State|
            s.eip == i - 1 ==> #[trigger] jump_spec(text, s, TokenValue::JMP) == Ok::<State, crate::error::ErrorKind>(
                with_eip(s, find_label_before(t, t[i].name@, t.len() as int)->Some_0),
            ),
{
    lemma_resolve_index(t, 0, i);
    lemma_resolve_len(t, 0);
    let j = find_label_before(t, t[i].name@, t.len() as int)->Some_0;
    lemma_label_in_range(t, t[i].name@, t.len() as int);
    let d = j - i - 1;
    assert(-0x8000_0000 <= d < 0x8000_0000);
    let m = 4294967296int;
    let u = d % m;
    assert(u == if d >= 0 { d } else { d + m });
}

proof fn lemma_resolve_len(t: Seq<Token>, k: int)
    requires
        0 <= k <= t.len(),
        resolve_from(t, k) is Ok,
    ensures
        resolve_from(t, k)->Ok_0.len() == t.len() - k,
    decreases t.len() - k,
{
    if k < t.len() {
        lemma_resolve_len(t, k + 1);
    }
}

proof fn lemma_label_in_range(t: Seq<Token>, name: Seq<char>, k: int)
    requires
        k <= t.len(),
    ensures
        find_label_before(t, name, k) matches Some(j) ==> 0 <= j < k,
    decreases k,
{
    if k > 0 {
        lemma_label_in_range(t, name, k - 1);
    }
}

/// `int` ends the run at once, whatever the call depth.
pub proof fn lemma_int_halts(text: Seq<Token>, s: State, fuel: nat)
    requires
        at(text, s.eip),
        text[s.eip].token_type == TokenType::INSTRUCTION,
        text[s.eip].value == TokenValue::INT,
        fuel > 0,
    ensures
        step_spec(text, s) == Ok::<(State, bool), crate::error::ErrorKind>((s, true)),
        run_spec(text, s, fuel) == Ok::<State, (crate::error::ErrorKind, int)>(s),
{
    reveal(run_spec);
}

/// `ret` at call depth 1 ends the run.
pub proof fn lemma_ret_past_entry_halts(text: Seq<Token>, s: State, fuel: nat)
    requires
        at(text, s.eip),
        text[s.eip].token_type == TokenType::INSTRUCTION,
        text[s.eip].value == TokenValue::RET,
        s.depth <= 1,
        fuel > 0,
    ensures
        step_spec(text, s) matches Ok((t, true)) && t.depth == 0,
        run_spec(text, s, fuel) matches Ok(t) && t.depth == 0,
{
    reveal(run_spec);
}

} // verus!
