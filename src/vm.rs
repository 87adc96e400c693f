use vstd::prelude::*;
use crate::decode::{parse_destination, parse_register, parse_source};
use crate::error::ErrorKind;
use crate::machine::{
    Flags, LogicOp, Place, State, MEM_BYTES, STACK_BYTES, add_flags, cmp_flags, fits_signed_exec, le_read_exec,
    le_write_exec, legal_size, lemma_read_fits, logic_flags, modulus, modulus_of, place_ok, read_at, read_place,
    sign_zero, signed_of, slice_read_exec, slice_write_exec, sub_flags, trunc, wrap_signed,
};
use crate::preprocess::{check_colons, find_entry, lexed, load_error, loaded, resolve, scan_all, scan_tokens};
use crate::scanner::Scanner;
use crate::semantics::{
    alu_spec, call_spec, cmp_spec, condition, div_result, div_spec, dividend, enter_spec, imul_spec, initial_state,
    instruction_spec, jump_spec, leave_spec, mov_spec, movx_spec, mul_spec, pop_spec, push_spec, ret_spec, run_spec,
    shift_result, shift_spec, step_spec, unary_spec, with_eip,
};
use crate::token::{Token, TokenType, TokenValue};

verus! {

/// A fatal error and the position in the instruction stream where it arose.
#[derive(Clone, Copy, Debug, PartialEq, Eq, Structural)]
pub struct VmError {
    pub kind: ErrorKind,
    pub position: usize,
}

/// How an instruction's result meets its semantics: on success the machine
/// is in the state the semantics give, on failure the error is theirs.
pub open spec fn outcome(r: Result<(), ErrorKind>, s: State, spec: Result<State, ErrorKind>) -> bool {
    match spec {
        Ok(t) => r is Ok && s == t,
        Err(e) => r == Err::<(), ErrorKind>(e),
    }
}

/// Virtual machine for a subset of 32-bit x86 assembly.
pub struct VM {
    stack: Vec<u8>,
    memory: Vec<u8>,
    text: Vec<Token>,
    regs: Vec<u32>,
    eip: usize,
    flags: Flags,
    depth: u64,
    entry: usize,
    scanner: Scanner,
}

impl View for VM {
    type V = State;

    closed spec fn view(&self) -> State {
        State {
            regs: self.regs@,
            eip: self.eip as int,
            flags: self.flags,
            stack: self.stack@,
            memory: self.memory@,
            depth: self.depth as nat,
        }
    }
}

impl VM {
    pub closed spec fn wf(&self) -> bool {
        &&& self.regs@.len() == 8
        &&& self.stack@.len() == STACK_BYTES
        &&& self.memory@.len() == MEM_BYTES
        &&& self.text@.len() <= usize::MAX
    }

    /// The instruction stream.
    pub closed spec fn program(&self) -> Seq<Token> {
        self.text@
    }

    /// The program, the entry and the scanner are as in `other`.
    pub closed spec fn kept(&self, other: &VM) -> bool {
        &&& self.text == other.text
        &&& self.entry == other.entry
        &&& self.scanner == other.scanner
    }

    /// Characters of the source file.
    pub closed spec fn source(&self) -> Seq<char> {
        self.scanner.source()
    }

    pub closed spec fn file(&self) -> Seq<char> {
        self.scanner.file()
    }

    /// Index of the entry label chosen by the preprocessor.
    pub closed spec fn entry(&self) -> int {
        self.entry as int
    }

    /// Not yet preprocessed: the scanner is at the start of the source.
    pub closed spec fn fresh(&self) -> bool {
        &&& self.wf()
        &&& self.scanner.wf()
        &&& self.scanner.position() == 0
    }

    /// A machine for the source `source` of the file named `source_file_name`.
    pub fn new(source_file_name: String, source: Vec<char>) -> (r: Self)
        requires
            source@.len() < i32::MAX,
        ensures
            r.fresh(),
            r@ == initial_state(0),
            r.source() == source@,
            r.file() == source_file_name@,
            r.program() == Seq::<Token>::empty(),
    {
        let mut regs: Vec<u32> = Vec::new();
        regs.push(0);
        regs.push(0);
        regs.push(0);
        regs.push(0);
        regs.push(0);
        regs.push(0);
        regs.push((STACK_BYTES - 1) as u32);
        regs.push((STACK_BYTES - 1) as u32);
        let vm = VM {
            stack: zeros(STACK_BYTES),
            memory: zeros(MEM_BYTES),
            text: Vec::new(),
            regs,
            eip: 0,
            flags: Flags { cf: false, zf: false, sf: false, of: false },
            depth: 1,
            entry: 0,
            scanner: Scanner::new(source_file_name, source),
        };
        assert(vm@.regs =~= initial_state(0).regs);
        vm
    }

    /// Reads the source into the instruction stream, checks that every colon
    /// follows a label, turns every branch and call operand into the
    /// displacement to its label, and sets EIP to the entry label.
    pub fn preprocess(&mut self) -> (r: Result<(), VmError>)
        requires
            old(self).fresh(),
        ensures
            final(self).wf(),
            final(self).source() == old(self).source(),
            final(self).file() == old(self).file(),
            r is Ok ==> loaded(old(self).source(), old(self).file(), final(self).program(), final(self).entry())
                && final(self)@ == with_eip(old(self)@, final(self).entry()),
            r matches Err(x) ==> load_error(old(self).source(), old(self).file(), x.kind, x.position as int),
    {
        let ghost src = self.scanner.source();
        let ghost file = self.scanner.file();
        proof {
            reveal(loaded);
            reveal(load_error);
        }
        let raw = match scan_tokens(&mut self.scanner) {
            Err((kind, position)) => return Err(VmError { kind, position }),
            Ok(t) => t,
        };
        let ghost ls = scan_all(src, 0)->Ok_0;
        assert(lexed(raw@, ls, file, src));
        if let Some(i) = check_colons(&raw) {
            return Err(VmError { kind: ErrorKind::MisplacedColon, position: i });
        }
        let text = match resolve(&raw) {
            Err((kind, position)) => return Err(VmError { kind, position }),
            Ok(t) => t,
        };
        let entry = find_entry(&raw);
        // a Vec's length is a usize, which `wf` records
        let _len = text.len();
        self.text = text;
        self.entry = entry;
        self.eip = entry;
        Ok(())
    }

    /// Preprocesses the source, then runs it until it halts: by `int`, by a
    /// `ret` at depth 1, or by a fatal error. The steps are bounded by
    /// `u64::MAX`, a budget no run can exhaust.
    pub fn run(&mut self) -> (r: Result<(), VmError>)
        requires
            old(self).fresh(),
        ensures
            final(self).wf(),
            r is Ok ==> loaded(old(self).source(), old(self).file(), final(self).program(), final(self).entry())
                && run_spec(final(self).program(), with_eip(old(self)@, final(self).entry()), u64::MAX as nat)
                == Ok::<State, (ErrorKind, int)>(final(self)@),
            r matches Err(x) ==> load_error(old(self).source(), old(self).file(), x.kind, x.position as int) || (
            loaded(old(self).source(), old(self).file(), final(self).program(), final(self).entry())
                && run_spec(final(self).program(), with_eip(old(self)@, final(self).entry()), u64::MAX as nat)
                == Err::<State, (ErrorKind, int)>((x.kind, x.position as int))),
    {
        match self.preprocess() {
            Err(x) => return Err(x),
            Ok(()) => {},
        }
        self.execute(u64::MAX)
    }

    /// Final value of EAX.
    pub fn get_eax(&self) -> (r: u32)
        requires
            self.wf(),
        ensures
            r == self@.regs[0],
    {
        self.regs[0]
    }

    /// Final value of EBX.
    pub fn get_ebx(&self) -> (r: u32)
        requires
            self.wf(),
        ensures
            r == self@.regs[1],
    {
        self.regs[1]
    }

    /// Final value of ECX.
    pub fn get_ecx(&self) -> (r: u32)
        requires
            self.wf(),
        ensures
            r == self@.regs[2],
    {
        self.regs[2]
    }

    /// Final value of EDX.
    pub fn get_edx(&self) -> (r: u32)
        requires
            self.wf(),
        ensures
            r == self@.regs[3],
    {
        self.regs[3]
    }

    /// The status flags.
    pub fn get_flags(&self) -> (r: Flags)
        ensures
            r == self@.flags,
    {
        self.flags
    }

    /// A copy of the instruction stream.
    pub fn get_text(&self) -> (r: Vec<Token>)
        ensures
            r@ == self.program(),
    {
        let mut out: Vec<Token> = Vec::new();
        let mut i: usize = 0;
        while i < self.text.len()
            invariant
                i <= self.text@.len(),
                out@ == self.text@.subrange(0, i as int),
            decreases self.text@.len() - i,
        {
            out.push(self.text[i].duplicate());
            i = i + 1;
            assert(out@ =~= self.text@.subrange(0, i as int));
        }
        assert(out@ =~= self.text@);
        out
    }

    fn get_value(&self, p: Place) -> (r: u32)
        requires
            self.wf(),
            place_ok(p),
        ensures
            r == read_place(self@, p),
    {
        match p {
            Place::Register { index, offset, size } => slice_read_exec(self.regs[index], offset, size),
            Place::Memory { address, size } => le_read_exec(&self.memory, address, size),
            Place::Immediate { value, size } => ((value as u64) % modulus_of(size)) as u32,
        }
    }

    fn get_value_at(&self, p: Place, size: usize) -> (r: u32)
        requires
            self.wf(),
            place_ok(p),
            legal_size(size as nat),
        ensures
            r == read_at(self@, p, size as nat),
    {
        match p {
            Place::Immediate { value, .. } => ((value as u64) % modulus_of(size)) as u32,
            _ => self.get_value(p),
        }
    }

    fn set_value(&mut self, p: Place, v: u32)
        requires
            old(self).wf(),
            place_ok(p),
        ensures
            final(self).wf(),
            final(self).kept(old(self)),
            final(self)@ == crate::machine::write_place(old(self)@, p, v),
    {
        match p {
            Place::Register { index, offset, size } => {
                let d = slice_write_exec(self.regs[index], offset, size, v);
                self.regs.set(index, d);
            },
            Place::Memory { address, size } => {
                le_write_exec(&mut self.memory, address, size, v);
            },
            Place::Immediate { .. } => {},
        }
    }

    fn comma_at(&self, j: usize) -> (r: bool)
        ensures
            r == crate::decode::is_value(self.text@, j as int, TokenValue::COMMA),
    {
        j < self.text.len() && self.text[j].value == TokenValue::COMMA
    }

    /// `mov dst, src`
    fn mov(&mut self) -> (r: Result<(), ErrorKind>)
        requires
            old(self).wf(),
            old(self).eip < old(self).text@.len(),
        ensures
            final(self).wf(),
            final(self).kept(old(self)),
            outcome(r, final(self)@, mov_spec(old(self).text@, old(self)@)),
    {
        let (d, j) = match parse_destination(&self.text, &self.regs, self.eip + 1) {
            Err(e) => return Err(e),
            Ok(x) => x,
        };
        if !self.comma_at(j) {
            return Err(ErrorKind::UnexpectedToken);
        }
        let (src, k) = match parse_source(&self.text, &self.regs, j + 1) {
            Err(e) => return Err(e),
            Ok(x) => x,
        };
        let v = match src {
            Place::Immediate { value, size } => {
                if d.size() < size {
                    return Err(ErrorKind::SizeMismatch);
                }
                value
            },
            _ => {
                if d.size() != src.size() {
                    return Err(ErrorKind::SizeMismatch);
                }
                self.get_value(src)
            },
        };
        self.eip = k;
        self.set_value(d, v);
        Ok(())
    }

    /// `movzx` and (with `sign`) `movsx reg, src`
    fn movx(&mut self, sign: bool) -> (r: Result<(), ErrorKind>)
        requires
            old(self).wf(),
            old(self).eip < old(self).text@.len(),
        ensures
            final(self).wf(),
            final(self).kept(old(self)),
            outcome(r, final(self)@, movx_spec(old(self).text@, old(self)@, sign)),
    {
        let (d, j) = match parse_register(&self.text, self.eip + 1) {
            Err(e) => return Err(e),
            Ok(x) => x,
        };
        if !self.comma_at(j) {
            return Err(ErrorKind::UnexpectedToken);
        }
        if !(j + 1 < self.text.len() && (self.text[j + 1].token_type == TokenType::REGISTER
            || crate::decode::size_keyword_exec(self.text[j + 1].value) != 0)) {
            return Err(ErrorKind::UnexpectedToken);
        }
        let (src, k) = match parse_source(&self.text, &self.regs, j + 1) {
            Err(e) => return Err(e),
            Ok(x) => x,
        };
        if d.size() <= src.size() {
            return Err(ErrorKind::SizeMismatch);
        }
        let v = self.get_value(src);
        let w = if sign {
            (((signed_of(v, src.size()) as i64) + 4294967296) % 4294967296) as u32
        } else {
            v
        };
        self.eip = k;
        self.set_value(d, w);
        Ok(())
    }

    /// `add`, `sub`, `and`, `or`, `xor dst, src`
    fn binary_operation(&mut self, op: TokenValue) -> (r: Result<(), ErrorKind>)
        requires
            old(self).wf(),
            old(self).eip < old(self).text@.len(),
        ensures
            final(self).wf(),
            final(self).kept(old(self)),
            outcome(r, final(self)@, alu_spec(old(self).text@, old(self)@, op)),
    {
        let (d, j) = match parse_destination(&self.text, &self.regs, self.eip + 1) {
            Err(e) => return Err(e),
            Ok(x) => x,
        };
        if !self.comma_at(j) {
            return Err(ErrorKind::UnexpectedToken);
        }
        let (src, k) = match parse_source(&self.text, &self.regs, j + 1) {
            Err(e) => return Err(e),
            Ok(x) => x,
        };
        if src.size() > d.size() {
            return Err(ErrorKind::SizeMismatch);
        }
        let n = d.size();
        let a = self.get_value(d);
        let b = self.get_value_at(src, n);
        proof {
            lemma_read_fits(self@, d, n as nat);
            lemma_read_fits(self@, src, n as nat);
        }
        let (res, f) = match op {
            TokenValue::ADD => add_flags(a, b, n),
            TokenValue::SUB => sub_flags(a, b, n),
            TokenValue::AND => logic_flags(LogicOp::And, a, b, n),
            TokenValue::OR => logic_flags(LogicOp::Or, a, b, n),
            TokenValue::XOR => logic_flags(LogicOp::Xor, a, b, n),
            _ => return Err(ErrorKind::UnexpectedToken),
        };
        self.eip = k;
        self.flags = f;
        self.set_value(d, res);
        Ok(())
    }

    /// `cmp dst, src`
    fn cmp(&mut self) -> (r: Result<(), ErrorKind>)
        requires
            old(self).wf(),
            old(self).eip < old(self).text@.len(),
        ensures
            final(self).wf(),
            final(self).kept(old(self)),
            outcome(r, final(self)@, cmp_spec(old(self).text@, old(self)@)),
    {
        let (d, j) = match parse_destination(&self.text, &self.regs, self.eip + 1) {
            Err(e) => return Err(e),
            Ok(x) => x,
        };
        if !self.comma_at(j) {
            return Err(ErrorKind::UnexpectedToken);
        }
        let (src, k) = match parse_source(&self.text, &self.regs, j + 1) {
            Err(e) => return Err(e),
            Ok(x) => x,
        };
        if src.size() > d.size() {
            return Err(ErrorKind::SizeMismatch);
        }
        let n = d.size();
        let a = self.get_value(d);
        let b = self.get_value_at(src, n);
        proof {
            lemma_read_fits(self@, d, n as nat);
            lemma_read_fits(self@, src, n as nat);
        }
        let f = cmp_flags(a, b, n);
        self.eip = k;
        self.flags = f;
        Ok(())
    }

    /// `mul src`
    fn mul(&mut self) -> (r: Result<(), ErrorKind>)
        requires
            old(self).wf(),
            old(self).eip < old(self).text@.len(),
        ensures
            final(self).wf(),
            final(self).kept(old(self)),
            outcome(r, final(self)@, mul_spec(old(self).text@, old(self)@)),
    {
        let (src, k) = match parse_destination(&self.text, &self.regs, self.eip + 1) {
            Err(e) => return Err(e),
            Ok(x) => x,
        };
        let n = src.size();
        let a = slice_read_exec(self.regs[0], 0, n) as u64;
        let b = self.get_value(src) as u64;
        proof {
            lemma_read_fits(self@, src, n as nat);
            lemma_read_fits(self@, Place::Register { index: 0, offset: 0, size: n }, n as nat);
        }
        let m = modulus_of(n);
        assert(a * b < m * m) by (nonlinear_arith)
            requires
                a < m,
                b < m,
        ;
        assert(m * m <= 18446744073709551616) by (nonlinear_arith)
            requires
                m <= 4294967296,
        ;
        let p = a * b;
        let (sf, zf) = sign_zero(p, n);
        let f = Flags { cf: p >= m, of: p >= m, sf, zf };
        if n == 1 {
            let e = slice_write_exec(self.regs[0], 0, 2, p as u32);
            self.regs.set(0, e);
        } else if n == 2 {
            let e = slice_write_exec(self.regs[0], 0, 2, (p % m) as u32);
            self.regs.set(0, e);
            let h = slice_write_exec(self.regs[3], 0, 2, (p / m) as u32);
            self.regs.set(3, h);
        } else {
            self.regs.set(0, (p % m) as u32);
            self.regs.set(3, (p / m) as u32);
        }
        self.eip = k;
        self.flags = f;
        Ok(())
    }

    /// `imul reg, src` and `imul reg, src, imm`
    fn imul(&mut self) -> (r: Result<(), ErrorKind>)
        requires
            old(self).wf(),
            old(self).eip < old(self).text@.len(),
        ensures
            final(self).wf(),
            final(self).kept(old(self)),
            outcome(r, final(self)@, imul_spec(old(self).text@, old(self)@)),
    {
        let (d, j) = match parse_register(&self.text, self.eip + 1) {
            Err(e) => return Err(e),
            Ok(x) => x,
        };
        if !self.comma_at(j) {
            return Err(ErrorKind::UnexpectedToken);
        }
        let (src, k) = match parse_destination(&self.text, &self.regs, j + 1) {
            Err(e) => return Err(e),
            Ok(x) => x,
        };
        let n = d.size();
        let m = modulus_of(n);
        let three = self.comma_at(k);
        if three && !(k + 1 < self.text.len() && self.text[k + 1].token_type == TokenType::IMMEDIATE_DATA) {
            return Err(ErrorKind::UnexpectedToken);
        }
        let (a, b, next) = if three {
            (
                ((self.get_value(src) as u64) % m) as u32,
                ((self.text[k + 1].int_value as u64) % m) as u32,
                k + 2,
            )
        } else {
            (self.get_value(d), ((self.get_value(src) as u64) % m) as u32, k)
        };
        proof {
            lemma_read_fits(self@, d, n as nat);
        }
        assert((a as u64) * (b as u64) <= 18446744073709551615) by (nonlinear_arith)
            requires
                a <= 4294967295u64,
                b <= 4294967295u64,
        ;
        let res = (((a as u64) * (b as u64)) % m) as u32;
        let sa = signed_of(a, n);
        let sb = signed_of(b, n);
        assert(-4611686018427387904 <= sa * sb <= 4611686018427387904) by (nonlinear_arith)
            requires
                -2147483648 <= sa <= 2147483648,
                -2147483648 <= sb <= 2147483648,
        ;
        let cf = !fits_signed_exec(sa * sb, n);
        self.eip = next;
        self.flags = Flags { cf, ..self.flags };
        self.set_value(d, res);
        Ok(())
    }

    fn dividend_exec(&self, n: usize) -> (r: u64)
        requires
            self.wf(),
            legal_size(n as nat),
        ensures
            r == dividend(self.regs@, n as nat),
            r < modulus(n as nat) * modulus(n as nat),
    {
        let lo = slice_read_exec(self.regs[0], 0, 2) as u64;
        let hi = slice_read_exec(self.regs[3], 0, 2) as u64;
        proof {
            lemma_read_fits(self@, Place::Register { index: 0, offset: 0, size: 2 }, 2);
            lemma_read_fits(self@, Place::Register { index: 3, offset: 0, size: 2 }, 2);
        }
        if n == 1 {
            lo
        } else if n == 2 {
            hi * 65536 + lo
        } else {
            self.regs[3] as u64 * 4294967296 + self.regs[0] as u64
        }
    }

    /// `div` and (with `sign`) `idiv src`
    fn div(&mut self, sign: bool) -> (r: Result<(), ErrorKind>)
        requires
            old(self).wf(),
            old(self).eip < old(self).text@.len(),
        ensures
            final(self).wf(),
            final(self).kept(old(self)),
            outcome(r, final(self)@, div_spec(old(self).text@, old(self)@, sign)),
    {
        let (src, k) = match parse_destination(&self.text, &self.regs, self.eip + 1) {
            Err(e) => return Err(e),
            Ok(x) => x,
        };
        let n = src.size();
        let d = self.get_value(src);
        if d == 0 {
            return Err(ErrorKind::DivideByZero);
        }
        proof {
            lemma_read_fits(self@, src, n as nat);
        }
        let big = self.dividend_exec(n);
        let (qt, rt) = divide(big, d, n, sign);
        if n == 1 {
            let e = slice_write_exec(slice_write_exec(self.regs[0], 0, 1, qt), 1, 1, rt);
            self.regs.set(0, e);
        } else if n == 2 {
            let e = slice_write_exec(self.regs[0], 0, 2, qt);
            self.regs.set(0, e);
            let h = slice_write_exec(self.regs[3], 0, 2, rt);
            self.regs.set(3, h);
        } else {
            self.regs.set(0, qt);
            self.regs.set(3, rt);
        }
        self.eip = k;
        Ok(())
    }

    /// `inc`, `dec`, `not`, `neg dst`
    fn unary_operation(&mut self, op: TokenValue) -> (r: Result<(), ErrorKind>)
        requires
            old(self).wf(),
            old(self).eip < old(self).text@.len(),
        ensures
            final(self).wf(),
            final(self).kept(old(self)),
            outcome(r, final(self)@, unary_spec(old(self).text@, old(self)@, op)),
    {
        let (d, k) = match parse_destination(&self.text, &self.regs, self.eip + 1) {
            Err(e) => return Err(e),
            Ok(x) => x,
        };
        let n = d.size();
        let m = modulus_of(n);
        let v = self.get_value(d);
        proof {
            lemma_read_fits(self@, d, n as nat);
        }
        let a = v as u64;
        let sa = signed_of(v, n);
        let (res, f) = match op {
            TokenValue::INC => {
                let (sf, zf) = sign_zero(a + 1, n);
                (a + 1, Flags { cf: self.flags.cf, of: !fits_signed_exec(sa + 1, n), sf, zf })
            },
            TokenValue::DEC => {
                let (sf, zf) = sign_zero(a + m - 1, n);
                (a + m - 1, Flags { cf: self.flags.cf, of: !fits_signed_exec(sa - 1, n), sf, zf })
            },
            TokenValue::NOT => (m - 1 - a, self.flags),
            TokenValue::NEG => {
                let (sf, zf) = sign_zero(m - a, n);
                (m - a, Flags { cf: a != 0, of: !fits_signed_exec(-sa, n), sf, zf })
            },
            _ => return Err(ErrorKind::UnexpectedToken),
        };
        self.eip = k;
        self.flags = f;
        self.set_value(d, (res % m) as u32);
        Ok(())
    }

    /// `shl`, `shr`, `sar dst, count`
    fn bitshift(&mut self, op: TokenValue) -> (r: Result<(), ErrorKind>)
        requires
            old(self).wf(),
            old(self).eip < old(self).text@.len(),
        ensures
            final(self).wf(),
            final(self).kept(old(self)),
            outcome(r, final(self)@, shift_spec(old(self).text@, old(self)@, op)),
    {
        let (d, j) = match parse_destination(&self.text, &self.regs, self.eip + 1) {
            Err(e) => return Err(e),
            Ok(x) => x,
        };
        if !self.comma_at(j) || !(j + 1 < self.text.len() && self.text[j + 1].token_type == TokenType::IMMEDIATE_DATA) {
            return Err(ErrorKind::UnexpectedToken);
        }
        let c = self.text[j + 1].int_value;
        if c > 255 {
            return Err(ErrorKind::ShiftCountOutOfRange);
        }
        let n = d.size();
        let a = self.get_value(d);
        proof {
            lemma_read_fits(self@, d, n as nat);
        }
        let (res, cf, of) = shift_exec(op, a, c as u64, n);
        let (sf, zf) = sign_zero(res, n);
        self.eip = j + 2;
        self.flags = Flags { cf, of, sf, zf };
        self.set_value(d, res as u32);
        Ok(())
    }

    /// ESP less `n`, wrapping at 32 bits, and whether `n` bytes there lie in the stack.
    fn esp_down_exec(&self, n: usize) -> (r: (u64, bool))
        requires
            self.wf(),
            legal_size(n as nat),
        ensures
            r.0 == crate::semantics::esp_down(self@, n as nat),
            r.1 == (r.0 + n <= STACK_BYTES),
    {
        let sp = (self.regs[6] as u64 + 4294967296 - n as u64) % 4294967296;
        (sp, sp + n as u64 <= STACK_BYTES as u64)
    }

    /// `push src`
    fn push(&mut self) -> (r: Result<(), ErrorKind>)
        requires
            old(self).wf(),
            old(self).eip < old(self).text@.len(),
        ensures
            final(self).wf(),
            final(self).kept(old(self)),
            outcome(r, final(self)@, push_spec(old(self).text@, old(self)@)),
    {
        let (src, k) = match parse_source(&self.text, &self.regs, self.eip + 1) {
            Err(e) => return Err(e),
            Ok(x) => x,
        };
        let n = src.size();
        let v = self.get_value(src);
        let (sp, ok) = self.esp_down_exec(n);
        if !ok {
            return Err(ErrorKind::StackOutOfRange);
        }
        le_write_exec(&mut self.stack, sp as usize, n, v);
        self.regs.set(6, sp as u32);
        self.eip = k;
        Ok(())
    }

    /// `pop dst`
    fn pop(&mut self) -> (r: Result<(), ErrorKind>)
        requires
            old(self).wf(),
            old(self).eip < old(self).text@.len(),
        ensures
            final(self).wf(),
            final(self).kept(old(self)),
            outcome(r, final(self)@, pop_spec(old(self).text@, old(self)@)),
    {
        let (d, k) = match parse_destination(&self.text, &self.regs, self.eip + 1) {
            Err(e) => return Err(e),
            Ok(x) => x,
        };
        let n = d.size();
        let sp = self.regs[6] as usize;
        if sp as u64 + n as u64 > STACK_BYTES as u64 {
            return Err(ErrorKind::StackOutOfRange);
        }
        let v = le_read_exec(&self.stack, sp, n);
        self.eip = k;
        self.set_value(d, v);
        let e = (self.regs[6] as u64 + n as u64) % 4294967296;
        self.regs.set(6, e as u32);
        Ok(())
    }

    fn condition_exec(op: TokenValue, f: Flags) -> (r: bool)
        ensures
            r == condition(op, f),
    {
        match op {
            TokenValue::JE => f.zf,
            TokenValue::JNE => !f.zf,
            TokenValue::JG => !f.zf && f.sf == f.of,
            TokenValue::JGE => f.sf == f.of,
            TokenValue::JL => f.sf != f.of,
            TokenValue::JLE => f.zf || f.sf != f.of,
            TokenValue::JA => !f.cf && !f.zf,
            TokenValue::JAE => !f.cf,
            TokenValue::JB => f.cf,
            TokenValue::JBE => f.cf || f.zf,
            _ => true,
        }
    }

    /// `jmp` and the conditional jumps
    fn jump(&mut self, op: TokenValue) -> (r: Result<(), ErrorKind>)
        requires
            old(self).wf(),
            old(self).eip < old(self).text@.len(),
        ensures
            final(self).wf(),
            final(self).kept(old(self)),
            outcome(r, final(self)@, jump_spec(old(self).text@, old(self)@, op)),
    {
        let i = self.eip + 1;
        if !(i < self.text.len() && self.text[i].token_type == TokenType::IMMEDIATE_DATA) {
            return Err(ErrorKind::UnexpectedToken);
        }
        let next = i + 1;
        if Self::condition_exec(op, self.flags) {
            let target = next as i128 + signed_of(self.text[i].int_value, 4) as i128;
            if !(0 <= target && target < 4294967296) {
                return Err(ErrorKind::ProgramCounterOutOfRange);
            }
            self.eip = target as usize;
        } else {
            self.eip = next;
        }
        Ok(())
    }

    /// `call label`
    fn call(&mut self) -> (r: Result<(), ErrorKind>)
        requires
            old(self).wf(),
            old(self).eip < old(self).text@.len(),
        ensures
            final(self).wf(),
            final(self).kept(old(self)),
            outcome(r, final(self)@, call_spec(old(self).text@, old(self)@)),
    {
        let i = self.eip + 1;
        if !(i < self.text.len() && self.text[i].token_type == TokenType::IMMEDIATE_DATA) {
            return Err(ErrorKind::UnexpectedToken);
        }
        let back = i + 1;
        let target = back as i128 + signed_of(self.text[i].int_value, 4) as i128;
        let (sp, ok) = self.esp_down_exec(4);
        if !((back as u64) < 4294967296 && 0 <= target && target < 4294967296) {
            return Err(ErrorKind::ProgramCounterOutOfRange);
        }
        if !ok {
            return Err(ErrorKind::StackOutOfRange);
        }
        if self.depth == u64::MAX {
            return Err(ErrorKind::CallDepthOverflow);
        }
        le_write_exec(&mut self.stack, sp as usize, 4, back as u32);
        self.regs.set(6, sp as u32);
        self.depth = self.depth + 1;
        self.eip = target as usize;
        Ok(())
    }

    /// `ret`
    fn ret(&mut self) -> (r: Result<(), ErrorKind>)
        requires
            old(self).wf(),
            old(self).eip < old(self).text@.len(),
        ensures
            final(self).wf(),
            final(self).kept(old(self)),
            outcome(r, final(self)@, ret_spec(old(self).text@, old(self)@)),
    {
        if self.depth > 1 {
            let sp = self.regs[6] as usize;
            if sp as u64 + 4 > STACK_BYTES as u64 {
                return Err(ErrorKind::StackOutOfRange);
            }
            let back = le_read_exec(&self.stack, sp, 4);
            self.regs.set(6, ((sp as u64 + 4) % 4294967296) as u32);
            self.depth = self.depth - 1;
            self.eip = back as usize;
        } else {
            self.depth = 0;
            self.eip = self.eip + 1;
        }
        Ok(())
    }

    /// `enter`
    fn enter(&mut self) -> (r: Result<(), ErrorKind>)
        requires
            old(self).wf(),
            old(self).eip < old(self).text@.len(),
        ensures
            final(self).wf(),
            final(self).kept(old(self)),
            outcome(r, final(self)@, enter_spec(old(self)@)),
    {
        let (sp, ok) = self.esp_down_exec(4);
        if !ok {
            return Err(ErrorKind::StackOutOfRange);
        }
        let bp = self.regs[7];
        le_write_exec(&mut self.stack, sp as usize, 4, bp);
        self.regs.set(6, sp as u32);
        self.regs.set(7, sp as u32);
        self.eip = self.eip + 1;
        Ok(())
    }

    /// `leave`
    fn leave(&mut self) -> (r: Result<(), ErrorKind>)
        requires
            old(self).wf(),
            old(self).eip < old(self).text@.len(),
        ensures
            final(self).wf(),
            final(self).kept(old(self)),
            outcome(r, final(self)@, leave_spec(old(self)@)),
    {
        let bp = self.regs[7] as usize;
        if bp as u64 + 4 > STACK_BYTES as u64 {
            return Err(ErrorKind::StackOutOfRange);
        }
        let v = le_read_exec(&self.stack, bp, 4);
        self.regs.set(7, v);
        self.regs.set(6, ((bp as u64 + 4) % 4294967296) as u32);
        self.eip = self.eip + 1;
        Ok(())
    }

    /// Runs the instruction whose mnemonic is `op`.
    fn dispatch(&mut self, op: TokenValue) -> (r: Result<(), ErrorKind>)
        requires
            old(self).wf(),
            old(self).eip < old(self).text@.len(),
        ensures
            final(self).wf(),
            final(self).kept(old(self)),
            outcome(r, final(self)@, instruction_spec(old(self).text@, old(self)@, op)),
    {
        match op {
            TokenValue::MOV => self.mov(),
            TokenValue::MOVSX => self.movx(true),
            TokenValue::MOVZX => self.movx(false),
            TokenValue::ADD | TokenValue::SUB | TokenValue::AND | TokenValue::OR | TokenValue::XOR => self.binary_operation(op),
            TokenValue::MUL => self.mul(),
            TokenValue::IMUL => self.imul(),
            TokenValue::DIV => self.div(false),
            TokenValue::IDIV => self.div(true),
            TokenValue::INC | TokenValue::DEC | TokenValue::NOT | TokenValue::NEG => self.unary_operation(op),
            TokenValue::SHL | TokenValue::SHR | TokenValue::SAR => self.bitshift(op),
            TokenValue::PUSH => self.push(),
            TokenValue::POP => self.pop(),
            TokenValue::CMP => self.cmp(),
            TokenValue::JMP | TokenValue::JE | TokenValue::JNE | TokenValue::JG | TokenValue::JGE | TokenValue::JL
            | TokenValue::JLE | TokenValue::JA | TokenValue::JAE | TokenValue::JB | TokenValue::JBE => self.jump(op),
            TokenValue::CALL => self.call(),
            TokenValue::RET => self.ret(),
            TokenValue::ENTER => self.enter(),
            TokenValue::LEAVE => self.leave(),
            _ => Err(ErrorKind::UnexpectedToken),
        }
    }

    /// One step of the dispatch loop; `Ok(true)` when the run ends.
    fn step(&mut self) -> (r: Result<bool, ErrorKind>)
        requires
            old(self).wf(),
        ensures
            final(self).wf(),
            final(self).kept(old(self)),
            match step_spec(old(self).text@, old(self)@) {
                Ok((t, halt)) => r == Ok::<bool, ErrorKind>(halt) && final(self)@ == t,
                Err(e) => r == Err::<bool, ErrorKind>(e),
            },
    {
        if self.eip >= self.text.len() {
            return Err(ErrorKind::EndOfText);
        }
        let kind = self.text[self.eip].token_type;
        let op = self.text[self.eip].value;
        if kind == TokenType::LABEL {
            if self.eip as u64 >= 4294967294 {
                return Err(ErrorKind::ProgramCounterOutOfRange);
            }
            self.eip = self.eip + 2;
            Ok(false)
        } else if kind != TokenType::INSTRUCTION {
            Err(ErrorKind::UnexpectedToken)
        } else if op == TokenValue::INT {
            Ok(true)
        } else {
            match self.dispatch(op) {
                Err(e) => Err(e),
                Ok(()) => Ok(self.depth == 0),
            }
        }
    }

    /// Runs the dispatch loop for at most `fuel` steps.
    pub fn execute(&mut self, fuel: u64) -> (r: Result<(), VmError>)
        requires
            old(self).wf(),
        ensures
            final(self).wf(),
            final(self).kept(old(self)),
            final(self).program() == old(self).program(),
            final(self).entry() == old(self).entry(),
            final(self).source() == old(self).source(),
            final(self).file() == old(self).file(),
            match run_spec(old(self).program(), old(self)@, fuel as nat) {
                Ok(t) => r is Ok && final(self)@ == t,
                Err((e, at)) => r matches Err(x) && x.kind == e && x.position == at,
            },
    {
        let mut left = fuel;
        loop
            invariant
                self.wf(),
                self.kept(old(self)),
                run_spec(self.text@, self@, left as nat) == run_spec(old(self).text@, old(self)@, fuel as nat),
            decreases left,
        {
            proof {
                reveal(run_spec);
            }
            if left == 0 {
                return Err(VmError { kind: ErrorKind::StepLimit, position: self.eip });
            }
            let at = self.eip;
            match self.step() {
                Err(e) => return Err(VmError { kind: e, position: at }),
                Ok(true) => return Ok(()),
                Ok(false) => {},
            }
            left = left - 1;
        }
    }
}

fn zeros(n: usize) -> (r: Vec<u8>)
    ensures
        r@ == Seq::new(n as nat, |i: int| 0u8),
{
    let mut v: Vec<u8> = Vec::new();
    while v.len() < n
        invariant
            v@.len() <= n,
            forall|i: int| 0 <= i < v@.len() ==> v@[i] == 0u8,
        decreases n - v@.len(),
    {
        v.push(0);
    }
    assert(v@ =~= Seq::new(n as nat, |i: int| 0u8));
    v
}

/// Quotient and remainder, each wrapped to the divisor's width.
fn divide(big: u64, d: u32, n: usize, sign: bool) -> (r: (u32, u32))
    requires
        legal_size(n as nat),
        0 < d < modulus(n as nat),
        big < modulus(n as nat) * modulus(n as nat),
    ensures
        r.0 == trunc(div_result(big as int, d as int, n as nat, sign).0, n as nat),
        r.1 == trunc(div_result(big as int, d as int, n as nat, sign).1, n as nat),
{
    let m = modulus_of(n);
    if !sign {
        (wrap_signed(false, (big / d as u64) as u128, n), wrap_signed(false, (big % d as u64) as u128, n))
    } else {
        assert((m as u128) * (m as u128) <= 18446744073709551616u128) by (nonlinear_arith)
            requires
                m <= 4294967296,
        ;
        let mm = (m as u128) * (m as u128);
        let sd: i128 = if big as u128 >= mm / 2 {
            big as i128 - mm as i128
        } else {
            big as i128
        };
        proof {
            vstd::arithmetic::div_mod::lemma_small_mod(d as nat, m as nat);
        }
        let sv = signed_of(d, n) as i128;
        let ad: u128 = if sd < 0 { (-sd) as u128 } else { sd as u128 };
        let av: u128 = if sv < 0 { (-sv) as u128 } else { sv as u128 };
        (wrap_signed((sd < 0) != (sv < 0), ad / av, n), wrap_signed(sd < 0, ad % av, n))
    }
}

/// Result and CF, OF of a shift.
fn shift_exec(op: TokenValue, a: u32, c: u64, size: usize) -> (r: (u64, bool, bool))
    requires
        legal_size(size as nat),
        a < modulus(size as nat),
        c <= 255,
    ensures
        (r.0 as int, r.1, r.2) == shift_result(op, a, c, size as nat),
        r.0 < modulus(size as nat),
{
    let nb = (8 * size) as u64;
    let m = modulus_of(size);
    let x = a as u64;
    match op {
        TokenValue::SHL => {
            let wide: u64 = if c > nb { 0 } else { x << c };
            let r = wide % m;
            let cf = 1 <= c && c <= nb && (wide >> nb) & 1 == 1;
            let (sf, _) = sign_zero(r, size);
            (r, cf, sf != cf)
        },
        TokenValue::SHR => {
            let r: u64 = if c >= nb { 0 } else { x >> c };
            let cf = 1 <= c && c <= nb && (x >> (c - 1)) & 1 == 1;
            let (sf, _) = sign_zero(x, size);
            proof {
                assert(x >> c <= x) by (bit_vector);
            }
            (r, cf, sf)
        },
        _ => {
            let (neg, _) = sign_zero(x, size);
            let sx: u64 = if neg { x + (18446744073709551615 - m + 1) } else { x };
            let k: u64 = if c > nb { nb } else { c };
            let r = (sx >> k) % m;
            let cf = c >= 1 && (sx >> (k - 1)) & 1 == 1;
            (r, cf, false)
        },
    }
}

} // verus!
