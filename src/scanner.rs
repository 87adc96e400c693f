use vstd::prelude::*;
use crate::error::ErrorKind;
use crate::keywords::{keyword, lookup_keyword};
use crate::text::push_char;
use crate::token::{Token, TokenLocation, TokenType, TokenValue};

verus! {

pub open spec fn is_space(c: char) -> bool {
    c == ' ' || c == '\t' || c == '\n' || c == '\r' || c == '\x0C'
}

pub open spec fn is_alpha(c: char) -> bool {
    ('a' <= c && c <= 'z') || ('A' <= c && c <= 'Z')
}

pub open spec fn is_digit(c: char) -> bool {
    '0' <= c && c <= '9'
}

/// Characters of a run: identifier characters (`base` 0) or digits of a base.
pub open spec fn in_class(c: char, base: nat) -> bool {
    if base == 16 {
        is_digit(c) || ('a' <= c && c <= 'f') || ('A' <= c && c <= 'F')
    } else if base == 8 {
        '0' <= c && c <= '7'
    } else if base == 10 {
        is_digit(c)
    } else {
        is_alpha(c) || is_digit(c) || c == '_'
    }
}

pub open spec fn digit_value(c: char) -> nat {
    if is_digit(c) {
        (c as u32 - 48) as nat
    } else if 'a' <= c && c <= 'f' {
        (c as u32 - 87) as nat
    } else {
        (c as u32 - 55) as nat
    }
}

/// Value of a string of digits in a base.
pub open spec fn number_value(s: Seq<char>, base: nat) -> nat
    decreases s.len(),
{
    if s.len() == 0 {
        0
    } else {
        number_value(s.drop_last(), base) * base + digit_value(s.last())
    }
}

pub open spec fn lower_char(c: char) -> char {
    if 'A' <= c && c <= 'Z' {
        ((c as u8 + 32) as u8) as char
    } else {
        c
    }
}

/// ASCII lower case.
pub open spec fn lower(w: Seq<char>) -> Seq<char> {
    w.map_values(|c: char| lower_char(c))
}

/// End of the run of `base`-class characters that starts at `p`.
pub open spec fn span_end(src: Seq<char>, p: int, base: nat) -> int
    decreases src.len() - p,
{
    if 0 <= p < src.len() && in_class(src[p], base) {
        span_end(src, p + 1, base)
    } else {
        p
    }
}

/// Position just after the newline that ends the line holding `p`, or the end.
pub open spec fn line_rest(src: Seq<char>, p: int) -> int
    decreases src.len() - p,
{
    if p < 0 || p >= src.len() {
        src.len() as int
    } else if src[p] == '\n' {
        p + 1
    } else {
        line_rest(src, p + 1)
    }
}

/// First position at or after `p` that is not white space, in a comment
/// (`;` to the end of the line) or in a directive (`.` to the end of the line).
pub open spec fn skip_trivia(src: Seq<char>, p: int) -> int
    decreases src.len() - p,
{
    if p < 0 || p >= src.len() {
        p
    } else if is_space(src[p]) {
        skip_trivia(src, p + 1)
    } else if src[p] == ';' || src[p] == '.' {
        let q = line_rest(src, p + 1);
        if q <= p || q > src.len() {
            p
        } else {
            skip_trivia(src, q)
        }
    } else {
        p
    }
}

/// Line (from 1) of position `p`.
pub open spec fn line_at(src: Seq<char>, p: int) -> int
    decreases p,
{
    if p <= 0 {
        1
    } else if src[p - 1] == '\n' {
        line_at(src, p - 1) + 1
    } else {
        line_at(src, p - 1)
    }
}

/// Characters before `p` on its line.
pub open spec fn col_at(src: Seq<char>, p: int) -> int
    decreases p,
{
    if p <= 0 {
        0
    } else if src[p - 1] == '\n' {
        0
    } else {
        col_at(src, p - 1) + 1
    }
}

/// What one token is, before it gets its location.
pub struct Lexeme {
    pub kind: TokenType,
    pub value: TokenValue,
    pub name: Seq<char>,
    pub int_value: u32,
    pub precedence: i32,
    pub end: int,
}

pub open spec fn symbol(c: char) -> Option<(TokenValue, i32)> {
    if c == '+' {
        Some((TokenValue::PLUS, 10i32))
    } else if c == '-' {
        Some((TokenValue::MINUS, 10i32))
    } else if c == '*' {
        Some((TokenValue::TIMES, 20i32))
    } else if c == ',' {
        Some((TokenValue::COMMA, -1i32))
    } else if c == '[' {
        Some((TokenValue::LBRACK, -1i32))
    } else if c == ']' {
        Some((TokenValue::RBRACK, -1i32))
    } else if c == ':' {
        Some((TokenValue::COLON, -1i32))
    } else {
        None
    }
}

/// Integer literal at `p`: its digits start at `d` and are read in `base`.
pub open spec fn number_at(src: Seq<char>, p: int) -> (int, nat) {
    if src[p] == '0' && p + 1 < src.len() && (src[p + 1] == 'x' || src[p + 1] == 'X') {
        (p + 2, 16)
    } else if src[p] == '0' && p + 1 < src.len() && in_class(src[p + 1], 8) {
        (p + 1, 8)
    } else {
        (p, 10)
    }
}

/// The token that starts at `p` (a position past any trivia).
pub open spec fn lex_at(src: Seq<char>, p: int) -> Result<Lexeme, ErrorKind> {
    if p < 0 || p >= src.len() {
        Ok(Lexeme {
            kind: TokenType::END_OF_FILE,
            value: TokenValue::END_OF_FILE,
            name: "END_OF_FILE"@,
            int_value: 0,
            precedence: -1i32,
            end: p,
        })
    } else if is_alpha(src[p]) || src[p] == '_' {
        let q = span_end(src, p, 0);
        let w = src.subrange(p, q);
        let (kind, value) = match keyword(lower(w)) {
            Some(kv) => kv,
            None => (TokenType::LABEL, TokenValue::LABEL),
        };
        Ok(Lexeme { kind, value, name: w, int_value: 0, precedence: -1i32, end: q })
    } else if is_digit(src[p]) {
        let (d, base) = number_at(src, p);
        let q = span_end(src, d, base);
        if base == 16 && q == d {
            Err(ErrorKind::HexFormat)
        } else if number_value(src.subrange(d, q), base) > u32::MAX {
            Err(ErrorKind::LiteralOverflow)
        } else {
            Ok(Lexeme {
                kind: TokenType::IMMEDIATE_DATA,
                value: TokenValue::INTEGER_LITERAL,
                name: src.subrange(p, q),
                int_value: number_value(src.subrange(d, q), base) as u32,
                precedence: -1i32,
                end: q,
            })
        }
    } else {
        match symbol(src[p]) {
            None => Err(ErrorKind::UnknownSymbol),
            Some((value, precedence)) => Ok(
                Lexeme { kind: TokenType::SYMBOL, value, name: seq![src[p]], int_value: 0, precedence, end: p + 1 },
            ),
        }
    }
}

/// A token with its location at `p` in `file`.
pub open spec fn token_is(t: Token, l: Lexeme, file: Seq<char>, src: Seq<char>, p: int) -> bool {
    &&& t.token_type == l.kind
    &&& t.value == l.value
    &&& t.name@ == l.name
    &&& t.int_value == l.int_value
    &&& t.precedence == l.precedence
    &&& t.location.file_name@ == file
    &&& t.location.line == line_at(src, p)
    &&& t.location.column == col_at(src, p) + 1
}

/// A lexical error and where it was met.
pub struct ScanError {
    pub kind: ErrorKind,
    pub location: TokenLocation,
}

/// Capped at 2^32: enough to tell whether a literal fits 32 bits.
pub open spec fn capped(v: nat) -> nat {
    if v > 4294967296 {
        4294967296
    } else {
        v
    }
}

/// Lexical scanner over the characters of one source file.
pub struct Scanner {
    file_name: String,
    source: Vec<char>,
    pos: usize,
    line: i32,
    column: i32,
    token: Token,
}

impl Scanner {
    pub closed spec fn wf(&self) -> bool {
        &&& self.pos <= self.source@.len()
        &&& self.source@.len() < i32::MAX
        &&& self.line == line_at(self.source@, self.pos as int)
        &&& self.column == col_at(self.source@, self.pos as int)
        &&& 1 <= self.line <= self.pos + 1
        &&& 0 <= self.column <= self.pos
    }

    pub closed spec fn source(&self) -> Seq<char> {
        self.source@
    }

    pub closed spec fn file(&self) -> Seq<char> {
        self.file_name@
    }

    /// Position of the next character to read.
    pub closed spec fn position(&self) -> int {
        self.pos as int
    }

    /// The token most recently read.
    pub closed spec fn current(&self) -> Token {
        self.token
    }

    /// A scanner at the start of `source`, read from the file named `source_file_name`.
    pub fn new(source_file_name: String, source: Vec<char>) -> (r: Self)
        requires
            source@.len() < i32::MAX,
        ensures
            r.wf(),
            r.source() == source@,
            r.file() == source_file_name@,
            r.position() == 0,
    {
        Scanner { file_name: source_file_name, source, pos: 0, line: 1, column: 0, token: Token::default() }
    }

    /// The token most recently read.
    pub fn get_token(&self) -> (r: Token)
        ensures
            r == self.current(),
    {
        self.token.duplicate()
    }

    fn advance(&mut self)
        requires
            old(self).wf(),
            old(self).pos < old(self).source@.len(),
        ensures
            final(self).wf(),
            final(self).pos == old(self).pos + 1,
            final(self).source == old(self).source,
            final(self).file_name == old(self).file_name,
            final(self).token == old(self).token,
    {
        if self.source[self.pos] == '\n' {
            self.line = self.line + 1;
            self.column = 0;
        } else {
            self.column = self.column + 1;
        }
        self.pos = self.pos + 1;
    }

    fn location(&self) -> (r: TokenLocation)
        requires
            self.wf(),
        ensures
            r.file_name@ == self.file_name@,
            r.line == line_at(self.source@, self.pos as int),
            r.column == col_at(self.source@, self.pos as int) + 1,
    {
        TokenLocation::new(self.file_name.clone(), self.line, self.column + 1)
    }

    fn skip_trivia(&mut self)
        requires
            old(self).wf(),
        ensures
            final(self).wf(),
            final(self).pos == skip_trivia(old(self).source@, old(self).pos as int),
            old(self).pos <= final(self).pos,
            final(self).source == old(self).source,
            final(self).file_name == old(self).file_name,
            final(self).token == old(self).token,
    {
        let len = self.source.len();
        loop
            invariant
                self.wf(),
                len == self.source@.len(),
                self.source == old(self).source,
                self.file_name == old(self).file_name,
                self.token == old(self).token,
                old(self).pos <= self.pos,
                skip_trivia(self.source@, self.pos as int) == skip_trivia(old(self).source@, old(self).pos as int),
            decreases len - self.pos,
        {
            if self.pos >= len {
                return;
            }
            let c = self.source[self.pos];
            if c == ' ' || c == '\t' || c == '\n' || c == '\r' || c == '\x0C' {
                self.advance();
            } else if c == ';' || c == '.' {
                let start = self.pos;
                self.advance();
                while self.pos < len && self.source[self.pos] != '\n'
                    invariant
                        self.wf(),
                        len == self.source@.len(),
                        start < self.pos <= len,
                        old(self).pos <= start,
                        self.source == old(self).source,
                        self.file_name == old(self).file_name,
                        self.token == old(self).token,
                        line_rest(self.source@, self.pos as int) == line_rest(self.source@, start + 1),
                    decreases len - self.pos,
                {
                    self.advance();
                }
                if self.pos < len {
                    self.advance();
                }
            } else {
                return;
            }
        }
    }

    /// Characters `a..b` of the source.
    fn text_between(&self, a: usize, b: usize) -> (r: String)
        requires
            a <= b <= self.source@.len(),
        ensures
            r@ == self.source@.subrange(a as int, b as int),
    {
        let mut s = String::new();
        let mut i = a;
        while i < b
            invariant
                a <= i <= b,
                b <= self.source@.len(),
                s@ == self.source@.subrange(a as int, i as int),
            decreases b - i,
        {
            push_char(&mut s, self.source[i]);
            i = i + 1;
            assert(s@ =~= self.source@.subrange(a as int, i as int));
        }
        s
    }

    /// Characters `a..b` of the source in lower case.
    fn lower_between(&self, a: usize, b: usize) -> (r: String)
        requires
            a <= b <= self.source@.len(),
        ensures
            r@ == lower(self.source@.subrange(a as int, b as int)),
    {
        let mut s = String::new();
        let mut i = a;
        while i < b
            invariant
                a <= i <= b,
                b <= self.source@.len(),
                s@ == lower(self.source@.subrange(a as int, i as int)),
            decreases b - i,
        {
            let c = self.source[i];
            let l = if 'A' <= c && c <= 'Z' {
                ((c as u8) + 32) as char
            } else {
                c
            };
            push_char(&mut s, l);
            i = i + 1;
            assert(s@ =~= lower(self.source@.subrange(a as int, i as int)));
        }
        s
    }

    /// Reads the run of `base`-class characters at the current position; the
    /// value of its digits, capped at 2^32.
    fn read_span(&mut self, base: u64) -> (r: u64)
        requires
            old(self).wf(),
            base == 0 || base == 8 || base == 10 || base == 16,
        ensures
            final(self).wf(),
            final(self).pos == span_end(old(self).source@, old(self).pos as int, base as nat),
            old(self).pos <= final(self).pos,
            final(self).source == old(self).source,
            final(self).file_name == old(self).file_name,
            final(self).token == old(self).token,
            base != 0 ==> r == capped(
                number_value(old(self).source@.subrange(old(self).pos as int, final(self).pos as int), base as nat),
            ),
    {
        let start = self.pos;
        let len = self.source.len();
        let mut acc: u64 = 0;
        loop
            invariant
                self.wf(),
                base == 0 || base == 8 || base == 10 || base == 16,
                len == self.source@.len(),
                start <= self.pos <= len,
                self.source == old(self).source,
                self.file_name == old(self).file_name,
                self.token == old(self).token,
                span_end(self.source@, self.pos as int, base as nat) == span_end(self.source@, start as int, base as nat),
                base != 0 ==> acc == capped(number_value(self.source@.subrange(start as int, self.pos as int), base as nat)),
            ensures
                span_end(self.source@, self.pos as int, base as nat) == self.pos,
            decreases len - self.pos,
        {
            if self.pos >= len {
                break;
            }
            let c = self.source[self.pos];
            if !class_exec(c, base) {
                break;
            }
            if base != 0 {
                let d = digit_exec(c);
                let ghost before = number_value(self.source@.subrange(start as int, self.pos as int), base as nat);
                let ghost next = self.source@.subrange(start as int, self.pos + 1);
                assert(next.drop_last() =~= self.source@.subrange(start as int, self.pos as int));
                proof {
                    lemma_capped_step(before, base as nat, d as nat);
                }
                let v = acc * base + d;
                acc = if v > 4294967296 { 4294967296 } else { v };
            }
            self.advance();
        }
        acc
    }

    /// Reads the next token.
    pub fn get_next_token(&mut self) -> (r: Result<Token, ScanError>)
        requires
            old(self).wf(),
        ensures
            final(self).wf(),
            final(self).source() == old(self).source(),
            final(self).file() == old(self).file(),
            final(self).position() <= final(self).source().len(),
            ({
                let src = old(self).source();
                let p = skip_trivia(src, old(self).position());
                match lex_at(src, p) {
                    Ok(l) => r matches Ok(t) && token_is(t, l, old(self).file(), src, p) && final(self).position() == l.end
                        && final(self).current() == t
                        && (t.token_type != TokenType::END_OF_FILE ==> final(self).position() > old(self).position()),
                    Err(e) => r matches Err(x) && x.kind == e && x.location.file_name@ == old(self).file()
                        && x.location.line == line_at(src, p) && x.location.column == col_at(src, p) + 1,
                }
            }),
    {
        self.skip_trivia();
        let p = self.pos;
        let loc = self.location();
        let len = self.source.len();
        let token = if p >= len {
            Token::new_token(TokenType::END_OF_FILE, TokenValue::END_OF_FILE, loc, String::from_str("END_OF_FILE"))
        } else {
            let c = self.source[p];
            if ('a' <= c && c <= 'z') || ('A' <= c && c <= 'Z') || c == '_' {
                self.read_span(0);
                let q = self.pos;
                proof {
                    lemma_span_end_ge(self.source@, p + 1, 0);
                }
                let name = self.text_between(p, q);
                let low = self.lower_between(p, q);
                let (kind, value) = match lookup_keyword(low.as_str()) {
                    Some(kv) => kv,
                    None => (TokenType::LABEL, TokenValue::LABEL),
                };
                Token::new_token(kind, value, loc, name)
            } else if '0' <= c && c <= '9' {
                let hex = c == '0' && p + 1 < len && (self.source[p + 1] == 'x' || self.source[p + 1] == 'X');
                let oct = c == '0' && p + 1 < len && '0' <= self.source[p + 1] && self.source[p + 1] <= '7';
                let base: u64 = if hex {
                    self.advance();
                    self.advance();
                    16
                } else if oct {
                    self.advance();
                    8
                } else {
                    10
                };
                let d = self.pos;
                let v = self.read_span(base);
                let q = self.pos;
                proof {
                    lemma_span_end_ge(self.source@, d + 1, base as nat);
                }
                if base == 16 && q == d {
                    return Err(ScanError { kind: ErrorKind::HexFormat, location: loc });
                }
                if v > 4294967295 {
                    return Err(ScanError { kind: ErrorKind::LiteralOverflow, location: loc });
                }
                let name = self.text_between(p, q);
                Token::new_int_token(loc, name, v as u32)
            } else {
                let (value, precedence) = match symbol_exec(c) {
                    None => return Err(ScanError { kind: ErrorKind::UnknownSymbol, location: loc }),
                    Some(x) => x,
                };
                self.advance();
                let mut name = String::new();
                push_char(&mut name, c);
                assert(name@ =~= seq![c]);
                Token::new_symbol_token(value, loc, name, precedence)
            }
        };
        self.token = token.duplicate();
        Ok(token)
    }
}

proof fn lemma_span_end_ge(src: Seq<char>, p: int, base: nat)
    requires
        0 <= p,
    ensures
        span_end(src, p, base) >= p,
    decreases src.len() - p,
{
    if 0 <= p < src.len() && in_class(src[p], base) {
        lemma_span_end_ge(src, p + 1, base);
    }
}

proof fn lemma_capped_step(v: nat, base: nat, d: nat)
    requires
        1 <= base <= 16,
        d < 16,
    ensures
        capped(v * base + d) == capped(capped(v) * base + d),
{
    if v > 4294967296 {
        assert(v * base >= v) by (nonlinear_arith)
            requires
                base >= 1,
        ;
        assert(4294967296 * base >= 4294967296) by (nonlinear_arith)
            requires
                base >= 1,
        ;
    }
}

fn class_exec(c: char, base: u64) -> (r: bool)
    ensures
        r == in_class(c, base as nat),
{
    if base == 16 {
        ('0' <= c && c <= '9') || ('a' <= c && c <= 'f') || ('A' <= c && c <= 'F')
    } else if base == 8 {
        '0' <= c && c <= '7'
    } else if base == 10 {
        '0' <= c && c <= '9'
    } else {
        ('a' <= c && c <= 'z') || ('A' <= c && c <= 'Z') || ('0' <= c && c <= '9') || c == '_'
    }
}

fn digit_exec(c: char) -> (r: u64)
    requires
        in_class(c, 16),
    ensures
        r == digit_value(c),
        r < 16,
{
    if '0' <= c && c <= '9' {
        (c as u32 - 48) as u64
    } else if 'a' <= c && c <= 'f' {
        (c as u32 - 87) as u64
    } else {
        (c as u32 - 55) as u64
    }
}

fn symbol_exec(c: char) -> (r: Option<(TokenValue, i32)>)
    ensures
        r == symbol(c),
{
    if c == '+' {
        Some((TokenValue::PLUS, 10))
    } else if c == '-' {
        Some((TokenValue::MINUS, 10))
    } else if c == '*' {
        Some((TokenValue::TIMES, 20))
    } else if c == ',' {
        Some((TokenValue::COMMA, -1))
    } else if c == '[' {
        Some((TokenValue::LBRACK, -1))
    } else if c == ']' {
        Some((TokenValue::RBRACK, -1))
    } else if c == ':' {
        Some((TokenValue::COLON, -1))
    } else {
        None
    }
}

} // verus!
