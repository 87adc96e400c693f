use vstd::prelude::*;
use crate::text::{decimal, push_char, push_decimal};

verus! {

/// Kind of a lexical token.
#[allow(non_camel_case_types)]
#[derive(Clone, Copy, Debug, PartialEq, Eq, Structural)]
pub enum TokenType {
    /// instruction, such as `mov`
    INSTRUCTION,
    /// register, such as `eax`
    REGISTER,
    /// keyword, such as `ptr`
    KEYWORD,
    /// symbol, such as `+`, `-`, `*`
    SYMBOL,
    /// immediate data, such as `123`
    IMMEDIATE_DATA,
    /// label, such as `main`
    LABEL,
    /// end of the source
    END_OF_FILE,
}

/// The specific mnemonic, register, keyword or symbol a token stands for.
#[allow(non_camel_case_types)]
#[derive(Clone, Copy, Debug, PartialEq, Eq, Structural)]
pub enum TokenValue {
    MOV,
    MOVZX,
    MOVSX,
    ADD,
    SUB,
    INC,
    DEC,
    MUL,
    IMUL,
    DIV,
    IDIV,
    AND,
    OR,
    XOR,
    NOT,
    NEG,
    SHL,
    SHR,
    SAR,
    PUSH,
    POP,
    CMP,
    JMP,
    JE,
    JNE,
    JG,
    JGE,
    JL,
    JLE,
    JA,
    JAE,
    JB,
    JBE,
    CALL,
    RET,
    ENTER,
    LEAVE,
    INT,
    EAX,
    AX,
    AH,
    AL,
    EBX,
    BX,
    BH,
    BL,
    ECX,
    CX,
    CH,
    CL,
    EDX,
    DX,
    DH,
    DL,
    ESI,
    SI,
    EDI,
    DI,
    ESP,
    SP,
    EBP,
    BP,
    EIP,
    PTR,
    BYTE,
    WORD,
    DWORD,
    PLUS,
    MINUS,
    TIMES,
    SEMICOLON,
    COMMA,
    LBRACK,
    RBRACK,
    COLON,
    INTEGER_LITERAL,
    LABEL,
    END_OF_FILE,
    UNKNOWN,
}

/// Name of a token kind as it appears in a token dump.
pub open spec fn kind_text(t: TokenType) -> Seq<char> {
    match t {
        TokenType::INSTRUCTION => "instruction"@,
        TokenType::REGISTER => "register"@,
        TokenType::KEYWORD => "keyword"@,
        TokenType::SYMBOL => "symbol"@,
        TokenType::IMMEDIATE_DATA => "immediate data"@,
        TokenType::LABEL => "label"@,
        TokenType::END_OF_FILE => "eof"@,
    }
}

impl TokenType {
    pub fn to_string(&self) -> (r: String)
        ensures
            r@ == kind_text(*self),
    {
        let name = match self {
            TokenType::INSTRUCTION => "instruction",
            TokenType::REGISTER => "register",
            TokenType::KEYWORD => "keyword",
            TokenType::SYMBOL => "symbol",
            TokenType::IMMEDIATE_DATA => "immediate data",
            TokenType::LABEL => "label",
            TokenType::END_OF_FILE => "eof",
        };
        String::from_str(name)
    }
}

/// Place in a source file: file name, line (from 1) and column (from 1).
pub struct TokenLocation {
    pub file_name: String,
    pub line: i32,
    pub column: i32,
}

/// `file:line:col:`
pub open spec fn location_text(file: Seq<char>, line: int, column: int) -> Seq<char> {
    file + seq![':'] + decimal(line) + seq![':'] + decimal(column) + seq![':']
}

impl Default for TokenLocation {
    /// No file, line 0, column 0.
    fn default() -> (r: Self)
        ensures
            r.file_name@ == Seq::<char>::empty(),
            r.line == 0,
            r.column == 0,
    {
        TokenLocation { file_name: String::new(), line: 0, column: 0 }
    }
}

impl TokenLocation {
    pub fn new(souce_file_name: String, line: i32, column: i32) -> (r: Self)
        ensures
            r.file_name@ == souce_file_name@,
            r.line == line,
            r.column == column,
    {
        TokenLocation { file_name: souce_file_name, line, column }
    }

    pub open spec fn text(&self) -> Seq<char> {
        location_text(self.file_name@, self.line as int, self.column as int)
    }

    pub fn to_string(&self) -> (r: String)
        ensures
            r@ == self.text(),
    {
        let mut s = self.file_name.clone();
        push_char(&mut s, ':');
        push_decimal(&mut s, self.line as i64);
        push_char(&mut s, ':');
        push_decimal(&mut s, self.column as i64);
        push_char(&mut s, ':');
        s
    }

    pub fn duplicate(&self) -> (r: Self)
        ensures
            r == *self,
    {
        TokenLocation { file_name: self.file_name.clone(), line: self.line, column: self.column }
    }
}

/// A lexical token.
///
/// `int_value` is meaningful for immediate data (and for the displacements the
/// preprocessor writes into branch operands); `precedence` for symbols.
pub struct Token {
    pub token_type: TokenType,
    pub value: TokenValue,
    pub location: TokenLocation,
    pub name: String,
    pub int_value: u32,
    pub precedence: i32,
}

impl Default for Token {
    /// The `int` instruction at no location.
    fn default() -> (r: Self)
        ensures
            r.token_type == TokenType::INSTRUCTION,
            r.value == TokenValue::INT,
            r.location.file_name@ == Seq::<char>::empty(),
            r.location.line == 0,
            r.location.column == 0,
            r.name@ == "int"@,
            r.int_value == 0,
            r.precedence == -1,
    {
        Token {
            token_type: TokenType::INSTRUCTION,
            value: TokenValue::INT,
            location: TokenLocation::default(),
            name: String::from_str("int"),
            int_value: 0,
            precedence: -1,
        }
    }
}

impl Token {
    pub fn new_token(token_type: TokenType, token_value: TokenValue, loc: TokenLocation, name: String) -> (r: Self)
        ensures
            r.token_type == token_type,
            r.value == token_value,
            r.location == loc,
            r.name == name,
            r.int_value == 0,
            r.precedence == -1,
    {
        Token { token_type, value: token_value, location: loc, name, int_value: 0, precedence: -1 }
    }

    pub fn new_int_token(loc: TokenLocation, name: String, int_value: u32) -> (r: Self)
        ensures
            r.token_type == TokenType::IMMEDIATE_DATA,
            r.value == TokenValue::INTEGER_LITERAL,
            r.location == loc,
            r.name == name,
            r.int_value == int_value,
            r.precedence == -1,
    {
        Token {
            token_type: TokenType::IMMEDIATE_DATA,
            value: TokenValue::INTEGER_LITERAL,
            location: loc,
            name,
            int_value,
            precedence: -1,
        }
    }

    pub fn new_symbol_token(token_value: TokenValue, loc: TokenLocation, name: String, prcedence: i32) -> (r: Self)
        ensures
            r.token_type == TokenType::SYMBOL,
            r.value == token_value,
            r.location == loc,
            r.name == name,
            r.int_value == 0,
            r.precedence == prcedence,
    {
        Token { token_type: TokenType::SYMBOL, value: token_value, location: loc, name, int_value: 0, precedence: prcedence }
    }

    pub fn get_token_location(&self) -> (r: TokenLocation)
        ensures
            r == self.location,
    {
        self.location.duplicate()
    }

    pub fn get_token_type(&self) -> (r: TokenType)
        ensures
            r == self.token_type,
    {
        self.token_type
    }

    pub fn get_token_value(&self) -> (r: TokenValue)
        ensures
            r == self.value,
    {
        self.value
    }

    pub fn get_token_name(&self) -> (r: String)
        ensures
            r == self.name,
    {
        self.name.clone()
    }

    /// Only immediate data carries an integer value.
    pub fn get_int_value(&self) -> (r: u32)
        requires
            self.token_type == TokenType::IMMEDIATE_DATA,
        ensures
            r == self.int_value,
    {
        self.int_value
    }

    /// Only symbols carry a precedence.
    pub fn get_precedence(&self) -> (r: i32)
        requires
            self.token_type == TokenType::SYMBOL,
        ensures
            r == self.precedence,
    {
        self.precedence
    }

    pub fn set_token_type(&mut self, token_type: TokenType)
        ensures
            final(self).token_type == token_type,
            final(self).value == old(self).value,
            final(self).location == old(self).location,
            final(self).name == old(self).name,
            final(self).int_value == old(self).int_value,
            final(self).precedence == old(self).precedence,
    {
        self.token_type = token_type;
    }

    /// Stores the two's-complement bits of `int_value`.
    pub fn set_int_value(&mut self, int_value: i32)
        requires
            old(self).token_type == TokenType::IMMEDIATE_DATA,
        ensures
            final(self).int_value == int_value as u32,
            final(self).token_type == old(self).token_type,
            final(self).value == old(self).value,
            final(self).location == old(self).location,
            final(self).name == old(self).name,
            final(self).precedence == old(self).precedence,
    {
        self.int_value = int_value as u32;
    }

    /// `<file>:<line>:<col>: Token Type: <type>, Token Value: <spelling>`
    pub open spec fn text(&self) -> Seq<char> {
        self.location.text() + " Token Type: "@ + kind_text(self.token_type) + ", Token Value: "@ + self.name@
    }

    pub fn to_string(&self) -> (r: String)
        ensures
            r@ == self.text(),
    {
        let mut s = self.location.to_string();
        s.append(" Token Type: ");
        let t = self.token_type.to_string();
        s.append(t.as_str());
        s.append(", Token Value: ");
        s.append(self.name.as_str());
        s
    }

    pub fn duplicate(&self) -> (r: Self)
        ensures
            r == *self,
    {
        Token {
            token_type: self.token_type,
            value: self.value,
            location: self.location.duplicate(),
            name: self.name.clone(),
            int_value: self.int_value,
            precedence: self.precedence,
        }
    }
}

} // verus!
