use vstd::prelude::*;
use vstd::string::*;
use crate::token::{TokenType, TokenValue};

verus! {

/// Kind and variant of a reserved word, given in lower case; `None` for any
/// other word. Aliases fold onto one variant (`sal` is `shl`, `jz` is `je`, ...).
pub open spec fn keyword(w: Seq<char>) -> Option<(TokenType, TokenValue)> {
    if w == "mov"@ {
        Some((TokenType::INSTRUCTION, TokenValue::MOV))
    } else if w == "movzx"@ {
        Some((TokenType::INSTRUCTION, TokenValue::MOVZX))
    } else if w == "movsx"@ {
        Some((TokenType::INSTRUCTION, TokenValue::MOVSX))
    } else if w == "add"@ {
        Some((TokenType::INSTRUCTION, TokenValue::ADD))
    } else if w == "sub"@ {
        Some((TokenType::INSTRUCTION, TokenValue::SUB))
    } else if w == "inc"@ {
        Some((TokenType::INSTRUCTION, TokenValue::INC))
    } else if w == "dec"@ {
        Some((TokenType::INSTRUCTION, TokenValue::DEC))
    } else if w == "mul"@ {
        Some((TokenType::INSTRUCTION, TokenValue::MUL))
    } else if w == "imul"@ {
        Some((TokenType::INSTRUCTION, TokenValue::IMUL))
    } else if w == "div"@ {
        Some((TokenType::INSTRUCTION, TokenValue::DIV))
    } else if w == "idiv"@ {
        Some((TokenType::INSTRUCTION, TokenValue::IDIV))
    } else if w == "and"@ {
        Some((TokenType::INSTRUCTION, TokenValue::AND))
    } else if w == "or"@ {
        Some((TokenType::INSTRUCTION, TokenValue::OR))
    } else if w == "xor"@ {
        Some((TokenType::INSTRUCTION, TokenValue::XOR))
    } else if w == "not"@ {
        Some((TokenType::INSTRUCTION, TokenValue::NOT))
    } else if w == "neg"@ {
        Some((TokenType::INSTRUCTION, TokenValue::NEG))
    } else if w == "push"@ {
        Some((TokenType::INSTRUCTION, TokenValue::PUSH))
    } else if w == "pop"@ {
        Some((TokenType::INSTRUCTION, TokenValue::POP))
    } else if w == "shl"@ {
        Some((TokenType::INSTRUCTION, TokenValue::SHL))
    } else if w == "sal"@ {
        Some((TokenType::INSTRUCTION, TokenValue::SHL))
    } else if w == "shr"@ {
        Some((TokenType::INSTRUCTION, TokenValue::SHR))
    } else if w == "sar"@ {
        Some((TokenType::INSTRUCTION, TokenValue::SAR))
    } else if w == "cmp"@ {
        Some((TokenType::INSTRUCTION, TokenValue::CMP))
    } else if w == "jmp"@ {
        Some((TokenType::INSTRUCTION, TokenValue::JMP))
    } else if w == "je"@ {
        Some((TokenType::INSTRUCTION, TokenValue::JE))
    } else if w == "jz"@ {
        Some((TokenType::INSTRUCTION, TokenValue::JE))
    } else if w == "jne"@ {
        Some((TokenType::INSTRUCTION, TokenValue::JNE))
    } else if w == "jnz"@ {
        Some((TokenType::INSTRUCTION, TokenValue::JNE))
    } else if w == "jg"@ {
        Some((TokenType::INSTRUCTION, TokenValue::JG))
    } else if w == "jnle"@ {
        Some((TokenType::INSTRUCTION, TokenValue::JG))
    } else if w == "jge"@ {
        Some((TokenType::INSTRUCTION, TokenValue::JGE))
    } else if w == "jnl"@ {
        Some((TokenType::INSTRUCTION, TokenValue::JGE))
    } else if w == "jl"@ {
        Some((TokenType::INSTRUCTION, TokenValue::JL))
    } else if w == "jnge"@ {
        Some((TokenType::INSTRUCTION, TokenValue::JL))
    } else if w == "jle"@ {
        Some((TokenType::INSTRUCTION, TokenValue::JLE))
    } else if w == "jng"@ {
        Some((TokenType::INSTRUCTION, TokenValue::JLE))
    } else if w == "ja"@ {
        Some((TokenType::INSTRUCTION, TokenValue::JA))
    } else if w == "jnbe"@ {
        Some((TokenType::INSTRUCTION, TokenValue::JA))
    } else if w == "jae"@ {
        Some((TokenType::INSTRUCTION, TokenValue::JAE))
    } else if w == "jnb"@ {
        Some((TokenType::INSTRUCTION, TokenValue::JAE))
    } else if w == "jb"@ {
        Some((TokenType::INSTRUCTION, TokenValue::JB))
    } else if w == "jnae"@ {
        Some((TokenType::INSTRUCTION, TokenValue::JB))
    } else if w == "jbe"@ {
        Some((TokenType::INSTRUCTION, TokenValue::JBE))
    } else if w == "jna"@ {
        Some((TokenType::INSTRUCTION, TokenValue::JBE))
    } else if w == "call"@ {
        Some((TokenType::INSTRUCTION, TokenValue::CALL))
    } else if w == "ret"@ {
        Some((TokenType::INSTRUCTION, TokenValue::RET))
    } else if w == "enter"@ {
        Some((TokenType::INSTRUCTION, TokenValue::ENTER))
    } else if w == "leave"@ {
        Some((TokenType::INSTRUCTION, TokenValue::LEAVE))
    } else if w == "int"@ {
        Some((TokenType::INSTRUCTION, TokenValue::INT))
    } else if w == "eax"@ {
        Some((TokenType::REGISTER, TokenValue::EAX))
    } else if w == "ax"@ {
        Some((TokenType::REGISTER, TokenValue::AX))
    } else if w == "ah"@ {
        Some((TokenType::REGISTER, TokenValue::AH))
    } else if w == "al"@ {
        Some((TokenType::REGISTER, TokenValue::AL))
    } else if w == "ebx"@ {
        Some((TokenType::REGISTER, TokenValue::EBX))
    } else if w == "bx"@ {
        Some((TokenType::REGISTER, TokenValue::BX))
    } else if w == "bh"@ {
        Some((TokenType::REGISTER, TokenValue::BH))
    } else if w == "bl"@ {
        Some((TokenType::REGISTER, TokenValue::BL))
    } else if w == "ecx"@ {
        Some((TokenType::REGISTER, TokenValue::ECX))
    } else if w == "cx"@ {
        Some((TokenType::REGISTER, TokenValue::CX))
    } else if w == "ch"@ {
        Some((TokenType::REGISTER, TokenValue::CH))
    } else if w == "cl"@ {
        Some((TokenType::REGISTER, TokenValue::CL))
    } else if w == "edx"@ {
        Some((TokenType::REGISTER, TokenValue::EDX))
    } else if w == "dx"@ {
        Some((TokenType::REGISTER, TokenValue::DX))
    } else if w == "dh"@ {
        Some((TokenType::REGISTER, TokenValue::DH))
    } else if w == "dl"@ {
        Some((TokenType::REGISTER, TokenValue::DL))
    } else if w == "esi"@ {
        Some((TokenType::REGISTER, TokenValue::ESI))
    } else if w == "si"@ {
        Some((TokenType::REGISTER, TokenValue::SI))
    } else if w == "edi"@ {
        Some((TokenType::REGISTER, TokenValue::EDI))
    } else if w == "di"@ {
        Some((TokenType::REGISTER, TokenValue::DI))
    } else if w == "esp"@ {
        Some((TokenType::REGISTER, TokenValue::ESP))
    } else if w == "sp"@ {
        Some((TokenType::REGISTER, TokenValue::SP))
    } else if w == "ebp"@ {
        Some((TokenType::REGISTER, TokenValue::EBP))
    } else if w == "bp"@ {
        Some((TokenType::REGISTER, TokenValue::BP))
    } else if w == "ptr"@ {
        Some((TokenType::KEYWORD, TokenValue::PTR))
    } else if w == "byte"@ {
        Some((TokenType::KEYWORD, TokenValue::BYTE))
    } else if w == "word"@ {
        Some((TokenType::KEYWORD, TokenValue::WORD))
    } else if w == "dword"@ {
        Some((TokenType::KEYWORD, TokenValue::DWORD))
    } else {
        None
    }
}

/// Whether two strings hold the same characters.
pub fn str_eq(a: &str, b: &str) -> (r: bool)
    ensures
        r == (a@ == b@),
{
    let n = a.unicode_len();
    let m = b.unicode_len();
    if n != m {
        return false;
    }
    let mut i: usize = 0;
    while i < n
        invariant
            n == a@.len(),
            m == b@.len(),
            n == m,
            i <= n,
            forall|j: int| 0 <= j < i ==> a@[j] == b@[j],
        decreases n - i,
    {
        if a.get_char(i) != b.get_char(i) {
            return false;
        }
        i = i + 1;
    }
    assert(a@ =~= b@);
    true
}

pub fn lookup_keyword(w: &str) -> (r: Option<(TokenType, TokenValue)>)
    ensures
        r == keyword(w@),
{
    if str_eq(w, "mov") {
        Some((TokenType::INSTRUCTION, TokenValue::MOV))
    } else if str_eq(w, "movzx") {
        Some((TokenType::INSTRUCTION, TokenValue::MOVZX))
    } else if str_eq(w, "movsx") {
        Some((TokenType::INSTRUCTION, TokenValue::MOVSX))
    } else if str_eq(w, "add") {
        Some((TokenType::INSTRUCTION, TokenValue::ADD))
    } else if str_eq(w, "sub") {
        Some((TokenType::INSTRUCTION, TokenValue::SUB))
    } else if str_eq(w, "inc") {
        Some((TokenType::INSTRUCTION, TokenValue::INC))
    } else if str_eq(w, "dec") {
        Some((TokenType::INSTRUCTION, TokenValue::DEC))
    } else if str_eq(w, "mul") {
        Some((TokenType::INSTRUCTION, TokenValue::MUL))
    } else if str_eq(w, "imul") {
        Some((TokenType::INSTRUCTION, TokenValue::IMUL))
    } else if str_eq(w, "div") {
        Some((TokenType::INSTRUCTION, TokenValue::DIV))
    } else if str_eq(w, "idiv") {
        Some((TokenType::INSTRUCTION, TokenValue::IDIV))
    } else if str_eq(w, "and") {
        Some((TokenType::INSTRUCTION, TokenValue::AND))
    } else if str_eq(w, "or") {
        Some((TokenType::INSTRUCTION, TokenValue::OR))
    } else if str_eq(w, "xor") {
        Some((TokenType::INSTRUCTION, TokenValue::XOR))
    } else if str_eq(w, "not") {
        Some((TokenType::INSTRUCTION, TokenValue::NOT))
    } else if str_eq(w, "neg") {
        Some((TokenType::INSTRUCTION, TokenValue::NEG))
    } else if str_eq(w, "push") {
        Some((TokenType::INSTRUCTION, TokenValue::PUSH))
    } else if str_eq(w, "pop") {
        Some((TokenType::INSTRUCTION, TokenValue::POP))
    } else if str_eq(w, "shl") {
        Some((TokenType::INSTRUCTION, TokenValue::SHL))
    } else if str_eq(w, "sal") {
        Some((TokenType::INSTRUCTION, TokenValue::SHL))
    } else if str_eq(w, "shr") {
        Some((TokenType::INSTRUCTION, TokenValue::SHR))
    } else if str_eq(w, "sar") {
        Some((TokenType::INSTRUCTION, TokenValue::SAR))
    } else if str_eq(w, "cmp") {
        Some((TokenType::INSTRUCTION, TokenValue::CMP))
    } else if str_eq(w, "jmp") {
        Some((TokenType::INSTRUCTION, TokenValue::JMP))
    } else if str_eq(w, "je") {
        Some((TokenType::INSTRUCTION, TokenValue::JE))
    } else if str_eq(w, "jz") {
        Some((TokenType::INSTRUCTION, TokenValue::JE))
    } else if str_eq(w, "jne") {
        Some((TokenType::INSTRUCTION, TokenValue::JNE))
    } else if str_eq(w, "jnz") {
        Some((TokenType::INSTRUCTION, TokenValue::JNE))
    } else if str_eq(w, "jg") {
        Some((TokenType::INSTRUCTION, TokenValue::JG))
    } else if str_eq(w, "jnle") {
        Some((TokenType::INSTRUCTION, TokenValue::JG))
    } else if str_eq(w, "jge") {
        Some((TokenType::INSTRUCTION, TokenValue::JGE))
    } else if str_eq(w, "jnl") {
        Some((TokenType::INSTRUCTION, TokenValue::JGE))
    } else if str_eq(w, "jl") {
        Some((TokenType::INSTRUCTION, TokenValue::JL))
    } else if str_eq(w, "jnge") {
        Some((TokenType::INSTRUCTION, TokenValue::JL))
    } else if str_eq(w, "jle") {
        Some((TokenType::INSTRUCTION, TokenValue::JLE))
    } else if str_eq(w, "jng") {
        Some((TokenType::INSTRUCTION, TokenValue::JLE))
    } else if str_eq(w, "ja") {
        Some((TokenType::INSTRUCTION, TokenValue::JA))
    } else if str_eq(w, "jnbe") {
        Some((TokenType::INSTRUCTION, TokenValue::JA))
    } else if str_eq(w, "jae") {
        Some((TokenType::INSTRUCTION, TokenValue::JAE))
    } else if str_eq(w, "jnb") {
        Some((TokenType::INSTRUCTION, TokenValue::JAE))
    } else if str_eq(w, "jb") {
        Some((TokenType::INSTRUCTION, TokenValue::JB))
    } else if str_eq(w, "jnae") {
        Some((TokenType::INSTRUCTION, TokenValue::JB))
    } else if str_eq(w, "jbe") {
        Some((TokenType::INSTRUCTION, TokenValue::JBE))
    } else if str_eq(w, "jna") {
        Some((TokenType::INSTRUCTION, TokenValue::JBE))
    } else if str_eq(w, "call") {
        Some((TokenType::INSTRUCTION, TokenValue::CALL))
    } else if str_eq(w, "ret") {
        Some((TokenType::INSTRUCTION, TokenValue::RET))
    } else if str_eq(w, "enter") {
        Some((TokenType::INSTRUCTION, TokenValue::ENTER))
    } else if str_eq(w, "leave") {
        Some((TokenType::INSTRUCTION, TokenValue::LEAVE))
    } else if str_eq(w, "int") {
        Some((TokenType::INSTRUCTION, TokenValue::INT))
    } else if str_eq(w, "eax") {
        Some((TokenType::REGISTER, TokenValue::EAX))
    } else if str_eq(w, "ax") {
        Some((TokenType::REGISTER, TokenValue::AX))
    } else if str_eq(w, "ah") {
        Some((TokenType::REGISTER, TokenValue::AH))
    } else if str_eq(w, "al") {
        Some((TokenType::REGISTER, TokenValue::AL))
    } else if str_eq(w, "ebx") {
        Some((TokenType::REGISTER, TokenValue::EBX))
    } else if str_eq(w, "bx") {
        Some((TokenType::REGISTER, TokenValue::BX))
    } else if str_eq(w, "bh") {
        Some((TokenType::REGISTER, TokenValue::BH))
    } else if str_eq(w, "bl") {
        Some((TokenType::REGISTER, TokenValue::BL))
    } else if str_eq(w, "ecx") {
        Some((TokenType::REGISTER, TokenValue::ECX))
    } else if str_eq(w, "cx") {
        Some((TokenType::REGISTER, TokenValue::CX))
    } else if str_eq(w, "ch") {
        Some((TokenType::REGISTER, TokenValue::CH))
    } else if str_eq(w, "cl") {
        Some((TokenType::REGISTER, TokenValue::CL))
    } else if str_eq(w, "edx") {
        Some((TokenType::REGISTER, TokenValue::EDX))
    } else if str_eq(w, "dx") {
        Some((TokenType::REGISTER, TokenValue::DX))
    } else if str_eq(w, "dh") {
        Some((TokenType::REGISTER, TokenValue::DH))
    } else if str_eq(w, "dl") {
        Some((TokenType::REGISTER, TokenValue::DL))
    } else if str_eq(w, "esi") {
        Some((TokenType::REGISTER, TokenValue::ESI))
    } else if str_eq(w, "si") {
        Some((TokenType::REGISTER, TokenValue::SI))
    } else if str_eq(w, "edi") {
        Some((TokenType::REGISTER, TokenValue::EDI))
    } else if str_eq(w, "di") {
        Some((TokenType::REGISTER, TokenValue::DI))
    } else if str_eq(w, "esp") {
        Some((TokenType::REGISTER, TokenValue::ESP))
    } else if str_eq(w, "sp") {
        Some((TokenType::REGISTER, TokenValue::SP))
    } else if str_eq(w, "ebp") {
        Some((TokenType::REGISTER, TokenValue::EBP))
    } else if str_eq(w, "bp") {
        Some((TokenType::REGISTER, TokenValue::BP))
    } else if str_eq(w, "ptr") {
        Some((TokenType::KEYWORD, TokenValue::PTR))
    } else if str_eq(w, "byte") {
        Some((TokenType::KEYWORD, TokenValue::BYTE))
    } else if str_eq(w, "word") {
        Some((TokenType::KEYWORD, TokenValue::WORD))
    } else if str_eq(w, "dword") {
        Some((TokenType::KEYWORD, TokenValue::DWORD))
    } else {
        None
    }
}

} // verus!
