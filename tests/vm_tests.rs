use asm_vm::error::ErrorKind;
use asm_vm::machine::Flags;
use asm_vm::scanner::Scanner;
use asm_vm::token::{Token, TokenLocation, TokenType, TokenValue};
use asm_vm::vm::{VmError, VM};

fn machine(src: &str) -> VM {
    VM::new("test.asm".to_string(), src.chars().collect())
}

fn run_ok(src: &str) -> VM {
    let mut vm = machine(src);
    match vm.run() {
        Ok(()) => vm,
        Err(e) => panic!("run failed: {:?}", e),
    }
}

fn run_err(src: &str) -> VmError {
    let mut vm = machine(src);
    match vm.run() {
        Ok(()) => panic!("run succeeded"),
        Err(e) => e,
    }
}

fn flags(cf: bool, zf: bool, sf: bool, of: bool) -> Flags {
    Flags { cf, zf, sf, of }
}

#[test]
fn add_immediates() {
    let vm = run_ok("mov eax, 5\nadd eax, 7\nint 0x80\n");
    assert_eq!(vm.get_eax(), 12);
}

#[test]
fn sub_registers_flags() {
    let vm = run_ok("mov eax, 10\nmov ebx, 3\nsub eax, ebx\nint 0x80\n");
    assert_eq!(vm.get_eax(), 7);
    let f = vm.get_flags();
    assert!(!f.cf);
    assert!(!f.zf);
    assert!(!f.sf);
}

#[test]
fn add_wraps_to_zero() {
    let vm = run_ok("mov eax, 0xFFFFFFFF\nadd eax, 1\nint 0x80\n");
    assert_eq!(vm.get_eax(), 0);
    let f = vm.get_flags();
    assert!(f.zf);
    assert!(f.cf);
}

#[test]
fn loop_doubles() {
    let vm = run_ok("mov eax, 1\nmov ecx, 5\nL: add eax, eax\ndec ecx\njne L\nint 0x80\n");
    assert_eq!(vm.get_eax(), 32);
    assert_eq!(vm.get_ecx(), 0);
}

#[test]
fn byte_aliases() {
    let vm = run_ok("mov eax, 0\nmov al, 0xFF\nmov ah, 0x12\nint 0x80\n");
    assert_eq!(vm.get_eax(), 0x0000_12FF);
}

#[test]
fn call_and_return() {
    let vm = run_ok("main: mov eax, 0\ncall f\nint 0x80\nf: mov eax, 42\nret\n");
    assert_eq!(vm.get_eax(), 42);
}

#[test]
fn register_aliasing_keeps_other_bits() {
    let vm = run_ok("mov ebx, 0x11223344\nmov bl, 0xAA\nmov ecx, 0x11223344\nmov ch, 0xBB\nmov edx, 0x11223344\nmov dx, 0xCCDD\nint 0x80\n");
    assert_eq!(vm.get_ebx(), 0x1122_33AA);
    assert_eq!(vm.get_ecx(), 0x1122_BB44);
    assert_eq!(vm.get_edx(), 0x1122_CCDD);
}

#[test]
fn dword_write_sets_all_bits() {
    let vm = run_ok("mov eax, 0x11223344\nmov eax, 0xDEADBEEF\nint 0x80\n");
    assert_eq!(vm.get_eax(), 0xDEAD_BEEF);
}

#[test]
fn sub_equal_sets_zero_and_je_taken() {
    let vm = run_ok("mov eax, 9\nsub eax, 9\nje yes\nmov ebx, 1\nint 0x80\nyes: mov ebx, 2\nint 0x80\n");
    assert_eq!(vm.get_ebx(), 2);
    assert_eq!(vm.get_flags(), flags(false, true, false, false));
}

#[test]
fn sub_borrow_sets_carry_and_sign() {
    let vm = run_ok("mov eax, 3\nsub eax, 5\nje yes\nmov ebx, 1\nint 0x80\nyes: mov ebx, 2\nint 0x80\n");
    assert_eq!(vm.get_eax(), 0xFFFF_FFFE);
    assert_eq!(vm.get_ebx(), 1);
    assert_eq!(vm.get_flags(), flags(true, false, true, false));
}

#[test]
fn sub_signed_overflow() {
    let vm = run_ok("mov al, 0x80\nsub al, 1\nint 0x80\n");
    assert_eq!(vm.get_eax(), 0x7F);
    assert_eq!(vm.get_flags(), flags(false, false, false, true));
}

#[test]
fn push_pop_round_trip() {
    let vm = run_ok("mov ecx, 0x12345678\npush ecx\npop ebx\npush cx\npop dx\nint 0x80\n");
    assert_eq!(vm.get_ebx(), 0x1234_5678);
    assert_eq!(vm.get_edx(), 0x5678);
}

#[test]
fn push_pop_keeps_esp() {
    let vm = run_ok("mov eax, esp\nmov ebx, 7\npush ebx\npop ecx\nmov edx, esp\nsub edx, eax\nint 0x80\n");
    assert_eq!(vm.get_ecx(), 7);
    assert_eq!(vm.get_edx(), 0);
}

#[test]
fn call_ret_restores_esp() {
    let vm = run_ok("main: mov ebx, esp\ncall f\nmov ecx, esp\nsub ecx, ebx\nmov eax, 1\nint 0x80\nf: ret\n");
    assert_eq!(vm.get_ecx(), 0);
    assert_eq!(vm.get_eax(), 1);
}

#[test]
fn nested_calls() {
    let vm = run_ok("main: call a\nint 0x80\na: call b\nadd eax, 1\nret\nb: mov eax, 10\nret\n");
    assert_eq!(vm.get_eax(), 11);
}

#[test]
fn ret_at_depth_one_halts() {
    let vm = run_ok("mov eax, 3\nret\nmov eax, 4\nint 0x80\n");
    assert_eq!(vm.get_eax(), 3);
}

#[test]
fn int_halts_inside_call() {
    let vm = run_ok("main: call f\nmov eax, 1\nint 0x80\nf: mov eax, 2\nint 0x80\n");
    assert_eq!(vm.get_eax(), 2);
}

#[test]
fn displacements_in_text() {
    let mut vm = machine("main: jmp end\nmov eax, 1\nend: int 0x80\n");
    assert!(vm.run().is_ok());
    let text = vm.get_text();
    // main : jmp <disp> mov eax , 1 end : int 0x80
    assert_eq!(text[3].get_token_type(), TokenType::IMMEDIATE_DATA);
    assert_eq!(text[3].get_int_value() as i32, 8 - 3 - 1);
    assert_eq!(vm.get_eax(), 0);
}

#[test]
fn backward_displacement_is_negative() {
    let mut vm = machine("L: dec ecx\njne L\nint 0x80\n");
    assert!(vm.preprocess().is_ok());
    let text = vm.get_text();
    assert_eq!(text[5].get_int_value() as i32, 0 - 5 - 1);
}

#[test]
fn entry_label_last_wins() {
    let vm = run_ok("start: mov eax, 1\nint 0x80\nmain: mov eax, 2\nint 0x80\n");
    assert_eq!(vm.get_eax(), 2);
}

#[test]
fn no_entry_starts_at_zero() {
    let vm = run_ok("mov eax, 6\nint 0x80\n");
    assert_eq!(vm.get_eax(), 6);
}

#[test]
fn comments_and_directives() {
    let vm = run_ok(".text\n; a comment\nmov eax, 7 ; trailing\n.globl main\nint 0x80\n");
    assert_eq!(vm.get_eax(), 7);
}

#[test]
fn octal_and_hex_literals() {
    let vm = run_ok("mov eax, 017\nmov ebx, 0x1f\nmov ecx, 0XFF\nmov edx, 09\nint 0x80\n");
    assert_eq!(vm.get_eax(), 15);
    assert_eq!(vm.get_ebx(), 31);
    assert_eq!(vm.get_ecx(), 255);
    assert_eq!(vm.get_edx(), 9);
}

#[test]
fn upper_case_mnemonics() {
    let vm = run_ok("MOV EAX, 3\nAdd Eax, 4\nINT 0x80\n");
    assert_eq!(vm.get_eax(), 7);
}

#[test]
fn negative_immediate() {
    let vm = run_ok("mov eax, -1\nmov ebx, 10\nadd ebx, -3\nint 0x80\n");
    assert_eq!(vm.get_eax(), 0xFFFF_FFFF);
    assert_eq!(vm.get_ebx(), 7);
}

#[test]
fn memory_operands() {
    let vm = run_ok("mov ebx, 16\nmov dword ptr [ebx + 4 * 2], 0x01020304\nmov al, byte ptr [24]\nmov cx, word ptr [ebx + 8 + 2]\nint 0x80\n");
    assert_eq!(vm.get_eax() & 0xFF, 4);
    assert_eq!(vm.get_ecx() & 0xFFFF, 0x0102);
}

#[test]
fn address_expression_left_associative() {
    let vm = run_ok("mov dword ptr [10 - 4 - 2], 99\nmov eax, dword ptr [4]\nint 0x80\n");
    assert_eq!(vm.get_eax(), 99);
}

#[test]
fn address_expression_negative_atom() {
    let vm = run_ok("mov ebx, 20\nmov byte ptr [-4 + ebx], 5\nmov al, byte ptr [16]\nint 0x80\n");
    assert_eq!(vm.get_eax(), 5);
}

#[test]
fn logic_operations() {
    let vm = run_ok("mov eax, 0xF0F0\nand eax, 0xFF00\nmov ebx, 0x0F\nor ebx, 0xF0\nmov ecx, 0xFF\nxor ecx, 0x0F\nint 0x80\n");
    assert_eq!(vm.get_eax(), 0xF000);
    assert_eq!(vm.get_ebx(), 0xFF);
    assert_eq!(vm.get_ecx(), 0xF0);
    assert!(!vm.get_flags().cf);
}

#[test]
fn mul_byte_and_dword() {
    let vm = run_ok("mov al, 200\nmov bl, 3\nmul bl\nint 0x80\n");
    assert_eq!(vm.get_eax() & 0xFFFF, 600);
    assert!(vm.get_flags().cf);
    let vm = run_ok("mov eax, 0x80000000\nmov ebx, 4\nmul ebx\nint 0x80\n");
    assert_eq!(vm.get_eax(), 0);
    assert_eq!(vm.get_edx(), 2);
    assert!(vm.get_flags().of);
}

#[test]
fn imul_forms() {
    let vm = run_ok("mov eax, 6\nmov ebx, 7\nimul eax, ebx\nmov ecx, 0\nimul ecx, ebx, 3\nint 0x80\n");
    assert_eq!(vm.get_eax(), 42);
    assert_eq!(vm.get_ecx(), 21);
    assert!(!vm.get_flags().cf);
}

#[test]
fn imul_signed_overflow_sets_carry() {
    let vm = run_ok("mov eax, 0x40000000\nmov ebx, 4\nimul eax, ebx\nint 0x80\n");
    assert_eq!(vm.get_eax(), 0);
    assert!(vm.get_flags().cf);
}

#[test]
fn div_unsigned() {
    let vm = run_ok("mov edx, 0\nmov eax, 100\nmov ebx, 7\ndiv ebx\nint 0x80\n");
    assert_eq!(vm.get_eax(), 14);
    assert_eq!(vm.get_edx(), 2);
    let vm = run_ok("mov eax, 1\nmov edx, 1\nmov ecx, 2\ndiv ecx\nint 0x80\n");
    assert_eq!(vm.get_eax(), 0x8000_0000);
    assert_eq!(vm.get_edx(), 1);
}

#[test]
fn div_byte_uses_ah() {
    let vm = run_ok("mov eax, 0\nmov ax, 17\nmov bl, 5\ndiv bl\nint 0x80\n");
    assert_eq!(vm.get_eax() & 0xFF, 3);
    assert_eq!((vm.get_eax() >> 8) & 0xFF, 2);
}

#[test]
fn idiv_signed() {
    let vm = run_ok("mov edx, 0xFFFFFFFF\nmov eax, -7\nmov ebx, 2\nidiv ebx\nint 0x80\n");
    assert_eq!(vm.get_eax() as i32, -3);
    assert_eq!(vm.get_edx() as i32, -1);
}

#[test]
fn unary_operations() {
    let vm = run_ok("mov eax, 0x7FFFFFFF\ninc eax\nint 0x80\n");
    assert_eq!(vm.get_eax(), 0x8000_0000);
    assert_eq!(vm.get_flags(), flags(false, false, true, true));
    let vm = run_ok("mov ebx, 5\nneg ebx\nmov ecx, 0\nnot ecx\nint 0x80\n");
    assert_eq!(vm.get_ebx() as i32, -5);
    assert_eq!(vm.get_ecx(), 0xFFFF_FFFF);
    assert!(vm.get_flags().cf);
}

#[test]
fn inc_dec_keep_carry() {
    let vm = run_ok("mov eax, 0xFFFFFFFF\nadd eax, 1\ninc eax\nint 0x80\n");
    assert_eq!(vm.get_eax(), 1);
    assert!(vm.get_flags().cf);
    let vm = run_ok("mov eax, 1\ndec eax\nint 0x80\n");
    assert!(vm.get_flags().zf);
    assert!(!vm.get_flags().cf);
}

#[test]
fn shifts() {
    let vm = run_ok("mov eax, 0x80000001\nshl eax, 1\nint 0x80\n");
    assert_eq!(vm.get_eax(), 2);
    assert!(vm.get_flags().cf);
    let vm = run_ok("mov eax, 5\nshr eax, 1\nint 0x80\n");
    assert_eq!(vm.get_eax(), 2);
    assert!(vm.get_flags().cf);
    let vm = run_ok("mov eax, -8\nsar eax, 2\nmov bl, 0x81\nsal bl, 1\nint 0x80\n");
    assert_eq!(vm.get_eax() as i32, -2);
    assert_eq!(vm.get_ebx() & 0xFF, 2);
}

#[test]
fn movzx_movsx() {
    let vm = run_ok("mov bl, 0xF0\nmovzx eax, bl\nmovsx ecx, bl\nmov dx, 0x8000\nmovsx edx, dx\nint 0x80\n");
    assert_eq!(vm.get_eax(), 0xF0);
    assert_eq!(vm.get_ecx(), 0xFFFF_FFF0);
    assert_eq!(vm.get_edx(), 0xFFFF_8000);
}

#[test]
fn conditional_jumps() {
    let src = "mov eax, -1\ncmp eax, 1\njl less\nmov ebx, 1\njmp next\nless: mov ebx, 2\nnext: cmp eax, 1\nja above\nmov ecx, 1\nint 0x80\nabove: mov ecx, 2\nint 0x80\n";
    let vm = run_ok(src);
    assert_eq!(vm.get_ebx(), 2);
    assert_eq!(vm.get_ecx(), 2);
}

#[test]
fn enter_leave() {
    let vm = run_ok("mov ebx, esp\nenter\nmov eax, ebp\nleave\nmov ecx, esp\nsub ecx, ebx\nsub ebx, eax\nint 0x80\n");
    assert_eq!(vm.get_ecx(), 0);
    assert_eq!(vm.get_ebx(), 4);
}

#[test]
fn error_divide_by_zero() {
    let e = run_err("mov eax, 1\nmov ebx, 0\ndiv ebx\nint 0x80\n");
    assert_eq!(e.kind, ErrorKind::DivideByZero);
    assert_eq!(e.position, 8);
}

#[test]
fn error_unknown_label() {
    let e = run_err("jmp nowhere\nint 0x80\n");
    assert_eq!(e.kind, ErrorKind::UnknownLabel);
    assert_eq!(e.position, 1);
}

#[test]
fn error_expected_label() {
    let e = run_err("jmp 5\nint 0x80\n");
    assert_eq!(e.kind, ErrorKind::ExpectedLabel);
}

#[test]
fn error_misplaced_colon() {
    let e = run_err("mov : eax\n");
    assert_eq!(e.kind, ErrorKind::MisplacedColon);
    assert_eq!(e.position, 1);
}

#[test]
fn error_lexical() {
    assert_eq!(run_err("mov eax, 5 $\n").kind, ErrorKind::UnknownSymbol);
    assert_eq!(run_err("mov eax, 0x\n").kind, ErrorKind::HexFormat);
    assert_eq!(run_err("mov eax, 4294967296\n").kind, ErrorKind::LiteralOverflow);
}

#[test]
fn error_operands() {
    assert_eq!(run_err("mov eax, , 1\n").kind, ErrorKind::UnexpectedToken);
    assert_eq!(run_err("mov eax, dword [4]\n").kind, ErrorKind::MissingPtr);
    assert_eq!(run_err("mov eax, dword ptr 4\n").kind, ErrorKind::MissingBracket);
    assert_eq!(run_err("mov eax, -4294967295\n").kind, ErrorKind::ImmediateOutOfRange);
    assert_eq!(run_err("mov al, 300\n").kind, ErrorKind::SizeMismatch);
    assert_eq!(run_err("mov ax, ebx\n").kind, ErrorKind::SizeMismatch);
    assert_eq!(run_err("mov eax, dword ptr [1048574]\n").kind, ErrorKind::AddressOutOfRange);
    assert_eq!(run_err("shl eax, 256\n").kind, ErrorKind::ShiftCountOutOfRange);
    assert_eq!(run_err("mov eax, 1\n").kind, ErrorKind::EndOfText);
    assert_eq!(run_err("5\n").kind, ErrorKind::UnexpectedToken);
}

#[test]
fn error_stack() {
    assert_eq!(run_err("pop eax\n").kind, ErrorKind::StackOutOfRange);
    assert_eq!(run_err("mov esp, 2\npush eax\n").kind, ErrorKind::StackOutOfRange);
}

#[test]
fn execute_before_preprocess_meets_empty_text() {
    let mut vm = machine("jmp L\nL: int 0x80\n");
    assert_eq!(vm.execute(3).unwrap_err().kind, ErrorKind::EndOfText);
    let mut ready = machine("jmp L\nL: int 0x80\n");
    assert!(ready.preprocess().is_ok());
    assert!(ready.execute(10).is_ok());
}

#[test]
fn step_limit() {
    let mut vm = machine("L: jmp L\n");
    assert!(vm.preprocess().is_ok());
    let e = vm.execute(100).unwrap_err();
    assert_eq!(e.kind, ErrorKind::StepLimit);
}

#[test]
fn scanner_tokens() {
    let mut s = Scanner::new("a.asm".to_string(), "  mov eax, [ebx+0x10]\n; c\nL1:".chars().collect());
    let expect = [
        (TokenType::INSTRUCTION, TokenValue::MOV, "mov", 1, 3),
        (TokenType::REGISTER, TokenValue::EAX, "eax", 1, 7),
        (TokenType::SYMBOL, TokenValue::COMMA, ",", 1, 10),
        (TokenType::SYMBOL, TokenValue::LBRACK, "[", 1, 12),
        (TokenType::REGISTER, TokenValue::EBX, "ebx", 1, 13),
        (TokenType::SYMBOL, TokenValue::PLUS, "+", 1, 16),
        (TokenType::IMMEDIATE_DATA, TokenValue::INTEGER_LITERAL, "0x10", 1, 17),
        (TokenType::SYMBOL, TokenValue::RBRACK, "]", 1, 21),
        (TokenType::LABEL, TokenValue::LABEL, "L1", 3, 1),
        (TokenType::SYMBOL, TokenValue::COLON, ":", 3, 3),
    ];
    for (t, v, name, line, col) in expect.iter() {
        let tok = match s.get_next_token() {
            Ok(tok) => tok,
            Err(_) => panic!("scan error"),
        };
        assert_eq!(tok.get_token_type(), *t);
        assert_eq!(tok.get_token_value(), *v);
        assert_eq!(tok.get_token_name(), name.to_string());
        let loc = tok.get_token_location();
        assert_eq!(loc.line, *line);
        assert_eq!(loc.column, *col);
    }
    let eof = match s.get_next_token() {
        Ok(tok) => tok,
        Err(_) => panic!("scan error"),
    };
    assert_eq!(eof.get_token_type(), TokenType::END_OF_FILE);
    assert_eq!(s.get_token().get_token_type(), TokenType::END_OF_FILE);
}

#[test]
fn scanner_value_and_precedence() {
    let mut s = Scanner::new("a.asm".to_string(), "4294967295 * -".chars().collect());
    let n = s.get_next_token().ok().unwrap();
    assert_eq!(n.get_int_value(), 4294967295);
    let t = s.get_next_token().ok().unwrap();
    assert_eq!(t.get_precedence(), 20);
    let m = s.get_next_token().ok().unwrap();
    assert_eq!(m.get_precedence(), 10);
}

#[test]
fn scanner_aliases() {
    let mut s = Scanner::new("a.asm".to_string(), "jz jnz jnle sal int".chars().collect());
    let want = [TokenValue::JE, TokenValue::JNE, TokenValue::JG, TokenValue::SHL, TokenValue::INT];
    for v in want.iter() {
        assert_eq!(s.get_next_token().ok().unwrap().get_token_value(), *v);
    }
}

#[test]
fn token_location_to_string() {
    let loc = TokenLocation::new("prog.asm".to_string(), 12, -3);
    assert_eq!(loc.to_string(), "prog.asm:12:-3:");
}

#[test]
fn token_to_string() {
    let t = Token::new_token(TokenType::REGISTER, TokenValue::EAX, TokenLocation::new("f.asm".to_string(), 2, 5), "eax".to_string());
    assert_eq!(t.to_string(), "f.asm:2:5: Token Type: register, Token Value: eax");
    assert_eq!(TokenType::IMMEDIATE_DATA.to_string(), "immediate data");
    assert_eq!(TokenType::END_OF_FILE.to_string(), "eof");
}

#[test]
fn token_constructors_and_setters() {
    let loc = TokenLocation::new("f.asm".to_string(), 1, 1);
    let mut t = Token::new_int_token(loc.duplicate(), "7".to_string(), 7);
    assert_eq!(t.get_int_value(), 7);
    t.set_int_value(-2);
    assert_eq!(t.get_int_value(), 0xFFFF_FFFE);
    let s = Token::new_symbol_token(TokenValue::TIMES, loc.duplicate(), "*".to_string(), 20);
    assert_eq!(s.get_precedence(), 20);
    assert_eq!(s.get_token_type(), TokenType::SYMBOL);
    let mut l = Token::new_token(TokenType::LABEL, TokenValue::LABEL, loc, "x".to_string());
    l.set_token_type(TokenType::IMMEDIATE_DATA);
    assert_eq!(l.get_token_type(), TokenType::IMMEDIATE_DATA);
    assert_eq!(l.get_token_value(), TokenValue::LABEL);
}

#[test]
fn cmp_sign_from_extended_difference() {
    let vm = run_ok("mov al, 0x80\ncmp al, 1\nint 0x80\n");
    assert_eq!(vm.get_flags(), flags(false, false, true, true));
    assert_eq!(vm.get_eax(), 0x80);
    let vm = run_ok("mov eax, 5\ncmp eax, 5\nint 0x80\n");
    assert_eq!(vm.get_flags(), flags(false, true, false, false));
}

#[test]
fn empty_source_has_no_instruction() {
    let e = run_err("");
    assert_eq!(e.kind, ErrorKind::EndOfText);
    assert_eq!(e.position, 0);
}

#[test]
fn extreme_immediates() {
    let vm = run_ok("mov eax, -2147483648\nmov ebx, 4294967295\nmov cx, -32768\nint 0x80\n");
    assert_eq!(vm.get_eax(), 0x8000_0000);
    assert_eq!(vm.get_ebx(), 0xFFFF_FFFF);
    assert_eq!(vm.get_ecx() & 0xFFFF, 0x8000);
    assert_eq!(run_err("mov eax, -2147483649\n").kind, ErrorKind::ImmediateOutOfRange);
}

#[test]
fn duplicate_label_last_wins() {
    let vm = run_ok("jmp L\nL: mov eax, 1\nint 0x80\nL: mov eax, 2\nint 0x80\n");
    assert_eq!(vm.get_eax(), 2);
}

#[test]
fn default_token_is_int() {
    let t = Token::default();
    assert_eq!(t.get_token_type(), TokenType::INSTRUCTION);
    assert_eq!(t.get_token_value(), TokenValue::INT);
    assert_eq!(t.get_token_name(), "int".to_string());
    assert_eq!(t.to_string(), ":0:0: Token Type: instruction, Token Value: int");
    let s = Scanner::new("a.asm".to_string(), "mov".chars().collect());
    assert_eq!(s.get_token().get_token_value(), TokenValue::INT);
}
