use sicxe_asm::err::{ErrorKind, Role};
use sicxe_asm::parser::opcode_table::OpcodeTable;
use sicxe_asm::parser::{
    line_content, read_byte, read_reserve_size, read_start_address, read_word, register, reserved,
    split_fields, Code, Parser, SizeLimit,
};

fn started() -> Parser {
    let mut parser = Parser::new(false);
    let made = parser.translate(1, 0, "PROG START 0", "PROG START 0");
    assert!(made.is_ok());
    parser
}

fn encode(parser: &mut Parser, location: u32, line: &str) -> Code {
    let (code, _, _) = parser.translate(2, location, line, line).expect("a record");
    code
}

fn kind_of(parser: &mut Parser, location: u32, line: &str) -> ErrorKind {
    parser.translate(2, location, line, line).expect_err("a fault").kind
}

#[test]
fn byte_character_constant() {
    assert_eq!(read_byte("C'AB'").unwrap(), (0x4142, 2));
    let mut parser = Parser::new(false);
    let (code, offset, patches) = parser.translate(1, 0, "DATA BYTE C'AB'", "DATA BYTE C'AB'").unwrap();
    assert_eq!(code.obj_code, 0x4142);
    assert_eq!(code.byte, 2);
    assert_eq!(offset, 2);
    assert!(patches.is_empty());
    assert!(code.variable);
    assert!(!code.no_obj_code);
}

#[test]
fn byte_hexadecimal_constant() {
    assert_eq!(read_byte("X'0F'").unwrap(), (0x0F, 1));
    let mut parser = Parser::new(false);
    let (code, offset, _) = parser.translate(1, 0, "DATA BYTE X'0F'", "DATA BYTE X'0F'").unwrap();
    assert_eq!(code.obj_code, 0x0F);
    assert_eq!(code.byte, 1);
    assert_eq!(offset, 1);
}

#[test]
fn byte_odd_digit_count_is_rejected() {
    assert_eq!(read_byte("X'F'").unwrap_err().kind, ErrorKind::ByteOddHex);
    let mut parser = Parser::new(false);
    assert_eq!(kind_of(&mut parser, 0, "DATA BYTE X'F'"), ErrorKind::ByteOddHex);
}

#[test]
fn hexadecimal_constant_may_end_in_c() {
    let mut parser = Parser::new(false);
    let (code, offset, _) = parser.translate(1, 0, "HEX BYTE X'0C'", "HEX BYTE X'0C'").unwrap();
    assert_eq!((code.obj_code, code.byte, offset), (0x0C, 1, 1));
    assert_eq!(kind_of(&mut parser, 1, "BAD BYTE X'0F 1A'"), ErrorKind::ByteOddHex);
    assert_eq!(kind_of(&mut parser, 1, "BAD BYTE X'0F 1'"), ErrorKind::ByteFormat);
}

#[test]
fn byte_constants_at_their_limits() {
    assert_eq!(read_byte("C'EOF'").unwrap(), (0x454F46, 3));
    assert_eq!(read_byte("C'12345678'").unwrap(), (0x3132333435363738, 8));
    assert_eq!(read_byte("X'0123456789ABCDEF'").unwrap(), (0x0123456789ABCDEF, 8));
    assert_eq!(read_byte("X'ffFF'").unwrap(), (0xFFFF, 2));
    assert_eq!(read_byte("C'123456789'").unwrap_err().kind, ErrorKind::ByteTooLong);
    assert_eq!(read_byte("X'0123456789ABCDEF01'").unwrap_err().kind, ErrorKind::ByteTooLong);
}

#[test]
fn byte_of_any_other_shape_is_rejected() {
    assert_eq!(read_byte("C''").unwrap_err().kind, ErrorKind::ByteFormat);
    assert_eq!(read_byte("Z'00'").unwrap_err().kind, ErrorKind::ByteFormat);
    assert_eq!(read_byte("X'GG'").unwrap_err().kind, ErrorKind::ByteFormat);
    assert_eq!(read_byte("X'+F'").unwrap_err().kind, ErrorKind::ByteFormat);
    assert_eq!(read_byte("C'AB").unwrap_err().kind, ErrorKind::ByteFormat);
    assert_eq!(read_byte("CAB''").unwrap_err().kind, ErrorKind::ByteFormat);
    assert_eq!(read_byte("").unwrap_err().kind, ErrorKind::ByteFormat);
    assert_eq!(read_byte("C'\u{e9}'").unwrap_err().kind, ErrorKind::ByteNotAscii);
    assert_eq!(read_byte("C'123456789\u{e9}'").unwrap_err().kind, ErrorKind::ByteNotAscii);
}

#[test]
fn word_values() {
    assert_eq!(read_word("2047"), Some(0x0007FF));
    assert_eq!(read_word("-2048"), Some(0x000800));
    assert_eq!(read_word("-1"), Some(0xFFF));
    assert_eq!(read_word("+5"), Some(5));
    assert_eq!(read_word("0"), Some(0));
    assert_eq!(read_word("2048"), None);
    assert_eq!(read_word("-2049"), None);
    assert_eq!(read_word("abc"), None);
    assert_eq!(read_word(""), None);
    assert_eq!(read_word("-"), None);
    assert_eq!(read_word("99999999999999999999999"), None);
    let mut parser = Parser::new(false);
    let (code, offset, _) = parser.translate(1, 0, "MAXW WORD 2047", "MAXW WORD 2047").unwrap();
    assert_eq!(code.obj_code, 0x0007FF);
    assert_eq!(code.byte, 3);
    assert_eq!(offset, 3);
    let (code, _, _) = parser.translate(2, 3, "MINW WORD -2048", "MINW WORD -2048").unwrap();
    assert_eq!(code.obj_code, 0x000800);
    assert_eq!(kind_of(&mut parser, 6, "BAD WORD 2048"), ErrorKind::IllegalNumber);
}

#[test]
fn start_addresses() {
    assert_eq!(read_start_address("0"), Some(0));
    assert_eq!(read_start_address("1000"), Some(0x1000));
    assert_eq!(read_start_address("ff"), Some(0xFF));
    assert_eq!(read_start_address("FFFF"), Some(0xFFFF));
    assert_eq!(read_start_address("10000"), None);
    assert_eq!(read_start_address(""), None);
    assert_eq!(read_start_address("G"), None);
    assert_eq!(read_start_address("-1"), None);
    let mut parser = Parser::new(false);
    let (code, offset, patches) = parser.translate(1, 0, "COPY START 1000", "COPY START 1000").unwrap();
    assert_eq!(offset, 0x1000);
    assert!(code.no_obj_code);
    assert_eq!(code.byte, 0);
    assert!(patches.is_empty());
    assert_eq!(parser.program_name, "COPY");
    assert!(parser.program_start);
    assert_eq!(parser.program_length, 0x1000);
    assert_eq!(parser.get_symbol_location("COPY"), Some((0x1000, false)));
    let mut parser = Parser::new(false);
    assert_eq!(kind_of(&mut parser, 0, "COPY START XYZ"), ErrorKind::IllegalStartAddress);
    let fault = parser.translate(1, 0, "LONGNAME START 0", "LONGNAME START 0").unwrap_err();
    assert_eq!(fault.kind, ErrorKind::ProgramNameTooLong);
    assert_eq!(fault.subject, "LONGNAME");
}

#[test]
fn reserved_sizes() {
    assert_eq!(read_reserve_size("2", true), Some(6));
    assert_eq!(read_reserve_size("2", false), Some(2));
    assert_eq!(read_reserve_size("+5", false), Some(5));
    assert_eq!(read_reserve_size("0", true), Some(0));
    assert_eq!(read_reserve_size("349524", true), Some(1048572));
    assert_eq!(read_reserve_size("349525", true), None);
    assert_eq!(read_reserve_size("1048574", false), Some(1048574));
    assert_eq!(read_reserve_size("1048575", false), None);
    assert_eq!(read_reserve_size("4294967296", false), None);
    assert_eq!(read_reserve_size("-1", false), None);
    assert_eq!(read_reserve_size("x", true), None);
    assert_eq!(SizeLimit::Location.value(), 0xfffff);
    let mut parser = Parser::new(false);
    let (code, offset, _) = parser.translate(1, 7, "BUF RESW 2", "BUF RESW 2").unwrap();
    assert_eq!(offset, 6);
    assert_eq!(code.byte, 6);
    assert_eq!(code.location, 7);
    assert!(code.no_obj_code);
    assert!(code.variable);
    assert_eq!(code.obj_code, 0);
    assert_eq!(kind_of(&mut parser, 0, "BUF2 RESB -1"), ErrorKind::IllegalSize);
}

#[test]
fn formats_one_and_two() {
    let mut parser = started();
    let code = encode(&mut parser, 0, "FIX");
    assert_eq!((code.obj_code, code.byte, code.ni), (0xC4, 1, 0));
    let code = encode(&mut parser, 1, "CLEAR X");
    assert_eq!((code.obj_code, code.byte), (0xB410, 2));
    assert_eq!(code.operand, "X");
    let code = encode(&mut parser, 3, "COMPR A,S");
    assert_eq!((code.obj_code, code.byte), (0xA004, 2));
    let code = encode(&mut parser, 5, "TIXR T");
    assert_eq!((code.obj_code, code.byte), (0xB850, 2));
    let code = encode(&mut parser, 7, "+CLEAR F");
    assert_eq!((code.obj_code, code.byte), (0xB460, 2));
}

#[test]
fn format_two_faults() {
    let mut parser = started();
    assert_eq!(kind_of(&mut parser, 0, "CLEAR"), ErrorKind::MissingOperand);
    let fault = parser.translate(2, 0, "CLEAR Q", "CLEAR Q").unwrap_err();
    assert_eq!((fault.kind, fault.subject.as_str()), (ErrorKind::UnknownRegister, "Q"));
    let fault = parser.translate(2, 0, "ADDR A,Q", "ADDR A,Q").unwrap_err();
    assert_eq!((fault.kind, fault.subject.as_str()), (ErrorKind::UnknownRegister, "Q"));
    assert_eq!(kind_of(&mut parser, 0, "ADDR A,B,S"), ErrorKind::RegisterOperandFormat);
    assert_eq!(kind_of(&mut parser, 0, "ADDR A,"), ErrorKind::RegisterOperandFormat);
    assert_eq!(kind_of(&mut parser, 0, "FIX A"), ErrorKind::UnexpectedOperand);
}

#[test]
fn return_from_subroutine() {
    let mut parser = started();
    let code = encode(&mut parser, 0, "RSUB");
    assert_eq!((code.obj_code, code.byte, code.ni), (0x4F0000, 3, 3));
    assert!(!code.undone);
    assert_eq!(kind_of(&mut parser, 3, "RSUB X1"), ErrorKind::UnexpectedOperand);
}

#[test]
fn immediate_numbers_take_four_bytes() {
    let mut parser = started();
    let code = encode(&mut parser, 0, "LDA #3");
    assert_eq!((code.obj_code, code.byte, code.ni), (0x01100003, 4, 1));
    assert_eq!(code.operand, "3");
    assert!(!code.undone);
    let code = encode(&mut parser, 4, "LDA #-1");
    assert_eq!(code.obj_code, 0x011FFFFF);
    let code = encode(&mut parser, 8, "LDX #4096,X");
    assert_eq!((code.obj_code, code.byte), (0x05901000, 4));
}

#[test]
fn forward_references_wait() {
    let mut parser = started();
    let code = encode(&mut parser, 0, "LDA VAL");
    assert_eq!((code.obj_code, code.byte, code.ni), (0x030000, 3, 3));
    assert!(code.undone);
    assert_eq!(code.operand, "VAL");
    assert_eq!(parser.get_symbol_location("VAL"), Some((0, true)));
    let code = encode(&mut parser, 3, "+LDA VAL");
    assert_eq!((code.obj_code, code.byte), (0x03100000, 4));
    assert!(code.undone);
    let code = encode(&mut parser, 7, "LDA @PTR");
    assert_eq!((code.obj_code, code.ni), (0x020000, 2));
    let code = encode(&mut parser, 10, "STA BUF,X");
    assert_eq!(code.obj_code, 0x0F8000);
    let (_, _, patches) = parser.translate(9, 13, "VAL WORD 1", "VAL WORD 1").unwrap();
    assert_eq!(patches, vec![0, 3]);
    assert_eq!(parser.get_symbol_location("VAL"), Some((13, false)));
}

#[test]
fn defined_targets_are_encoded_at_once() {
    let mut parser = started();
    let _ = parser.translate(2, 16, "BUF RESB 4", "BUF RESB 4").unwrap();
    let code = encode(&mut parser, 0, "STA BUF,X");
    assert_eq!(code.obj_code, 0x0FA00D);
    assert!(!code.undone);
    let code = encode(&mut parser, 0x30, "J BUF");
    assert_eq!(code.obj_code, 0x3F2FDD);
    let code = encode(&mut parser, 0, "+JSUB BUF");
    assert_eq!((code.obj_code, code.byte), (0x4B100010, 4));
    let code = encode(&mut parser, 0, "LDA #BUF");
    assert_eq!((code.obj_code, code.byte, code.ni), (0x01200D, 3, 1));
}

#[test]
fn operand_faults() {
    let mut parser = started();
    assert_eq!(kind_of(&mut parser, 0, "LDA BUF,Y"), ErrorKind::SymbolOperandFormat);
    assert_eq!(kind_of(&mut parser, 0, "LDA BUF,X,X"), ErrorKind::SymbolOperandFormat);
    assert_eq!(kind_of(&mut parser, 0, "LDA"), ErrorKind::MissingOperand);
    let fault = parser.translate(2, 0, "LDA buf", "LDA buf").unwrap_err();
    assert_eq!((fault.kind, fault.role), (ErrorKind::IllegalSymbol, Role::Operand));
    assert_eq!(fault.subject, "buf");
    let fault = parser.translate(2, 0, "LDA #12A", "LDA #12A").unwrap_err();
    assert_eq!((fault.kind, fault.role), (ErrorKind::IllegalSymbol, Role::Operand));
    let fault = parser.translate(2, 0, "LDA WORD", "LDA WORD").unwrap_err();
    assert_eq!((fault.kind, fault.role), (ErrorKind::SymbolIsReserved, Role::Operand));
    let fault = parser.translate(2, 0, "FOO BAR", "FOO BAR").unwrap_err();
    assert_eq!((fault.kind, fault.subject.as_str()), (ErrorKind::UnknownMnemonic, "FOO"));
    let fault = parser.translate(2, 0, "+FOO BAR", "+FOO BAR").unwrap_err();
    assert_eq!((fault.kind, fault.subject.as_str()), (ErrorKind::UnknownMnemonic, "FOO"));
    assert_eq!(kind_of(&mut parser, 0, "A1 B1 C1 D1"), ErrorKind::InvalidSource);
    assert_eq!(kind_of(&mut parser, 0, "LOOP J LOOP"), ErrorKind::LabelEqualsOperand);
    assert_eq!(parser.get_symbol_location("LOOP"), Some((0, true)));
}

#[test]
fn label_faults() {
    let mut parser = started();
    let fault = parser.translate(2, 0, "1AB WORD 1", "1AB WORD 1").unwrap_err();
    assert_eq!((fault.kind, fault.role), (ErrorKind::IllegalSymbol, Role::Label));
    let fault = parser.translate(2, 0, "LDA WORD 1", "LDA WORD 1").unwrap_err();
    assert_eq!((fault.kind, fault.role), (ErrorKind::SymbolIsMnemonic, Role::Label));
    let fault = parser.translate(2, 0, "A WORD 1", "A WORD 1").unwrap_err();
    assert_eq!((fault.kind, fault.role), (ErrorKind::SymbolIsRegister, Role::Label));
    let fault = parser.translate(2, 0, "WORD WORD 1", "WORD WORD 1").unwrap_err();
    assert_eq!((fault.kind, fault.role), (ErrorKind::SymbolIsReserved, Role::Label));
    assert!(parser.translate(2, 0, "A1 WORD 1", "A1 WORD 1").is_ok());
    let fault = parser.translate(3, 3, "A1 WORD 2", "A1 WORD 2").unwrap_err();
    assert_eq!((fault.kind, fault.role), (ErrorKind::DuplicateSymbol, Role::Line));
    assert_eq!(fault.subject, "A1");
    assert_eq!(parser.get_symbol_location("A1"), Some((0, false)));
    let fault = parser.translate(4, 3, "A1 RSUB", "A1 RSUB").unwrap_err();
    assert_eq!(fault.kind, ErrorKind::DuplicateSymbol);
    let (code, _, _) = parser.translate(5, 3, "B1 RSUB", "B1 RSUB").unwrap();
    assert_eq!(code.obj_code, 0x4F0000);
    assert_eq!(parser.get_symbol_location("B1"), Some((3, false)));
}

#[test]
fn a_failed_label_rolls_the_reference_back() {
    let mut parser = started();
    let fault = parser.translate(2, 0, "1AB LDA VAL", "1AB LDA VAL").unwrap_err();
    assert_eq!(fault.kind, ErrorKind::IllegalSymbol);
    let _ = parser.translate(3, 0, "FIRST LDA OTHER", "FIRST LDA OTHER").unwrap();
    let (_, _, patches) = parser.translate(4, 3, "VAL WORD 1", "VAL WORD 1").unwrap();
    assert!(patches.is_empty());
    let (_, _, patches) = parser.translate(5, 6, "OTHER WORD 1", "OTHER WORD 1").unwrap();
    assert_eq!(patches, vec![0]);
}

#[test]
fn start_must_come_first() {
    let mut parser = Parser::new(false);
    assert_eq!(kind_of(&mut parser, 0, "RSUB"), ErrorKind::MissingStart);
    assert_eq!(kind_of(&mut parser, 0, "LDA VAL"), ErrorKind::MissingStart);
    assert_eq!(kind_of(&mut parser, 0, "FIRST LDA VAL"), ErrorKind::MissingStart);
    assert_eq!(parser.get_symbol_location("VAL"), None);
}

#[test]
fn base_follows_a_load_of_the_base_register() {
    let mut parser = started();
    assert_eq!(kind_of(&mut parser, 0, "BASE TBL"), ErrorKind::BaseWithoutLoad);
    let code = encode(&mut parser, 0, "LDB #TBL");
    assert_eq!(code.obj_code, 0x690000);
    assert!(parser.wait_for_base);
    assert_eq!(kind_of(&mut parser, 3, "LDA VAL"), ErrorKind::LoadWithoutBase);
    assert_eq!(kind_of(&mut parser, 3, "RSUB"), ErrorKind::LoadWithoutBase);
    assert_eq!(kind_of(&mut parser, 3, "X1 WORD 1"), ErrorKind::LoadWithoutBase);
    let fault = parser.translate(3, 3, "BASE 9", "BASE 9").unwrap_err();
    assert_eq!((fault.kind, fault.role), (ErrorKind::IllegalSymbol, Role::Operand));
    let (code, offset, _) = parser.translate(3, 3, "BASE TBL", "BASE TBL").unwrap();
    assert_eq!(offset, 0);
    assert!(code.no_obj_code);
    assert!(!parser.wait_for_base);
    assert_eq!(parser.base, "TBL");
    let code = encode(&mut parser, 3, "LDA VAL");
    assert_eq!(code.base, "TBL");
}

#[test]
fn end_names_the_first_instruction() {
    let mut parser = started();
    assert_eq!(kind_of(&mut parser, 0, "END NOPE"), ErrorKind::EndAtUnknownLocation);
    assert!(parser.program_end);
    let mut parser = started();
    let _ = parser.translate(2, 0, "FIRST LDA VAL", "FIRST LDA VAL").unwrap();
    assert_eq!(kind_of(&mut parser, 3, "END VAL"), ErrorKind::EndAtUnknownLocation);
    let mut parser = started();
    let _ = parser.translate(2, 5, "FIRST RSUB", "FIRST RSUB").unwrap();
    let (code, offset, _) = parser.translate(3, 8, "END FIRST", "END FIRST").unwrap();
    assert_eq!(offset, 0);
    assert!(code.no_obj_code);
    assert!(parser.program_end);
    assert_eq!(parser.program_start_address, 5);
    assert_eq!(kind_of(&mut parser, 8, "END FIRST"), ErrorKind::LoadWithoutBase);
}

#[test]
fn program_length_is_bounded() {
    let mut parser = started();
    let (_, offset, _) = parser.translate(2, 0, "A1 RESB 1048574", "A1 RESB 1048574").unwrap();
    assert_eq!(offset, 1048574);
    assert_eq!(parser.program_length, 1048574);
    let (_, _, _) = parser.translate(3, 1048574, "B1 RESB 1", "B1 RESB 1").unwrap();
    assert_eq!(parser.program_length, 0xfffff);
    assert_eq!(kind_of(&mut parser, 0xfffff, "C1 RESB 1"), ErrorKind::ProgramTooLarge);
}

#[test]
fn displacement_by_program_counter() {
    let mut parser = Parser::new(false);
    assert_eq!(parser.fill_operand(0, 3, "", 3).unwrap(), (0, false, 2));
    assert_eq!(parser.fill_operand(0, 3, "", 2050).unwrap(), (2047, false, 2));
    assert_eq!(parser.fill_operand(3000, 3003, "", 955).unwrap(), (-2048, false, 2));
    assert_eq!(parser.fill_operand(0, 3, "NOBASE", 0).unwrap(), (-3, false, 2));
    assert_eq!(parser.get_symbol_location("NOBASE"), None);
}

#[test]
fn displacement_by_base() {
    let mut parser = Parser::new(false);
    assert_eq!(parser.fill_operand(0, 3, "", 2051).unwrap_err().kind, ErrorKind::BaseNotSet);
    assert_eq!(parser.fill_operand(3000, 3003, "", 954).unwrap_err().kind, ErrorKind::BaseNotSet);
    assert_eq!(parser.fill_operand(0, 3, "9x", 5000).unwrap_err().kind, ErrorKind::IllegalSymbol);
    assert_eq!(parser.fill_operand(0, 3, "TBL", 5000).unwrap(), (0, true, 0));
    assert_eq!(parser.get_symbol_location("TBL"), Some((0, true)));
    let (_, _, patches) = parser.translate(1, 1000, "TBL RESB 1", "TBL RESB 1").unwrap();
    assert_eq!(patches, vec![0]);
    assert_eq!(parser.fill_operand(0, 3, "TBL", 5000).unwrap(), (4000, false, 4));
    assert_eq!(parser.fill_operand(0, 3, "TBL", 5095).unwrap(), (4095, false, 4));
    let fault = parser.fill_operand(0, 3, "TBL", 5096).unwrap_err();
    assert_eq!((fault.kind, fault.subject.as_str()), (ErrorKind::BaseOutOfRange, "TBL"));
    assert_eq!(parser.fill_operand(4000, 4003, "TBL", 999).unwrap_err().kind, ErrorKind::BaseOutOfRange);
}

#[test]
fn out_of_reach_lines_fail() {
    let mut parser = started();
    let _ = parser.translate(2, 0, "A1 RESB 3000", "A1 RESB 3000").unwrap();
    let _ = parser.translate(3, 3000, "B1 RESB 1", "B1 RESB 1").unwrap();
    assert_eq!(kind_of(&mut parser, 3001, "LDA A1"), ErrorKind::BaseNotSet);
    let _ = parser.translate(4, 3001, "LDB #B1", "LDB #B1").unwrap();
    let _ = parser.translate(5, 3004, "BASE B1", "BASE B1").unwrap();
    let fault = parser.translate(6, 3004, "LDA A1", "LDA A1").unwrap_err();
    assert_eq!((fault.kind, fault.subject.as_str()), (ErrorKind::BaseOutOfRange, "B1"));
    let code = encode(&mut parser, 3004, "LDA B1");
    assert_eq!(code.obj_code, 0x032FF9);
}

#[test]
fn object_code_fields() {
    let parser = Parser::new(false);
    assert_eq!(parser.fill_obj_code(0x00, 3, 2, 3, false), 0x032003);
    assert_eq!(parser.fill_obj_code(0x3C, 3, 2, -6, false), 0x3F2FFA);
    assert_eq!(parser.fill_obj_code(0x48, 3, 1, 0x1036, true), 0x4B101036);
    assert_eq!(parser.fill_obj_code(0x00, 1, 1, -1, true), 0x011FFFFF);
    assert_eq!(parser.fill_obj_code(0x00, 3, 0, 0x12345, false), 0x030345);
    assert_eq!(parser.fill_obj_code(0x00, 3, 9, 0x1234567, true), 0x03934567);
}

#[test]
fn unknown_format_class_is_an_internal_fault() {
    let mut parser = Parser::new(false);
    let fault = parser.code_translate(0, "XYZ", 0x10, "A1", 7, false).unwrap_err();
    assert_eq!(fault.kind, ErrorKind::Internal);
    assert_eq!(fault.subject, "instruction_format error: found XYZ is 7");
    let made = parser.code_translate(0, "FIX", 0xC4, "", 1, false).unwrap();
    assert_eq!(made, (0, 0xC4, String::new(), false, 1));
    let made = parser.code_translate(0, "RMO", 0xAC, "S,T", 2, true).unwrap();
    assert_eq!(made, (0, 0xAC45, String::from("S,T"), false, 2));
    let made = parser.code_translate(6, "LDA", 0x00, "@PTR,X", 34, false).unwrap();
    assert_eq!(made, (2, 0x028000, String::from("PTR"), true, 3));
}

#[test]
fn symbols_must_not_be_taken() {
    let parser = Parser::new(false);
    assert!(parser.symbol_legal("LOOP").is_ok());
    assert!(parser.symbol_legal("A1").is_ok());
    assert_eq!(parser.symbol_legal("loop").unwrap_err().kind, ErrorKind::IllegalSymbol);
    assert_eq!(parser.symbol_legal("").unwrap_err().kind, ErrorKind::IllegalSymbol);
    assert_eq!(parser.symbol_legal("1A").unwrap_err().kind, ErrorKind::IllegalSymbol);
    assert_eq!(parser.symbol_legal("A_B").unwrap_err().kind, ErrorKind::IllegalSymbol);
    assert_eq!(parser.symbol_legal("JSUB").unwrap_err().kind, ErrorKind::SymbolIsMnemonic);
    assert_eq!(parser.symbol_legal("T").unwrap_err().kind, ErrorKind::SymbolIsRegister);
    assert_eq!(parser.symbol_legal("RESW").unwrap_err().kind, ErrorKind::SymbolIsReserved);
    assert_eq!(parser.symbol_legal("BASE").unwrap_err().subject, "BASE");
}

#[test]
fn registers_and_directives() {
    let names = ["A", "X", "L", "B", "S", "T", "F"];
    for (i, name) in names.iter().enumerate() {
        assert_eq!(register(name), Some(i as u8));
    }
    assert_eq!(register("PC"), None);
    assert_eq!(register("a"), None);
    for name in ["WORD", "BYTE", "START", "END", "RESW", "RESB", "BASE"] {
        assert!(reserved(name));
    }
    assert!(!reserved("LDA"));
    assert!(!reserved("word"));
}

#[test]
fn flag_digit_of_a_record() {
    let record = |obj_code: u64, byte: u32| {
        Code::new(1, "", 0, 3, String::new(), String::new(), obj_code, byte, false, false, false)
    };
    assert_eq!(record(0x032003, 3).xbpe(), 2);
    assert_eq!(record(0x0FA00D, 3).xbpe(), 0xA);
    assert_eq!(record(0x4B100004, 4).xbpe(), 1);
    assert_eq!(record(0x03900000, 4).xbpe(), 9);
    assert_eq!(record(0xB410, 2).xbpe(), 0);
    assert_eq!(record(0xC4, 1).xbpe(), 0);
    assert_eq!(record(0x0123456789, 5).xbpe(), 0);
}

#[test]
fn records_hold_what_they_are_given() {
    let code = Code::new(
        7,
        "FIRST LDA VAL",
        0x20,
        3,
        String::from("TBL"),
        String::from("VAL"),
        0x030000,
        3,
        false,
        false,
        true,
    );
    assert_eq!(code.line_number, 7);
    assert_eq!(code.source_code, "FIRST LDA VAL");
    assert_eq!(code.location, 0x20);
    assert_eq!(code.ni, 3);
    assert_eq!(code.base, "TBL");
    assert_eq!(code.operand, "VAL");
    assert_eq!(code.obj_code, 0x030000);
    assert_eq!(code.byte, 3);
    assert!(!code.variable);
    assert!(!code.no_obj_code);
    assert!(code.undone);
    assert_eq!(code.clone(), code);
    let blank = Code::empty(9, String::from("  . note"));
    assert_eq!(blank.line_number, 9);
    assert_eq!(blank.source_code, "  . note");
    assert_eq!((blank.obj_code, blank.location, blank.byte, blank.ni), (0, 0, 0, 0));
    assert!(blank.no_obj_code);
    assert!(!blank.variable);
    assert!(!blank.undone);
    assert_eq!(blank.base, "");
    assert_eq!(blank.operand, "");
}

#[test]
fn settling_a_waiting_record() {
    let mut parser = started();
    let mut code = encode(&mut parser, 0, "LDA VAL");
    let fault = code.re_alloc(&mut parser).unwrap_err();
    assert_eq!(fault.kind, ErrorKind::Internal);
    assert_eq!(fault.subject, "operand VAL is not done, but call re_alloc");
    let mut stray = Code::new(1, "", 0, 3, String::new(), String::from("GONE"), 0x030000, 3, false, false, true);
    let fault = stray.re_alloc(&mut parser).unwrap_err();
    assert_eq!(fault.subject, "operand GONE is not defined, but call re_alloc");
    let _ = parser.translate(3, 3, "VAL WORD 1", "VAL WORD 1").unwrap();
    assert!(code.re_alloc(&mut parser).is_ok());
    assert_eq!(code.obj_code, 0x032000);
    assert!(!code.undone);
    assert_eq!((code.byte, code.location), (3, 0));
    let mut indexed = Code::new(1, "", 0x10, 3, String::new(), String::from("VAL"), 0x3F8000, 3, false, false, true);
    assert!(indexed.re_alloc(&mut parser).is_ok());
    assert_eq!(indexed.obj_code, 0x3FAFF0);
    let mut extended = Code::new(1, "", 0x10, 3, String::new(), String::from("VAL"), 0x03100000, 4, false, false, true);
    assert!(extended.re_alloc(&mut parser).is_ok());
    assert_eq!(extended.obj_code, 0x03100003);
    assert!(!extended.undone);
    let mut far = Code::new(1, "", 0x7fff_fffe, 3, String::new(), String::from("VAL"), 0x030000, 3, false, false, true);
    assert_eq!(far.re_alloc(&mut parser).unwrap_err().kind, ErrorKind::ProgramTooLarge);
    assert!(far.undone);
}

#[test]
fn a_record_goes_on_waiting_for_its_base() {
    let mut parser = started();
    let _ = parser.translate(2, 0, "LDB #TBL", "LDB #TBL").unwrap();
    let _ = parser.translate(3, 3, "BASE TBL", "BASE TBL").unwrap();
    let mut code = encode(&mut parser, 3, "LDA FAR");
    let _ = parser.translate(5, 4006, "FAR WORD 1", "FAR WORD 1").unwrap();
    assert!(code.re_alloc(&mut parser).is_ok());
    assert!(code.undone);
    assert_eq!(code.obj_code, 0x030000);
    let (_, _, patches) = parser.translate(6, 6, "TBL RESB 4000", "TBL RESB 4000").unwrap();
    assert_eq!(patches, vec![0, 3]);
    assert!(code.re_alloc(&mut parser).is_ok());
    assert!(!code.undone);
    assert_eq!(code.obj_code, 0x034FA0);
}

#[test]
fn instruction_table() {
    let table = OpcodeTable::new();
    assert_eq!(table.get("LDA"), Some(&(0x00, 34)));
    assert_eq!(table.get("ADD"), Some(&(0x18, 34)));
    assert_eq!(table.get("WD"), Some(&(0xDC, 34)));
    assert_eq!(table.get("TIXR"), Some(&(0xB8, 2)));
    assert_eq!(table.get("FIX"), Some(&(0xC4, 1)));
    assert_eq!(table.get("RSUB"), Some(&(0x4C, 34)));
    assert_eq!(table.get("LDB"), Some(&(0x68, 34)));
    assert_eq!(table.get("lda"), None);
    assert_eq!(table.get("BASE"), None);
    assert_eq!(table.get(""), None);
    assert!(table.contains_key("JSUB"));
    assert!(!table.contains_key("START"));
}

#[test]
fn fields_of_a_line() {
    assert_eq!(line_content("  FIRST LDA VAL  . load it"), "FIRST LDA VAL");
    assert_eq!(line_content(". nothing"), "");
    assert_eq!(line_content("   "), "");
    assert_eq!(split_fields("FIRST LDA VAL").unwrap(), vec!["FIRST", "LDA", "VAL"]);
    assert_eq!(split_fields("FIRST \t LDA\tVAL").unwrap(), vec!["FIRST", "LDA", "VAL"]);
    assert_eq!(split_fields("TXT BYTE C'A B'").unwrap(), vec!["TXT", "BYTE", "C'A B'"]);
    assert_eq!(split_fields("RSUB").unwrap(), vec!["RSUB"]);
    assert_eq!(split_fields("\u{e9}t\u{e9} BYTE C'\u{e9} \u{e9}'").unwrap(), vec!["\u{e9}t\u{e9}", "BYTE", "C'\u{e9} \u{e9}'"]);
    assert_eq!(split_fields("A B C D").unwrap().len(), 4);
    assert_eq!(split_fields("HEX BYTE X'0C'").unwrap(), vec!["HEX", "BYTE", "X'0C'"]);
    assert_eq!(split_fields("HEX BYTE X'0F 1A'").unwrap(), vec!["HEX", "BYTE", "X'0F 1A'"]);
    assert_eq!(split_fields("TXT BYTE C'A C'B X'C'").unwrap(), vec!["TXT", "BYTE", "C'A C'B X'C'"]);
    assert_eq!(split_fields("C'A B'").unwrap(), vec!["C'A", "B'"]);
}

#[test]
fn blank_lines_change_nothing() {
    let mut parser = Parser::new(false);
    let (code, offset, patches) = parser.translate(4, 12, "   . remark", "   . remark").unwrap();
    assert_eq!(code, Code::empty(4, String::from("   . remark")));
    assert_eq!(offset, 0);
    assert!(patches.is_empty());
    assert_eq!(parser.program_length, 0);
    let fields: Vec<String> = Vec::new();
    let (code, _, _) = parser.translate_fields(5, 12, &fields, "").unwrap();
    assert_eq!(code, Code::empty(5, String::new()));
}
