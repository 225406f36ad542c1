use sicxe_asm::err::{handler, lang, AsmError, ErrMsg, ErrorKind, Handler, Role, EN, ZH};
use sicxe_asm::target::{help_message, Target};

fn args(words: &[&str]) -> Vec<String> {
    words.iter().map(|w| String::from(*w)).collect()
}

#[test]
fn english_messages() {
    let en = EN::new();
    assert_eq!(en.e001(), "E[001]: Invalid file name");
    assert_eq!(en.e002(), "E[002]: Can't open file");
    assert_eq!(en.e003("disk full"), "E[003]: Can not write file: disk full");
    assert_eq!(en.e101("x"), "E[101]: Illegal symbol: x");
    assert_eq!(en.e102("A1"), "E[102]: symbol A1 already defined");
    assert_eq!(en.e103("LDA"), "E[103]: symbol LDA is a mnemonic");
    assert_eq!(en.e104("A"), "E[104]: symbol A is a register");
    assert_eq!(en.e105("WORD"), "E[105]: symbol WORD is a reserve word");
    assert_eq!(en.e201("FOO"), "E[201]: unknown mnemonic: FOO");
    assert_eq!(en.e202(), "E[202]: end at unknown location");
    assert_eq!(
        en.e203("XYZ"),
        "E[203]: Illegal Start address\u{ff1a}XYZ must be positive 16 bit Hex"
    );
    assert_eq!(
        en.e204(),
        "E[204]: Illegal size: must be positive decimal, and small then 1048576 (word size is 3 bytes)"
    );
    assert_eq!(
        en.e205(),
        "E[205]: Illegal number: must be decimal, and the range is -2048 to 2047"
    );
    assert_eq!(en.e206(), "E[206]: invalid format: The BYTE format is C'xxxx' or X'xxxx'");
    assert_eq!(en.e207(), "E[207]: BYTE only support ASCII character");
    assert_eq!(en.e208(), "E[208]: BYTE only support 8 character");
    assert_eq!(en.e209(), "E[209]: BYTE X mode need whole hex, EX: F => 0F");
    assert_eq!(en.e210("FIX"), "E[210]: mnemonic FIX doesn't have operand");
    assert_eq!(en.e211("LDA"), "E[211]: mnemonic LDA have operand");
    assert_eq!(en.e212("Q"), "E[212]: register Q is not exist");
    assert_eq!(
        en.e213(),
        "E[213]: Illegal operand format: format is [register] or [register, register]"
    );
    assert_eq!(en.e214(), "E[214]: Illegal operand format: format is [symbol] or [symbol, X]");
    assert_eq!(en.e301(), "E[301]: code need to start with a legal START mnemonic");
    assert_eq!(en.e302(), "E[302]: BASE must be after LDB");
    assert_eq!(en.e303(), "E[303]: The next instruction of LDB must be BASE");
    assert_eq!(en.e304(), "E[304]: END must be the last instruction");
    assert_eq!(
        en.e305("LONGNAME"),
        "E[305]: LONGNAME is not a valid program name, maximum length of program name is 6"
    );
    assert_eq!(
        en.e306(),
        "E[306]: SIC/XE program is too large, maximum size is 1048576(2^20) bytes"
    );
    assert_eq!(en.e307(), "E[307]: Need to use BASE, but you haven't defined it");
    assert_eq!(en.e308("TBL"), "E[308]: Use BASE TBL also out of range");
    assert_eq!(en.e309(), "E[309]: Start at unknown location");
    assert_eq!(en.e310(), "E[310]: Invalid source code");
    assert_eq!(en.e311("VAL"), "E[311]: Operand VAL not found");
    assert_eq!(en.e312("VAL", "TBL"), "E[312]: Operand VAL or base TBL not found");
    assert_eq!(en.e313(), "E[313]: Operand and label can not be same");
    assert_eq!(en.e999("oops"), "E[999]: Assembler have bug: oops, please report it");
}

#[test]
fn chinese_messages() {
    let zh = ZH::new();
    assert_eq!(zh.e001(), "E[001]: \u{4e0d}\u{5408}\u{6cd5}\u{7684}\u{6a94}\u{6848}\u{540d}\u{7a31}");
    assert_eq!(zh.e002(), "E[002]: \u{7121}\u{6cd5}\u{958b}\u{555f}\u{6a94}\u{6848}");
    assert_eq!(zh.e101("x"), "E[101]: \u{4e0d}\u{5408}\u{6cd5}\u{7684}\u{7b26}\u{865f}: x");
    assert_eq!(zh.e102("A1"), "E[102]: \u{7b26}\u{865f} A1 \u{5df2}\u{7d93}\u{5b9a}\u{7fa9}");
    assert_eq!(zh.e302(), "E[302]: BASE \u{5fc5}\u{9808}\u{5728} LDB \u{4e4b}\u{5f8c}");
    assert_eq!(
        zh.e305("LONGNAME"),
        "E[305]: LONGNAME \u{4e0d}\u{662f}\u{5408}\u{6cd5}\u{7684}\u{7a0b}\u{5f0f}\u{540d}\u{7a31}\u{ff0c}\u{7a0b}\u{5f0f}\u{540d}\u{7a31}\u{7684}\u{6700}\u{5927}\u{9577}\u{5ea6}\u{70ba} 6"
    );
    assert_eq!(zh.e311("VAL"), "E[311]: \u{64cd}\u{4f5c}\u{5143} VAL \u{672a}\u{5b9a}\u{7fa9}");
    assert_eq!(
        zh.e312("VAL", "TBL"),
        "E[312]: \u{64cd}\u{4f5c}\u{5143} VAL \u{6216} BASE TBL \u{672a}\u{5b9a}\u{7fa9}"
    );
    assert_eq!(zh.e999("oops"), "E[999]: oops, \u{8acb}\u{5e6b}\u{5fd9}\u{56de}\u{5831}");
    assert!(zh.e204().starts_with("E[204]: "));
    assert!(zh.e313().starts_with("E[313]: "));
}

#[test]
fn language_by_locale() {
    assert_eq!(lang(None), "en");
    assert_eq!(lang(Some("")), "en");
    assert_eq!(lang(Some("z")), "en");
    assert_eq!(lang(Some("en_US.UTF-8")), "en");
    assert_eq!(lang(Some("zh_TW.UTF-8")), "zh");
    assert_eq!(lang(Some("C.zh")), "zh");
    assert_eq!(lang(Some("zzh")), "zh");
    assert_eq!(lang(Some("ZH")), "en");
    assert!(matches!(handler(None), Handler::En(_)));
    assert!(matches!(handler(Some("de_DE")), Handler::En(_)));
    assert!(matches!(handler(Some("zh_CN")), Handler::Zh(_)));
    assert_eq!(handler(Some("zh_CN")).e304(), ZH::new().e304());
    assert_eq!(handler(Some("fr")).e304(), EN::new().e304());
    assert_eq!(handler(Some("fr")).e312("A1", "B1"), EN::new().e312("A1", "B1"));
    assert_eq!(handler(Some("zh")).e101("A1"), ZH::new().e101("A1"));
}

#[test]
fn wording_of_a_fault() {
    let en = EN::new();
    assert_eq!(AsmError::new(ErrorKind::InvalidSource).message(&en), "E[310]: Invalid source code");
    assert_eq!(
        AsmError::about(ErrorKind::IllegalSymbol, "x").within(Role::Label).message(&en),
        "label invalid: E[101]: Illegal symbol: x"
    );
    assert_eq!(
        AsmError::about(ErrorKind::SymbolIsRegister, "A").within(Role::Operand).message(&en),
        "operand invalid: E[104]: symbol A is a register"
    );
    assert_eq!(
        AsmError::pair(ErrorKind::OperandOrBaseNotFound, "VAL", "TBL").message(&en),
        "E[312]: Operand VAL or base TBL not found"
    );
    assert_eq!(
        AsmError::about(ErrorKind::CannotWriteFile, "denied").message(&ZH::new()),
        ZH::new().e003("denied")
    );
    let all = [
        (ErrorKind::InvalidFileName, en.e001()),
        (ErrorKind::CannotOpenFile, en.e002()),
        (ErrorKind::CannotWriteFile, en.e003("S")),
        (ErrorKind::IllegalSymbol, en.e101("S")),
        (ErrorKind::DuplicateSymbol, en.e102("S")),
        (ErrorKind::SymbolIsMnemonic, en.e103("S")),
        (ErrorKind::SymbolIsRegister, en.e104("S")),
        (ErrorKind::SymbolIsReserved, en.e105("S")),
        (ErrorKind::UnknownMnemonic, en.e201("S")),
        (ErrorKind::EndAtUnknownLocation, en.e202()),
        (ErrorKind::IllegalStartAddress, en.e203("S")),
        (ErrorKind::IllegalSize, en.e204()),
        (ErrorKind::IllegalNumber, en.e205()),
        (ErrorKind::ByteFormat, en.e206()),
        (ErrorKind::ByteNotAscii, en.e207()),
        (ErrorKind::ByteTooLong, en.e208()),
        (ErrorKind::ByteOddHex, en.e209()),
        (ErrorKind::UnexpectedOperand, en.e210("S")),
        (ErrorKind::MissingOperand, en.e211("S")),
        (ErrorKind::UnknownRegister, en.e212("S")),
        (ErrorKind::RegisterOperandFormat, en.e213()),
        (ErrorKind::SymbolOperandFormat, en.e214()),
        (ErrorKind::MissingStart, en.e301()),
        (ErrorKind::BaseWithoutLoad, en.e302()),
        (ErrorKind::LoadWithoutBase, en.e303()),
        (ErrorKind::EndNotLast, en.e304()),
        (ErrorKind::ProgramNameTooLong, en.e305("S")),
        (ErrorKind::ProgramTooLarge, en.e306()),
        (ErrorKind::BaseNotSet, en.e307()),
        (ErrorKind::BaseOutOfRange, en.e308("S")),
        (ErrorKind::StartUnknown, en.e309()),
        (ErrorKind::InvalidSource, en.e310()),
        (ErrorKind::OperandNotFound, en.e311("S")),
        (ErrorKind::OperandOrBaseNotFound, en.e312("S", "T")),
        (ErrorKind::LabelEqualsOperand, en.e313()),
        (ErrorKind::Internal, en.e999("S")),
    ];
    for (kind, text) in all {
        assert_eq!(AsmError::pair(kind, "S", "T").message(&en), text);
        assert_eq!(AsmError::pair(kind, "S", "T").kind, kind);
    }
}

#[test]
fn help_text() {
    let text = "Usage: asm <code path>\nuse -v for more information\nuse -o <out file name> for output file name";
    assert_eq!(help_message("asm"), text);
    assert_eq!(AsmError::about(ErrorKind::Usage, "asm").message(&EN::new()), text);
    assert_eq!(AsmError::about(ErrorKind::Usage, "asm").message(&ZH::new()), text);
}

#[test]
fn command_line() {
    let target = Target::new(&args(&["asm", "prog.asm"])).unwrap();
    assert_eq!(target.code_file_path(), "prog.asm");
    assert_eq!(target.execute_file_path(), "a.out");
    assert!(!target.verbose());
    let target = Target::new(&args(&["asm", "-v", "-o", "out_1", "prog.asm"])).unwrap();
    assert_eq!(target.code_file_path(), "prog.asm");
    assert_eq!(target.execute_file_path(), "out_1.out");
    assert!(target.verbose());
    let target = Target::new(&args(&["asm", "-x", "-o", "first", "-o", "second", "p"])).unwrap();
    assert_eq!(target.execute_file_path(), "second.out");
    let target = Target::new(&args(&["asm", "-v"])).unwrap();
    assert_eq!(target.code_file_path(), "-v");
    assert!(!target.verbose());
}

#[test]
fn command_line_faults() {
    let fault = Target::new(&args(&["asm"])).err().unwrap();
    assert_eq!((fault.kind, fault.subject.as_str()), (ErrorKind::Usage, "asm"));
    let fault = Target::new(&args(&[])).err().unwrap();
    assert_eq!((fault.kind, fault.subject.as_str()), (ErrorKind::Usage, ""));
    let fault = Target::new(&args(&["asm", "-o", "prog.asm"])).err().unwrap();
    assert_eq!((fault.kind, fault.subject.as_str()), (ErrorKind::Usage, "asm"));
    let fault = Target::new(&args(&["asm", "-o", "a.b", "prog.asm"])).err().unwrap();
    assert_eq!(fault.kind, ErrorKind::InvalidFileName);
    let fault = Target::new(&args(&["asm", "-o", "", "prog.asm"])).err().unwrap();
    assert_eq!(fault.kind, ErrorKind::InvalidFileName);
    let fault = Target::new(&args(&["asm", "-o", "out dir", "prog.asm"])).err().unwrap();
    assert_eq!(fault.kind, ErrorKind::InvalidFileName);
}
