//! What can go wrong while assembling, and the wording of each fault in
//! the languages the assembler speaks.
use vstd::prelude::*;
use vstd::string::*;
use crate::target::help_message;
use crate::text::{str_eq, to_chars};

verus! {

/// The kinds of fault.
#[derive(Clone, Copy, Debug, PartialEq, Eq, Structural)]
pub enum ErrorKind {
    /// The command line is incomplete; the subject is the program's own name.
    Usage,
    /// The name given for the output file is not made of letters, digits and underscores.
    InvalidFileName,
    /// The source file cannot be read.
    CannotOpenFile,
    /// The output file cannot be written; the subject is the reason.
    CannotWriteFile,
    /// A symbol does not have the shape of a symbol.
    IllegalSymbol,
    /// A symbol is defined a second time.
    DuplicateSymbol,
    /// A symbol is spelled like an instruction.
    SymbolIsMnemonic,
    /// A symbol is spelled like a register.
    SymbolIsRegister,
    /// A symbol is spelled like a directive.
    SymbolIsReserved,
    /// No instruction has this mnemonic.
    UnknownMnemonic,
    /// `END` names a symbol that has no address yet.
    EndAtUnknownLocation,
    /// The operand of `START` is not a load address.
    IllegalStartAddress,
    /// The operand of `RESB` or `RESW` is not a size.
    IllegalSize,
    /// The operand of `WORD` is not a number in range.
    IllegalNumber,
    /// The operand of `BYTE` is neither `C'..'` nor `X'..'`.
    ByteFormat,
    /// A character constant holds a character outside ASCII.
    ByteNotAscii,
    /// A `BYTE` constant is longer than eight bytes.
    ByteTooLong,
    /// A hexadecimal constant has an odd number of digits.
    ByteOddHex,
    /// An instruction that takes no operand was given one.
    UnexpectedOperand,
    /// An instruction that takes an operand was given none.
    MissingOperand,
    /// No register has this name.
    UnknownRegister,
    /// The operand is not one register or two separated by a comma.
    RegisterOperandFormat,
    /// The operand is not a symbol, optionally followed by `,X`.
    SymbolOperandFormat,
    /// An instruction stands before `START`.
    MissingStart,
    /// `BASE` does not follow a load of the base register.
    BaseWithoutLoad,
    /// A load of the base register is not followed by `BASE`.
    LoadWithoutBase,
    /// `END` is missing or is not the last line with content.
    EndNotLast,
    /// The program name has more than six characters.
    ProgramNameTooLong,
    /// The program does not fit into the address space.
    ProgramTooLarge,
    /// A base-relative address is needed and no base is active.
    BaseNotSet,
    /// The target is out of reach of the base as well.
    BaseOutOfRange,
    /// The program name has no address.
    StartUnknown,
    /// The line has more than three fields.
    InvalidSource,
    /// An operand symbol was never defined.
    OperandNotFound,
    /// An operand symbol or the base it needs was never defined.
    OperandOrBaseNotFound,
    /// A line uses its own label as its operand.
    LabelEqualsOperand,
    /// The assembler met a state it should never be in; the subject says which.
    Internal,
}

/// The part of a line in which a fault was found.
#[derive(Clone, Copy, Debug, PartialEq, Eq, Structural)]
pub enum Role {
    /// The line as a whole.
    Line,
    /// The label of the line.
    Label,
    /// The operand of the line.
    Operand,
}

/// A fault: its kind, where it was found, and up to two texts it is about.
#[derive(Clone, Debug, PartialEq, Eq)]
pub struct AsmError {
    pub kind: ErrorKind,
    pub role: Role,
    pub subject: String,
    pub second: String,
}

/// The mathematical value of an [`AsmError`].
pub struct Fault {
    pub kind: ErrorKind,
    pub role: Role,
    pub subject: Seq<char>,
    pub second: Seq<char>,
}

impl View for AsmError {
    type V = Fault;

    open spec fn view(&self) -> Fault {
        Fault { kind: self.kind, role: self.role, subject: self.subject@, second: self.second@ }
    }
}

/// A fault of the given kind that is about no text.
pub open spec fn fault(kind: ErrorKind) -> Fault {
    Fault { kind, role: Role::Line, subject: Seq::empty(), second: Seq::empty() }
}

/// A fault of the given kind about one text.
pub open spec fn fault_about(kind: ErrorKind, subject: Seq<char>) -> Fault {
    Fault { kind, role: Role::Line, subject, second: Seq::empty() }
}

/// A fault of the given kind about two texts.
pub open spec fn fault_pair(kind: ErrorKind, subject: Seq<char>, second: Seq<char>) -> Fault {
    Fault { kind, role: Role::Line, subject, second }
}

/// The same fault, found in the given part of the line.
pub open spec fn fault_in(f: Fault, role: Role) -> Fault {
    Fault { kind: f.kind, role, subject: f.subject, second: f.second }
}

/// Whether the outcome `r` has the value `expected`.
pub open spec fn agrees<T>(r: Result<T, AsmError>, expected: Result<T, Fault>) -> bool {
    match r {
        Ok(v) => expected == Ok::<T, Fault>(v),
        Err(e) => expected == Err::<T, Fault>(e@),
    }
}

/// How many texts the wording of a kind of fault takes.
pub open spec fn arity(kind: ErrorKind) -> nat {
    match kind {
        ErrorKind::CannotWriteFile => 1,
        ErrorKind::IllegalSymbol => 1,
        ErrorKind::DuplicateSymbol => 1,
        ErrorKind::SymbolIsMnemonic => 1,
        ErrorKind::SymbolIsRegister => 1,
        ErrorKind::SymbolIsReserved => 1,
        ErrorKind::UnknownMnemonic => 1,
        ErrorKind::IllegalStartAddress => 1,
        ErrorKind::UnexpectedOperand => 1,
        ErrorKind::MissingOperand => 1,
        ErrorKind::UnknownRegister => 1,
        ErrorKind::ProgramNameTooLong => 1,
        ErrorKind::BaseOutOfRange => 1,
        ErrorKind::OperandNotFound => 1,
        ErrorKind::Internal => 1,
        ErrorKind::OperandOrBaseNotFound => 2,
        ErrorKind::Usage => 1,
        _ => 0,
    }
}

impl AsmError {
    /// A fault of the given kind that is about no text.
    pub fn new(kind: ErrorKind) -> (e: AsmError)
        ensures
            e@ == fault(kind),
    {
        AsmError { kind, role: Role::Line, subject: String::new(), second: String::new() }
    }

    /// A fault of the given kind about one text.
    pub fn about(kind: ErrorKind, subject: &str) -> (e: AsmError)
        ensures
            e@ == fault_about(kind, subject@),
    {
        AsmError {
            kind,
            role: Role::Line,
            subject: String::from_str(subject),
            second: String::new(),
        }
    }

    /// A fault of the given kind about two texts.
    pub fn pair(kind: ErrorKind, subject: &str, second: &str) -> (e: AsmError)
        ensures
            e@ == fault_pair(kind, subject@, second@),
    {
        AsmError {
            kind,
            role: Role::Line,
            subject: String::from_str(subject),
            second: String::from_str(second),
        }
    }

    /// The same fault, found in the given part of the line.
    pub fn within(self, role: Role) -> (e: AsmError)
        ensures
            e@ == fault_in(self@, role),
    {
        AsmError { kind: self.kind, role, subject: self.subject, second: self.second }
    }

    /// The wording of the fault in the language of `h`.
    pub fn message<H: ErrMsg + ?Sized>(&self, h: &H) -> (s: String)
        ensures
            s@ == message_text(self@, h),
    {
        let body: String = match self.kind {
            ErrorKind::Usage => help_message(self.subject.as_str()),
            ErrorKind::InvalidFileName => h.e001(),
            ErrorKind::CannotOpenFile => h.e002(),
            ErrorKind::CannotWriteFile => h.e003(self.subject.as_str()),
            ErrorKind::IllegalSymbol => h.e101(self.subject.as_str()),
            ErrorKind::DuplicateSymbol => h.e102(self.subject.as_str()),
            ErrorKind::SymbolIsMnemonic => h.e103(self.subject.as_str()),
            ErrorKind::SymbolIsRegister => h.e104(self.subject.as_str()),
            ErrorKind::SymbolIsReserved => h.e105(self.subject.as_str()),
            ErrorKind::UnknownMnemonic => h.e201(self.subject.as_str()),
            ErrorKind::EndAtUnknownLocation => h.e202(),
            ErrorKind::IllegalStartAddress => h.e203(self.subject.as_str()),
            ErrorKind::IllegalSize => h.e204(),
            ErrorKind::IllegalNumber => h.e205(),
            ErrorKind::ByteFormat => h.e206(),
            ErrorKind::ByteNotAscii => h.e207(),
            ErrorKind::ByteTooLong => h.e208(),
            ErrorKind::ByteOddHex => h.e209(),
            ErrorKind::UnexpectedOperand => h.e210(self.subject.as_str()),
            ErrorKind::MissingOperand => h.e211(self.subject.as_str()),
            ErrorKind::UnknownRegister => h.e212(self.subject.as_str()),
            ErrorKind::RegisterOperandFormat => h.e213(),
            ErrorKind::SymbolOperandFormat => h.e214(),
            ErrorKind::MissingStart => h.e301(),
            ErrorKind::BaseWithoutLoad => h.e302(),
            ErrorKind::LoadWithoutBase => h.e303(),
            ErrorKind::EndNotLast => h.e304(),
            ErrorKind::ProgramNameTooLong => h.e305(self.subject.as_str()),
            ErrorKind::ProgramTooLarge => h.e306(),
            ErrorKind::BaseNotSet => h.e307(),
            ErrorKind::BaseOutOfRange => h.e308(self.subject.as_str()),
            ErrorKind::StartUnknown => h.e309(),
            ErrorKind::InvalidSource => h.e310(),
            ErrorKind::OperandNotFound => h.e311(self.subject.as_str()),
            ErrorKind::OperandOrBaseNotFound => h.e312(self.subject.as_str(), self.second.as_str()),
            ErrorKind::LabelEqualsOperand => h.e313(),
            ErrorKind::Internal => h.e999(self.subject.as_str()),
        };
        let s: String = match self.role {
            Role::Line => body,
            Role::Label => String::from_str("label invalid: ").concat(body.as_str()),
            Role::Operand => String::from_str("operand invalid: ").concat(body.as_str()),
        };
        assert(s@ =~= message_text(self@, h));
        s
    }
}

/// What introduces the wording of a fault found in the given part of a line.
pub open spec fn role_prefix(role: Role) -> Seq<char> {
    match role {
        Role::Line => Seq::empty(),
        Role::Label => "label invalid: "@,
        Role::Operand => "operand invalid: "@,
    }
}

/// The wording of a fault in the language of `h`.
pub open spec fn message_text<H: ErrMsg + ?Sized>(f: Fault, h: &H) -> Seq<char> {
    let subject = if arity(f.kind) >= 1 {
        f.subject
    } else {
        Seq::empty()
    };
    let second = if arity(f.kind) >= 2 {
        f.second
    } else {
        Seq::empty()
    };
    role_prefix(f.role) + (if f.kind == ErrorKind::Usage {
        usage_text(f.subject)
    } else {
        h.text(f.kind, subject, second)
    })
}

/// How to call the assembler named `bin_path`.
pub open spec fn usage_text(bin_path: Seq<char>) -> Seq<char> {
    "Usage: "@ + bin_path
        + " <code path>\nuse -v for more information\nuse -o <out file name> for output file name"@
}

/// The wording of every kind of fault in one language.
pub trait ErrMsg {
    /// The wording of a fault of kind `kind` about `subject` and `second`;
    /// a kind that is about fewer texts is given empty ones.
    spec fn text(&self, kind: ErrorKind, subject: Seq<char>, second: Seq<char>) -> Seq<char>;

    fn e001(&self) -> (s: String)
        ensures
            s@ == self.text(ErrorKind::InvalidFileName, Seq::empty(), Seq::empty()),
    ;

    fn e002(&self) -> (s: String)
        ensures
            s@ == self.text(ErrorKind::CannotOpenFile, Seq::empty(), Seq::empty()),
    ;

    fn e003(&self, msg: &str) -> (s: String)
        ensures
            s@ == self.text(ErrorKind::CannotWriteFile, msg@, Seq::empty()),
    ;

    fn e101(&self, symbol: &str) -> (s: String)
        ensures
            s@ == self.text(ErrorKind::IllegalSymbol, symbol@, Seq::empty()),
    ;

    fn e102(&self, symbol: &str) -> (s: String)
        ensures
            s@ == self.text(ErrorKind::DuplicateSymbol, symbol@, Seq::empty()),
    ;

    fn e103(&self, symbol: &str) -> (s: String)
        ensures
            s@ == self.text(ErrorKind::SymbolIsMnemonic, symbol@, Seq::empty()),
    ;

    fn e104(&self, symbol: &str) -> (s: String)
        ensures
            s@ == self.text(ErrorKind::SymbolIsRegister, symbol@, Seq::empty()),
    ;

    fn e105(&self, symbol: &str) -> (s: String)
        ensures
            s@ == self.text(ErrorKind::SymbolIsReserved, symbol@, Seq::empty()),
    ;

    fn e201(&self, mnemonic: &str) -> (s: String)
        ensures
            s@ == self.text(ErrorKind::UnknownMnemonic, mnemonic@, Seq::empty()),
    ;

    fn e202(&self) -> (s: String)
        ensures
            s@ == self.text(ErrorKind::EndAtUnknownLocation, Seq::empty(), Seq::empty()),
    ;

    fn e203(&self, location: &str) -> (s: String)
        ensures
            s@ == self.text(ErrorKind::IllegalStartAddress, location@, Seq::empty()),
    ;

    fn e204(&self) -> (s: String)
        ensures
            s@ == self.text(ErrorKind::IllegalSize, Seq::empty(), Seq::empty()),
    ;

    fn e205(&self) -> (s: String)
        ensures
            s@ == self.text(ErrorKind::IllegalNumber, Seq::empty(), Seq::empty()),
    ;

    fn e206(&self) -> (s: String)
        ensures
            s@ == self.text(ErrorKind::ByteFormat, Seq::empty(), Seq::empty()),
    ;

    fn e207(&self) -> (s: String)
        ensures
            s@ == self.text(ErrorKind::ByteNotAscii, Seq::empty(), Seq::empty()),
    ;

    fn e208(&self) -> (s: String)
        ensures
            s@ == self.text(ErrorKind::ByteTooLong, Seq::empty(), Seq::empty()),
    ;

    fn e209(&self) -> (s: String)
        ensures
            s@ == self.text(ErrorKind::ByteOddHex, Seq::empty(), Seq::empty()),
    ;

    fn e210(&self, mnemonic: &str) -> (s: String)
        ensures
            s@ == self.text(ErrorKind::UnexpectedOperand, mnemonic@, Seq::empty()),
    ;

    fn e211(&self, mnemonic: &str) -> (s: String)
        ensures
            s@ == self.text(ErrorKind::MissingOperand, mnemonic@, Seq::empty()),
    ;

    fn e212(&self, register: &str) -> (s: String)
        ensures
            s@ == self.text(ErrorKind::UnknownRegister, register@, Seq::empty()),
    ;

    fn e213(&self) -> (s: String)
        ensures
            s@ == self.text(ErrorKind::RegisterOperandFormat, Seq::empty(), Seq::empty()),
    ;

    fn e214(&self) -> (s: String)
        ensures
            s@ == self.text(ErrorKind::SymbolOperandFormat, Seq::empty(), Seq::empty()),
    ;

    fn e301(&self) -> (s: String)
        ensures
            s@ == self.text(ErrorKind::MissingStart, Seq::empty(), Seq::empty()),
    ;

    fn e302(&self) -> (s: String)
        ensures
            s@ == self.text(ErrorKind::BaseWithoutLoad, Seq::empty(), Seq::empty()),
    ;

    fn e303(&self) -> (s: String)
        ensures
            s@ == self.text(ErrorKind::LoadWithoutBase, Seq::empty(), Seq::empty()),
    ;

    fn e304(&self) -> (s: String)
        ensures
            s@ == self.text(ErrorKind::EndNotLast, Seq::empty(), Seq::empty()),
    ;

    fn e305(&self, program_name: &str) -> (s: String)
        ensures
            s@ == self.text(ErrorKind::ProgramNameTooLong, program_name@, Seq::empty()),
    ;

    fn e306(&self) -> (s: String)
        ensures
            s@ == self.text(ErrorKind::ProgramTooLarge, Seq::empty(), Seq::empty()),
    ;

    fn e307(&self) -> (s: String)
        ensures
            s@ == self.text(ErrorKind::BaseNotSet, Seq::empty(), Seq::empty()),
    ;

    fn e308(&self, base: &str) -> (s: String)
        ensures
            s@ == self.text(ErrorKind::BaseOutOfRange, base@, Seq::empty()),
    ;

    fn e309(&self) -> (s: String)
        ensures
            s@ == self.text(ErrorKind::StartUnknown, Seq::empty(), Seq::empty()),
    ;

    fn e310(&self) -> (s: String)
        ensures
            s@ == self.text(ErrorKind::InvalidSource, Seq::empty(), Seq::empty()),
    ;

    fn e311(&self, operand: &str) -> (s: String)
        ensures
            s@ == self.text(ErrorKind::OperandNotFound, operand@, Seq::empty()),
    ;

    fn e312(&self, operand: &str, base: &str) -> (s: String)
        ensures
            s@ == self.text(ErrorKind::OperandOrBaseNotFound, operand@, base@),
    ;

    fn e313(&self) -> (s: String)
        ensures
            s@ == self.text(ErrorKind::LabelEqualsOperand, Seq::empty(), Seq::empty()),
    ;

    fn e999(&self, msg: &str) -> (s: String)
        ensures
            s@ == self.text(ErrorKind::Internal, msg@, Seq::empty()),
    ;

}

/// English.
pub struct EN;

/// Traditional Chinese.
pub struct ZH;

impl ErrMsg for EN {
    open spec fn text(&self, kind: ErrorKind, subject: Seq<char>, second: Seq<char>) -> Seq<char> {
        match kind {
            ErrorKind::Usage => usage_text(subject),
            ErrorKind::InvalidFileName => "E[001]: Invalid file name"@,
            ErrorKind::CannotOpenFile => "E[002]: Can't open file"@,
            ErrorKind::CannotWriteFile => "E[003]: Can not write file: "@ + subject,
            ErrorKind::IllegalSymbol => "E[101]: Illegal symbol: "@ + subject,
            ErrorKind::DuplicateSymbol => "E[102]: symbol "@ + subject + " already defined"@,
            ErrorKind::SymbolIsMnemonic => "E[103]: symbol "@ + subject + " is a mnemonic"@,
            ErrorKind::SymbolIsRegister => "E[104]: symbol "@ + subject + " is a register"@,
            ErrorKind::SymbolIsReserved => "E[105]: symbol "@ + subject + " is a reserve word"@,
            ErrorKind::UnknownMnemonic => "E[201]: unknown mnemonic: "@ + subject,
            ErrorKind::EndAtUnknownLocation => "E[202]: end at unknown location"@,
            ErrorKind::IllegalStartAddress => "E[203]: Illegal Start address："@ + subject + " must be positive 16 bit Hex"@,
            ErrorKind::IllegalSize => "E[204]: Illegal size: must be positive decimal, and small then 1048576 (word size is 3 bytes)"@,
            ErrorKind::IllegalNumber => "E[205]: Illegal number: must be decimal, and the range is -2048 to 2047"@,
            ErrorKind::ByteFormat => "E[206]: invalid format: The BYTE format is C'xxxx' or X'xxxx'"@,
            ErrorKind::ByteNotAscii => "E[207]: BYTE only support ASCII character"@,
            ErrorKind::ByteTooLong => "E[208]: BYTE only support 8 character"@,
            ErrorKind::ByteOddHex => "E[209]: BYTE X mode need whole hex, EX: F => 0F"@,
            ErrorKind::UnexpectedOperand => "E[210]: mnemonic "@ + subject + " doesn't have operand"@,
            ErrorKind::MissingOperand => "E[211]: mnemonic "@ + subject + " have operand"@,
            ErrorKind::UnknownRegister => "E[212]: register "@ + subject + " is not exist"@,
            ErrorKind::RegisterOperandFormat => "E[213]: Illegal operand format: format is [register] or [register, register]"@,
            ErrorKind::SymbolOperandFormat => "E[214]: Illegal operand format: format is [symbol] or [symbol, X]"@,
            ErrorKind::MissingStart => "E[301]: code need to start with a legal START mnemonic"@,
            ErrorKind::BaseWithoutLoad => "E[302]: BASE must be after LDB"@,
            ErrorKind::LoadWithoutBase => "E[303]: The next instruction of LDB must be BASE"@,
            ErrorKind::EndNotLast => "E[304]: END must be the last instruction"@,
            ErrorKind::ProgramNameTooLong => "E[305]: "@ + subject + " is not a valid program name, maximum length of program name is 6"@,
            ErrorKind::ProgramTooLarge => "E[306]: SIC/XE program is too large, maximum size is 1048576(2^20) bytes"@,
            ErrorKind::BaseNotSet => "E[307]: Need to use BASE, but you haven't defined it"@,
            ErrorKind::BaseOutOfRange => "E[308]: Use BASE "@ + subject + " also out of range"@,
            ErrorKind::StartUnknown => "E[309]: Start at unknown location"@,
            ErrorKind::InvalidSource => "E[310]: Invalid source code"@,
            ErrorKind::OperandNotFound => "E[311]: Operand "@ + subject + " not found"@,
            ErrorKind::OperandOrBaseNotFound => "E[312]: Operand "@ + subject + " or base "@ + second + " not found"@,
            ErrorKind::LabelEqualsOperand => "E[313]: Operand and label can not be same"@,
            ErrorKind::Internal => "E[999]: Assembler have bug: "@ + subject + ", please report it"@,
        }
    }

    fn e001(&self) -> (s: String) {
        let s = String::from_str("E[001]: Invalid file name");
        assert(s@ =~= "E[001]: Invalid file name"@);
        s
    }

    fn e002(&self) -> (s: String) {
        let s = String::from_str("E[002]: Can't open file");
        assert(s@ =~= "E[002]: Can't open file"@);
        s
    }

    fn e003(&self, msg: &str) -> (s: String) {
        let s = String::from_str("E[003]: Can not write file: ").concat(msg);
        assert(s@ =~= "E[003]: Can not write file: "@ + msg@);
        s
    }

    fn e101(&self, symbol: &str) -> (s: String) {
        let s = String::from_str("E[101]: Illegal symbol: ").concat(symbol);
        assert(s@ =~= "E[101]: Illegal symbol: "@ + symbol@);
        s
    }

    fn e102(&self, symbol: &str) -> (s: String) {
        let s = String::from_str("E[102]: symbol ").concat(symbol).concat(" already defined");
        assert(s@ =~= "E[102]: symbol "@ + symbol@ + " already defined"@);
        s
    }

    fn e103(&self, symbol: &str) -> (s: String) {
        let s = String::from_str("E[103]: symbol ").concat(symbol).concat(" is a mnemonic");
        assert(s@ =~= "E[103]: symbol "@ + symbol@ + " is a mnemonic"@);
        s
    }

    fn e104(&self, symbol: &str) -> (s: String) {
        let s = String::from_str("E[104]: symbol ").concat(symbol).concat(" is a register");
        assert(s@ =~= "E[104]: symbol "@ + symbol@ + " is a register"@);
        s
    }

    fn e105(&self, symbol: &str) -> (s: String) {
        let s = String::from_str("E[105]: symbol ").concat(symbol).concat(" is a reserve word");
        assert(s@ =~= "E[105]: symbol "@ + symbol@ + " is a reserve word"@);
        s
    }

    fn e201(&self, mnemonic: &str) -> (s: String) {
        let s = String::from_str("E[201]: unknown mnemonic: ").concat(mnemonic);
        assert(s@ =~= "E[201]: unknown mnemonic: "@ + mnemonic@);
        s
    }

    fn e202(&self) -> (s: String) {
        let s = String::from_str("E[202]: end at unknown location");
        assert(s@ =~= "E[202]: end at unknown location"@);
        s
    }

    fn e203(&self, location: &str) -> (s: String) {
        let s = String::from_str("E[203]: Illegal Start address：").concat(location).concat(" must be positive 16 bit Hex");
        assert(s@ =~= "E[203]: Illegal Start address："@ + location@ + " must be positive 16 bit Hex"@);
        s
    }

    fn e204(&self) -> (s: String) {
        let s = String::from_str("E[204]: Illegal size: must be positive decimal, and small then 1048576 (word size is 3 bytes)");
        assert(s@ =~= "E[204]: Illegal size: must be positive decimal, and small then 1048576 (word size is 3 bytes)"@);
        s
    }

    fn e205(&self) -> (s: String) {
        let s = String::from_str("E[205]: Illegal number: must be decimal, and the range is -2048 to 2047");
        assert(s@ =~= "E[205]: Illegal number: must be decimal, and the range is -2048 to 2047"@);
        s
    }

    fn e206(&self) -> (s: String) {
        let s = String::from_str("E[206]: invalid format: The BYTE format is C'xxxx' or X'xxxx'");
        assert(s@ =~= "E[206]: invalid format: The BYTE format is C'xxxx' or X'xxxx'"@);
        s
    }

    fn e207(&self) -> (s: String) {
        let s = String::from_str("E[207]: BYTE only support ASCII character");
        assert(s@ =~= "E[207]: BYTE only support ASCII character"@);
        s
    }

    fn e208(&self) -> (s: String) {
        let s = String::from_str("E[208]: BYTE only support 8 character");
        assert(s@ =~= "E[208]: BYTE only support 8 character"@);
        s
    }

    fn e209(&self) -> (s: String) {
        let s = String::from_str("E[209]: BYTE X mode need whole hex, EX: F => 0F");
        assert(s@ =~= "E[209]: BYTE X mode need whole hex, EX: F => 0F"@);
        s
    }

    fn e210(&self, mnemonic: &str) -> (s: String) {
        let s = String::from_str("E[210]: mnemonic ").concat(mnemonic).concat(" doesn't have operand");
        assert(s@ =~= "E[210]: mnemonic "@ + mnemonic@ + " doesn't have operand"@);
        s
    }

    fn e211(&self, mnemonic: &str) -> (s: String) {
        let s = String::from_str("E[211]: mnemonic ").concat(mnemonic).concat(" have operand");
        assert(s@ =~= "E[211]: mnemonic "@ + mnemonic@ + " have operand"@);
        s
    }

    fn e212(&self, register: &str) -> (s: String) {
        let s = String::from_str("E[212]: register ").concat(register).concat(" is not exist");
        assert(s@ =~= "E[212]: register "@ + register@ + " is not exist"@);
        s
    }

    fn e213(&self) -> (s: String) {
        let s = String::from_str("E[213]: Illegal operand format: format is [register] or [register, register]");
        assert(s@ =~= "E[213]: Illegal operand format: format is [register] or [register, register]"@);
        s
    }

    fn e214(&self) -> (s: String) {
        let s = String::from_str("E[214]: Illegal operand format: format is [symbol] or [symbol, X]");
        assert(s@ =~= "E[214]: Illegal operand format: format is [symbol] or [symbol, X]"@);
        s
    }

    fn e301(&self) -> (s: String) {
        let s = String::from_str("E[301]: code need to start with a legal START mnemonic");
        assert(s@ =~= "E[301]: code need to start with a legal START mnemonic"@);
        s
    }

    fn e302(&self) -> (s: String) {
        let s = String::from_str("E[302]: BASE must be after LDB");
        assert(s@ =~= "E[302]: BASE must be after LDB"@);
        s
    }

    fn e303(&self) -> (s: String) {
        let s = String::from_str("E[303]: The next instruction of LDB must be BASE");
        assert(s@ =~= "E[303]: The next instruction of LDB must be BASE"@);
        s
    }

    fn e304(&self) -> (s: String) {
        let s = String::from_str("E[304]: END must be the last instruction");
        assert(s@ =~= "E[304]: END must be the last instruction"@);
        s
    }

    fn e305(&self, program_name: &str) -> (s: String) {
        let s = String::from_str("E[305]: ").concat(program_name).concat(" is not a valid program name, maximum length of program name is 6");
        assert(s@ =~= "E[305]: "@ + program_name@ + " is not a valid program name, maximum length of program name is 6"@);
        s
    }

    fn e306(&self) -> (s: String) {
        let s = String::from_str("E[306]: SIC/XE program is too large, maximum size is 1048576(2^20) bytes");
        assert(s@ =~= "E[306]: SIC/XE program is too large, maximum size is 1048576(2^20) bytes"@);
        s
    }

    fn e307(&self) -> (s: String) {
        let s = String::from_str("E[307]: Need to use BASE, but you haven't defined it");
        assert(s@ =~= "E[307]: Need to use BASE, but you haven't defined it"@);
        s
    }

    fn e308(&self, base: &str) -> (s: String) {
        let s = String::from_str("E[308]: Use BASE ").concat(base).concat(" also out of range");
        assert(s@ =~= "E[308]: Use BASE "@ + base@ + " also out of range"@);
        s
    }

    fn e309(&self) -> (s: String) {
        let s = String::from_str("E[309]: Start at unknown location");
        assert(s@ =~= "E[309]: Start at unknown location"@);
        s
    }

    fn e310(&self) -> (s: String) {
        let s = String::from_str("E[310]: Invalid source code");
        assert(s@ =~= "E[310]: Invalid source code"@);
        s
    }

    fn e311(&self, operand: &str) -> (s: String) {
        let s = String::from_str("E[311]: Operand ").concat(operand).concat(" not found");
        assert(s@ =~= "E[311]: Operand "@ + operand@ + " not found"@);
        s
    }

    fn e312(&self, operand: &str, base: &str) -> (s: String) {
        let s = String::from_str("E[312]: Operand ").concat(operand).concat(" or base ").concat(base).concat(" not found");
        assert(s@ =~= "E[312]: Operand "@ + operand@ + " or base "@ + base@ + " not found"@);
        s
    }

    fn e313(&self) -> (s: String) {
        let s = String::from_str("E[313]: Operand and label can not be same");
        assert(s@ =~= "E[313]: Operand and label can not be same"@);
        s
    }

    fn e999(&self, msg: &str) -> (s: String) {
        let s = String::from_str("E[999]: Assembler have bug: ").concat(msg).concat(", please report it");
        assert(s@ =~= "E[999]: Assembler have bug: "@ + msg@ + ", please report it"@);
        s
    }

}

impl ErrMsg for ZH {
    open spec fn text(&self, kind: ErrorKind, subject: Seq<char>, second: Seq<char>) -> Seq<char> {
        match kind {
            ErrorKind::Usage => usage_text(subject),
            ErrorKind::InvalidFileName => "E[001]: 不合法的檔案名稱"@,
            ErrorKind::CannotOpenFile => "E[002]: 無法開啟檔案"@,
            ErrorKind::CannotWriteFile => "E[003]: 無法寫入檔案："@ + subject,
            ErrorKind::IllegalSymbol => "E[101]: 不合法的符號: "@ + subject,
            ErrorKind::DuplicateSymbol => "E[102]: 符號 "@ + subject + " 已經定義"@,
            ErrorKind::SymbolIsMnemonic => "E[103]: 符號 "@ + subject + " 是一個助憶碼"@,
            ErrorKind::SymbolIsRegister => "E[104]: 符號 "@ + subject + " 是一個暫存器名"@,
            ErrorKind::SymbolIsReserved => "E[105]: 符號 "@ + subject + " 是一個保留字"@,
            ErrorKind::UnknownMnemonic => "E[201]: 未知的助憶碼: "@ + subject,
            ErrorKind::EndAtUnknownLocation => "E[202]: 結束在未知的位置"@,
            ErrorKind::IllegalStartAddress => "E[203]: 不合法的起始位址："@ + subject + " 必須是正 16 位元數字"@,
            ErrorKind::IllegalSize => "E[204]: 不合法的大小：必須是正整數，並且小於 1048576 (word 是 3 位元組)"@,
            ErrorKind::IllegalNumber => "E[205]: 不合法的數字：必須是整數，並且範圍是 -2048 到 2047"@,
            ErrorKind::ByteFormat => "E[206]: 不合法的格式：BYTE 格式是 C'xxxx' 或 X'xxxx'"@,
            ErrorKind::ByteNotAscii => "E[207]: BYTE 只支援 ASCII 字元"@,
            ErrorKind::ByteTooLong => "E[208]: BYTE 只支援 8 個字元"@,
            ErrorKind::ByteOddHex => "E[209]: BYTE X 模式需要整個十六進位，EX: F => 0F"@,
            ErrorKind::UnexpectedOperand => "E[210]: 助憶碼 "@ + subject + " 不會有操作元"@,
            ErrorKind::MissingOperand => "E[211]: 助憶碼 "@ + subject + " 會有操作元"@,
            ErrorKind::UnknownRegister => "E[212]: 暫存器 "@ + subject + " 不存在"@,
            ErrorKind::RegisterOperandFormat => "E[213]: 不合法的操作元格式：格式是 [暫存器] 或 [暫存器,暫存器]"@,
            ErrorKind::SymbolOperandFormat => "E[214]: 不合法的操作元格式：格式是 [符號] 或 [符號, X]"@,
            ErrorKind::MissingStart => "E[301]: 程式需要以合法的 START 助憶碼開始"@,
            ErrorKind::BaseWithoutLoad => "E[302]: BASE 必須在 LDB 之後"@,
            ErrorKind::LoadWithoutBase => "E[303]: LDB 之後的下一個指令必須是 BASE"@,
            ErrorKind::EndNotLast => "E[304]: END 必須是最後一個指令"@,
            ErrorKind::ProgramNameTooLong => "E[305]: "@ + subject + " 不是合法的程式名稱，程式名稱的最大長度為 6"@,
            ErrorKind::ProgramTooLarge => "E[306]: SIC/XE 程式太大，最大可以為 1048576 (2^20) bytes"@,
            ErrorKind::BaseNotSet => "E[307]: 需要使用 BASE，但是尚未定義"@,
            ErrorKind::BaseOutOfRange => "E[308]: 使用 BASE "@ + subject + " 依然超過範圍"@,
            ErrorKind::StartUnknown => "E[309]: 程式起始位址未知"@,
            ErrorKind::InvalidSource => "E[310]: 不合法的原始碼"@,
            ErrorKind::OperandNotFound => "E[311]: 操作元 "@ + subject + " 未定義"@,
            ErrorKind::OperandOrBaseNotFound => "E[312]: 操作元 "@ + subject + " 或 BASE "@ + second + " 未定義"@,
            ErrorKind::LabelEqualsOperand => "E[313]: 操作元跟符號不能一樣"@,
            ErrorKind::Internal => "E[999]: "@ + subject + ", 請幫忙回報"@,
        }
    }

    fn e001(&self) -> (s: String) {
        let s = String::from_str("E[001]: 不合法的檔案名稱");
        assert(s@ =~= "E[001]: 不合法的檔案名稱"@);
        s
    }

    fn e002(&self) -> (s: String) {
        let s = String::from_str("E[002]: 無法開啟檔案");
        assert(s@ =~= "E[002]: 無法開啟檔案"@);
        s
    }

    fn e003(&self, msg: &str) -> (s: String) {
        let s = String::from_str("E[003]: 無法寫入檔案：").concat(msg);
        assert(s@ =~= "E[003]: 無法寫入檔案："@ + msg@);
        s
    }

    fn e101(&self, symbol: &str) -> (s: String) {
        let s = String::from_str("E[101]: 不合法的符號: ").concat(symbol);
        assert(s@ =~= "E[101]: 不合法的符號: "@ + symbol@);
        s
    }

    fn e102(&self, symbol: &str) -> (s: String) {
        let s = String::from_str("E[102]: 符號 ").concat(symbol).concat(" 已經定義");
        assert(s@ =~= "E[102]: 符號 "@ + symbol@ + " 已經定義"@);
        s
    }

    fn e103(&self, symbol: &str) -> (s: String) {
        let s = String::from_str("E[103]: 符號 ").concat(symbol).concat(" 是一個助憶碼");
        assert(s@ =~= "E[103]: 符號 "@ + symbol@ + " 是一個助憶碼"@);
        s
    }

    fn e104(&self, symbol: &str) -> (s: String) {
        let s = String::from_str("E[104]: 符號 ").concat(symbol).concat(" 是一個暫存器名");
        assert(s@ =~= "E[104]: 符號 "@ + symbol@ + " 是一個暫存器名"@);
        s
    }

    fn e105(&self, symbol: &str) -> (s: String) {
        let s = String::from_str("E[105]: 符號 ").concat(symbol).concat(" 是一個保留字");
        assert(s@ =~= "E[105]: 符號 "@ + symbol@ + " 是一個保留字"@);
        s
    }

    fn e201(&self, mnemonic: &str) -> (s: String) {
        let s = String::from_str("E[201]: 未知的助憶碼: ").concat(mnemonic);
        assert(s@ =~= "E[201]: 未知的助憶碼: "@ + mnemonic@);
        s
    }

    fn e202(&self) -> (s: String) {
        let s = String::from_str("E[202]: 結束在未知的位置");
        assert(s@ =~= "E[202]: 結束在未知的位置"@);
        s
    }

    fn e203(&self, location: &str) -> (s: String) {
        let s = String::from_str("E[203]: 不合法的起始位址：").concat(location).concat(" 必須是正 16 位元數字");
        assert(s@ =~= "E[203]: 不合法的起始位址："@ + location@ + " 必須是正 16 位元數字"@);
        s
    }

    fn e204(&self) -> (s: String) {
        let s = String::from_str("E[204]: 不合法的大小：必須是正整數，並且小於 1048576 (word 是 3 位元組)");
        assert(s@ =~= "E[204]: 不合法的大小：必須是正整數，並且小於 1048576 (word 是 3 位元組)"@);
        s
    }

    fn e205(&self) -> (s: String) {
        let s = String::from_str("E[205]: 不合法的數字：必須是整數，並且範圍是 -2048 到 2047");
        assert(s@ =~= "E[205]: 不合法的數字：必須是整數，並且範圍是 -2048 到 2047"@);
        s
    }

    fn e206(&self) -> (s: String) {
        let s = String::from_str("E[206]: 不合法的格式：BYTE 格式是 C'xxxx' 或 X'xxxx'");
        assert(s@ =~= "E[206]: 不合法的格式：BYTE 格式是 C'xxxx' 或 X'xxxx'"@);
        s
    }

    fn e207(&self) -> (s: String) {
        let s = String::from_str("E[207]: BYTE 只支援 ASCII 字元");
        assert(s@ =~= "E[207]: BYTE 只支援 ASCII 字元"@);
        s
    }

    fn e208(&self) -> (s: String) {
        let s = String::from_str("E[208]: BYTE 只支援 8 個字元");
        assert(s@ =~= "E[208]: BYTE 只支援 8 個字元"@);
        s
    }

    fn e209(&self) -> (s: String) {
        let s = String::from_str("E[209]: BYTE X 模式需要整個十六進位，EX: F => 0F");
        assert(s@ =~= "E[209]: BYTE X 模式需要整個十六進位，EX: F => 0F"@);
        s
    }

    fn e210(&self, mnemonic: &str) -> (s: String) {
        let s = String::from_str("E[210]: 助憶碼 ").concat(mnemonic).concat(" 不會有操作元");
        assert(s@ =~= "E[210]: 助憶碼 "@ + mnemonic@ + " 不會有操作元"@);
        s
    }

    fn e211(&self, mnemonic: &str) -> (s: String) {
        let s = String::from_str("E[211]: 助憶碼 ").concat(mnemonic).concat(" 會有操作元");
        assert(s@ =~= "E[211]: 助憶碼 "@ + mnemonic@ + " 會有操作元"@);
        s
    }

    fn e212(&self, register: &str) -> (s: String) {
        let s = String::from_str("E[212]: 暫存器 ").concat(register).concat(" 不存在");
        assert(s@ =~= "E[212]: 暫存器 "@ + register@ + " 不存在"@);
        s
    }

    fn e213(&self) -> (s: String) {
        let s = String::from_str("E[213]: 不合法的操作元格式：格式是 [暫存器] 或 [暫存器,暫存器]");
        assert(s@ =~= "E[213]: 不合法的操作元格式：格式是 [暫存器] 或 [暫存器,暫存器]"@);
        s
    }

    fn e214(&self) -> (s: String) {
        let s = String::from_str("E[214]: 不合法的操作元格式：格式是 [符號] 或 [符號, X]");
        assert(s@ =~= "E[214]: 不合法的操作元格式：格式是 [符號] 或 [符號, X]"@);
        s
    }

    fn e301(&self) -> (s: String) {
        let s = String::from_str("E[301]: 程式需要以合法的 START 助憶碼開始");
        assert(s@ =~= "E[301]: 程式需要以合法的 START 助憶碼開始"@);
        s
    }

    fn e302(&self) -> (s: String) {
        let s = String::from_str("E[302]: BASE 必須在 LDB 之後");
        assert(s@ =~= "E[302]: BASE 必須在 LDB 之後"@);
        s
    }

    fn e303(&self) -> (s: String) {
        let s = String::from_str("E[303]: LDB 之後的下一個指令必須是 BASE");
        assert(s@ =~= "E[303]: LDB 之後的下一個指令必須是 BASE"@);
        s
    }

    fn e304(&self) -> (s: String) {
        let s = String::from_str("E[304]: END 必須是最後一個指令");
        assert(s@ =~= "E[304]: END 必須是最後一個指令"@);
        s
    }

    fn e305(&self, program_name: &str) -> (s: String) {
        let s = String::from_str("E[305]: ").concat(program_name).concat(" 不是合法的程式名稱，程式名稱的最大長度為 6");
        assert(s@ =~= "E[305]: "@ + program_name@ + " 不是合法的程式名稱，程式名稱的最大長度為 6"@);
        s
    }

    fn e306(&self) -> (s: String) {
        let s = String::from_str("E[306]: SIC/XE 程式太大，最大可以為 1048576 (2^20) bytes");
        assert(s@ =~= "E[306]: SIC/XE 程式太大，最大可以為 1048576 (2^20) bytes"@);
        s
    }

    fn e307(&self) -> (s: String) {
        let s = String::from_str("E[307]: 需要使用 BASE，但是尚未定義");
        assert(s@ =~= "E[307]: 需要使用 BASE，但是尚未定義"@);
        s
    }

    fn e308(&self, base: &str) -> (s: String) {
        let s = String::from_str("E[308]: 使用 BASE ").concat(base).concat(" 依然超過範圍");
        assert(s@ =~= "E[308]: 使用 BASE "@ + base@ + " 依然超過範圍"@);
        s
    }

    fn e309(&self) -> (s: String) {
        let s = String::from_str("E[309]: 程式起始位址未知");
        assert(s@ =~= "E[309]: 程式起始位址未知"@);
        s
    }

    fn e310(&self) -> (s: String) {
        let s = String::from_str("E[310]: 不合法的原始碼");
        assert(s@ =~= "E[310]: 不合法的原始碼"@);
        s
    }

    fn e311(&self, operand: &str) -> (s: String) {
        let s = String::from_str("E[311]: 操作元 ").concat(operand).concat(" 未定義");
        assert(s@ =~= "E[311]: 操作元 "@ + operand@ + " 未定義"@);
        s
    }

    fn e312(&self, operand: &str, base: &str) -> (s: String) {
        let s = String::from_str("E[312]: 操作元 ").concat(operand).concat(" 或 BASE ").concat(base).concat(" 未定義");
        assert(s@ =~= "E[312]: 操作元 "@ + operand@ + " 或 BASE "@ + base@ + " 未定義"@);
        s
    }

    fn e313(&self) -> (s: String) {
        let s = String::from_str("E[313]: 操作元跟符號不能一樣");
        assert(s@ =~= "E[313]: 操作元跟符號不能一樣"@);
        s
    }

    fn e999(&self, msg: &str) -> (s: String) {
        let s = String::from_str("E[999]: ").concat(msg).concat(", 請幫忙回報");
        assert(s@ =~= "E[999]: "@ + msg@ + ", 請幫忙回報"@);
        s
    }

}

impl EN {
    /// The English wording.
    pub fn new() -> (r: EN)
        ensures
            r == EN,
    {
        EN
    }
}

impl ZH {
    /// The Chinese wording.
    pub fn new() -> (r: ZH)
        ensures
            r == ZH,
    {
        ZH
    }
}

/// Whether `zh` stands at position `i` of `s`.
pub open spec fn zh_at(s: Seq<char>, i: int) -> bool {
    0 <= i && i + 1 < s.len() && s[i] == 'z' && s[i + 1] == 'h'
}

/// Whether `zh` occurs somewhere in `s`.
pub open spec fn asks_for_chinese(s: Seq<char>) -> bool {
    exists|i: int| zh_at(s, i)
}

/// The language for a locale setting: `zh` when the setting is there and
/// holds `zh`, else `en`.
pub open spec fn lang_of(setting: Option<Seq<char>>) -> Seq<char> {
    match setting {
        Some(s) => if asks_for_chinese(s) {
            "zh"@
        } else {
            "en"@
        },
        None => "en"@,
    }
}

/// The characters of a locale setting, if there is one.
pub open spec fn setting_text(setting: Option<&str>) -> Option<Seq<char>> {
    match setting {
        Some(s) => Some(s@),
        None => None,
    }
}

/// The language for a locale setting.
pub fn lang(setting: Option<&str>) -> (l: &'static str)
    ensures
        l@ == lang_of(setting_text(setting)),
{
    match setting {
        None => "en",
        Some(s) => {
            let v = to_chars(s);
            if v.len() < 2 {
                return "en";
            }
            let mut i: usize = 0;
            while i < v.len() - 1
                invariant
                    setting == Some(s),
                    v@ == s@,
                    v.len() >= 2,
                    i <= v.len() - 1,
                    forall|k: int| 0 <= k < i ==> !zh_at(s@, k),
                decreases v.len() - i,
            {
                if v[i] == 'z' && v[i + 1] == 'h' {
                    assert(zh_at(s@, i as int));
                    return "zh";
                }
                i += 1;
            }
            "en"
        },
    }
}

/// The wording chosen for a run: one of the languages.
pub enum Handler {
    En(EN),
    Zh(ZH),
}

impl ErrMsg for Handler {
    open spec fn text(&self, kind: ErrorKind, subject: Seq<char>, second: Seq<char>) -> Seq<char> {
        match self {
            Handler::En(h) => h.text(kind, subject, second),
            Handler::Zh(h) => h.text(kind, subject, second),
        }
    }

    fn e001(&self) -> (s: String) {
        match self {
            Handler::En(h) => h.e001(),
            Handler::Zh(h) => h.e001(),
        }
    }

    fn e002(&self) -> (s: String) {
        match self {
            Handler::En(h) => h.e002(),
            Handler::Zh(h) => h.e002(),
        }
    }

    fn e003(&self, msg: &str) -> (s: String) {
        match self {
            Handler::En(h) => h.e003(msg),
            Handler::Zh(h) => h.e003(msg),
        }
    }

    fn e101(&self, symbol: &str) -> (s: String) {
        match self {
            Handler::En(h) => h.e101(symbol),
            Handler::Zh(h) => h.e101(symbol),
        }
    }

    fn e102(&self, symbol: &str) -> (s: String) {
        match self {
            Handler::En(h) => h.e102(symbol),
            Handler::Zh(h) => h.e102(symbol),
        }
    }

    fn e103(&self, symbol: &str) -> (s: String) {
        match self {
            Handler::En(h) => h.e103(symbol),
            Handler::Zh(h) => h.e103(symbol),
        }
    }

    fn e104(&self, symbol: &str) -> (s: String) {
        match self {
            Handler::En(h) => h.e104(symbol),
            Handler::Zh(h) => h.e104(symbol),
        }
    }

    fn e105(&self, symbol: &str) -> (s: String) {
        match self {
            Handler::En(h) => h.e105(symbol),
            Handler::Zh(h) => h.e105(symbol),
        }
    }

    fn e201(&self, mnemonic: &str) -> (s: String) {
        match self {
            Handler::En(h) => h.e201(mnemonic),
            Handler::Zh(h) => h.e201(mnemonic),
        }
    }

    fn e202(&self) -> (s: String) {
        match self {
            Handler::En(h) => h.e202(),
            Handler::Zh(h) => h.e202(),
        }
    }

    fn e203(&self, location: &str) -> (s: String) {
        match self {
            Handler::En(h) => h.e203(location),
            Handler::Zh(h) => h.e203(location),
        }
    }

    fn e204(&self) -> (s: String) {
        match self {
            Handler::En(h) => h.e204(),
            Handler::Zh(h) => h.e204(),
        }
    }

    fn e205(&self) -> (s: String) {
        match self {
            Handler::En(h) => h.e205(),
            Handler::Zh(h) => h.e205(),
        }
    }

    fn e206(&self) -> (s: String) {
        match self {
            Handler::En(h) => h.e206(),
            Handler::Zh(h) => h.e206(),
        }
    }

    fn e207(&self) -> (s: String) {
        match self {
            Handler::En(h) => h.e207(),
            Handler::Zh(h) => h.e207(),
        }
    }

    fn e208(&self) -> (s: String) {
        match self {
            Handler::En(h) => h.e208(),
            Handler::Zh(h) => h.e208(),
        }
    }

    fn e209(&self) -> (s: String) {
        match self {
            Handler::En(h) => h.e209(),
            Handler::Zh(h) => h.e209(),
        }
    }

    fn e210(&self, mnemonic: &str) -> (s: String) {
        match self {
            Handler::En(h) => h.e210(mnemonic),
            Handler::Zh(h) => h.e210(mnemonic),
        }
    }

    fn e211(&self, mnemonic: &str) -> (s: String) {
        match self {
            Handler::En(h) => h.e211(mnemonic),
            Handler::Zh(h) => h.e211(mnemonic),
        }
    }

    fn e212(&self, register: &str) -> (s: String) {
        match self {
            Handler::En(h) => h.e212(register),
            Handler::Zh(h) => h.e212(register),
        }
    }

    fn e213(&self) -> (s: String) {
        match self {
            Handler::En(h) => h.e213(),
            Handler::Zh(h) => h.e213(),
        }
    }

    fn e214(&self) -> (s: String) {
        match self {
            Handler::En(h) => h.e214(),
            Handler::Zh(h) => h.e214(),
        }
    }

    fn e301(&self) -> (s: String) {
        match self {
            Handler::En(h) => h.e301(),
            Handler::Zh(h) => h.e301(),
        }
    }

    fn e302(&self) -> (s: String) {
        match self {
            Handler::En(h) => h.e302(),
            Handler::Zh(h) => h.e302(),
        }
    }

    fn e303(&self) -> (s: String) {
        match self {
            Handler::En(h) => h.e303(),
            Handler::Zh(h) => h.e303(),
        }
    }

    fn e304(&self) -> (s: String) {
        match self {
            Handler::En(h) => h.e304(),
            Handler::Zh(h) => h.e304(),
        }
    }

    fn e305(&self, program_name: &str) -> (s: String) {
        match self {
            Handler::En(h) => h.e305(program_name),
            Handler::Zh(h) => h.e305(program_name),
        }
    }

    fn e306(&self) -> (s: String) {
        match self {
            Handler::En(h) => h.e306(),
            Handler::Zh(h) => h.e306(),
        }
    }

    fn e307(&self) -> (s: String) {
        match self {
            Handler::En(h) => h.e307(),
            Handler::Zh(h) => h.e307(),
        }
    }

    fn e308(&self, base: &str) -> (s: String) {
        match self {
            Handler::En(h) => h.e308(base),
            Handler::Zh(h) => h.e308(base),
        }
    }

    fn e309(&self) -> (s: String) {
        match self {
            Handler::En(h) => h.e309(),
            Handler::Zh(h) => h.e309(),
        }
    }

    fn e310(&self) -> (s: String) {
        match self {
            Handler::En(h) => h.e310(),
            Handler::Zh(h) => h.e310(),
        }
    }

    fn e311(&self, operand: &str) -> (s: String) {
        match self {
            Handler::En(h) => h.e311(operand),
            Handler::Zh(h) => h.e311(operand),
        }
    }

    fn e312(&self, operand: &str, base: &str) -> (s: String) {
        match self {
            Handler::En(h) => h.e312(operand, base),
            Handler::Zh(h) => h.e312(operand, base),
        }
    }

    fn e313(&self) -> (s: String) {
        match self {
            Handler::En(h) => h.e313(),
            Handler::Zh(h) => h.e313(),
        }
    }

    fn e999(&self, msg: &str) -> (s: String) {
        match self {
            Handler::En(h) => h.e999(msg),
            Handler::Zh(h) => h.e999(msg),
        }
    }

}

/// The wording for a locale setting: Chinese where the setting asks for it,
/// English otherwise.
pub fn handler(setting: Option<&str>) -> (h: Handler)
    ensures
        h == (if lang_of(setting_text(setting)) == "zh"@ {
            Handler::Zh(ZH)
        } else {
            Handler::En(EN)
        }),
{
    let l = lang(setting);
    proof {
        reveal_strlit("zh");
        reveal_strlit("en");
        assert("zh"@ != "en"@) by {
            assert("zh"@[0] == 'z');
            assert("en"@[0] == 'e');
        }
    }
    if str_eq(l, "zh") {
        Handler::Zh(ZH::new())
    } else {
        Handler::En(EN::new())
    }
}

} // verus!
