//! The line encoder: turns one source line into a record of object code,
//! with the symbol table and the state of the run it needs for that.
pub mod opcode_table;
pub mod symbol_table;

use vstd::prelude::*;
use vstd::string::*;
use vstd::utf8::{decode_utf8, encode_utf8, is_char_boundary};
use crate::err::{agrees, fault, fault_about, fault_in, AsmError, ErrorKind, Fault, Role};
use crate::pattern::{find_start, regex_find_start, regex_split, split};
use crate::text::{
    all_digits, decimal, first_index, lemma_number_bound,
    lemma_power_grows, number_value, numeral, parse_decimal, parse_unsigned, power, read_decimal,
    read_number, remove_char, str_eq, substring, texts, to_chars, trim, trimmed,
    without_char, find_char, digits_only, Alphabet,
};
use opcode_table::{instruction, OpcodeTable};
use symbol_table::{
    define, entry_text, forget, legal_symbol, probe, refer, Symbol, SymbolTable,
};

verus! {

/// The record of one source line.
#[derive(Clone, Debug, PartialEq, Eq)]
pub struct Code {
    /// The encoded value; it prints as twice `byte` hexadecimal digits.
    pub obj_code: u64,
    /// The address the line was given.
    pub location: u32,
    /// How many bytes the line takes.
    pub byte: u32,
    /// The addressing mode bits: 1 immediate, 2 indirect, 3 simple, 0 none.
    pub ni: u8,
    /// Whether the line is data or reserved space, not an instruction.
    pub variable: bool,
    /// Whether the line puts no bytes into the object module.
    pub no_obj_code: bool,
    /// The line as it was written.
    pub source_code: String,
    /// The number of the line in the source.
    pub line_number: u32,
    /// Whether the operand still waits for a symbol.
    pub undone: bool,
    /// The base symbol in force when the line was encoded.
    pub base: String,
    /// The operand of the line.
    pub operand: String,
}

/// The mathematical value of a [`Code`].
pub struct Line {
    pub obj_code: u64,
    pub location: u32,
    pub byte: u32,
    pub ni: u8,
    pub variable: bool,
    pub no_obj_code: bool,
    pub source_code: Seq<char>,
    pub line_number: u32,
    pub undone: bool,
    pub base: Seq<char>,
    pub operand: Seq<char>,
}

impl View for Code {
    type V = Line;

    open spec fn view(&self) -> Line {
        Line {
            obj_code: self.obj_code,
            location: self.location,
            byte: self.byte,
            ni: self.ni,
            variable: self.variable,
            no_obj_code: self.no_obj_code,
            source_code: self.source_code@,
            line_number: self.line_number,
            undone: self.undone,
            base: self.base@,
            operand: self.operand@,
        }
    }
}

/// The record of a line that takes no space: a blank line or a directive
/// that only changes the state of the run.
pub open spec fn empty_line(line_number: u32, source_code: Seq<char>) -> Line {
    Line {
        obj_code: 0,
        location: 0,
        byte: 0,
        ni: 0,
        variable: false,
        no_obj_code: true,
        source_code,
        line_number,
        undone: false,
        base: Seq::empty(),
        operand: Seq::empty(),
    }
}

/// The flag digit of a record: the third of the hexadecimal digits that an
/// instruction of three or four bytes prints as; zero for anything else.
pub open spec fn flags(code: Line) -> u8 {
    if code.byte == 3 {
        ((code.obj_code / 0x1000) % 16) as u8
    } else if code.byte == 4 {
        ((code.obj_code / 0x100000) % 16) as u8
    } else {
        0
    }
}

/// One more than the largest value of the address field: sixteen to the
/// fifth in the extended form, sixteen to the third otherwise.
pub open spec fn field_modulus(extension: bool) -> int {
    if extension {
        0x100000
    } else {
        0x1000
    }
}

/// The value of an instruction of format 3 or 4: opcode and addressing mode
/// in the first two digits, then the flag digit, then the address field,
/// which keeps the low digits of `operand`.
pub open spec fn object_code(opcode: u8, ni: u8, xbpe: u8, operand: int, extension: bool) -> int {
    (opcode + ni) * 16 * field_modulus(extension) + xbpe * field_modulus(extension) + operand
        % field_modulus(extension)
}

/// The largest program length, and the bound on reserved sizes.
pub enum SizeLimit {
    Location,
}

impl SizeLimit {
    /// The value of the limit.
    pub open spec fn spec_value(self) -> u32 {
        0xfffff
    }

    /// The value of the limit.
    #[verifier::when_used_as_spec(spec_value)]
    pub fn value(self) -> (r: u32)
        ensures
            r == self.spec_value(),
    {
        0xfffff
    }
}

/// What the encoder keeps from line to line.
pub struct Parser {
    pub opcode_table: OpcodeTable,
    pub symbol_table: SymbolTable,
    pub program_name: String,
    pub program_start: bool,
    pub program_start_address: u32,
    pub program_end: bool,
    pub program_length: u32,
    pub base: String,
    pub wait_for_base: bool,
    pub verbose: bool,
}

/// The mathematical value of a [`Parser`].
pub struct State {
    /// The symbol table.
    pub symbols: Map<Seq<char>, Symbol>,
    /// The name of the program, from `START`.
    pub program_name: Seq<char>,
    /// Whether `START` has been seen.
    pub program_start: bool,
    /// Where execution starts, from `END`.
    pub program_start_address: u32,
    /// Whether `END` has been seen.
    pub program_end: bool,
    /// The sum of the sizes of the lines so far.
    pub program_length: u32,
    /// The base symbol in force; empty when there is none.
    pub base: Seq<char>,
    /// Whether the base register was loaded and `BASE` must follow.
    pub wait_for_base: bool,
}

impl View for Parser {
    type V = State;

    open spec fn view(&self) -> State {
        State {
            symbols: self.symbol_table@,
            program_name: self.program_name@,
            program_start: self.program_start,
            program_start_address: self.program_start_address,
            program_end: self.program_end,
            program_length: self.program_length,
            base: self.base@,
            wait_for_base: self.wait_for_base,
        }
    }
}

/// What encoding an operand gives: addressing bits, value, the operand
/// symbol, whether it still waits for that symbol, and the size in bytes.
pub struct Encoded {
    pub ni: u8,
    pub obj_code: u64,
    pub operand: Seq<char>,
    pub undone: bool,
    pub byte: u8,
}

/// What a line gives: its record, the space it takes, and the locations of
/// the earlier lines that its label sets free.
pub struct Emitted {
    pub code: Line,
    pub offset: u32,
    pub patches: Seq<u32>,
}

/// The state after a line, and what the line gave.
pub struct Step {
    pub state: State,
    pub result: Result<Emitted, Fault>,
}

/// The pattern that splits the fields of a line.
pub const FIELD_GAP: &'static str = "[ \\t]+";

/// The pattern that starts a constant: a blank or a tab, then `C` or `X`
/// and a quote.
pub const CONSTANT_START: &'static str = "[ \\t][CX]'";

/// The pattern that splits the parts of an operand.
pub const COMMA: &'static str = ",";

/// The fault reported when the pattern matcher refuses a pattern.
pub open spec fn pattern_fault() -> Fault {
    fault_about(ErrorKind::Internal, "pattern not accepted"@)
}

/// The number of a register.
pub open spec fn register_id(name: Seq<char>) -> Option<u8> {
    if name == "A"@ {
        Some(0u8)
    } else if name == "X"@ {
        Some(1u8)
    } else if name == "L"@ {
        Some(2u8)
    } else if name == "B"@ {
        Some(3u8)
    } else if name == "S"@ {
        Some(4u8)
    } else if name == "T"@ {
        Some(5u8)
    } else if name == "F"@ {
        Some(6u8)
    } else {
        None
    }
}

/// Whether `name` is a directive.
pub open spec fn is_reserved(name: Seq<char>) -> bool {
    name == "WORD"@ || name == "BYTE"@ || name == "START"@ || name == "END"@ || name == "RESW"@
        || name == "RESB"@ || name == "BASE"@
}

/// Why `name` cannot be used as a symbol, if it cannot: it has not the shape
/// of one, or it is an instruction, a register or a directive.
pub open spec fn symbol_fault(name: Seq<char>) -> Option<Fault> {
    if !legal_symbol(name) {
        Some(fault_about(ErrorKind::IllegalSymbol, name))
    } else if instruction(name) is Some {
        Some(fault_about(ErrorKind::SymbolIsMnemonic, name))
    } else if register_id(name) is Some {
        Some(fault_about(ErrorKind::SymbolIsRegister, name))
    } else if is_reserved(name) {
        Some(fault_about(ErrorKind::SymbolIsReserved, name))
    } else {
        None
    }
}

/// How the address field of a three-byte instruction at `location` reaches
/// `target`, with the symbol table afterwards. `pc` is the address of the
/// next instruction. Within 2048 below and 2047 above `pc` the field holds
/// the distance and the flag 2, and the base is not looked at. Otherwise the
/// base symbol decides: without one the line fails; one that is not defined
/// yet makes the line wait for it; a defined one must lie at most 4095
/// below the target, and the field holds that distance with the flag 4.
pub open spec fn reach(
    symbols: Map<Seq<char>, Symbol>,
    location: u32,
    pc: i32,
    base: Seq<char>,
    target: u32,
) -> (Map<Seq<char>, Symbol>, Result<(i32, bool, u8), Fault>) {
    if -2048 <= target - pc <= 2047 {
        (symbols, Ok(((target - pc) as i32, false, 2u8)))
    } else if base.len() == 0 {
        (symbols, Err(fault(ErrorKind::BaseNotSet)))
    } else if !legal_symbol(base) {
        (symbols, Err(fault_about(ErrorKind::IllegalSymbol, base)))
    } else {
        let after = refer(symbols, base, location);
        if after.1.1 {
            (after.0, Ok((0i32, true, 0u8)))
        } else if 0 <= target - after.1.0 <= 4095 {
            (after.0, Ok(((target - after.1.0) as i32, false, 4u8)))
        } else {
            (after.0, Err(fault_about(ErrorKind::BaseOutOfRange, base)))
        }
    }
}

/// The encoding of an instruction of format 2: the opcode, then the numbers
/// of one or two registers.
pub open spec fn encode_registers(mnemonic: Seq<char>, opcode: u8, operand: Seq<char>) -> Result<
    Encoded,
    Fault,
> {
    if operand.len() == 0 {
        Err(fault_about(ErrorKind::MissingOperand, mnemonic))
    } else {
        match regex_split(COMMA@, operand) {
            None => Err(pattern_fault()),
            Some(parts) => if parts.len() == 1 {
                match register_id(parts[0]) {
                    Some(r1) => Ok(
                        Encoded {
                            ni: 0,
                            obj_code: (opcode * 256 + r1 * 16) as u64,
                            operand,
                            undone: false,
                            byte: 2,
                        },
                    ),
                    None => Err(fault_about(ErrorKind::UnknownRegister, parts[0])),
                }
            } else if parts.len() == 2 {
                if parts[0].len() == 0 || parts[1].len() == 0 {
                    Err(fault(ErrorKind::RegisterOperandFormat))
                } else {
                    match register_id(parts[0]) {
                        None => Err(fault_about(ErrorKind::UnknownRegister, parts[0])),
                        Some(r1) => match register_id(parts[1]) {
                            None => Err(fault_about(ErrorKind::UnknownRegister, parts[1])),
                            Some(r2) => Ok(
                                Encoded {
                                    ni: 0,
                                    obj_code: (opcode * 256 + r1 * 16 + r2) as u64,
                                    operand,
                                    undone: false,
                                    byte: 2,
                                },
                            ),
                        },
                    }
                }
            } else {
                Err(fault(ErrorKind::RegisterOperandFormat))
            },
        }
    }
}

/// The addressing bits that the first character of an operand asks for, and
/// the operand without that mark: `@` indirect, `#` immediate, else simple.
pub open spec fn addressing(operand: Seq<char>) -> (u8, Seq<char>) {
    if operand.len() > 0 && operand[0] == '@' {
        (2u8, without_char(operand, '@'))
    } else if operand.len() > 0 && operand[0] == '#' {
        (1u8, without_char(operand, '#'))
    } else {
        (3u8, operand)
    }
}

/// The encoding of an instruction of format 3 or 4 whose operand is the
/// symbol `target`, with the symbol table afterwards. `x` is the index flag.
pub open spec fn encode_symbol(
    symbols: Map<Seq<char>, Symbol>,
    base: Seq<char>,
    location: u32,
    opcode: u8,
    ni: u8,
    x: u8,
    target: Seq<char>,
    extension: bool,
) -> (Map<Seq<char>, Symbol>, Result<Encoded, Fault>) {
    match symbol_fault(target) {
        Some(f) => (symbols, Err(fault_in(f, Role::Operand))),
        None => {
            let after = refer(symbols, target, location);
            if after.1.1 || extension {
                (
                    after.0,
                    Ok(
                        Encoded {
                            ni,
                            obj_code: object_code(
                                opcode,
                                ni,
                                if extension {
                                    (x + 1) as u8
                                } else {
                                    x
                                },
                                after.1.0 as int,
                                extension,
                            ) as u64,
                            operand: target,
                            undone: after.1.1,
                            byte: if extension {
                                4
                            } else {
                                3
                            },
                        },
                    ),
                )
            } else if location + 3 > i32::MAX {
                (forget(after.0, target, location), Err(fault(ErrorKind::ProgramTooLarge)))
            } else {
                let found = reach(after.0, location, (location + 3) as i32, base, after.1.0);
                match found.1 {
                    Err(f) => (found.0, Err(f)),
                    Ok(r) => (
                        found.0,
                        Ok(
                            Encoded {
                                ni,
                                obj_code: object_code(
                                    opcode,
                                    ni,
                                    (x + r.2) as u8,
                                    r.0 as int,
                                    false,
                                ) as u64,
                                operand: target,
                                undone: r.1,
                                byte: 3,
                            },
                        ),
                    ),
                }
            }
        },
    }
}

/// An instruction of three bytes whose target is defined and lies within
/// 2048 below and 2047 above the next instruction is encoded relative to the
/// program counter: the flag 2, the distance in the field, nothing left to
/// wait for. The base has no part in it: whatever the base symbol is, the
/// encoding and the symbol table come out the same.
pub proof fn law_pc_relative(
    symbols: Map<Seq<char>, Symbol>,
    base: Seq<char>,
    other_base: Seq<char>,
    location: u32,
    opcode: u8,
    ni: u8,
    x: u8,
    target: Seq<char>,
)
    requires
        symbol_fault(target) is None,
        symbols.contains_key(target),
        !symbols[target].need_alloc,
        location + 3 <= i32::MAX,
        -2048 <= symbols[target].location - (location + 3) <= 2047,
    ensures
        encode_symbol(symbols, base, location, opcode, ni, x, target, false) == encode_symbol(
            symbols,
            other_base,
            location,
            opcode,
            ni,
            x,
            target,
            false,
        ),
        encode_symbol(symbols, base, location, opcode, ni, x, target, false).0 == symbols,
        encode_symbol(symbols, base, location, opcode, ni, x, target, false).1 == Ok::<
            Encoded,
            Fault,
        >(
            Encoded {
                ni,
                obj_code: object_code(
                    opcode,
                    ni,
                    (x + 2) as u8,
                    symbols[target].location - (location + 3),
                    false,
                ) as u64,
                operand: target,
                undone: false,
                byte: 3,
            },
        ),
{
}

/// Whether the base symbol `base` is defined in `symbols` and lies at most
/// 4095 below the address `target`.
pub open spec fn base_reaches(symbols: Map<Seq<char>, Symbol>, base: Seq<char>, target: u32) -> bool {
    &&& base.len() > 0
    &&& legal_symbol(base)
    &&& symbols.contains_key(base)
    &&& !symbols[base].need_alloc
    &&& 0 <= target - symbols[base].location <= 4095
}

/// An instruction of three bytes whose target is defined but out of reach
/// of the program counter is encoded if and only if a base symbol is in
/// force that is defined and lies at most 4095 below the target; it then
/// has the flag 4 and that distance in the field. Otherwise the line fails.
/// This leaves out a base symbol that has the shape of a symbol and is not
/// defined yet: for that one the line waits.
pub proof fn law_base_relative(
    symbols: Map<Seq<char>, Symbol>,
    base: Seq<char>,
    location: u32,
    opcode: u8,
    ni: u8,
    x: u8,
    target: Seq<char>,
)
    requires
        symbol_fault(target) is None,
        symbols.contains_key(target),
        !symbols[target].need_alloc,
        location + 3 <= i32::MAX,
        !(-2048 <= symbols[target].location - (location + 3) <= 2047),
        base.len() == 0 || !legal_symbol(base) || (symbols.contains_key(base)
            && !symbols[base].need_alloc),
    ensures
        encode_symbol(symbols, base, location, opcode, ni, x, target, false).1 is Ok
            <==> base_reaches(symbols, base, symbols[target].location),
        base_reaches(symbols, base, symbols[target].location) ==> encode_symbol(
            symbols,
            base,
            location,
            opcode,
            ni,
            x,
            target,
            false,
        ).1 == Ok::<Encoded, Fault>(
            Encoded {
                ni,
                obj_code: object_code(
                    opcode,
                    ni,
                    (x + 4) as u8,
                    symbols[target].location - symbols[base].location,
                    false,
                ) as u64,
                operand: target,
                undone: false,
                byte: 3,
            },
        ),
        encode_symbol(symbols, base, location, opcode, ni, x, target, false).0 == symbols,
{
}

/// The encoding of an instruction of format 3 or 4, with the symbol table
/// afterwards.
pub open spec fn encode_address(
    symbols: Map<Seq<char>, Symbol>,
    base: Seq<char>,
    location: u32,
    mnemonic: Seq<char>,
    opcode: u8,
    operand: Seq<char>,
    extension: bool,
) -> (Map<Seq<char>, Symbol>, Result<Encoded, Fault>) {
    if mnemonic == "RSUB"@ {
        if operand.len() != 0 {
            (symbols, Err(fault_about(ErrorKind::UnexpectedOperand, mnemonic)))
        } else {
            (
                symbols,
                Ok(
                    Encoded {
                        ni: 3,
                        obj_code: ((opcode + 3) * 0x10000) as u64,
                        operand: Seq::empty(),
                        undone: false,
                        byte: 3,
                    },
                ),
            )
        }
    } else if operand.len() == 0 {
        (symbols, Err(fault_about(ErrorKind::MissingOperand, mnemonic)))
    } else {
        let mode = addressing(operand);
        match regex_split(COMMA@, mode.1) {
            None => (symbols, Err(pattern_fault())),
            Some(parts) => if parts.len() == 0 || parts.len() > 2 || (parts.len() == 2 && parts[1]
                != "X"@) {
                (symbols, Err(fault(ErrorKind::SymbolOperandFormat)))
            } else {
                let x: u8 = if parts.len() == 2 {
                    8
                } else {
                    0
                };
                let number = if mode.0 == 1 {
                    parse_decimal(parts[0], true, i32::MIN as int, i32::MAX as int)
                } else {
                    None
                };
                match number {
                    Some(n) => (
                        symbols,
                        Ok(
                            Encoded {
                                ni: mode.0,
                                obj_code: object_code(opcode, mode.0, (x + 1) as u8, n, true) as u64,
                                operand: parts[0],
                                undone: false,
                                byte: 4,
                            },
                        ),
                    ),
                    None => encode_symbol(
                        symbols,
                        base,
                        location,
                        opcode,
                        mode.0,
                        x,
                        parts[0],
                        extension,
                    ),
                }
            },
        }
    }
}

/// What is reported of an instruction whose format class is none of 1, 2
/// and 34.
pub open spec fn format_fault(mnemonic: Seq<char>, format: u8) -> Fault {
    fault_about(
        ErrorKind::Internal,
        "instruction_format error: found "@ + mnemonic + " is "@ + numeral(format as nat, false),
    )
}

/// The encoding of an instruction by its format class, with the symbol table
/// afterwards.
pub open spec fn encode(
    symbols: Map<Seq<char>, Symbol>,
    base: Seq<char>,
    location: u32,
    mnemonic: Seq<char>,
    opcode: u8,
    operand: Seq<char>,
    format: u8,
    extension: bool,
) -> (Map<Seq<char>, Symbol>, Result<Encoded, Fault>) {
    if format == 1 {
        if operand.len() != 0 {
            (symbols, Err(fault_about(ErrorKind::UnexpectedOperand, mnemonic)))
        } else {
            (
                symbols,
                Ok(
                    Encoded {
                        ni: 0,
                        obj_code: opcode as u64,
                        operand: Seq::empty(),
                        undone: false,
                        byte: 1,
                    },
                ),
            )
        }
    } else if format == 2 {
        (symbols, encode_registers(mnemonic, opcode, operand))
    } else if format == 34 {
        encode_address(symbols, base, location, mnemonic, opcode, operand, extension)
    } else {
        (symbols, Err(format_fault(mnemonic, format)))
    }
}

/// Whether the outcome `r` of encoding an operand has the value `expected`.
pub open spec fn encoded_agrees(
    r: Result<(u8, u64, String, bool, u8), AsmError>,
    expected: Result<Encoded, Fault>,
) -> bool {
    match r {
        Ok(v) => expected == Ok::<Encoded, Fault>(
            Encoded { ni: v.0, obj_code: v.1, operand: v.2@, undone: v.3, byte: v.4 },
        ),
        Err(e) => expected == Err::<Encoded, Fault>(e@),
    }
}

/// The state `s` with another symbol table.
pub open spec fn with_symbols(s: State, symbols: Map<Seq<char>, Symbol>) -> State {
    State { symbols, ..s }
}

/// The state before the first line.
pub open spec fn initial_state() -> State {
    State {
        symbols: Map::empty(),
        program_name: Seq::empty(),
        program_start: false,
        program_start_address: 0,
        program_end: false,
        program_length: 0,
        base: Seq::empty(),
        wait_for_base: false,
    }
}

impl Code {
    /// A record with the given contents.
    pub fn new(
        line_number: u32,
        source_code: &str,
        location: u32,
        ni: u8,
        base: String,
        operand: String,
        obj_code: u64,
        byte: u32,
        variable: bool,
        no_obj_code: bool,
        undone: bool,
    ) -> (c: Code)
        ensures
            c@ == (Line {
                obj_code,
                location,
                byte,
                ni,
                variable,
                no_obj_code,
                source_code: source_code@,
                line_number,
                undone,
                base: base@,
                operand: operand@,
            }),
    {
        Code {
            line_number,
            source_code: String::from_str(source_code),
            location,
            ni,
            base,
            operand,
            obj_code,
            byte,
            variable,
            no_obj_code,
            undone,
        }
    }

    /// The record of a line that takes no space.
    pub fn empty(line_number: u32, source_code: String) -> (c: Code)
        ensures
            c@ == empty_line(line_number, source_code@),
    {
        Code {
            line_number,
            source_code,
            ni: 0,
            base: String::new(),
            operand: String::new(),
            obj_code: 0,
            location: 0,
            byte: 0,
            variable: false,
            no_obj_code: true,
            undone: false,
        }
    }

    /// The flag digit of the record.
    pub fn xbpe(&self) -> (r: u8)
        ensures
            r == flags(self@),
    {
        if self.byte == 3 {
            ((self.obj_code / 0x1000) % 16) as u8
        } else if self.byte == 4 {
            ((self.obj_code / 0x100000) % 16) as u8
        } else {
            0
        }
    }
}

/// The number of the register `name`, if it names one.
pub fn register(name: &str) -> (r: Option<u8>)
    ensures
        r == register_id(name@),
{
    if str_eq(name, "A") {
        Some(0)
    } else if str_eq(name, "X") {
        Some(1)
    } else if str_eq(name, "L") {
        Some(2)
    } else if str_eq(name, "B") {
        Some(3)
    } else if str_eq(name, "S") {
        Some(4)
    } else if str_eq(name, "T") {
        Some(5)
    } else if str_eq(name, "F") {
        Some(6)
    } else {
        None
    }
}

/// Whether `name` is a directive.
pub fn reserved(name: &str) -> (r: bool)
    ensures
        r == is_reserved(name@),
{
    str_eq(name, "WORD") || str_eq(name, "BYTE") || str_eq(name, "START") || str_eq(name, "END")
        || str_eq(name, "RESW") || str_eq(name, "RESB") || str_eq(name, "BASE")
}

/// The low digits of `value` that fit the address field.
fn low_digits(value: i64, extension: bool) -> (r: u64)
    requires
        -0x1_0000_0000 <= value <= 0x1_0000_0000,
    ensures
        r == (value as int) % field_modulus(extension),
        r < field_modulus(extension),
{
    let lifted: u64 = (value + 0x1_0000_0000) as u64;
    if extension {
        let low: u64 = lifted % 0x100000;
        assert(low == (value as int) % 0x100000);
        low
    } else {
        let low: u64 = lifted % 0x1000;
        assert(low == (value as int) % 0x1000);
        low
    }
}

/// The value of an instruction of format 3 or 4.
fn field_code(opcode: u8, ni: u8, xbpe: u8, operand: i64, extension: bool) -> (r: u64)
    requires
        -0x1_0000_0000 <= operand <= 0x1_0000_0000,
    ensures
        r == object_code(opcode, ni, xbpe, operand as int, extension),
{
    let low: u64 = low_digits(operand, extension);
    if extension {
        (opcode as u64 + ni as u64) * 16 * 0x100000 + (xbpe as u64) * 0x100000 + low
    } else {
        (opcode as u64 + ni as u64) * 16 * 0x1000 + (xbpe as u64) * 0x1000 + low
    }
}

impl Parser {
    /// The encoder is well formed when its tables are.
    pub open spec fn wf(&self) -> bool {
        self.opcode_table.wf() && self.symbol_table.wf()
    }

    /// An encoder before the first line.
    pub fn new(verbose: bool) -> (p: Parser)
        ensures
            p.wf(),
            p@ == initial_state(),
            p.verbose == verbose,
    {
        Parser {
            opcode_table: OpcodeTable::new(),
            symbol_table: SymbolTable::new(),
            program_name: String::new(),
            program_start: false,
            program_start_address: 0,
            program_end: false,
            program_length: 0,
            base: String::new(),
            wait_for_base: false,
            verbose,
        }
    }

    /// The address of `symbol` and whether it is still undefined, if the
    /// symbol table has it.
    pub fn get_symbol_location(&self, symbol: &str) -> (r: Option<(u32, bool)>)
        requires
            self.wf(),
        ensures
            r == probe(self@.symbols, symbol@),
    {
        self.symbol_table.get_location(symbol)
    }

    /// The listing of the symbol table, one line for each symbol.
    pub fn symbols_inter(&self) -> (out: Vec<String>)
        requires
            self.wf(),
        ensures
            out@.len() == self.symbol_table.order().len(),
            forall|i: int|
                0 <= i < out@.len() ==> (#[trigger] out@[i])@ == entry_text(
                    self.symbol_table.order()[i],
                    self@.symbols[self.symbol_table.order()[i]],
                ),
            forall|k: Seq<char>|
                self.symbol_table.order().contains(k) <==> self@.symbols.contains_key(k),
    {
        self.symbol_table.inter()
    }

    /// Checks that `label` can be used as a symbol.
    pub fn symbol_legal(&self, label: &str) -> (r: Result<(), AsmError>)
        requires
            self.wf(),
        ensures
            match r {
                Ok(_) => symbol_fault(label@) is None,
                Err(e) => symbol_fault(label@) == Some(e@),
            },
    {
        if !self.symbol_table.is_legal(label) {
            return Err(AsmError::about(ErrorKind::IllegalSymbol, label));
        }
        if self.opcode_table.contains_key(label) {
            return Err(AsmError::about(ErrorKind::SymbolIsMnemonic, label));
        }
        if register(label).is_some() {
            return Err(AsmError::about(ErrorKind::SymbolIsRegister, label));
        }
        if reserved(label) {
            return Err(AsmError::about(ErrorKind::SymbolIsReserved, label));
        }
        Ok(())
    }

    /// The value of an instruction of format 3 or 4.
    pub fn fill_obj_code(&self, opcode: u8, ni: u8, xbpe: u8, operand: i32, extension: bool) -> (r:
        u64)
        ensures
            r == object_code(opcode, ni, xbpe, operand as int, extension),
    {
        field_code(opcode, ni, xbpe, operand as i64, extension)
    }

    /// Finds how the address field of the three-byte instruction at
    /// `location` reaches `operand_location`: the field, whether the line
    /// must wait for the base symbol, and the flag to add.
    pub fn fill_operand(&mut self, location: u32, pc: i32, base: &str, operand_location: u32) -> (r:
        Result<(i32, bool, u8), AsmError>)
        requires
            old(self).wf(),
        ensures
            final(self).wf(),
            final(self)@ == with_symbols(
                old(self)@,
                reach(old(self)@.symbols, location, pc, base@, operand_location).0,
            ),
            agrees(r, reach(old(self)@.symbols, location, pc, base@, operand_location).1),
            r matches Ok(found) ==> -2048 <= found.0 <= 4095 && (found.2 == 0 || found.2 == 2
                || found.2 == 4),
            final(self).verbose == old(self).verbose,
    {
        let distance: i64 = operand_location as i64 - pc as i64;
        if -2048 <= distance && distance <= 2047 {
            return Ok((distance as i32, false, 2));
        }
        if base.unicode_len() == 0 {
            return Err(AsmError::new(ErrorKind::BaseNotSet));
        }
        match self.symbol_table.get_location_or_create(base, location) {
            Err(e) => Err(e),
            Ok((base_address, need_alloc)) => {
                if need_alloc {
                    return Ok((0, true, 0));
                }
                let disp: i64 = operand_location as i64 - base_address as i64;
                if disp > 4095 || disp < 0 {
                    return Err(AsmError::about(ErrorKind::BaseOutOfRange, base));
                }
                Ok((disp as i32, false, 4))
            },
        }
    }

    fn encode_registers(&self, mnemonic: &str, opcode: u8, operand_text: &str) -> (r: Result<
        (u8, u64, String, bool, u8),
        AsmError,
    >)
        ensures
            encoded_agrees(r, encode_registers(mnemonic@, opcode, operand_text@)),
    {
        if operand_text.unicode_len() == 0 {
            return Err(AsmError::about(ErrorKind::MissingOperand, mnemonic));
        }
        let parts = match split(COMMA, operand_text) {
            None => {
                return Err(AsmError::about(ErrorKind::Internal, "pattern not accepted"));
            },
            Some(parts) => parts,
        };
        if parts.len() == 1 {
            assert(texts(parts@)[0] == parts@[0]@);
            match register(parts[0].as_str()) {
                Some(r1) => Ok(
                    (
                        0,
                        opcode as u64 * 256 + r1 as u64 * 16,
                        String::from_str(operand_text),
                        false,
                        2,
                    ),
                ),
                None => Err(AsmError::about(ErrorKind::UnknownRegister, parts[0].as_str())),
            }
        } else if parts.len() == 2 {
            assert(texts(parts@)[0] == parts@[0]@);
            assert(texts(parts@)[1] == parts@[1]@);
            if parts[0].as_str().unicode_len() == 0 || parts[1].as_str().unicode_len() == 0 {
                return Err(AsmError::new(ErrorKind::RegisterOperandFormat));
            }
            match register(parts[0].as_str()) {
                None => Err(AsmError::about(ErrorKind::UnknownRegister, parts[0].as_str())),
                Some(r1) => match register(parts[1].as_str()) {
                    None => Err(AsmError::about(ErrorKind::UnknownRegister, parts[1].as_str())),
                    Some(r2) => Ok(
                        (
                            0,
                            opcode as u64 * 256 + r1 as u64 * 16 + r2 as u64,
                            String::from_str(operand_text),
                            false,
                            2,
                        ),
                    ),
                },
            }
        } else {
            Err(AsmError::new(ErrorKind::RegisterOperandFormat))
        }
    }

    fn encode_symbol(
        &mut self,
        location: u32,
        opcode: u8,
        ni: u8,
        x: u8,
        target: &str,
        extension: bool,
    ) -> (r: Result<(u8, u64, String, bool, u8), AsmError>)
        requires
            old(self).wf(),
            x == 0 || x == 8,
        ensures
            final(self).wf(),
            final(self)@ == with_symbols(
                old(self)@,
                encode_symbol(
                    old(self)@.symbols,
                    old(self)@.base,
                    location,
                    opcode,
                    ni,
                    x,
                    target@,
                    extension,
                ).0,
            ),
            encoded_agrees(
                r,
                encode_symbol(
                    old(self)@.symbols,
                    old(self)@.base,
                    location,
                    opcode,
                    ni,
                    x,
                    target@,
                    extension,
                ).1,
            ),
            final(self).verbose == old(self).verbose,
    {
        match self.symbol_legal(target) {
            Err(e) => {
                return Err(e.within(Role::Operand));
            },
            Ok(_) => {},
        }
        match self.symbol_table.get_location_or_create(target, location) {
            Err(e) => Err(e),
            Ok((operand_location, need_alloc)) => {
                if need_alloc || extension {
                    let flag: u8 = if extension {
                        x + 1
                    } else {
                        x
                    };
                    let byte: u8 = if extension {
                        4
                    } else {
                        3
                    };
                    let obj_code = field_code(opcode, ni, flag, operand_location as i64, extension);
                    return Ok((ni, obj_code, String::from_str(target), need_alloc, byte));
                }
                if location > 0x7fff_fffc {
                    self.symbol_table.remove_waiting(target, location);
                    return Err(AsmError::new(ErrorKind::ProgramTooLarge));
                }
                let pc: i32 = (location + 3) as i32;
                let base = self.base.clone();
                match self.fill_operand(location, pc, base.as_str(), operand_location) {
                    Err(e) => Err(e),
                    Ok((field, waiting, flag)) => {
                        let obj_code = field_code(opcode, ni, x + flag, field as i64, false);
                        Ok((ni, obj_code, String::from_str(target), waiting, 3))
                    },
                }
            },
        }
    }

    fn encode_address(
        &mut self,
        location: u32,
        mnemonic: &str,
        opcode: u8,
        operand_text: &str,
        extension: bool,
    ) -> (r: Result<(u8, u64, String, bool, u8), AsmError>)
        requires
            old(self).wf(),
        ensures
            final(self).wf(),
            final(self)@ == with_symbols(
                old(self)@,
                encode_address(
                    old(self)@.symbols,
                    old(self)@.base,
                    location,
                    mnemonic@,
                    opcode,
                    operand_text@,
                    extension,
                ).0,
            ),
            encoded_agrees(
                r,
                encode_address(
                    old(self)@.symbols,
                    old(self)@.base,
                    location,
                    mnemonic@,
                    opcode,
                    operand_text@,
                    extension,
                ).1,
            ),
            final(self).verbose == old(self).verbose,
    {
        let chars = to_chars(operand_text);
        if str_eq(mnemonic, "RSUB") {
            if chars.len() != 0 {
                return Err(AsmError::about(ErrorKind::UnexpectedOperand, mnemonic));
            }
            return Ok((3, (opcode as u64 + 3) * 0x10000, String::new(), false, 3));
        }
        if chars.len() == 0 {
            return Err(AsmError::about(ErrorKind::MissingOperand, mnemonic));
        }
        let ni: u8 = if chars[0] == '@' {
            2
        } else if chars[0] == '#' {
            1
        } else {
            3
        };
        let text: String = if chars[0] == '@' {
            remove_char(&chars, '@')
        } else if chars[0] == '#' {
            remove_char(&chars, '#')
        } else {
            String::from_str(operand_text)
        };
        let parts = match split(COMMA, text.as_str()) {
            None => {
                return Err(AsmError::about(ErrorKind::Internal, "pattern not accepted"));
            },
            Some(parts) => parts,
        };
        if parts.len() == 0 || parts.len() > 2 {
            return Err(AsmError::new(ErrorKind::SymbolOperandFormat));
        }
        assert(texts(parts@)[0] == parts@[0]@);
        let mut x: u8 = 0;
        if parts.len() == 2 {
            assert(texts(parts@)[1] == parts@[1]@);
            if str_eq(parts[1].as_str(), "X") {
                x = 8;
            } else {
                return Err(AsmError::new(ErrorKind::SymbolOperandFormat));
            }
        }
        let number: Option<i64> = if ni == 1 {
            read_decimal(parts[0].as_str(), true, -0x8000_0000, 0x7fff_ffff)
        } else {
            None
        };
        match number {
            Some(n) => {
                let obj_code = field_code(opcode, ni, x + 1, n, true);
                Ok((ni, obj_code, parts[0].clone(), false, 4))
            },
            None => self.encode_symbol(location, opcode, ni, x, parts[0].as_str(), extension),
        }
    }

    /// Encodes an instruction by its format class: addressing bits, value,
    /// operand, whether the operand still waits for a symbol, and size.
    pub fn code_translate(
        &mut self,
        location: u32,
        mnemonic: &str,
        opcode: u8,
        operand_text: &str,
        instruction_format: u8,
        extension: bool,
    ) -> (r: Result<(u8, u64, String, bool, u8), AsmError>)
        requires
            old(self).wf(),
        ensures
            final(self).wf(),
            final(self)@ == with_symbols(
                old(self)@,
                encode(
                    old(self)@.symbols,
                    old(self)@.base,
                    location,
                    mnemonic@,
                    opcode,
                    operand_text@,
                    instruction_format,
                    extension,
                ).0,
            ),
            encoded_agrees(
                r,
                encode(
                    old(self)@.symbols,
                    old(self)@.base,
                    location,
                    mnemonic@,
                    opcode,
                    operand_text@,
                    instruction_format,
                    extension,
                ).1,
            ),
            final(self).verbose == old(self).verbose,
    {
        if instruction_format == 1 {
            if operand_text.unicode_len() != 0 {
                return Err(AsmError::about(ErrorKind::UnexpectedOperand, mnemonic));
            }
            Ok((0, opcode as u64, String::new(), false, 1))
        } else if instruction_format == 2 {
            self.encode_registers(mnemonic, opcode, operand_text)
        } else if instruction_format == 34 {
            self.encode_address(location, mnemonic, opcode, operand_text, extension)
        } else {
            let text = String::from_str("instruction_format error: found ").concat(mnemonic).concat(
                " is ",
            ).concat(decimal(instruction_format as u64).as_str());
            Err(AsmError::about(ErrorKind::Internal, text.as_str()))
        }
    }
}

/// The record of an encoded instruction.
pub open spec fn instruction_line(
    s: State,
    line_number: u32,
    source_code: Seq<char>,
    location: u32,
    e: Encoded,
) -> Line {
    Line {
        obj_code: e.obj_code,
        location,
        byte: e.byte as u32,
        ni: e.ni,
        variable: false,
        no_obj_code: false,
        source_code,
        line_number,
        undone: e.undone,
        base: s.base,
        operand: e.operand,
    }
}

/// The record of a data directive.
pub open spec fn data_line(
    s: State,
    line_number: u32,
    source_code: Seq<char>,
    location: u32,
    operand: Seq<char>,
    obj_code: u64,
    byte: u32,
    no_obj_code: bool,
) -> Line {
    Line {
        obj_code,
        location,
        byte,
        ni: 0,
        variable: true,
        no_obj_code,
        source_code,
        line_number,
        undone: false,
        base: s.base,
        operand,
    }
}

/// A line that fails.
pub open spec fn stop(state: State, f: Fault) -> Step {
    Step { state, result: Err(f) }
}

/// The end of every line with content: the line's size is added to the
/// program length, which must stay below two to the twentieth.
pub open spec fn close(s: State, code: Line, offset: u32, patches: Seq<u32>) -> Step {
    if s.program_length + offset > u32::MAX {
        stop(s, fault(ErrorKind::ProgramTooLarge))
    } else {
        let grown = State { program_length: (s.program_length + offset) as u32, ..s };
        if grown.program_length > SizeLimit::Location.spec_value() {
            stop(grown, fault(ErrorKind::ProgramTooLarge))
        } else {
            Step { state: grown, result: Ok(Emitted { code, offset, patches }) }
        }
    }
}

/// The state `s` after the line at `location` has stopped waiting for
/// `name`, where `rollback` is set.
pub open spec fn rolled_back(s: State, rollback: bool, name: Seq<char>, location: u32) -> State {
    if rollback {
        with_symbols(s, forget(s.symbols, name, location))
    } else {
        s
    }
}

/// Defines the label of a line at `address` and closes the line. A label
/// that cannot be a symbol, or that is defined already, fails the line.
pub open spec fn labelled(
    s: State,
    label: Seq<char>,
    address: u32,
    code: Line,
    offset: u32,
    location: u32,
    rollback: bool,
) -> Step {
    match symbol_fault(label) {
        Some(f) => stop(rolled_back(s, rollback, code.operand, location), fault_in(f, Role::Label)),
        None => match define(s.symbols, label, address) {
            None => stop(
                rolled_back(s, rollback, code.operand, location),
                fault_about(ErrorKind::DuplicateSymbol, label),
            ),
            Some(defined) => close(with_symbols(s, defined.0), code, offset, defined.1),
        },
    }
}

/// Whether a mnemonic carries the extension marker `+`, and the mnemonic
/// without it.
pub open spec fn marked(field: Seq<char>) -> (bool, Seq<char>) {
    if field.len() > 0 && field[0] == '+' {
        (true, field.drop_first())
    } else {
        (false, field)
    }
}

/// Encodes the instruction written as `field` with `operand`: a load of the
/// base register makes `BASE` due, an unknown mnemonic fails.
pub open spec fn instruction_step(s: State, location: u32, field: Seq<char>, operand: Seq<char>) -> (
    State,
    Result<Encoded, Fault>,
) {
    let m = marked(field);
    let s1 = if m.1 == "LDB"@ {
        State { wait_for_base: true, ..s }
    } else {
        s
    };
    match instruction(m.1) {
        None => (s1, Err(fault_about(ErrorKind::UnknownMnemonic, m.1))),
        Some(found) => {
            let e = encode(s1.symbols, s1.base, location, m.1, found.0, operand, found.1, m.0);
            (with_symbols(s1, e.0), e.1)
        },
    }
}

/// A line of one field: an instruction without operand.
pub open spec fn one_field(
    s: State,
    line_number: u32,
    location: u32,
    source_code: Seq<char>,
    mnemonic: Seq<char>,
) -> Step {
    if !s.program_start {
        stop(s, fault(ErrorKind::MissingStart))
    } else if s.wait_for_base && mnemonic != "BASE"@ {
        stop(s, fault(ErrorKind::LoadWithoutBase))
    } else {
        match instruction(mnemonic) {
            None => stop(s, fault_about(ErrorKind::UnknownMnemonic, mnemonic)),
            Some(found) => {
                let e = encode(
                    s.symbols,
                    s.base,
                    location,
                    mnemonic,
                    found.0,
                    Seq::empty(),
                    found.1,
                    false,
                );
                let s1 = with_symbols(s, e.0);
                match e.1 {
                    Err(f) => stop(s1, f),
                    Ok(enc) => close(
                        s1,
                        instruction_line(s1, line_number, source_code, location, enc),
                        enc.byte as u32,
                        Seq::empty(),
                    ),
                }
            },
        }
    }
}

/// The directive `BASE`: it must follow a load of the base register, and
/// makes its operand the base symbol.
pub open spec fn base_directive(
    s: State,
    line_number: u32,
    source_code: Seq<char>,
    operand: Seq<char>,
) -> Step {
    match symbol_fault(operand) {
        Some(f) => stop(s, fault_in(f, Role::Operand)),
        None => if !s.wait_for_base {
            stop(s, fault(ErrorKind::BaseWithoutLoad))
        } else {
            close(
                State { wait_for_base: false, base: operand, ..s },
                empty_line(line_number, source_code),
                0,
                Seq::empty(),
            )
        },
    }
}

/// The directive `END`: it ends the program, and its operand, a defined
/// symbol, is where execution starts.
pub open spec fn end_directive(
    s: State,
    line_number: u32,
    source_code: Seq<char>,
    operand: Seq<char>,
) -> Step {
    if s.program_end {
        stop(s, fault(ErrorKind::LoadWithoutBase))
    } else {
        let ended = State { program_end: true, ..s };
        match symbol_fault(operand) {
            Some(f) => stop(ended, fault_in(f, Role::Operand)),
            None => match probe(s.symbols, operand) {
                None => stop(ended, fault(ErrorKind::EndAtUnknownLocation)),
                Some(found) => if found.1 {
                    stop(ended, fault(ErrorKind::EndAtUnknownLocation))
                } else {
                    close(
                        State { program_start_address: found.0, ..ended },
                        empty_line(line_number, source_code),
                        0,
                        Seq::empty(),
                    )
                },
            },
        }
    }
}

/// A line of two fields: a label and an instruction without operand, or
/// `BASE`, `END` or an instruction with its operand.
pub open spec fn two_fields(
    s: State,
    line_number: u32,
    location: u32,
    source_code: Seq<char>,
    first: Seq<char>,
    second: Seq<char>,
) -> Step {
    if !s.program_start {
        stop(s, fault(ErrorKind::MissingStart))
    } else {
        match instruction(second) {
            Some(found) => if s.wait_for_base && second != "BASE"@ {
                stop(s, fault(ErrorKind::LoadWithoutBase))
            } else {
                let e = encode(
                    s.symbols,
                    s.base,
                    location,
                    second,
                    found.0,
                    Seq::empty(),
                    found.1,
                    false,
                );
                let s1 = with_symbols(s, e.0);
                match e.1 {
                    Err(f) => stop(s1, f),
                    Ok(enc) => labelled(
                        s1,
                        first,
                        location,
                        instruction_line(s1, line_number, source_code, location, enc),
                        enc.byte as u32,
                        location,
                        false,
                    ),
                }
            },
            None => if s.wait_for_base && first != "BASE"@ {
                stop(s, fault(ErrorKind::LoadWithoutBase))
            } else if first == "BASE"@ {
                base_directive(s, line_number, source_code, second)
            } else if first == "END"@ {
                end_directive(s, line_number, source_code, second)
            } else {
                let e = instruction_step(s, location, first, second);
                match e.1 {
                    Err(f) => stop(e.0, f),
                    Ok(enc) => close(
                        e.0,
                        instruction_line(e.0, line_number, source_code, location, enc),
                        enc.byte as u32,
                        Seq::empty(),
                    ),
                }
            },
        }
    }
}

/// The load address that the operand of `START` gives: one to four
/// hexadecimal digits.
pub open spec fn start_address(operand: Seq<char>) -> Option<int> {
    if 1 <= operand.len() <= 4 {
        parse_unsigned(operand, Alphabet::Hex, 0xFFFF)
    } else {
        None
    }
}

/// The number of bytes that the operand of `RESB` reserves, or of `RESW`
/// where `words` is set: a decimal count, times three for words, below the
/// size limit.
pub open spec fn reserve_size(operand: Seq<char>, words: bool) -> Option<int> {
    match parse_decimal(operand, false, 0, 0xFFFF_FFFF) {
        None => None,
        Some(n) => {
            let size = if words {
                3 * n
            } else {
                n
            };
            if size < SizeLimit::Location.spec_value() {
                Some(size)
            } else {
                None
            }
        },
    }
}

/// The value that the operand of `WORD` gives: a decimal number from -2048
/// to 2047, kept as twelve bits in two's complement.
pub open spec fn word_value(operand: Seq<char>) -> Option<int> {
    match parse_decimal(operand, true, -2048, 2047) {
        None => None,
        Some(n) => Some(n % 4096),
    }
}

/// The value and the size in bytes that the operand of `BYTE` gives: `C`
/// and one to eight ASCII characters between quotes, each a byte, or `X`
/// and an even number of hexadecimal digits between quotes, sixteen at most.
pub open spec fn byte_value(operand: Seq<char>) -> Result<(u64, u32), Fault> {
    if operand.len() <= 3 || operand[1] != '\'' || operand.last() != '\'' {
        Err(fault(ErrorKind::ByteFormat))
    } else {
        let body = operand.subrange(2, operand.len() - 1);
        if operand[0] == 'C' {
            if !all_digits(body, Alphabet::Ascii) {
                Err(fault(ErrorKind::ByteNotAscii))
            } else if body.len() > 8 {
                Err(fault(ErrorKind::ByteTooLong))
            } else {
                Ok((number_value(body, Alphabet::Ascii) as u64, body.len() as u32))
            }
        } else if operand[0] == 'X' {
            if body.len() % 2 != 0 {
                Err(fault(ErrorKind::ByteOddHex))
            } else if body.len() > 16 {
                Err(fault(ErrorKind::ByteTooLong))
            } else if !all_digits(body, Alphabet::Hex) {
                Err(fault(ErrorKind::ByteFormat))
            } else {
                Ok((number_value(body, Alphabet::Hex) as u64, (body.len() / 2) as u32))
            }
        } else {
            Err(fault(ErrorKind::ByteFormat))
        }
    }
}

/// A line of three fields: a label, then a directive or an instruction, then
/// its operand.
pub open spec fn three_fields(
    s: State,
    line_number: u32,
    location: u32,
    source_code: Seq<char>,
    label: Seq<char>,
    mnemonic: Seq<char>,
    operand: Seq<char>,
) -> Step {
    if s.wait_for_base && mnemonic != "BASE"@ {
        stop(s, fault(ErrorKind::LoadWithoutBase))
    } else if mnemonic == "START"@ {
        match start_address(operand) {
            None => stop(s, fault_about(ErrorKind::IllegalStartAddress, operand)),
            Some(address) => {
                let started = State { program_start: true, ..s };
                if label.len() > 6 {
                    stop(started, fault_about(ErrorKind::ProgramNameTooLong, label))
                } else {
                    labelled(
                        State { program_name: label, ..started },
                        label,
                        address as u32,
                        empty_line(line_number, source_code),
                        address as u32,
                        location,
                        true,
                    )
                }
            },
        }
    } else if mnemonic == "RESB"@ || mnemonic == "RESW"@ {
        match reserve_size(operand, mnemonic == "RESW"@) {
            None => stop(s, fault(ErrorKind::IllegalSize)),
            Some(size) => labelled(
                s,
                label,
                location,
                data_line(s, line_number, source_code, location, operand, 0, size as u32, true),
                size as u32,
                location,
                true,
            ),
        }
    } else if mnemonic == "WORD"@ {
        match word_value(operand) {
            None => stop(s, fault(ErrorKind::IllegalNumber)),
            Some(value) => labelled(
                s,
                label,
                location,
                data_line(s, line_number, source_code, location, operand, value as u64, 3, false),
                3,
                location,
                true,
            ),
        }
    } else if mnemonic == "BYTE"@ {
        match byte_value(operand) {
            Err(f) => stop(s, f),
            Ok(constant) => labelled(
                s,
                label,
                location,
                data_line(
                    s,
                    line_number,
                    source_code,
                    location,
                    operand,
                    constant.0,
                    constant.1,
                    false,
                ),
                constant.1,
                location,
                true,
            ),
        }
    } else if !s.program_start {
        stop(s, fault(ErrorKind::MissingStart))
    } else {
        let e = instruction_step(s, location, mnemonic, operand);
        match e.1 {
            Err(f) => stop(e.0, f),
            Ok(enc) => if enc.operand == label {
                stop(
                    rolled_back(e.0, true, enc.operand, location),
                    fault(ErrorKind::LabelEqualsOperand),
                )
            } else {
                labelled(
                    e.0,
                    label,
                    location,
                    instruction_line(e.0, line_number, source_code, location, enc),
                    enc.byte as u32,
                    location,
                    true,
                )
            },
        }
    }
}

/// What a line with the given fields does, by the number of its fields.
pub open spec fn assemble_fields(
    s: State,
    line_number: u32,
    location: u32,
    fields: Seq<Seq<char>>,
    source_code: Seq<char>,
) -> Step {
    if fields.len() == 0 {
        Step {
            state: s,
            result: Ok(
                Emitted {
                    code: empty_line(line_number, source_code),
                    offset: 0,
                    patches: Seq::empty(),
                },
            ),
        }
    } else if fields.len() == 1 {
        one_field(s, line_number, location, source_code, fields[0])
    } else if fields.len() == 2 {
        two_fields(s, line_number, location, source_code, fields[0], fields[1])
    } else if fields.len() == 3 {
        three_fields(s, line_number, location, source_code, fields[0], fields[1], fields[2])
    } else {
        stop(s, fault(ErrorKind::InvalidSource))
    }
}

/// A line up to its comment, which starts at the first `.`.
pub open spec fn strip_comment(line: Seq<char>) -> Seq<char> {
    line.subrange(0, first_index(line, '.'))
}

/// Every text of `parts`, trimmed.
pub open spec fn trim_each(parts: Seq<Seq<char>>) -> Seq<Seq<char>> {
    parts.map_values(|p: Seq<char>| trimmed(p))
}

/// The fields of the content of a line: the pieces between runs of blanks
/// and tabs, but from the start of a constant on the rest is one field,
/// blanks and all. `None` where the pattern matcher fails.
pub open spec fn fields_of(body: Seq<char>) -> Option<Seq<Seq<char>>> {
    match regex_find_start(CONSTANT_START@, body) {
        None => None,
        Some(None) => match regex_split(FIELD_GAP@, body) {
            None => None,
            Some(parts) => Some(trim_each(parts)),
        },
        Some(Some(at)) => if !is_char_boundary(encode_utf8(body), at as int) {
            None
        } else {
            match regex_split(
                FIELD_GAP@,
                trimmed(decode_utf8(encode_utf8(body).subrange(0, at as int))),
            ) {
                None => None,
                Some(parts) => Some(
                    trim_each(parts).push(
                        trimmed(
                            decode_utf8(
                                encode_utf8(body).subrange(
                                    at as int,
                                    encode_utf8(body).len() as int,
                                ),
                            ),
                        ),
                    ),
                ),
            }
        },
    }
}

/// What a source line does: its content, without comment and surrounding
/// white space, is split into fields, and the fields decide.
pub open spec fn assemble_line(
    s: State,
    line_number: u32,
    location: u32,
    line: Seq<char>,
    source_code: Seq<char>,
) -> Step {
    let body = trimmed(strip_comment(line));
    if body.len() == 0 {
        assemble_fields(s, line_number, location, Seq::empty(), source_code)
    } else {
        match fields_of(body) {
            None => stop(s, pattern_fault()),
            Some(fields) => assemble_fields(s, line_number, location, fields, source_code),
        }
    }
}

/// Whether the outcome `r` of a line has the value `expected`.
pub open spec fn step_agrees(
    r: Result<(Code, u32, Vec<u32>), AsmError>,
    expected: Result<Emitted, Fault>,
) -> bool {
    match r {
        Ok(v) => expected == Ok::<Emitted, Fault>(
            Emitted { code: v.0@, offset: v.1, patches: v.2@ },
        ),
        Err(e) => expected == Err::<Emitted, Fault>(e@),
    }
}

/// Reads the operand of `START`.
pub fn read_start_address(operand: &str) -> (r: Option<u32>)
    ensures
        match r {
            Some(a) => start_address(operand@) == Some(a as int),
            None => start_address(operand@) is None,
        },
{
    let v = to_chars(operand);
    if v.len() < 1 || v.len() > 4 {
        return None;
    }
    assert(v@.subrange(0, v.len() as int) =~= v@);
    match read_number(&v, 0, v.len(), Alphabet::Hex, 0xFFFF) {
        Some(n) => Some(n as u32),
        None => None,
    }
}

/// Reads the operand of `RESB`, or of `RESW` where `words` is set.
pub fn read_reserve_size(operand: &str, words: bool) -> (r: Option<u32>)
    ensures
        match r {
            Some(n) => reserve_size(operand@, words) == Some(n as int),
            None => reserve_size(operand@, words) is None,
        },
{
    match read_decimal(operand, false, 0, 0xFFFF_FFFF) {
        None => None,
        Some(n) => {
            let size: i64 = if words {
                3 * n
            } else {
                n
            };
            if size < SizeLimit::Location.value() as i64 {
                Some(size as u32)
            } else {
                None
            }
        },
    }
}

/// Reads the operand of `WORD`.
pub fn read_word(operand: &str) -> (r: Option<u64>)
    ensures
        match r {
            Some(n) => word_value(operand@) == Some(n as int),
            None => word_value(operand@) is None,
        },
{
    match read_decimal(operand, true, -2048, 2047) {
        None => None,
        Some(n) => {
            let value: i64 = (n + 4096) % 4096;
            assert(value == (n as int) % 4096);
            Some(value as u64)
        },
    }
}

/// Reads the operand of `BYTE`.
pub fn read_byte(operand: &str) -> (r: Result<(u64, u32), AsmError>)
    ensures
        agrees(r, byte_value(operand@)),
{
    let v = to_chars(operand);
    let n: usize = v.len();
    if n <= 3 {
        return Err(AsmError::new(ErrorKind::ByteFormat));
    }
    if v[1] != '\'' || v[n - 1] != '\'' {
        return Err(AsmError::new(ErrorKind::ByteFormat));
    }
    let ghost body = v@.subrange(2, n - 1);
    let count: usize = n - 3;
    if v[0] == 'C' {
        if count > 8 {
            if digits_only(&v, 2, n - 1, Alphabet::Ascii) {
                return Err(AsmError::new(ErrorKind::ByteTooLong));
            } else {
                return Err(AsmError::new(ErrorKind::ByteNotAscii));
            }
        }
        proof {
            if all_digits(body, Alphabet::Ascii) {
                lemma_number_bound(body, Alphabet::Ascii);
                lemma_power_grows(256, body.len(), 8);
                reveal_with_fuel(power, 9);
                assert(power(256, 8) == 0x1_0000_0000_0000_0000);
            }
        }
        match read_number(&v, 2, n - 1, Alphabet::Ascii, 0xFFFF_FFFF_FFFF_FFFF) {
            Some(x) => Ok((x, count as u32)),
            None => Err(AsmError::new(ErrorKind::ByteNotAscii)),
        }
    } else if v[0] == 'X' {
        if count % 2 != 0 {
            return Err(AsmError::new(ErrorKind::ByteOddHex));
        }
        if count > 16 {
            return Err(AsmError::new(ErrorKind::ByteTooLong));
        }
        proof {
            if all_digits(body, Alphabet::Hex) {
                lemma_number_bound(body, Alphabet::Hex);
                lemma_power_grows(16, body.len(), 16);
                reveal_with_fuel(power, 17);
                assert(power(16, 16) == 0x1_0000_0000_0000_0000);
            }
        }
        match read_number(&v, 2, n - 1, Alphabet::Hex, 0xFFFF_FFFF_FFFF_FFFF) {
            Some(x) => Ok((x, (count / 2) as u32)),
            None => Err(AsmError::new(ErrorKind::ByteFormat)),
        }
    } else {
        Err(AsmError::new(ErrorKind::ByteFormat))
    }
}

/// Every text of `parts`, trimmed.
pub fn trim_all(parts: &Vec<String>) -> (out: Vec<String>)
    ensures
        texts(out@) == trim_each(texts(parts@)),
{
    let mut out: Vec<String> = Vec::new();
    let mut i: usize = 0;
    while i < parts.len()
        invariant
            i <= parts.len(),
            out@.len() == i,
            forall|k: int| 0 <= k < i ==> (#[trigger] out@[k])@ == trimmed(parts@[k]@),
        decreases parts.len() - i,
    {
        out.push(trim(parts[i].as_str()));
        i += 1;
    }
    assert(texts(out@) =~= trim_each(texts(parts@)));
    out
}

/// Splits the content of a line into its fields.
pub fn split_fields(body: &str) -> (r: Option<Vec<String>>)
    ensures
        match r {
            Some(fields) => fields_of(body@) == Some(texts(fields@)),
            None => fields_of(body@) is None,
        },
{
    match find_start(CONSTANT_START, body) {
        None => None,
        Some(None) => match split(FIELD_GAP, body) {
            None => None,
            Some(parts) => Some(trim_all(&parts)),
        },
        Some(Some(at)) => {
            if !body.is_char_boundary(at) {
                return None;
            }
            let (head, tail) = body.split_at(at);
            proof {
                vstd::utf8::encode_utf8_decode_utf8(head@);
                vstd::utf8::encode_utf8_decode_utf8(tail@);
                assert(head.spec_bytes() == encode_utf8(head@));
                assert(tail.spec_bytes() == encode_utf8(tail@));
                assert(body.spec_bytes() == encode_utf8(body@));
            }
            let head = trim(head);
            match split(FIELD_GAP, head.as_str()) {
                None => None,
                Some(parts) => {
                    let mut fields = trim_all(&parts);
                    let ghost before = texts(fields@);
                    let last = trim(tail);
                    fields.push(last);
                    assert(texts(fields@) =~= before.push(last@));
                    Some(fields)
                },
            }
        },
    }
}

impl Parser {
    fn close(&mut self, code: Code, offset: u32, patches: Vec<u32>) -> (r: Result<
        (Code, u32, Vec<u32>),
        AsmError,
    >)
        requires
            old(self).wf(),
        ensures
            final(self).wf(),
            final(self)@ == close(old(self)@, code@, offset, patches@).state,
            step_agrees(r, close(old(self)@, code@, offset, patches@).result),
            final(self).verbose == old(self).verbose,
    {
        if offset > u32::MAX - self.program_length {
            return Err(AsmError::new(ErrorKind::ProgramTooLarge));
        }
        self.program_length = self.program_length + offset;
        if self.program_length > SizeLimit::Location.value() {
            return Err(AsmError::new(ErrorKind::ProgramTooLarge));
        }
        Ok((code, offset, patches))
    }

    fn labelled(
        &mut self,
        label: &str,
        address: u32,
        code: Code,
        offset: u32,
        location: u32,
        rollback: bool,
    ) -> (r: Result<(Code, u32, Vec<u32>), AsmError>)
        requires
            old(self).wf(),
        ensures
            final(self).wf(),
            final(self)@ == labelled(
                old(self)@,
                label@,
                address,
                code@,
                offset,
                location,
                rollback,
            ).state,
            step_agrees(
                r,
                labelled(old(self)@, label@, address, code@, offset, location, rollback).result,
            ),
            final(self).verbose == old(self).verbose,
    {
        match self.symbol_legal(label) {
            Err(e) => {
                if rollback {
                    self.symbol_table.remove_waiting(code.operand.as_str(), location);
                }
                return Err(e.within(Role::Label));
            },
            Ok(_) => {},
        }
        match self.symbol_table.insert(label, address) {
            Err(e) => {
                if rollback {
                    self.symbol_table.remove_waiting(code.operand.as_str(), location);
                }
                Err(e)
            },
            Ok(patches) => self.close(code, offset, patches),
        }
    }

    fn instruction_step(&mut self, location: u32, field: &str, operand: &str) -> (r: Result<
        (u8, u64, String, bool, u8),
        AsmError,
    >)
        requires
            old(self).wf(),
        ensures
            final(self).wf(),
            final(self)@ == instruction_step(old(self)@, location, field@, operand@).0,
            encoded_agrees(r, instruction_step(old(self)@, location, field@, operand@).1),
            final(self).verbose == old(self).verbose,
    {
        let chars = to_chars(field);
        let extension: bool = chars.len() > 0 && chars[0] == '+';
        let mnemonic: String = if extension {
            assert(chars@.subrange(1, chars.len() as int) =~= field@.drop_first());
            substring(&chars, 1, chars.len())
        } else {
            String::from_str(field)
        };
        if str_eq(mnemonic.as_str(), "LDB") {
            self.wait_for_base = true;
        }
        let found: (u8, u8) = match self.opcode_table.get(mnemonic.as_str()) {
            None => {
                return Err(AsmError::about(ErrorKind::UnknownMnemonic, mnemonic.as_str()));
            },
            Some(entry) => (entry.0, entry.1),
        };
        self.code_translate(location, mnemonic.as_str(), found.0, operand, found.1, extension)
    }

    fn instruction_record(
        &self,
        line_number: u32,
        source_code: &str,
        location: u32,
        encoded: (u8, u64, String, bool, u8),
    ) -> (c: Code)
        ensures
            c@ == instruction_line(
                self@,
                line_number,
                source_code@,
                location,
                Encoded {
                    ni: encoded.0,
                    obj_code: encoded.1,
                    operand: encoded.2@,
                    undone: encoded.3,
                    byte: encoded.4,
                },
            ),
    {
        Code::new(
            line_number,
            source_code,
            location,
            encoded.0,
            self.base.clone(),
            encoded.2,
            encoded.1,
            encoded.4 as u32,
            false,
            false,
            encoded.3,
        )
    }

    fn data_record(
        &self,
        line_number: u32,
        source_code: &str,
        location: u32,
        operand: &str,
        obj_code: u64,
        byte: u32,
        no_obj_code: bool,
    ) -> (c: Code)
        ensures
            c@ == data_line(
                self@,
                line_number,
                source_code@,
                location,
                operand@,
                obj_code,
                byte,
                no_obj_code,
            ),
    {
        Code::new(
            line_number,
            source_code,
            location,
            0,
            self.base.clone(),
            String::from_str(operand),
            obj_code,
            byte,
            true,
            no_obj_code,
            false,
        )
    }

    fn one_field(&mut self, line_number: u32, location: u32, source_code: &str, mnemonic: &str) -> (r:
        Result<(Code, u32, Vec<u32>), AsmError>)
        requires
            old(self).wf(),
        ensures
            final(self).wf(),
            final(self)@ == one_field(old(self)@, line_number, location, source_code@, mnemonic@).state,
            step_agrees(
                r,
                one_field(old(self)@, line_number, location, source_code@, mnemonic@).result,
            ),
            final(self).verbose == old(self).verbose,
    {
        if !self.program_start {
            return Err(AsmError::new(ErrorKind::MissingStart));
        }
        if self.wait_for_base && !str_eq(mnemonic, "BASE") {
            return Err(AsmError::new(ErrorKind::LoadWithoutBase));
        }
        let found: (u8, u8) = match self.opcode_table.get(mnemonic) {
            None => {
                return Err(AsmError::about(ErrorKind::UnknownMnemonic, mnemonic));
            },
            Some(entry) => (entry.0, entry.1),
        };
        let nothing = String::new();
        match self.code_translate(location, mnemonic, found.0, nothing.as_str(), found.1, false) {
            Err(e) => Err(e),
            Ok(encoded) => {
                let offset: u32 = encoded.4 as u32;
                let code = self.instruction_record(line_number, source_code, location, encoded);
                let patches: Vec<u32> = Vec::new();
                self.close(code, offset, patches)
            },
        }
    }

    fn base_directive(&mut self, line_number: u32, source_code: &str, operand: &str) -> (r: Result<
        (Code, u32, Vec<u32>),
        AsmError,
    >)
        requires
            old(self).wf(),
        ensures
            final(self).wf(),
            final(self)@ == base_directive(old(self)@, line_number, source_code@, operand@).state,
            step_agrees(r, base_directive(old(self)@, line_number, source_code@, operand@).result),
            final(self).verbose == old(self).verbose,
    {
        match self.symbol_legal(operand) {
            Err(e) => {
                return Err(e.within(Role::Operand));
            },
            Ok(_) => {},
        }
        if !self.wait_for_base {
            return Err(AsmError::new(ErrorKind::BaseWithoutLoad));
        }
        self.wait_for_base = false;
        self.base = String::from_str(operand);
        let code = Code::empty(line_number, String::from_str(source_code));
        let patches: Vec<u32> = Vec::new();
        self.close(code, 0, patches)
    }

    fn end_directive(&mut self, line_number: u32, source_code: &str, operand: &str) -> (r: Result<
        (Code, u32, Vec<u32>),
        AsmError,
    >)
        requires
            old(self).wf(),
        ensures
            final(self).wf(),
            final(self)@ == end_directive(old(self)@, line_number, source_code@, operand@).state,
            step_agrees(r, end_directive(old(self)@, line_number, source_code@, operand@).result),
            final(self).verbose == old(self).verbose,
    {
        if self.program_end {
            return Err(AsmError::new(ErrorKind::LoadWithoutBase));
        }
        self.program_end = true;
        match self.symbol_legal(operand) {
            Err(e) => {
                return Err(e.within(Role::Operand));
            },
            Ok(_) => {},
        }
        match self.symbol_table.get_location(operand) {
            None => Err(AsmError::new(ErrorKind::EndAtUnknownLocation)),
            Some(found) => {
                if found.1 {
                    return Err(AsmError::new(ErrorKind::EndAtUnknownLocation));
                }
                self.program_start_address = found.0;
                let code = Code::empty(line_number, String::from_str(source_code));
                let patches: Vec<u32> = Vec::new();
                self.close(code, 0, patches)
            },
        }
    }

    #[verifier::spinoff_prover]
    #[verifier::rlimit(40)]
    fn two_fields(
        &mut self,
        line_number: u32,
        location: u32,
        source_code: &str,
        first: &str,
        second: &str,
    ) -> (r: Result<(Code, u32, Vec<u32>), AsmError>)
        requires
            old(self).wf(),
        ensures
            final(self).wf(),
            final(self)@ == two_fields(
                old(self)@,
                line_number,
                location,
                source_code@,
                first@,
                second@,
            ).state,
            step_agrees(
                r,
                two_fields(old(self)@, line_number, location, source_code@, first@, second@).result,
            ),
            final(self).verbose == old(self).verbose,
    {
        if !self.program_start {
            return Err(AsmError::new(ErrorKind::MissingStart));
        }
        let bare: Option<(u8, u8)> = match self.opcode_table.get(second) {
            None => None,
            Some(entry) => Some((entry.0, entry.1)),
        };
        match bare {
            Some(found) => {
                if self.wait_for_base && !str_eq(second, "BASE") {
                    return Err(AsmError::new(ErrorKind::LoadWithoutBase));
                }
                let nothing = String::new();
                match self.code_translate(
                    location,
                    second,
                    found.0,
                    nothing.as_str(),
                    found.1,
                    false,
                ) {
                    Err(e) => Err(e),
                    Ok(encoded) => {
                        let offset: u32 = encoded.4 as u32;
                        let code = self.instruction_record(
                            line_number,
                            source_code,
                            location,
                            encoded,
                        );
                        self.labelled(first, location, code, offset, location, false)
                    },
                }
            },
            None => {
                if self.wait_for_base && !str_eq(first, "BASE") {
                    return Err(AsmError::new(ErrorKind::LoadWithoutBase));
                }
                if str_eq(first, "BASE") {
                    self.base_directive(line_number, source_code, second)
                } else if str_eq(first, "END") {
                    self.end_directive(line_number, source_code, second)
                } else {
                    match self.instruction_step(location, first, second) {
                        Err(e) => Err(e),
                        Ok(encoded) => {
                            let offset: u32 = encoded.4 as u32;
                            let code = self.instruction_record(
                                line_number,
                                source_code,
                                location,
                                encoded,
                            );
                            let patches: Vec<u32> = Vec::new();
                            self.close(code, offset, patches)
                        },
                    }
                }
            },
        }
    }

    #[verifier::spinoff_prover]
    #[verifier::rlimit(40)]
    fn three_fields(
        &mut self,
        line_number: u32,
        location: u32,
        source_code: &str,
        label: &str,
        mnemonic: &str,
        operand: &str,
    ) -> (r: Result<(Code, u32, Vec<u32>), AsmError>)
        requires
            old(self).wf(),
        ensures
            final(self).wf(),
            final(self)@ == three_fields(
                old(self)@,
                line_number,
                location,
                source_code@,
                label@,
                mnemonic@,
                operand@,
            ).state,
            step_agrees(
                r,
                three_fields(
                    old(self)@,
                    line_number,
                    location,
                    source_code@,
                    label@,
                    mnemonic@,
                    operand@,
                ).result,
            ),
            final(self).verbose == old(self).verbose,
    {
        if self.wait_for_base && !str_eq(mnemonic, "BASE") {
            return Err(AsmError::new(ErrorKind::LoadWithoutBase));
        }
        if str_eq(mnemonic, "START") {
            let address: u32 = match read_start_address(operand) {
                None => {
                    return Err(AsmError::about(ErrorKind::IllegalStartAddress, operand));
                },
                Some(address) => address,
            };
            self.program_start = true;
            if label.unicode_len() > 6 {
                return Err(AsmError::about(ErrorKind::ProgramNameTooLong, label));
            }
            self.program_name = String::from_str(label);
            let code = Code::empty(line_number, String::from_str(source_code));
            self.labelled(label, address, code, address, location, true)
        } else if str_eq(mnemonic, "RESB") || str_eq(mnemonic, "RESW") {
            let size: u32 = match read_reserve_size(operand, str_eq(mnemonic, "RESW")) {
                None => {
                    return Err(AsmError::new(ErrorKind::IllegalSize));
                },
                Some(size) => size,
            };
            let code = self.data_record(line_number, source_code, location, operand, 0, size, true);
            self.labelled(label, location, code, size, location, true)
        } else if str_eq(mnemonic, "WORD") {
            let value: u64 = match read_word(operand) {
                None => {
                    return Err(AsmError::new(ErrorKind::IllegalNumber));
                },
                Some(value) => value,
            };
            let code = self.data_record(line_number, source_code, location, operand, value, 3, false);
            self.labelled(label, location, code, 3, location, true)
        } else if str_eq(mnemonic, "BYTE") {
            let constant: (u64, u32) = match read_byte(operand) {
                Err(e) => {
                    return Err(e);
                },
                Ok(constant) => constant,
            };
            let code = self.data_record(
                line_number,
                source_code,
                location,
                operand,
                constant.0,
                constant.1,
                false,
            );
            self.labelled(label, location, code, constant.1, location, true)
        } else {
            if !self.program_start {
                return Err(AsmError::new(ErrorKind::MissingStart));
            }
            match self.instruction_step(location, mnemonic, operand) {
                Err(e) => Err(e),
                Ok(encoded) => {
                    if str_eq(encoded.2.as_str(), label) {
                        self.symbol_table.remove_waiting(encoded.2.as_str(), location);
                        return Err(AsmError::new(ErrorKind::LabelEqualsOperand));
                    }
                    let offset: u32 = encoded.4 as u32;
                    let code = self.instruction_record(line_number, source_code, location, encoded);
                    self.labelled(label, location, code, offset, location, true)
                },
            }
        }
    }

    /// Encodes a line that has been split into its fields: the record, the
    /// space the line takes, and the locations of the earlier lines that
    /// its label sets free.
    pub fn translate_fields(
        &mut self,
        line_number: u32,
        location: u32,
        fields: &Vec<String>,
        source_code: &str,
    ) -> (r: Result<(Code, u32, Vec<u32>), AsmError>)
        requires
            old(self).wf(),
        ensures
            final(self).wf(),
            final(self)@ == assemble_fields(
                old(self)@,
                line_number,
                location,
                texts(fields@),
                source_code@,
            ).state,
            step_agrees(
                r,
                assemble_fields(
                    old(self)@,
                    line_number,
                    location,
                    texts(fields@),
                    source_code@,
                ).result,
            ),
            final(self).verbose == old(self).verbose,
    {
        if fields.len() == 0 {
            let patches: Vec<u32> = Vec::new();
            Ok((Code::empty(line_number, String::from_str(source_code)), 0, patches))
        } else if fields.len() == 1 {
            assert(texts(fields@)[0] == fields@[0]@);
            self.one_field(line_number, location, source_code, fields[0].as_str())
        } else if fields.len() == 2 {
            assert(texts(fields@)[0] == fields@[0]@);
            assert(texts(fields@)[1] == fields@[1]@);
            self.two_fields(
                line_number,
                location,
                source_code,
                fields[0].as_str(),
                fields[1].as_str(),
            )
        } else if fields.len() == 3 {
            assert(texts(fields@)[0] == fields@[0]@);
            assert(texts(fields@)[1] == fields@[1]@);
            assert(texts(fields@)[2] == fields@[2]@);
            self.three_fields(
                line_number,
                location,
                source_code,
                fields[0].as_str(),
                fields[1].as_str(),
                fields[2].as_str(),
            )
        } else {
            Err(AsmError::new(ErrorKind::InvalidSource))
        }
    }

    /// Encodes one source line at `location`: the record, the space the
    /// line takes, and the locations of the earlier lines that its label
    /// sets free.
    pub fn translate(
        &mut self,
        line_number: u32,
        location: u32,
        user_code: &str,
        source_code: &str,
    ) -> (r: Result<(Code, u32, Vec<u32>), AsmError>)
        requires
            old(self).wf(),
        ensures
            final(self).wf(),
            final(self)@ == assemble_line(
                old(self)@,
                line_number,
                location,
                user_code@,
                source_code@,
            ).state,
            step_agrees(
                r,
                assemble_line(old(self)@, line_number, location, user_code@, source_code@).result,
            ),
            final(self).verbose == old(self).verbose,
    {
        let body = line_content(user_code);
        if body.as_str().unicode_len() == 0 {
            let fields: Vec<String> = Vec::new();
            assert(texts(fields@) =~= Seq::<Seq<char>>::empty());
            return self.translate_fields(line_number, location, &fields, source_code);
        }
        match split_fields(body.as_str()) {
            None => Err(AsmError::about(ErrorKind::Internal, "pattern not accepted")),
            Some(fields) => self.translate_fields(line_number, location, &fields, source_code),
        }
    }
}

/// The content of a line: the line without its comment and without white
/// space around what is left.
pub fn line_content(line: &str) -> (body: String)
    ensures
        body@ == trimmed(strip_comment(line@)),
{
    let chars = to_chars(line);
    let cut: usize = find_char(&chars, 0, '.');
    assert(chars@.subrange(0, chars.len() as int) =~= chars@);
    let head = substring(&chars, 0, cut);
    trim(head.as_str())
}

/// A record and the state after an attempt to settle the record's operand.
pub struct Patched {
    pub code: Line,
    pub state: State,
    pub result: Result<(), Fault>,
}

/// What is reported when a record is to be settled and its operand is not
/// in the symbol table (`known` unset) or has no address yet.
pub open spec fn unsettled_fault(operand: Seq<char>, known: bool) -> Fault {
    fault_about(
        ErrorKind::Internal,
        "operand "@ + operand + (if known {
            " is not done, but call re_alloc"@
        } else {
            " is not defined, but call re_alloc"@
        }),
    )
}

/// The record with `delta` added to its value and no longer waiting.
pub open spec fn settle(code: Line, s: State, delta: int) -> Patched {
    if code.obj_code + delta > u64::MAX {
        Patched {
            code,
            state: s,
            result: Err(fault_about(ErrorKind::Internal, "encoding overflow"@)),
        }
    } else {
        Patched {
            code: Line { obj_code: (code.obj_code + delta) as u64, undone: false, ..code },
            state: s,
            result: Ok(()),
        }
    }
}

/// Settles the operand of a waiting record once its symbol is defined. The
/// size and the location of the record stay as they are. An extended
/// instruction gets the low digits of the address in its field. Any other
/// gets its field and flag as a new line would, by distance from the next
/// instruction or else from the base; where the base is not defined yet the
/// record goes on waiting.
pub open spec fn patch(code: Line, s: State) -> Patched {
    if code.location + code.byte > i32::MAX {
        Patched { code, state: s, result: Err(fault(ErrorKind::ProgramTooLarge)) }
    } else {
        match probe(s.symbols, code.operand) {
            None => Patched {
                code,
                state: s,
                result: Err(unsettled_fault(code.operand, false)),
            },
            Some(found) => if found.1 {
                Patched { code, state: s, result: Err(unsettled_fault(code.operand, true)) }
            } else if flags(code) % 2 == 1 {
                settle(code, s, (found.0 as int) % field_modulus(code.byte == 4))
            } else {
                let r = reach(
                    s.symbols,
                    code.location,
                    (code.location + code.byte) as i32,
                    code.base,
                    found.0,
                );
                let s1 = with_symbols(s, r.0);
                match r.1 {
                    Err(f) => Patched { code, state: s1, result: Err(f) },
                    Ok(v) => if v.1 {
                        Patched { code, state: s1, result: Ok(()) }
                    } else {
                        settle(
                            code,
                            s1,
                            (v.0 as int) % field_modulus(code.byte == 4) + v.2 * field_modulus(
                                code.byte == 4,
                            ),
                        )
                    },
                }
            },
        }
    }
}

/// An operand symbol that is not defined yet makes the line wait: the
/// instruction is encoded with an empty address field and marked as waiting,
/// and the symbol is in the table afterwards, still without a definition.
pub proof fn law_undefined_operand_waits(
    symbols: Map<Seq<char>, Symbol>,
    base: Seq<char>,
    location: u32,
    opcode: u8,
    ni: u8,
    x: u8,
    target: Seq<char>,
    extension: bool,
)
    requires
        symbol_fault(target) is None,
        !symbols.contains_key(target) || symbols[target].need_alloc,
    ensures
        encode_symbol(symbols, base, location, opcode, ni, x, target, extension).1 is Ok,
        encode_symbol(symbols, base, location, opcode, ni, x, target, extension).1->Ok_0.undone,
        encode_symbol(symbols, base, location, opcode, ni, x, target, extension).1->Ok_0.operand
            == target,
        encode_symbol(symbols, base, location, opcode, ni, x, target, extension).1->Ok_0.obj_code
            % (field_modulus(extension) as u64) == 0,
        probe(
            encode_symbol(symbols, base, location, opcode, ni, x, target, extension).0,
            target,
        ) matches Some(found) && found.1,
{
    let after = refer(symbols, target, location);
    assert(after.1 == (0u32, true));
    let flag: u8 = if extension {
        (x + 1) as u8
    } else {
        x
    };
    let m = field_modulus(extension);
    let top = (opcode + ni) * 16 + flag;
    let value = object_code(opcode, ni, flag, 0, extension);
    assert(0int % m == 0);
    assert(value == top * m) by (nonlinear_arith)
        requires
            value == (opcode + ni) * 16 * m + flag * m,
            top == (opcode + ni) * 16 + flag,
    ;
    assert((top * m) % m == 0) by (nonlinear_arith)
        requires
            m > 0,
            top >= 0,
    ;
}

/// As long as the operand symbol of a record is not defined, settling the
/// record changes nothing: the record goes on waiting as it is.
pub proof fn law_patch_needs_definition(code: Line, s: State)
    requires
        probe(s.symbols, code.operand) is None || probe(s.symbols, code.operand).unwrap().1,
    ensures
        patch(code, s).code == code,
        patch(code, s).state == s,
        patch(code, s).result is Err,
{
}

/// Settling a record leaves its layout alone: whatever comes of it, only
/// the value and the waiting flag can change, never the location, the size
/// or anything else; and the record stops waiting exactly when it is
/// settled.
pub proof fn law_patch_keeps_layout(code: Line, s: State)
    ensures
        patch(code, s).code == (Line {
            obj_code: patch(code, s).code.obj_code,
            undone: patch(code, s).code.undone,
            ..code
        }),
        patch(code, s).result is Err ==> patch(code, s).code == code,
        patch(code, s).code != code ==> !patch(code, s).code.undone,
{
}

impl Code {
    fn settle(&mut self, delta: u64) -> (r: Result<(), AsmError>)
        ensures
            final(self)@ == settle(old(self)@, initial_state(), delta as int).code,
            agrees(r, settle(old(self)@, initial_state(), delta as int).result),
    {
        if delta > u64::MAX - self.obj_code {
            return Err(AsmError::about(ErrorKind::Internal, "encoding overflow"));
        }
        self.obj_code = self.obj_code + delta;
        self.undone = false;
        Ok(())
    }

    /// Settles the operand of the record, which waited for a symbol that is
    /// defined now.
    #[verifier::spinoff_prover]
    #[verifier::rlimit(40)]
    pub fn re_alloc(&mut self, parser: &mut Parser) -> (r: Result<(), AsmError>)
        requires
            old(parser).wf(),
        ensures
            final(parser).wf(),
            final(self)@ == patch(old(self)@, old(parser)@).code,
            final(parser)@ == patch(old(self)@, old(parser)@).state,
            agrees(r, patch(old(self)@, old(parser)@).result),
            final(parser).verbose == old(parser).verbose,
    {
        if self.location as u64 + self.byte as u64 > 0x7fff_ffff {
            return Err(AsmError::new(ErrorKind::ProgramTooLarge));
        }
        let pc: i32 = (self.location + self.byte) as i32;
        let operand_location: u32 = match parser.get_symbol_location(self.operand.as_str()) {
            None => {
                let text = String::from_str("operand ").concat(self.operand.as_str()).concat(
                    " is not defined, but call re_alloc",
                );
                assert(text@ =~= "operand "@ + self.operand@
                    + " is not defined, but call re_alloc"@);
                return Err(AsmError::about(ErrorKind::Internal, text.as_str()));
            },
            Some(found) => {
                if found.1 {
                    let text = String::from_str("operand ").concat(self.operand.as_str()).concat(
                        " is not done, but call re_alloc",
                    );
                    assert(text@ =~= "operand "@ + self.operand@
                        + " is not done, but call re_alloc"@);
                    return Err(AsmError::about(ErrorKind::Internal, text.as_str()));
                }
                found.0
            },
        };
        let extended: bool = self.byte == 4;
        if self.xbpe() % 2 == 1 {
            return self.settle(low_digits(operand_location as i64, extended));
        }
        match parser.fill_operand(self.location, pc, self.base.as_str(), operand_location) {
            Err(e) => Err(e),
            Ok(found) => {
                if found.1 {
                    return Ok(());
                }
                let low: u64 = low_digits(found.0 as i64, extended);
                let flag: u64 = if extended {
                    found.2 as u64 * 0x100000
                } else {
                    found.2 as u64 * 0x1000
                };
                self.settle(low + flag)
            },
        }
    }
}

} // verus!
