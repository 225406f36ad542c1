//! The shape of the records a pass makes: the value of a record fits the
//! bytes the record takes, so it prints as two digits for each byte, and a
//! text block never holds more than thirty bytes.
use vstd::prelude::*;
use crate::object::{
    advance, after_lines, emit_all, emit_one, normalized, patch_all, patch_one, stopped, Emission,
    Progress, Repair,
};
use crate::parser::opcode_table::{instruction, instruction_set, lookup};
use crate::parser::symbol_table::{refer, Symbol};
use crate::parser::{
    addressing, assemble_line, encode, encode_address, encode_symbol, fields_of, flags,
    instruction_line, instruction_step, labelled, marked, object_code, one_field, patch, reach,
    register_id, strip_comment, three_fields, two_fields, with_symbols, COMMA, Encoded, Line,
    State, Step,
};
use crate::pattern::regex_split;
use crate::text::{
    all_digits, hex_field, lemma_number_bound, lemma_power_grows, number_value, numeral,
    parse_decimal, power, trimmed, Alphabet,
};

verus! {

/// How many values fit into the given number of bytes, up to eight.
pub open spec fn capacity(byte: u32) -> int {
    if byte == 0 {
        1
    } else if byte == 1 {
        0x100
    } else if byte == 2 {
        0x1_0000
    } else if byte == 3 {
        0x100_0000
    } else if byte == 4 {
        0x1_0000_0000
    } else if byte == 5 {
        0x100_0000_0000
    } else if byte == 6 {
        0x1_0000_0000_0000
    } else if byte == 7 {
        0x100_0000_0000_0000
    } else {
        0x1_0000_0000_0000_0000
    }
}

/// Whether the value of the record fits the bytes the record takes: a
/// record that puts bytes into the module takes one to eight, and its value
/// is below 256 to the power of their number.
pub open spec fn sized(code: Line) -> bool {
    code.no_obj_code || (1 <= code.byte <= 8 && code.obj_code < capacity(code.byte))
}

/// Whether a record that waits has room for what it waits for: it is an
/// instruction of three bytes with an empty address field and no flag but
/// the index flag, or an extended one of four bytes with an empty field.
pub open spec fn open_field(code: Line) -> bool {
    code.undone ==> !code.no_obj_code && ((code.byte == 3 && code.obj_code % 0x1000 == 0 && (flags(
        code,
    ) == 0 || flags(code) == 8)) || (code.byte == 4 && code.obj_code % 0x100000 == 0 && flags(code)
        % 2 == 1))
}

/// Whether the record has the shape of a record made by a pass.
pub open spec fn shaped(code: Line) -> bool {
    sized(code) && open_field(code)
}

/// Whether every record has the shape of a record made by a pass.
pub open spec fn all_shaped(records: Seq<Line>) -> bool {
    forall|i: int| 0 <= i < records.len() ==> shaped(#[trigger] records[i])
}

/// No opcode of the instruction set is above `F8`, so that the addressing
/// bits can be added to any of them within a byte.
proof fn lemma_opcode_bound(mnemonic: Seq<char>)
    ensures
        instruction(mnemonic) matches Some(found) ==> found.0 <= 0xF8,
{
    let set = instruction_set();
    assert(set.len() == 59);
    assert forall|i: int| 0 <= i < set.len() implies (#[trigger] set[i]).1.0 <= 0xF8 by {}
    lemma_lookup_bound(set, mnemonic, 0);
}

/// What is found in a table whose opcodes are bounded is bounded.
proof fn lemma_lookup_bound(set: Seq<(Seq<char>, (u8, u8))>, mnemonic: Seq<char>, from: int)
    requires
        forall|i: int| 0 <= i < set.len() ==> (#[trigger] set[i]).1.0 <= 0xF8,
    ensures
        lookup(set, mnemonic, from) matches Some(found) ==> found.0 <= 0xF8,
    decreases set.len() - from,
{
    if 0 <= from < set.len() && set[from].0 != mnemonic {
        lemma_lookup_bound(set, mnemonic, from + 1);
    }
}

/// A number below sixteen to the power `k` is written in at most `k`
/// hexadecimal digits.
proof fn lemma_numeral_width(n: nat, k: nat)
    requires
        k >= 1,
        n < power(16, k),
    ensures
        1 <= numeral(n, true).len() <= k,
    decreases k,
{
    if n >= 16 {
        assert(power(16, k) == 16 * power(16, (k - 1) as nat));
        if k == 1 {
            assert(power(16, 0) == 1);
        } else {
            lemma_numeral_width(n / 16, (k - 1) as nat);
        }
    }
}

/// Sixteen to the power of twice a number of bytes is the capacity of the
/// bytes, and so is 256 to the power of their number.
proof fn lemma_capacity(byte: u32)
    requires
        byte <= 8,
    ensures
        power(16, (2 * byte) as nat) == capacity(byte),
        power(256, byte as nat) == capacity(byte),
{
    reveal_with_fuel(power, 17);
}

/// A value that fits its bytes is printed in exactly two digits for each
/// byte.
proof fn lemma_field_width(value: u64, byte: u32)
    requires
        1 <= byte <= 8,
        value < capacity(byte),
    ensures
        hex_field(value as nat, (2 * byte) as nat).len() == 2 * byte,
{
    lemma_capacity(byte);
    lemma_numeral_width(value as nat, (2 * byte) as nat);
}

/// Whether an encoding gives a record of the right shape.
pub open spec fn encoded_shaped(e: Encoded) -> bool {
    &&& 1 <= e.byte <= 4
    &&& e.obj_code < capacity(e.byte as u32)
    &&& e.undone ==> (e.byte == 3 && e.obj_code % 0x1000 == 0 && ((e.obj_code / 0x1000) % 16 == 0
        || (e.obj_code / 0x1000) % 16 == 8)) || (e.byte == 4 && e.obj_code % 0x100000 == 0 && ((
    e.obj_code / 0x100000) % 16) % 2 == 1)
}

/// The parts of the value of an instruction of format 3 or 4 can be read
/// back from it: the value fits its bytes, the flag digit is the flag, and
/// the address field holds the low digits of the operand.
proof fn lemma_code_digits(opcode: u8, ni: u8, flag: u8, field: int, extension: bool)
    requires
        opcode <= 252,
        ni <= 3,
        flag < 16,
    ensures
        !extension ==> 0 <= object_code(opcode, ni, flag, field, false) < 0x100_0000 && (
        object_code(opcode, ni, flag, field, false) as u64 / 0x1000) % 16 == flag && object_code(
            opcode,
            ni,
            flag,
            field,
            false,
        ) as u64 % 0x1000 == field % 0x1000,
        extension ==> 0 <= object_code(opcode, ni, flag, field, true) < 0x1_0000_0000 && (
        object_code(opcode, ni, flag, field, true) as u64 / 0x100000) % 16 == flag && object_code(
            opcode,
            ni,
            flag,
            field,
            true,
        ) as u64 % 0x100000 == field % 0x100000,
{
    let top = opcode + ni;
    if extension {
        let low = field % 0x100000;
        let value = object_code(opcode, ni, flag, field, true);
        assert(value == (top * 16 + flag) * 0x100000 + low);
        assert(0 <= low < 0x100000);
        assert(value / 0x100000 == top * 16 + flag);
    } else {
        let low = field % 0x1000;
        let value = object_code(opcode, ni, flag, field, false);
        assert(value == (top * 16 + flag) * 0x1000 + low);
        assert(0 <= low < 0x1000);
        assert(value / 0x1000 == top * 16 + flag);
    }
}

/// An instruction with a symbol operand is encoded in the right shape.
proof fn lemma_encode_symbol_shaped(
    symbols: Map<Seq<char>, Symbol>,
    base: Seq<char>,
    location: u32,
    opcode: u8,
    ni: u8,
    x: u8,
    target: Seq<char>,
    extension: bool,
)
    requires
        opcode <= 252,
        ni <= 3,
        x == 0 || x == 8,
    ensures
        encode_symbol(symbols, base, location, opcode, ni, x, target, extension).1 matches Ok(e)
            ==> encoded_shaped(e),
{
    let after = refer(symbols, target, location);
    lemma_code_digits(opcode, ni, x, after.1.0 as int, false);
    lemma_code_digits(opcode, ni, (x + 1) as u8, after.1.0 as int, true);
    if location + 3 <= i32::MAX {
        let found = reach(after.0, location, (location + 3) as i32, base, after.1.0);
        match found.1 {
            Err(f) => {},
            Ok(r) => {
                lemma_code_digits(opcode, ni, (x + r.2) as u8, r.0 as int, false);
            },
        }
    }
}

/// An instruction of format 3 or 4 is encoded in the right shape.
proof fn lemma_encode_address_shaped(
    symbols: Map<Seq<char>, Symbol>,
    base: Seq<char>,
    location: u32,
    mnemonic: Seq<char>,
    opcode: u8,
    operand: Seq<char>,
    extension: bool,
)
    requires
        opcode <= 252,
    ensures
        encode_address(symbols, base, location, mnemonic, opcode, operand, extension).1 matches Ok(
            e,
        ) ==> encoded_shaped(e),
{
    let mode = addressing(operand);
    match regex_split(COMMA@, mode.1) {
        None => {},
        Some(parts) => {
            if parts.len() > 0 {
                lemma_encode_symbol_shaped(
                    symbols,
                    base,
                    location,
                    opcode,
                    mode.0,
                    0,
                    parts[0],
                    extension,
                );
                lemma_encode_symbol_shaped(
                    symbols,
                    base,
                    location,
                    opcode,
                    mode.0,
                    8,
                    parts[0],
                    extension,
                );
                let x: u8 = if parts.len() == 2 {
                    8
                } else {
                    0
                };
                let number = parse_decimal(
                    parts[0],
                    true,
                    i32::MIN as int,
                    i32::MAX as int,
                );
                if number is Some {
                    lemma_code_digits(opcode, mode.0, (x + 1) as u8, number.unwrap(), true);
                }
            }
        },
    }
}

/// An instruction is encoded in the right shape.
proof fn lemma_encode_shaped(
    symbols: Map<Seq<char>, Symbol>,
    base: Seq<char>,
    location: u32,
    mnemonic: Seq<char>,
    opcode: u8,
    operand: Seq<char>,
    format: u8,
    extension: bool,
)
    requires
        opcode <= 252,
    ensures
        encode(symbols, base, location, mnemonic, opcode, operand, format, extension).1 matches Ok(
            e,
        ) ==> encoded_shaped(e),
{
    lemma_encode_address_shaped(symbols, base, location, mnemonic, opcode, operand, extension);
    match regex_split(COMMA@, operand) {
        None => {},
        Some(parts) => {
            if parts.len() >= 1 {
                assert(register_id(parts[0]) matches Some(r) ==> r <= 6);
            }
            if parts.len() >= 2 {
                assert(register_id(parts[1]) matches Some(r) ==> r <= 6);
            }
        },
    }
}

/// An instruction line is encoded in the right shape.
proof fn lemma_instruction_step_shaped(
    s: State,
    location: u32,
    field: Seq<char>,
    operand: Seq<char>,
)
    ensures
        instruction_step(s, location, field, operand).1 matches Ok(e) ==> encoded_shaped(e),
{
    let m = marked(field);
    let s1 = instruction_step(s, location, field, operand).0;
    lemma_opcode_bound(m.1);
    match instruction(m.1) {
        None => {},
        Some(found) => {
            let base = s.base;
            let symbols = s.symbols;
            lemma_encode_shaped(symbols, base, location, m.1, found.0, operand, found.1, m.0);
        },
    }
}

/// Whether a line that succeeds gives a record of the right shape.
pub open spec fn step_shaped(step: Step) -> bool {
    step.result matches Ok(made) ==> shaped(made.code)
}

/// Defining the label of a line and closing it hands the record on.
proof fn lemma_labelled_code(
    s: State,
    label: Seq<char>,
    address: u32,
    code: Line,
    offset: u32,
    location: u32,
    rollback: bool,
)
    requires
        shaped(code),
    ensures
        step_shaped(labelled(s, label, address, code, offset, location, rollback)),
{
}

/// The record of an encoding of the right shape has the right shape.
proof fn lemma_record_shaped(
    s: State,
    line_number: u32,
    source_code: Seq<char>,
    location: u32,
    e: Encoded,
)
    requires
        encoded_shaped(e),
    ensures
        shaped(instruction_line(s, line_number, source_code, location, e)),
{
}

/// A line of one field gives a record of the right shape.
proof fn lemma_one_field_shaped(
    s: State,
    line_number: u32,
    location: u32,
    source_code: Seq<char>,
    mnemonic: Seq<char>,
)
    ensures
        step_shaped(one_field(s, line_number, location, source_code, mnemonic)),
{
    lemma_opcode_bound(mnemonic);
    match instruction(mnemonic) {
        None => {},
        Some(found) => {
            lemma_encode_shaped(
                s.symbols,
                s.base,
                location,
                mnemonic,
                found.0,
                Seq::empty(),
                found.1,
                false,
            );
        },
    }
}

/// A line of two fields gives a record of the right shape.
proof fn lemma_two_fields_shaped(
    s: State,
    line_number: u32,
    location: u32,
    source_code: Seq<char>,
    first: Seq<char>,
    second: Seq<char>,
)
    ensures
        step_shaped(two_fields(s, line_number, location, source_code, first, second)),
{
    lemma_opcode_bound(second);
    match instruction(second) {
        Some(found) => {
            lemma_encode_shaped(
                s.symbols,
                s.base,
                location,
                second,
                found.0,
                Seq::empty(),
                found.1,
                false,
            );
            let e = encode(
                s.symbols,
                s.base,
                location,
                second,
                found.0,
                Seq::empty(),
                found.1,
                false,
            );
            let s1 = with_symbols(s, e.0);
            match e.1 {
                Err(f) => {},
                Ok(enc) => {
                    let code = instruction_line(s1, line_number, source_code, location, enc);
                    lemma_labelled_code(s1, first, location, code, enc.byte as u32, location, false);
                },
            }
        },
        None => {
            lemma_instruction_step_shaped(s, location, first, second);
        },
    }
}

/// A line of three fields gives a record of the right shape.
proof fn lemma_three_fields_shaped(
    s: State,
    line_number: u32,
    location: u32,
    source_code: Seq<char>,
    label: Seq<char>,
    mnemonic: Seq<char>,
    operand: Seq<char>,
)
    ensures
        step_shaped(three_fields(s, line_number, location, source_code, label, mnemonic, operand)),
{
    if s.wait_for_base && mnemonic != "BASE"@ {
    } else if mnemonic == "START"@ {
    } else if mnemonic == "RESB"@ || mnemonic == "RESW"@ {
    } else if mnemonic == "WORD"@ {
    } else if mnemonic == "BYTE"@ {
        if operand.len() > 3 {
            let body = operand.subrange(2, operand.len() - 1);
            if all_digits(body, Alphabet::Ascii) && body.len() <= 8 {
                lemma_number_bound(body, Alphabet::Ascii);
                lemma_power_grows(256, body.len(), body.len());
                lemma_capacity(body.len() as u32);
            }
            if all_digits(body, Alphabet::Hex) && body.len() <= 16 && body.len() % 2 == 0 {
                lemma_number_bound(body, Alphabet::Hex);
                lemma_capacity((body.len() / 2) as u32);
            }
        }
    } else if s.program_start {
        lemma_instruction_step_shaped(s, location, mnemonic, operand);
        let e = instruction_step(s, location, mnemonic, operand);
        match e.1 {
            Err(f) => {},
            Ok(enc) => {
                let code = instruction_line(e.0, line_number, source_code, location, enc);
                lemma_labelled_code(e.0, label, location, code, enc.byte as u32, location, true);
            },
        }
    }
}

/// A line gives a record of the right shape.
proof fn lemma_line_shaped(
    s: State,
    line_number: u32,
    location: u32,
    line: Seq<char>,
    source_code: Seq<char>,
)
    ensures
        step_shaped(assemble_line(s, line_number, location, line, source_code)),
{
    let body = trimmed(strip_comment(line));
    let fields = if body.len() == 0 {
        Seq::empty()
    } else {
        match fields_of(body) {
            Some(fields) => fields,
            None => Seq::empty(),
        }
    };
    if fields.len() == 1 {
        lemma_one_field_shaped(s, line_number, location, source_code, fields[0]);
    } else if fields.len() == 2 {
        lemma_two_fields_shaped(s, line_number, location, source_code, fields[0], fields[1]);
    } else if fields.len() == 3 {
        lemma_three_fields_shaped(
            s,
            line_number,
            location,
            source_code,
            fields[0],
            fields[1],
            fields[2],
        );
    }
}

/// Settling a waiting record of the right shape leaves it in the right
/// shape.
proof fn lemma_patch_shaped(code: Line, s: State)
    requires
        shaped(code),
        code.undone,
    ensures
        shaped(patch(code, s).code),
{
}

/// Settling the records of a list of locations leaves all records in the
/// right shape.
proof fn lemma_patch_all_shaped(
    r: Repair,
    places: Map<u32, usize>,
    patches: Seq<u32>,
    from: int,
    line_number: u32,
    source_code: Seq<char>,
)
    requires
        all_shaped(r.records),
    ensures
        all_shaped(patch_all(r, places, patches, from, line_number, source_code).records),
    decreases patches.len() - from,
{
    if 0 <= from < patches.len() {
        let location = patches[from];
        let next = patch_one(r, places, location, line_number, source_code);
        if places.contains_key(location) && places[location] < r.records.len()
            && r.records[places[location] as int].undone {
            lemma_patch_shaped(r.records[places[location] as int], r.state);
        }
        assert forall|i: int| 0 <= i < next.records.len() implies shaped(
            #[trigger] next.records[i],
        ) by {
            assert(shaped(r.records[i]));
        }
        lemma_patch_all_shaped(next, places, patches, from + 1, line_number, source_code);
    }
}

/// Reading one more line leaves all records in the right shape.
proof fn lemma_advance_shaped(p: Progress, line: Seq<char>)
    requires
        all_shaped(p.records),
    ensures
        all_shaped(advance(p, line).records),
{
    if !stopped(p) && !(p.state.program_end && trimmed(strip_comment(line)).len() > 0) {
        match normalized(line) {
            None => {},
            Some(text) => {
                let step = assemble_line(p.state, p.line_number, p.location, text, line);
                lemma_line_shaped(p.state, p.line_number, p.location, text, line);
                match step.result {
                    Err(f) => {},
                    Ok(made) => {
                        let first = Repair {
                            records: p.records.push(made.code),
                            state: step.state,
                            notes: p.notes,
                        };
                        assert forall|i: int| 0 <= i < first.records.len() implies shaped(
                            #[trigger] first.records[i],
                        ) by {
                            if i < p.records.len() {
                                assert(shaped(p.records[i]));
                            }
                        }
                        lemma_patch_all_shaped(
                            first,
                            p.places.insert(p.location, p.records.len() as usize),
                            made.patches,
                            0,
                            p.line_number,
                            line,
                        );
                    },
                }
            },
        }
    }
}

/// Every record that a pass makes has the right shape: its value fits the
/// bytes it takes, and while it waits, its address field is empty.
pub proof fn law_records_are_shaped(lines: Seq<Seq<char>>, n: nat)
    ensures
        all_shaped(after_lines(lines, n).records),
    decreases n,
{
    if 0 < n <= lines.len() {
        law_records_are_shaped(lines, (n - 1) as nat);
        lemma_advance_shaped(after_lines(lines, (n - 1) as nat), lines[n - 1]);
    }
}

/// Whether the block being filled holds two digits for each of its bytes,
/// and at most thirty bytes.
pub open spec fn block_fits(e: Emission) -> bool {
    e.block.payload.len() == 2 * e.block.bytes && 0 <= e.block.bytes <= 30
}

/// Writing one more record of the right shape keeps the block fitting.
proof fn lemma_emit_one_fits(e: Emission, records: Seq<Line>, i: int, zero: bool)
    requires
        0 <= i < records.len(),
        shaped(records[i]),
        block_fits(e),
    ensures
        block_fits(emit_one(e, records, i, zero)),
{
    let code = records[i];
    if !code.no_obj_code {
        lemma_field_width(code.obj_code, code.byte);
    }
}

/// As the records of a pass are written, the text block never holds more
/// than thirty bytes, and always two digits for each byte: every text
/// record says the length that its content has.
pub proof fn law_blocks_fit(e: Emission, records: Seq<Line>, n: nat, zero: bool)
    requires
        all_shaped(records),
        block_fits(e),
        n <= records.len(),
    ensures
        block_fits(emit_all(e, records, n, zero)),
    decreases n,
{
    if n > 0 {
        law_blocks_fit(e, records, (n - 1) as nat, zero);
        lemma_emit_one_fits(emit_all(e, records, (n - 1) as nat, zero), records, n - 1, zero);
    }
}

} // verus!
