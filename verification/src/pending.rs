//! Why a symbol that is used and never defined keeps the object module from
//! being written: as long as a symbol waits for its definition, a record
//! waits with it, and a record that still waits at the end is reported.
use vstd::prelude::*;
use crate::err::Fault;
use crate::object::{
    advance, after_lines, assembled, law_pending_is_reported, normalized, patch_all, patch_one,
    pending_note, start, stopped, Progress, Repair,
};
use crate::parser::symbol_table::{define, probe, refer, Symbol};
use crate::parser::{
    addressing, assemble_line, byte_value, close, data_line, empty_line, encode, encode_address,
    encode_symbol, fields_of, flags, instruction_line, instruction_step, labelled, marked,
    object_code, one_field, patch, reach, reserve_size, start_address, strip_comment, three_fields,
    two_fields, with_symbols, word_value, COMMA, Encoded, Line, State, Step,
};
use crate::text::{lines_of, trimmed};
use crate::parser::opcode_table::instruction;
use crate::pattern::regex_split;

verus! {

/// Whether `name` is in the table and waits for its definition.
pub open spec fn pending(t: Map<Seq<char>, Symbol>, name: Seq<char>) -> bool {
    t.contains_key(name) && t[name].need_alloc
}

/// Whether `name` is in the table and defined.
pub open spec fn resolved(t: Map<Seq<char>, Symbol>, name: Seq<char>) -> bool {
    t.contains_key(name) && !t[name].need_alloc
}

/// Whether every symbol that is defined in `before` is defined in `after`,
/// at the same address.
pub open spec fn keeps_definitions(
    before: Map<Seq<char>, Symbol>,
    after: Map<Seq<char>, Symbol>,
) -> bool {
    forall|k: Seq<char>| #[trigger]
        resolved(before, k) ==> resolved(after, k) && after[k].location == before[k].location
}

/// Whether no symbol waits in `after` that did not wait in `before`.
pub open spec fn adds_nothing_pending(
    before: Map<Seq<char>, Symbol>,
    after: Map<Seq<char>, Symbol>,
) -> bool {
    forall|k: Seq<char>| #[trigger] pending(after, k) ==> pending(before, k)
}

/// Whether the operand of the record is defined and lies out of reach of
/// the program counter.
pub open spec fn out_of_reach(code: Line, t: Map<Seq<char>, Symbol>) -> bool {
    resolved(t, code.operand) && !(-2048 <= t[code.operand].location - (code.location + code.byte)
        <= 2047)
}

/// Whether the record waits for `name`: it waits, and `name` is its operand,
/// or else its base while its operand is out of reach of the program
/// counter.
pub open spec fn waits_for(code: Line, name: Seq<char>, t: Map<Seq<char>, Symbol>) -> bool {
    code.undone && (code.operand == name || (code.base == name && flags(code) % 2 == 0
        && out_of_reach(code, t)))
}

/// Whether the encoding waits for `name`, as a record made of it will.
pub open spec fn encoded_waits(
    e: Encoded,
    name: Seq<char>,
    base: Seq<char>,
    location: u32,
    t: Map<Seq<char>, Symbol>,
) -> bool {
    e.undone && (e.operand == name || (base == name && e.byte == 3 && ((e.obj_code / 0x1000) % 16)
        % 2 == 0 && resolved(t, e.operand) && !(-2048 <= t[e.operand].location - (location + 3)
        <= 2047)))
}

/// Whether an encoding accounts for every symbol that newly waits: nothing
/// defined is lost, and a symbol waits newly only where the encoding
/// succeeded and waits for it.
pub open spec fn encoding_sound(
    before: Map<Seq<char>, Symbol>,
    base: Seq<char>,
    location: u32,
    out: (Map<Seq<char>, Symbol>, Result<Encoded, Fault>),
) -> bool {
    &&& keeps_definitions(before, out.0)
    &&& forall|k: Seq<char>| #[trigger]
        pending(out.0, k) && !pending(before, k) ==> out.1 is Ok && encoded_waits(
            out.1->Ok_0,
            k,
            base,
            location,
            out.0,
        )
}

/// Whether a line accounts for every symbol that newly waits: nothing
/// defined is lost, and where the line succeeded, its record waits for
/// every symbol that waits newly.
pub open spec fn step_sound(before: State, step: Step) -> bool {
    &&& keeps_definitions(before.symbols, step.state.symbols)
    &&& step.result is Ok ==> forall|k: Seq<char>| #[trigger]
        pending(step.state.symbols, k) && !pending(before.symbols, k) ==> waits_for(
            step.result->Ok_0.code,
            k,
            step.state.symbols,
        )
}

/// The flag digit of a three-byte instruction is the flag it was encoded
/// with.
proof fn lemma_flag_digit(opcode: u8, ni: u8, flag: u8, field: int)
    requires
        flag < 16,
    ensures
        ((object_code(opcode, ni, flag, field, false) as u64) / 0x1000) % 16 == flag,
{
    let top = opcode + ni;
    let low = field % 0x1000;
    let value = object_code(opcode, ni, flag, field, false);
    assert(value == (top * 16 + flag) * 0x1000 + low);
    assert(0 <= low < 0x1000);
    assert(value / 0x1000 == top * 16 + flag);
}

/// Looking for the base accounts for the base, if that comes to wait.
proof fn lemma_reach(
    symbols: Map<Seq<char>, Symbol>,
    location: u32,
    pc: i32,
    base: Seq<char>,
    target: u32,
)
    ensures
        keeps_definitions(symbols, reach(symbols, location, pc, base, target).0),
        forall|k: Seq<char>| #[trigger]
            pending(reach(symbols, location, pc, base, target).0, k) && !pending(symbols, k) ==> k
                == base && reach(symbols, location, pc, base, target).1 == Ok::<
                (i32, bool, u8),
                Fault,
            >((0i32, true, 0u8)) && !(-2048 <= target - pc <= 2047),
        forall|k: Seq<char>| #[trigger]
            pending(symbols, k) ==> pending(reach(symbols, location, pc, base, target).0, k),
{
}

/// Encoding a symbol operand accounts for every symbol that newly waits.
proof fn lemma_encode_symbol(
    symbols: Map<Seq<char>, Symbol>,
    base: Seq<char>,
    location: u32,
    opcode: u8,
    ni: u8,
    x: u8,
    target: Seq<char>,
    extension: bool,
)
    requires
        x == 0 || x == 8,
    ensures
        encoding_sound(
            symbols,
            base,
            location,
            encode_symbol(symbols, base, location, opcode, ni, x, target, extension),
        ),
{
    let out = encode_symbol(symbols, base, location, opcode, ni, x, target, extension);
    let after = refer(symbols, target, location);
    if location + 3 <= i32::MAX {
        lemma_reach(after.0, location, (location + 3) as i32, base, after.1.0);
    }
    lemma_flag_digit(opcode, ni, x, 0);
    assert forall|k: Seq<char>| #[trigger] pending(out.0, k) && !pending(symbols, k) implies out.1
        is Ok && encoded_waits(out.1->Ok_0, k, base, location, out.0) by {
        if pending(after.0, k) {
            assert(k == target);
        }
    }
}

/// Encoding an instruction of format 3 or 4 accounts for every symbol that
/// newly waits.
proof fn lemma_encode_address(
    symbols: Map<Seq<char>, Symbol>,
    base: Seq<char>,
    location: u32,
    mnemonic: Seq<char>,
    opcode: u8,
    operand: Seq<char>,
    extension: bool,
)
    ensures
        encoding_sound(
            symbols,
            base,
            location,
            encode_address(symbols, base, location, mnemonic, opcode, operand, extension),
        ),
{
    let mode = addressing(operand);
    match regex_split(COMMA@, mode.1) {
        None => {},
        Some(parts) => {
            if parts.len() > 0 {
                lemma_encode_symbol(symbols, base, location, opcode, mode.0, 0, parts[0], extension);
                lemma_encode_symbol(symbols, base, location, opcode, mode.0, 8, parts[0], extension);
            }
        },
    }
}

/// Encoding an instruction accounts for every symbol that newly waits.
proof fn lemma_encode(
    symbols: Map<Seq<char>, Symbol>,
    base: Seq<char>,
    location: u32,
    mnemonic: Seq<char>,
    opcode: u8,
    operand: Seq<char>,
    format: u8,
    extension: bool,
)
    ensures
        encoding_sound(
            symbols,
            base,
            location,
            encode(symbols, base, location, mnemonic, opcode, operand, format, extension),
        ),
{
    lemma_encode_address(symbols, base, location, mnemonic, opcode, operand, extension);
}

/// Encoding an instruction line accounts for every symbol that newly waits.
proof fn lemma_instruction_step(s: State, location: u32, field: Seq<char>, operand: Seq<char>)
    ensures
        instruction_step(s, location, field, operand).0.base == s.base,
        encoding_sound(
            s.symbols,
            s.base,
            location,
            (
                instruction_step(s, location, field, operand).0.symbols,
                instruction_step(s, location, field, operand).1,
            ),
        ),
{
    let m = marked(field);
    match instruction(m.1) {
        None => {},
        Some(found) => {
            lemma_encode(s.symbols, s.base, location, m.1, found.0, operand, found.1, m.0);
        },
    }
}

/// Closing a line leaves the symbols alone and hands the record on.
proof fn lemma_close(s: State, code: Line, offset: u32, patches: Seq<u32>)
    ensures
        close(s, code, offset, patches).state.symbols == s.symbols,
        close(s, code, offset, patches).result is Ok ==> close(
            s,
            code,
            offset,
            patches,
        ).result->Ok_0.code == code,
{
}

/// Defining the label of a line loses no definition, makes no symbol wait,
/// and hands the record on.
proof fn lemma_labelled(
    s: State,
    label: Seq<char>,
    address: u32,
    code: Line,
    offset: u32,
    location: u32,
    rollback: bool,
)
    ensures
        keeps_definitions(
            s.symbols,
            labelled(s, label, address, code, offset, location, rollback).state.symbols,
        ),
        adds_nothing_pending(
            s.symbols,
            labelled(s, label, address, code, offset, location, rollback).state.symbols,
        ),
        labelled(s, label, address, code, offset, location, rollback).result is Ok ==> labelled(
            s,
            label,
            address,
            code,
            offset,
            location,
            rollback,
        ).result->Ok_0.code == code,
{
    let out = labelled(s, label, address, code, offset, location, rollback);
    match define(s.symbols, label, address) {
        None => {},
        Some(defined) => {
            lemma_close(with_symbols(s, defined.0), code, offset, defined.1);
        },
    }
    assert forall|k: Seq<char>| #[trigger] resolved(s.symbols, k) implies resolved(
        out.state.symbols,
        k,
    ) && out.state.symbols[k].location == s.symbols[k].location by {}
    assert forall|k: Seq<char>| #[trigger] pending(out.state.symbols, k) implies pending(
        s.symbols,
        k,
    ) by {}
}

/// The record of an encoding waits for what the encoding waits for, also
/// after further definitions.
proof fn lemma_record_waits(
    s: State,
    line_number: u32,
    source_code: Seq<char>,
    location: u32,
    e: Encoded,
    name: Seq<char>,
    later: Map<Seq<char>, Symbol>,
)
    requires
        encoded_waits(e, name, s.base, location, s.symbols),
        keeps_definitions(s.symbols, later),
    ensures
        waits_for(instruction_line(s, line_number, source_code, location, e), name, later),
{
    if e.operand != name {
        assert(resolved(s.symbols, e.operand));
    }
}

/// A line of one field accounts for every symbol that newly waits.
proof fn lemma_one_field(
    s: State,
    line_number: u32,
    location: u32,
    source_code: Seq<char>,
    mnemonic: Seq<char>,
)
    ensures
        step_sound(s, one_field(s, line_number, location, source_code, mnemonic)),
{
    let out = one_field(s, line_number, location, source_code, mnemonic);
    match instruction(mnemonic) {
        None => {},
        Some(found) => {
            lemma_encode(
                s.symbols,
                s.base,
                location,
                mnemonic,
                found.0,
                Seq::empty(),
                found.1,
                false,
            );
            let e = encode(
                s.symbols,
                s.base,
                location,
                mnemonic,
                found.0,
                Seq::empty(),
                found.1,
                false,
            );
            let s1 = with_symbols(s, e.0);
            match e.1 {
                Err(f) => {},
                Ok(enc) => {
                    let code = instruction_line(s1, line_number, source_code, location, enc);
                    lemma_close(s1, code, enc.byte as u32, Seq::empty());
                    if out.result is Ok {
                        assert forall|k: Seq<char>| #[trigger]
                            pending(out.state.symbols, k) && !pending(
                                s.symbols,
                                k,
                            ) implies waits_for(out.result->Ok_0.code, k, out.state.symbols) by {
                            lemma_record_waits(
                                s1,
                                line_number,
                                source_code,
                                location,
                                enc,
                                k,
                                s1.symbols,
                            );
                        }
                    }
                },
            }
        },
    }
}

/// An instruction with its label accounts for every symbol that newly
/// waits.
proof fn lemma_labelled_instruction(
    s: State,
    s1: State,
    enc: Encoded,
    label: Seq<char>,
    line_number: u32,
    location: u32,
    source_code: Seq<char>,
    rollback: bool,
)
    requires
        s1.base == s.base,
        encoding_sound(s.symbols, s.base, location, (s1.symbols, Ok::<Encoded, Fault>(enc))),
    ensures
        step_sound(
            s,
            labelled(
                s1,
                label,
                location,
                instruction_line(s1, line_number, source_code, location, enc),
                enc.byte as u32,
                location,
                rollback,
            ),
        ),
{
    let code = instruction_line(s1, line_number, source_code, location, enc);
    let out = labelled(s1, label, location, code, enc.byte as u32, location, rollback);
    lemma_labelled(s1, label, location, code, enc.byte as u32, location, rollback);
    assert forall|k: Seq<char>| #[trigger] resolved(s.symbols, k) implies resolved(
        out.state.symbols,
        k,
    ) && out.state.symbols[k].location == s.symbols[k].location by {
        assert(resolved(s1.symbols, k));
    }
    if out.result is Ok {
        assert forall|k: Seq<char>| #[trigger]
            pending(out.state.symbols, k) && !pending(s.symbols, k) implies waits_for(
            out.result->Ok_0.code,
            k,
            out.state.symbols,
        ) by {
            assert(pending(s1.symbols, k));
            lemma_record_waits(s1, line_number, source_code, location, enc, k, out.state.symbols);
        }
    }
}

/// A line of two fields accounts for every symbol that newly waits.
proof fn lemma_two_fields(
    s: State,
    line_number: u32,
    location: u32,
    source_code: Seq<char>,
    first: Seq<char>,
    second: Seq<char>,
)
    ensures
        step_sound(s, two_fields(s, line_number, location, source_code, first, second)),
{
    let out = two_fields(s, line_number, location, source_code, first, second);
    if s.program_start {
        match instruction(second) {
            Some(found) => {
                lemma_encode(
                    s.symbols,
                    s.base,
                    location,
                    second,
                    found.0,
                    Seq::empty(),
                    found.1,
                    false,
                );
                let e = encode(
                    s.symbols,
                    s.base,
                    location,
                    second,
                    found.0,
                    Seq::empty(),
                    found.1,
                    false,
                );
                let s1 = with_symbols(s, e.0);
                match e.1 {
                    Err(f) => {},
                    Ok(enc) => {
                        lemma_labelled_instruction(
                            s,
                            s1,
                            enc,
                            first,
                            line_number,
                            location,
                            source_code,
                            false,
                        );
                    },
                }
            },
            None => {
                lemma_close(
                    State { wait_for_base: false, base: second, ..s },
                    empty_line(line_number, source_code),
                    0,
                    Seq::empty(),
                );
                match probe(s.symbols, second) {
                    Some(found) => {
                        lemma_close(
                            State {
                                program_start_address: found.0,
                                ..State { program_end: true, ..s }
                            },
                            empty_line(line_number, source_code),
                            0,
                            Seq::empty(),
                        );
                    },
                    None => {},
                }
                lemma_instruction_step(s, location, first, second);
                let e = instruction_step(s, location, first, second);
                match e.1 {
                    Err(f) => {},
                    Ok(enc) => {
                        let code = instruction_line(e.0, line_number, source_code, location, enc);
                        lemma_close(e.0, code, enc.byte as u32, Seq::empty());
                        if out.result is Ok && !(s.wait_for_base && first != "BASE"@) && first
                            != "BASE"@ && first != "END"@ {
                            assert forall|k: Seq<char>| #[trigger]
                                pending(out.state.symbols, k) && !pending(
                                    s.symbols,
                                    k,
                                ) implies waits_for(out.result->Ok_0.code, k, out.state.symbols) by {
                                lemma_record_waits(
                                    e.0,
                                    line_number,
                                    source_code,
                                    location,
                                    enc,
                                    k,
                                    e.0.symbols,
                                );
                            }
                        }
                    },
                }
            },
        }
    }
}

/// A line of three fields accounts for every symbol that newly waits.
proof fn lemma_three_fields(
    s: State,
    line_number: u32,
    location: u32,
    source_code: Seq<char>,
    label: Seq<char>,
    mnemonic: Seq<char>,
    operand: Seq<char>,
)
    ensures
        step_sound(s, three_fields(s, line_number, location, source_code, label, mnemonic, operand)),
{
    let out = three_fields(s, line_number, location, source_code, label, mnemonic, operand);
    if s.wait_for_base && mnemonic != "BASE"@ {
    } else if mnemonic == "START"@ {
        match start_address(operand) {
            None => {},
            Some(address) => {
                let named = State { program_name: label, ..State { program_start: true, ..s } };
                lemma_labelled(
                    named,
                    label,
                    address as u32,
                    empty_line(line_number, source_code),
                    address as u32,
                    location,
                    true,
                );
            },
        }
    } else if mnemonic == "RESB"@ || mnemonic == "RESW"@ {
        match reserve_size(operand, mnemonic == "RESW"@) {
            None => {},
            Some(size) => {
                lemma_labelled(
                    s,
                    label,
                    location,
                    data_line(
                        s,
                        line_number,
                        source_code,
                        location,
                        operand,
                        0,
                        size as u32,
                        true,
                    ),
                    size as u32,
                    location,
                    true,
                );
            },
        }
    } else if mnemonic == "WORD"@ {
        match word_value(operand) {
            None => {},
            Some(value) => {
                lemma_labelled(
                    s,
                    label,
                    location,
                    data_line(
                        s,
                        line_number,
                        source_code,
                        location,
                        operand,
                        value as u64,
                        3,
                        false,
                    ),
                    3,
                    location,
                    true,
                );
            },
        }
    } else if mnemonic == "BYTE"@ {
        match byte_value(operand) {
            Err(f) => {},
            Ok(constant) => {
                lemma_labelled(
                    s,
                    label,
                    location,
                    data_line(
                        s,
                        line_number,
                        source_code,
                        location,
                        operand,
                        constant.0,
                        constant.1,
                        false,
                    ),
                    constant.1,
                    location,
                    true,
                );
            },
        }
    } else if s.program_start {
        lemma_instruction_step(s, location, mnemonic, operand);
        let e = instruction_step(s, location, mnemonic, operand);
        match e.1 {
            Err(f) => {},
            Ok(enc) => {
                if enc.operand != label {
                    lemma_labelled_instruction(
                        s,
                        e.0,
                        enc,
                        label,
                        line_number,
                        location,
                        source_code,
                        true,
                    );
                }
            },
        }
    }
}

/// A line accounts for every symbol that newly waits.
proof fn lemma_line(
    s: State,
    line_number: u32,
    location: u32,
    line: Seq<char>,
    source_code: Seq<char>,
)
    ensures
        step_sound(s, assemble_line(s, line_number, location, line, source_code)),
{
    let body = trimmed(strip_comment(line));
    let fields = if body.len() == 0 {
        Seq::empty()
    } else {
        match fields_of(body) {
            Some(fields) => fields,
            None => Seq::empty(),
        }
    };
    if fields.len() == 1 {
        lemma_one_field(s, line_number, location, source_code, fields[0]);
    } else if fields.len() == 2 {
        lemma_two_fields(s, line_number, location, source_code, fields[0], fields[1]);
    } else if fields.len() == 3 {
        lemma_three_fields(s, line_number, location, source_code, fields[0], fields[1], fields[2]);
    }
}

/// Whether every symbol that waits has a record that waits for it, unless
/// something has failed already.
pub open spec fn accounted(records: Seq<Line>, t: Map<Seq<char>, Symbol>, failed: bool) -> bool {
    failed || forall|k: Seq<char>| #[trigger]
        pending(t, k) ==> exists|i: int|
            0 <= i < records.len() && waits_for(#[trigger] records[i], k, t)
}

/// Whether every symbol that waits in the pass has a record that waits for
/// it, unless a line has failed or the pass was ended.
pub open spec fn pass_accounted(p: Progress) -> bool {
    accounted(p.records, p.state.symbols, p.failed || p.fatal is Some)
}

/// A record that waits for a symbol goes on waiting for it as further
/// symbols are defined.
proof fn lemma_waits_on(
    code: Line,
    name: Seq<char>,
    before: Map<Seq<char>, Symbol>,
    after: Map<Seq<char>, Symbol>,
)
    requires
        waits_for(code, name, before),
        keeps_definitions(before, after),
    ensures
        waits_for(code, name, after),
{
    if code.operand != name {
        assert(resolved(before, code.operand));
    }
}

/// Settling a waiting record loses no definition, leaves the record alone
/// as long as what it waits for is not defined, and where it makes a symbol
/// wait, the record waits for that symbol.
proof fn lemma_patch(code: Line, s: State)
    requires
        code.undone,
    ensures
        keeps_definitions(s.symbols, patch(code, s).state.symbols),
        forall|k: Seq<char>|
            waits_for(code, k, s.symbols) && !(#[trigger] resolved(s.symbols, k)) ==> patch(
                code,
                s,
            ).code == code,
        forall|k: Seq<char>| #[trigger]
            pending(patch(code, s).state.symbols, k) && !pending(s.symbols, k) ==> patch(
                code,
                s,
            ).code == code && waits_for(code, k, patch(code, s).state.symbols),
{
    if code.location + code.byte <= i32::MAX {
        match probe(s.symbols, code.operand) {
            None => {},
            Some(found) => {
                lemma_reach(
                    s.symbols,
                    code.location,
                    (code.location + code.byte) as i32,
                    code.base,
                    found.0,
                );
            },
        }
    }
}

/// Settling one record keeps every waiting symbol accounted for.
proof fn lemma_patch_one(
    r: Repair,
    places: Map<u32, usize>,
    location: u32,
    line_number: u32,
    source_code: Seq<char>,
    failed: bool,
)
    requires
        accounted(r.records, r.state.symbols, failed),
    ensures
        accounted(
            patch_one(r, places, location, line_number, source_code).records,
            patch_one(r, places, location, line_number, source_code).state.symbols,
            failed,
        ),
{
    let out = patch_one(r, places, location, line_number, source_code);
    if !failed && places.contains_key(location) && places[location] < r.records.len()
        && r.records[places[location] as int].undone {
        let index = places[location] as int;
        let code = r.records[index];
        let p = patch(code, r.state);
        lemma_patch(code, r.state);
        assert forall|k: Seq<char>| #[trigger] pending(out.state.symbols, k) implies exists|i: int|
            0 <= i < out.records.len() && waits_for(#[trigger] out.records[i], k, out.state.symbols) by {
            if pending(r.state.symbols, k) {
                let i = choose|i: int|
                    0 <= i < r.records.len() && waits_for(#[trigger] r.records[i], k, r.state.symbols);
                lemma_waits_on(r.records[i], k, r.state.symbols, out.state.symbols);
                if i == index {
                    assert(!resolved(r.state.symbols, k));
                    assert(p.code == code);
                }
                assert(out.records[i] == r.records[i]);
                assert(waits_for(out.records[i], k, out.state.symbols));
            } else {
                assert(out.records[index] == code);
                assert(waits_for(out.records[index], k, out.state.symbols));
            }
        }
    }
}

/// Settling the records of a list of locations keeps every waiting symbol
/// accounted for.
proof fn lemma_patch_all(
    r: Repair,
    places: Map<u32, usize>,
    patches: Seq<u32>,
    from: int,
    line_number: u32,
    source_code: Seq<char>,
    failed: bool,
)
    requires
        accounted(r.records, r.state.symbols, failed),
    ensures
        accounted(
            patch_all(r, places, patches, from, line_number, source_code).records,
            patch_all(r, places, patches, from, line_number, source_code).state.symbols,
            failed,
        ),
    decreases patches.len() - from,
{
    if 0 <= from < patches.len() {
        lemma_patch_one(r, places, patches[from], line_number, source_code, failed);
        lemma_patch_all(
            patch_one(r, places, patches[from], line_number, source_code),
            places,
            patches,
            from + 1,
            line_number,
            source_code,
            failed,
        );
    }
}

/// Reading one more line keeps every waiting symbol accounted for.
proof fn lemma_advance(p: Progress, line: Seq<char>)
    requires
        pass_accounted(p),
    ensures
        pass_accounted(advance(p, line)),
{
    let out = advance(p, line);
    if stopped(p) {
    } else if p.state.program_end && trimmed(strip_comment(line)).len() > 0 {
    } else {
        match normalized(line) {
            None => {},
            Some(text) => {
                let step = assemble_line(p.state, p.line_number, p.location, text, line);
                lemma_line(p.state, p.line_number, p.location, text, line);
                match step.result {
                    Err(f) => {},
                    Ok(made) => {
                        let records = p.records.push(made.code);
                        let places = p.places.insert(p.location, p.records.len() as usize);
                        let first = Repair { records, state: step.state, notes: p.notes };
                        assert(accounted(records, step.state.symbols, p.failed)) by {
                            if !p.failed {
                                assert forall|k: Seq<char>| #[trigger]
                                    pending(step.state.symbols, k) implies exists|i: int|
                                    0 <= i < records.len() && waits_for(
                                        #[trigger] records[i],
                                        k,
                                        step.state.symbols,
                                    ) by {
                                    if pending(p.state.symbols, k) {
                                        let i = choose|i: int|
                                            0 <= i < p.records.len() && waits_for(
                                                #[trigger] p.records[i],
                                                k,
                                                p.state.symbols,
                                            );
                                        lemma_waits_on(
                                            p.records[i],
                                            k,
                                            p.state.symbols,
                                            step.state.symbols,
                                        );
                                        assert(records[i] == p.records[i]);
                                        assert(waits_for(records[i], k, step.state.symbols));
                                    } else {
                                        let i = p.records.len() as int;
                                        assert(records[i] == made.code);
                                        assert(waits_for(records[i], k, step.state.symbols));
                                    }
                                }
                            }
                        }
                        lemma_patch_all(
                            first,
                            places,
                            made.patches,
                            0,
                            p.line_number,
                            line,
                            p.failed,
                        );
                    },
                }
            },
        }
    }
}

/// After any number of lines, every symbol that waits has a record that
/// waits for it, unless a line has failed or the pass was ended.
proof fn lemma_after_lines(lines: Seq<Seq<char>>, n: nat)
    ensures
        pass_accounted(after_lines(lines, n)),
    decreases n,
{
    if n == 0 || n > lines.len() {
        assert(pass_accounted(start()));
    } else {
        lemma_after_lines(lines, (n - 1) as nat);
        lemma_advance(after_lines(lines, (n - 1) as nat), lines[n - 1]);
    }
}

/// A symbol that was used and is still not defined when the source has been
/// read keeps the object module from being written; and unless a line was
/// reported as failed, a record that waits for the symbol is reported: as
/// its operand, or as its base. This holds of every source that reaches
/// `END` without a fault that ends the run and whose program name has an
/// address.
pub proof fn law_undefined_symbol(source: Seq<char>, name: Seq<char>)
    requires
        pending(after_lines(lines_of(source), lines_of(source).len()).state.symbols, name),
        after_lines(lines_of(source), lines_of(source).len()).fatal is None,
        after_lines(lines_of(source), lines_of(source).len()).state.program_end,
        probe(
            after_lines(lines_of(source), lines_of(source).len()).state.symbols,
            after_lines(lines_of(source), lines_of(source).len()).state.program_name,
        ) is Some,
        !probe(
            after_lines(lines_of(source), lines_of(source).len()).state.symbols,
            after_lines(lines_of(source), lines_of(source).len()).state.program_name,
        ).unwrap().1,
    ensures
        assembled(source).fatal is None,
        assembled(source).module is None,
        after_lines(lines_of(source), lines_of(source).len()).failed || exists|i: int|
            0 <= i < assembled(source).records.len() && waits_for(
                #[trigger] assembled(source).records[i],
                name,
                assembled(source).state.symbols,
            ) && assembled(source).notes.contains(pending_note(assembled(source).records[i])),
{
    let p = after_lines(lines_of(source), lines_of(source).len());
    lemma_after_lines(lines_of(source), lines_of(source).len());
    let found = probe(p.state.symbols, p.state.program_name).unwrap();
    if !p.failed {
        let i = choose|i: int|
            0 <= i < p.records.len() && waits_for(#[trigger] p.records[i], name, p.state.symbols);
        law_pending_is_reported(
            p.records,
            p.notes,
            p.state.program_name,
            found.0,
            p.state.program_length,
            p.state.program_start_address,
            i,
        );
        assert(assembled(source).records[i] == p.records[i]);
    }
}

/// Settling one record loses no definition.
proof fn lemma_patch_one_keeps(
    r: Repair,
    places: Map<u32, usize>,
    location: u32,
    line_number: u32,
    source_code: Seq<char>,
)
    ensures
        keeps_definitions(
            r.state.symbols,
            patch_one(r, places, location, line_number, source_code).state.symbols,
        ),
{
    if places.contains_key(location) && places[location] < r.records.len()
        && r.records[places[location] as int].undone {
        lemma_patch(r.records[places[location] as int], r.state);
    }
}

/// Settling the records of a list of locations loses no definition.
proof fn lemma_patch_all_keeps(
    r: Repair,
    places: Map<u32, usize>,
    patches: Seq<u32>,
    from: int,
    line_number: u32,
    source_code: Seq<char>,
)
    ensures
        keeps_definitions(
            r.state.symbols,
            patch_all(r, places, patches, from, line_number, source_code).state.symbols,
        ),
    decreases patches.len() - from,
{
    if 0 <= from < patches.len() {
        let next = patch_one(r, places, patches[from], line_number, source_code);
        lemma_patch_one_keeps(r, places, patches[from], line_number, source_code);
        lemma_patch_all_keeps(next, places, patches, from + 1, line_number, source_code);
        let last = patch_all(r, places, patches, from, line_number, source_code);
        assert forall|k: Seq<char>| #[trigger] resolved(r.state.symbols, k) implies resolved(
            last.state.symbols,
            k,
        ) && last.state.symbols[k].location == r.state.symbols[k].location by {
            assert(resolved(next.state.symbols, k));
        }
    }
}

/// Reading one more line loses no definition.
proof fn lemma_advance_keeps(p: Progress, line: Seq<char>)
    ensures
        keeps_definitions(p.state.symbols, advance(p, line).state.symbols),
{
    if !stopped(p) && !(p.state.program_end && trimmed(strip_comment(line)).len() > 0) {
        match normalized(line) {
            None => {},
            Some(text) => {
                let step = assemble_line(p.state, p.line_number, p.location, text, line);
                lemma_line(p.state, p.line_number, p.location, text, line);
                match step.result {
                    Err(f) => {},
                    Ok(made) => {
                        let first = Repair {
                            records: p.records.push(made.code),
                            state: step.state,
                            notes: p.notes,
                        };
                        let places = p.places.insert(p.location, p.records.len() as usize);
                        lemma_patch_all_keeps(first, places, made.patches, 0, p.line_number, line);
                        let last = patch_all(first, places, made.patches, 0, p.line_number, line);
                        assert forall|k: Seq<char>| #[trigger]
                            resolved(p.state.symbols, k) implies resolved(last.state.symbols, k)
                            && last.state.symbols[k].location == p.state.symbols[k].location by {
                            assert(resolved(step.state.symbols, k));
                        }
                    },
                }
            },
        }
    }
}

/// Once a symbol is defined, its address is fixed for the rest of the pass:
/// whatever lines follow, the symbol stays defined at the same address.
pub proof fn law_definitions_stay(lines: Seq<Seq<char>>, m: nat, n: nat)
    requires
        m <= n <= lines.len(),
    ensures
        keeps_definitions(after_lines(lines, m).state.symbols, after_lines(lines, n).state.symbols),
    decreases n - m,
{
    if m < n {
        law_definitions_stay(lines, m, (n - 1) as nat);
        let middle = after_lines(lines, (n - 1) as nat);
        lemma_advance_keeps(middle, lines[n - 1]);
        assert forall|k: Seq<char>| #[trigger]
            resolved(after_lines(lines, m).state.symbols, k) implies resolved(
            after_lines(lines, n).state.symbols,
            k,
        ) && after_lines(lines, n).state.symbols[k].location == after_lines(
            lines,
            m,
        ).state.symbols[k].location by {
            assert(resolved(middle.state.symbols, k));
        }
    }
}

} // verus!
