//! The layout of a program is fixed as the lines are read: the location
//! counter runs with the length of the program, and neither ever passes the
//! size limit.
use vstd::prelude::*;
use crate::err::ErrorKind;
use crate::object::{
    advance, after_lines, normalized, patch_all, patch_one, stopped, Progress, Repair,
};
use crate::parser::symbol_table::define;
use crate::parser::{
    assemble_line, byte_value, close, data_line, empty_line, encode, fields_of, instruction_line,
    instruction_step, labelled, one_field, reserve_size, start_address, strip_comment,
    law_patch_keeps_layout, three_fields, two_fields, with_symbols, word_value, Line,
    SizeLimit, State, Step,
};
use crate::parser::opcode_table::instruction;
use crate::parser::symbol_table::probe;
use crate::text::trimmed;

verus! {

/// Whether a line moves the program length by exactly the space it takes:
/// a line that succeeds adds its size and keeps a length that was within the
/// size limit within it, and a line that fails for any reason but the size
/// of the program leaves the length as it was.
pub open spec fn keeps_count(before: State, step: Step) -> bool {
    match step.result {
        Ok(made) => step.state.program_length == before.program_length + made.offset
            && (before.program_length <= SizeLimit::Location.spec_value()
            ==> step.state.program_length <= SizeLimit::Location.spec_value()),
        Err(f) => f.kind != ErrorKind::ProgramTooLarge ==> step.state.program_length
            == before.program_length,
    }
}

/// Closing a line adds its size to the program length.
proof fn lemma_close_counts(s: State, code: Line, offset: u32, patches: Seq<u32>)
    ensures
        keeps_count(s, close(s, code, offset, patches)),
{
}

/// Defining the label of a line and closing it adds the size of the line to
/// the program length.
proof fn lemma_labelled_counts(
    s: State,
    label: Seq<char>,
    address: u32,
    code: Line,
    offset: u32,
    location: u32,
    rollback: bool,
)
    ensures
        keeps_count(s, labelled(s, label, address, code, offset, location, rollback)),
{
    match define(s.symbols, label, address) {
        None => {},
        Some(defined) => {
            lemma_close_counts(with_symbols(s, defined.0), code, offset, defined.1);
        },
    }
}

/// A line of one field moves the program length by its size.
proof fn lemma_one_field_counts(
    s: State,
    line_number: u32,
    location: u32,
    source_code: Seq<char>,
    mnemonic: Seq<char>,
)
    ensures
        keeps_count(s, one_field(s, line_number, location, source_code, mnemonic)),
{
    match instruction(mnemonic) {
        None => {},
        Some(found) => {
            let e = encode(
                s.symbols,
                s.base,
                location,
                mnemonic,
                found.0,
                Seq::empty(),
                found.1,
                false,
            );
            let s1 = with_symbols(s, e.0);
            match e.1 {
                Err(f) => {},
                Ok(enc) => {
                    lemma_close_counts(
                        s1,
                        instruction_line(s1, line_number, source_code, location, enc),
                        enc.byte as u32,
                        Seq::empty(),
                    );
                },
            }
        },
    }
}

/// A line of two fields moves the program length by its size.
proof fn lemma_two_fields_counts(
    s: State,
    line_number: u32,
    location: u32,
    source_code: Seq<char>,
    first: Seq<char>,
    second: Seq<char>,
)
    ensures
        keeps_count(s, two_fields(s, line_number, location, source_code, first, second)),
{
    match instruction(second) {
        Some(found) => {
            let e = encode(
                s.symbols,
                s.base,
                location,
                second,
                found.0,
                Seq::empty(),
                found.1,
                false,
            );
            let s1 = with_symbols(s, e.0);
            match e.1 {
                Err(f) => {},
                Ok(enc) => {
                    lemma_labelled_counts(
                        s1,
                        first,
                        location,
                        instruction_line(s1, line_number, source_code, location, enc),
                        enc.byte as u32,
                        location,
                        false,
                    );
                },
            }
        },
        None => {
            lemma_close_counts(
                State { wait_for_base: false, base: second, ..s },
                empty_line(line_number, source_code),
                0,
                Seq::empty(),
            );
            match probe(s.symbols, second) {
                Some(found) => {
                    lemma_close_counts(
                        State { program_start_address: found.0, ..State { program_end: true, ..s } },
                        empty_line(line_number, source_code),
                        0,
                        Seq::empty(),
                    );
                },
                None => {},
            }
            let e = instruction_step(s, location, first, second);
            match e.1 {
                Err(f) => {},
                Ok(enc) => {
                    lemma_close_counts(
                        e.0,
                        instruction_line(e.0, line_number, source_code, location, enc),
                        enc.byte as u32,
                        Seq::empty(),
                    );
                },
            }
        },
    }
}

/// A line of three fields moves the program length by its size.
proof fn lemma_three_fields_counts(
    s: State,
    line_number: u32,
    location: u32,
    source_code: Seq<char>,
    label: Seq<char>,
    mnemonic: Seq<char>,
    operand: Seq<char>,
)
    ensures
        keeps_count(
            s,
            three_fields(s, line_number, location, source_code, label, mnemonic, operand),
        ),
{
    if s.wait_for_base && mnemonic != "BASE"@ {
    } else if mnemonic == "START"@ {
        match start_address(operand) {
            None => {},
            Some(address) => {
                lemma_labelled_counts(
                    State { program_name: label, ..State { program_start: true, ..s } },
                    label,
                    address as u32,
                    empty_line(line_number, source_code),
                    address as u32,
                    location,
                    true,
                );
            },
        }
    } else if mnemonic == "RESB"@ || mnemonic == "RESW"@ {
        match reserve_size(operand, mnemonic == "RESW"@) {
            None => {},
            Some(size) => {
                lemma_labelled_counts(
                    s,
                    label,
                    location,
                    data_line(s, line_number, source_code, location, operand, 0, size as u32, true),
                    size as u32,
                    location,
                    true,
                );
            },
        }
    } else if mnemonic == "WORD"@ {
        match word_value(operand) {
            None => {},
            Some(value) => {
                lemma_labelled_counts(
                    s,
                    label,
                    location,
                    data_line(
                        s,
                        line_number,
                        source_code,
                        location,
                        operand,
                        value as u64,
                        3,
                        false,
                    ),
                    3,
                    location,
                    true,
                );
            },
        }
    } else if mnemonic == "BYTE"@ {
        match byte_value(operand) {
            Err(f) => {},
            Ok(constant) => {
                lemma_labelled_counts(
                    s,
                    label,
                    location,
                    data_line(
                        s,
                        line_number,
                        source_code,
                        location,
                        operand,
                        constant.0,
                        constant.1,
                        false,
                    ),
                    constant.1,
                    location,
                    true,
                );
            },
        }
    } else if s.program_start {
        let e = instruction_step(s, location, mnemonic, operand);
        match e.1 {
            Err(f) => {},
            Ok(enc) => {
                lemma_labelled_counts(
                    e.0,
                    label,
                    location,
                    instruction_line(e.0, line_number, source_code, location, enc),
                    enc.byte as u32,
                    location,
                    true,
                );
            },
        }
    }
}

/// A line moves the program length by its size.
proof fn lemma_line_counts(
    s: State,
    line_number: u32,
    location: u32,
    line: Seq<char>,
    source_code: Seq<char>,
)
    ensures
        keeps_count(s, assemble_line(s, line_number, location, line, source_code)),
{
    let body = trimmed(strip_comment(line));
    let fields = if body.len() == 0 {
        Seq::empty()
    } else {
        match fields_of(body) {
            Some(fields) => fields,
            None => Seq::empty(),
        }
    };
    if fields.len() == 1 {
        lemma_one_field_counts(s, line_number, location, source_code, fields[0]);
    } else if fields.len() == 2 {
        lemma_two_fields_counts(s, line_number, location, source_code, fields[0], fields[1]);
    } else if fields.len() == 3 {
        lemma_three_fields_counts(
            s,
            line_number,
            location,
            source_code,
            fields[0],
            fields[1],
            fields[2],
        );
    }
}

/// Settling records leaves the program length alone.
proof fn lemma_patch_all_counts(
    r: Repair,
    places: Map<u32, usize>,
    patches: Seq<u32>,
    from: int,
    line_number: u32,
    source_code: Seq<char>,
)
    ensures
        patch_all(r, places, patches, from, line_number, source_code).state.program_length
            == r.state.program_length,
    decreases patches.len() - from,
{
    if 0 <= from < patches.len() {
        lemma_patch_all_counts(
            patch_one(r, places, patches[from], line_number, source_code),
            places,
            patches,
            from + 1,
            line_number,
            source_code,
        );
    }
}

/// Whether the location counter of the pass equals the program length and
/// lies within the size limit, unless a fault has ended the pass.
pub open spec fn in_step(p: Progress) -> bool {
    p.fatal is None ==> p.location == p.state.program_length && p.location
        <= SizeLimit::Location.spec_value()
}

/// Reading one more line keeps the location counter in step with the
/// program length.
proof fn lemma_advance_counts(p: Progress, line: Seq<char>)
    requires
        in_step(p),
    ensures
        in_step(advance(p, line)),
{
    if !stopped(p) && !(p.state.program_end && trimmed(strip_comment(line)).len() > 0) {
        match normalized(line) {
            None => {},
            Some(text) => {
                let step = assemble_line(p.state, p.line_number, p.location, text, line);
                lemma_line_counts(p.state, p.line_number, p.location, text, line);
                match step.result {
                    Err(f) => {},
                    Ok(made) => {
                        lemma_patch_all_counts(
                            Repair {
                                records: p.records.push(made.code),
                                state: step.state,
                                notes: p.notes,
                            },
                            p.places.insert(p.location, p.records.len() as usize),
                            made.patches,
                            0,
                            p.line_number,
                            line,
                        );
                    },
                }
            },
        }
    }
}

/// After any number of lines, the location counter equals the length of the
/// program, and both lie within the size limit, unless a fault has ended
/// the pass: every line is placed right behind the one before it, and what
/// is placed is never moved.
pub proof fn law_location_is_program_length(lines: Seq<Seq<char>>, n: nat)
    ensures
        in_step(after_lines(lines, n)),
    decreases n,
{
    if 0 < n <= lines.len() {
        law_location_is_program_length(lines, (n - 1) as nat);
        lemma_advance_counts(after_lines(lines, (n - 1) as nat), lines[n - 1]);
    }
}

/// Whether `after` is the record `before` with at most another value and
/// another waiting flag.
pub open spec fn same_layout(before: Line, after: Line) -> bool {
    after == (Line { obj_code: after.obj_code, undone: after.undone, ..before })
}

/// Whether `after` holds the records of `before`, in place and with the same
/// layout, and possibly more behind them.
pub open spec fn extends(before: Seq<Line>, after: Seq<Line>) -> bool {
    &&& before.len() <= after.len()
    &&& forall|i: int| 0 <= i < before.len() ==> same_layout(before[i], #[trigger] after[i])
}

/// Settling records leaves every record in place and with its layout.
proof fn lemma_patch_all_layout(
    r: Repair,
    places: Map<u32, usize>,
    patches: Seq<u32>,
    from: int,
    line_number: u32,
    source_code: Seq<char>,
)
    ensures
        patch_all(r, places, patches, from, line_number, source_code).records.len()
            == r.records.len(),
        extends(r.records, patch_all(r, places, patches, from, line_number, source_code).records),
    decreases patches.len() - from,
{
    if 0 <= from < patches.len() {
        let next = patch_one(r, places, patches[from], line_number, source_code);
        lemma_patch_all_layout(next, places, patches, from + 1, line_number, source_code);
        let last = patch_all(r, places, patches, from, line_number, source_code);
        if places.contains_key(patches[from]) && places[patches[from]] < r.records.len() {
            law_patch_keeps_layout(r.records[places[patches[from]] as int], r.state);
        }
        assert forall|i: int| 0 <= i < r.records.len() implies same_layout(
            r.records[i],
            #[trigger] last.records[i],
        ) by {
            assert(same_layout(r.records[i], next.records[i]));
            assert(same_layout(next.records[i], last.records[i]));
        }
    }
}

/// Reading one more line leaves every record in place and with its layout.
proof fn lemma_advance_layout(p: Progress, line: Seq<char>)
    ensures
        extends(p.records, advance(p, line).records),
{
    if !stopped(p) && !(p.state.program_end && trimmed(strip_comment(line)).len() > 0) {
        match normalized(line) {
            None => {},
            Some(text) => {
                let step = assemble_line(p.state, p.line_number, p.location, text, line);
                match step.result {
                    Err(f) => {},
                    Ok(made) => {
                        let first = Repair {
                            records: p.records.push(made.code),
                            state: step.state,
                            notes: p.notes,
                        };
                        let places = p.places.insert(p.location, p.records.len() as usize);
                        lemma_patch_all_layout(first, places, made.patches, 0, p.line_number, line);
                        let last = patch_all(first, places, made.patches, 0, p.line_number, line);
                        assert forall|i: int| 0 <= i < p.records.len() implies same_layout(
                            p.records[i],
                            #[trigger] last.records[i],
                        ) by {
                            assert(first.records[i] == p.records[i]);
                            assert(same_layout(first.records[i], last.records[i]));
                        }
                    },
                }
            },
        }
    }
}

/// Records are only ever added behind those that are there, and a record
/// that is there keeps its line, its location, its size and everything else
/// but its value and its waiting flag, whatever lines follow.
pub proof fn law_records_keep_layout(lines: Seq<Seq<char>>, m: nat, n: nat)
    requires
        m <= n <= lines.len(),
    ensures
        extends(after_lines(lines, m).records, after_lines(lines, n).records),
    decreases n - m,
{
    if m < n {
        law_records_keep_layout(lines, m, (n - 1) as nat);
        let first = after_lines(lines, m).records;
        let middle = after_lines(lines, (n - 1) as nat);
        let last = after_lines(lines, n).records;
        lemma_advance_layout(middle, lines[n - 1]);
        assert forall|i: int| 0 <= i < first.len() implies same_layout(
            first[i],
            #[trigger] last[i],
        ) by {
            assert(same_layout(first[i], middle.records[i]));
            assert(same_layout(middle.records[i], last[i]));
        }
    }
}

} // verus!
