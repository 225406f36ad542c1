//! The driver: the pass over the source lines, with the settling of waiting
//! records, and the writing of the object module.
use vstd::prelude::*;
use vstd::string::*;
use std::collections::HashMap;
use crate::err::{fault, fault_about, fault_pair, AsmError, ErrorKind, Fault};
use crate::parser::symbol_table::probe;
use crate::parser::{
    assemble_line, initial_state, line_content, patch, pattern_fault, strip_comment, Code, Line,
    Parser, State,
};
use crate::pattern::{regex_replace_all, replace_all};
use crate::text::{hex_field, lines, lines_of, pad_left, push_hex, push_padded, texts, trim, trimmed};

verus! {

/// Something reported about a source line.
#[derive(Clone, Debug, PartialEq, Eq)]
pub struct Diagnostic {
    /// The number of the line that was being read.
    pub line_number: u32,
    /// That line as it was written.
    pub source_code: String,
    /// The location of the waiting record that could not be settled, where
    /// the report is about one.
    pub location: Option<u32>,
    /// What is wrong.
    pub error: AsmError,
}

/// The mathematical value of a [`Diagnostic`].
pub struct Note {
    pub line_number: u32,
    pub source_code: Seq<char>,
    pub location: Option<u32>,
    pub fault: Fault,
}

impl View for Diagnostic {
    type V = Note;

    open spec fn view(&self) -> Note {
        Note {
            line_number: self.line_number,
            source_code: self.source_code@,
            location: self.location,
            fault: self.error@,
        }
    }
}

/// The values of a list of diagnostics.
pub open spec fn notes_of(v: Seq<Diagnostic>) -> Seq<Note> {
    v.map_values(|d: Diagnostic| d@)
}

/// The values of a list of records.
pub open spec fn lines_in(v: Seq<Code>) -> Seq<Line> {
    v.map_values(|c: Code| c@)
}

/// The pattern of a comma with the blanks around it.
pub const COMMA_GAP: &'static str = "[ \\t]*,[ \\t]*";

/// The pattern of the start of a character constant with the blanks in it.
pub const CHAR_GAP: &'static str = "[ \\t]+C[ \\t]*'";

/// The pattern of the start of a hexadecimal constant with the blanks in it.
pub const HEX_GAP: &'static str = "[ \\t]+X[ \\t]*'";

/// A source line made regular: trimmed, no blanks around commas, and
/// exactly one blank before a constant and none inside its start. `None`
/// where the pattern matcher refuses a pattern.
pub open spec fn normalized(line: Seq<char>) -> Option<Seq<char>> {
    match regex_replace_all(COMMA_GAP@, trimmed(line), ","@) {
        None => None,
        Some(a) => match regex_replace_all(CHAR_GAP@, a, " C'"@) {
            None => None,
            Some(b) => regex_replace_all(HEX_GAP@, b, " X'"@),
        },
    }
}

/// Makes a source line regular.
pub fn normalize(line: &str) -> (r: Option<String>)
    ensures
        match r {
            Some(s) => normalized(line@) == Some(s@),
            None => normalized(line@) is None,
        },
{
    let t = trim(line);
    match replace_all(COMMA_GAP, t.as_str(), ",") {
        None => None,
        Some(a) => match replace_all(CHAR_GAP, a.as_str(), " C'") {
            None => None,
            Some(b) => replace_all(HEX_GAP, b.as_str(), " X'"),
        },
    }
}

/// The records, the state and the reports while waiting records are settled.
pub struct Repair {
    pub records: Seq<Line>,
    pub state: State,
    pub notes: Seq<Note>,
}

/// Settles the record that `places` has for `location`, if it has one and
/// the record still waits; a failure is reported under the line being read.
pub open spec fn patch_one(
    r: Repair,
    places: Map<u32, usize>,
    location: u32,
    line_number: u32,
    source_code: Seq<char>,
) -> Repair {
    if !places.contains_key(location) || places[location] >= r.records.len()
        || !r.records[places[location] as int].undone {
        r
    } else {
        let index = places[location] as int;
        let p = patch(r.records[index], r.state);
        Repair {
            records: r.records.update(index, p.code),
            state: p.state,
            notes: match p.result {
                Err(f) => r.notes.push(
                    Note { line_number, source_code, location: Some(location), fault: f },
                ),
                Ok(_) => r.notes,
            },
        }
    }
}

/// Settles the records at the locations `patches[from..]`, in order.
pub open spec fn patch_all(
    r: Repair,
    places: Map<u32, usize>,
    patches: Seq<u32>,
    from: int,
    line_number: u32,
    source_code: Seq<char>,
) -> Repair
    decreases patches.len() - from,
{
    if from < 0 || from >= patches.len() {
        r
    } else {
        patch_all(
            patch_one(r, places, patches[from], line_number, source_code),
            places,
            patches,
            from + 1,
            line_number,
            source_code,
        )
    }
}

/// The mathematical value of a [`Pass`].
pub struct Progress {
    /// The state of the encoder.
    pub state: State,
    /// The records of the lines read without fault, in order.
    pub records: Seq<Line>,
    /// For each location, the index of the last record made there.
    pub places: Map<u32, usize>,
    /// The location of the next line.
    pub location: u32,
    /// The number of the next line.
    pub line_number: u32,
    /// What has been reported.
    pub notes: Seq<Note>,
    /// Whether a line failed.
    pub failed: bool,
    /// The fault that ended the pass at once, if one did.
    pub fatal: Option<Fault>,
    /// Whether content was found after `END`, which ends the reading.
    pub finished: bool,
}

/// The number of the line after line `n`.
pub open spec fn next_line(n: u32) -> u32 {
    if n < u32::MAX {
        (n + 1) as u32
    } else {
        n
    }
}

/// The pass before the first line.
pub open spec fn start() -> Progress {
    Progress {
        state: initial_state(),
        records: Seq::empty(),
        places: Map::empty(),
        location: 0,
        line_number: 1,
        notes: Seq::empty(),
        failed: false,
        fatal: None,
        finished: false,
    }
}

/// Whether the pass reads no further.
pub open spec fn stopped(p: Progress) -> bool {
    p.fatal is Some || p.finished
}

/// The pass after one more line. A line with content after `END` is
/// reported and ends the reading. A line that fails is reported, and the
/// pass goes on at the same location, unless the fault is a missing `START`
/// or a program that is too large, which end the pass. A line that succeeds
/// adds its record, has the records settled that waited for its label, and
/// moves the location on by its size.
pub open spec fn advance(p: Progress, line: Seq<char>) -> Progress {
    if stopped(p) {
        p
    } else if p.state.program_end && trimmed(strip_comment(line)).len() > 0 {
        Progress {
            notes: p.notes.push(
                Note {
                    line_number: p.line_number,
                    source_code: line,
                    location: None,
                    fault: fault(ErrorKind::EndNotLast),
                },
            ),
            failed: true,
            finished: true,
            ..p
        }
    } else {
        match normalized(line) {
            None => Progress { fatal: Some(pattern_fault()), ..p },
            Some(text) => {
                let step = assemble_line(p.state, p.line_number, p.location, text, line);
                match step.result {
                    Err(f) => if f.kind == ErrorKind::MissingStart || f.kind
                        == ErrorKind::ProgramTooLarge {
                        Progress { state: step.state, fatal: Some(f), ..p }
                    } else {
                        Progress {
                            state: step.state,
                            notes: p.notes.push(
                                Note {
                                    line_number: p.line_number,
                                    source_code: line,
                                    location: None,
                                    fault: f,
                                },
                            ),
                            failed: true,
                            line_number: next_line(p.line_number),
                            ..p
                        }
                    },
                    Ok(made) => {
                        let places = p.places.insert(p.location, p.records.len() as usize);
                        let done = patch_all(
                            Repair {
                                records: p.records.push(made.code),
                                state: step.state,
                                notes: p.notes,
                            },
                            places,
                            made.patches,
                            0,
                            p.line_number,
                            line,
                        );
                        if p.location + made.offset > u32::MAX {
                            Progress {
                                state: done.state,
                                records: done.records,
                                places,
                                notes: done.notes,
                                fatal: Some(fault(ErrorKind::ProgramTooLarge)),
                                ..p
                            }
                        } else {
                            Progress {
                                state: done.state,
                                records: done.records,
                                places,
                                notes: done.notes,
                                location: (p.location + made.offset) as u32,
                                line_number: next_line(p.line_number),
                                ..p
                            }
                        }
                    },
                }
            },
        }
    }
}

/// The pass after the first `n` of the lines.
pub open spec fn after_lines(lines: Seq<Seq<char>>, n: nat) -> Progress
    decreases n,
{
    if n == 0 || n > lines.len() {
        start()
    } else {
        advance(after_lines(lines, (n - 1) as nat), lines[n - 1])
    }
}

/// A pass that has stopped stays as it is, whatever lines follow.
proof fn lemma_stopped_stays(lines: Seq<Seq<char>>, i: nat, n: nat)
    requires
        i <= n <= lines.len(),
        stopped(after_lines(lines, i)),
    ensures
        after_lines(lines, n) == after_lines(lines, i),
    decreases n - i,
{
    if i < n {
        lemma_stopped_stays(lines, i, (n - 1) as nat);
    }
}

/// The pass over the source: the encoder, the records made so far, and what
/// was reported.
pub struct Pass {
    pub parser: Parser,
    pub records: Vec<Code>,
    pub places: HashMap<u32, usize>,
    pub location: u32,
    pub line_number: u32,
    pub diagnostics: Vec<Diagnostic>,
    pub failed: bool,
    pub fatal: Option<AsmError>,
    pub finished: bool,
}

impl View for Pass {
    type V = Progress;

    open spec fn view(&self) -> Progress {
        Progress {
            state: self.parser@,
            records: lines_in(self.records@),
            places: self.places@,
            location: self.location,
            line_number: self.line_number,
            notes: notes_of(self.diagnostics@),
            failed: self.failed,
            fatal: match self.fatal {
                Some(e) => Some(e@),
                None => None,
            },
            finished: self.finished,
        }
    }
}

impl Pass {
    /// The pass is well formed when its encoder is.
    pub open spec fn wf(&self) -> bool {
        self.parser.wf()
    }

    /// The pass before the first line.
    pub fn new(verbose: bool) -> (p: Pass)
        ensures
            p.wf(),
            p@ == start(),
            p.parser.verbose == verbose,
    {
        let p = Pass {
            parser: Parser::new(verbose),
            records: Vec::new(),
            places: HashMap::new(),
            location: 0,
            line_number: 1,
            diagnostics: Vec::new(),
            failed: false,
            fatal: None,
            finished: false,
        };
        assert(lines_in(p.records@) =~= Seq::<Line>::empty());
        assert(notes_of(p.diagnostics@) =~= Seq::<Note>::empty());
        p
    }

    fn report(&mut self, source_code: &str, location: Option<u32>, error: AsmError)
        ensures
            final(self).diagnostics@.len() == old(self).diagnostics@.len() + 1,
            notes_of(final(self).diagnostics@) == notes_of(old(self).diagnostics@).push(
                Note {
                    line_number: old(self).line_number,
                    source_code: source_code@,
                    location,
                    fault: error@,
                },
            ),
            final(self).parser == old(self).parser,
            final(self).records == old(self).records,
            final(self).places == old(self).places,
            final(self).location == old(self).location,
            final(self).line_number == old(self).line_number,
            final(self).failed == old(self).failed,
            final(self).fatal == old(self).fatal,
            final(self).finished == old(self).finished,
    {
        let d = Diagnostic {
            line_number: self.line_number,
            source_code: String::from_str(source_code),
            location,
            error,
        };
        self.diagnostics.push(d);
        assert(notes_of(self.diagnostics@) =~= notes_of(old(self).diagnostics@).push(d@));
    }

    fn step_line_number(&mut self)
        ensures
            final(self).line_number == next_line(old(self).line_number),
            final(self).parser == old(self).parser,
            final(self).records == old(self).records,
            final(self).places == old(self).places,
            final(self).location == old(self).location,
            final(self).diagnostics == old(self).diagnostics,
            final(self).failed == old(self).failed,
            final(self).fatal == old(self).fatal,
            final(self).finished == old(self).finished,
    {
        if self.line_number < u32::MAX {
            self.line_number = self.line_number + 1;
        }
    }

    fn patch_waiting(&mut self, patches: &Vec<u32>, source_code: &str)
        requires
            old(self).wf(),
        ensures
            final(self).wf(),
            final(self).parser.verbose == old(self).parser.verbose,
            final(self).places == old(self).places,
            final(self).location == old(self).location,
            final(self).line_number == old(self).line_number,
            final(self).failed == old(self).failed,
            final(self).fatal == old(self).fatal,
            final(self).finished == old(self).finished,
            final(self).repair() == patch_all(
                old(self).repair(),
                old(self).places@,
                patches@,
                0,
                old(self).line_number,
                source_code@,
            ),
    {
        let mut i: usize = 0;
        while i < patches.len()
            invariant
                i <= patches.len(),
                self.wf(),
                self.parser.verbose == old(self).parser.verbose,
                self.places == old(self).places,
                self.location == old(self).location,
                self.line_number == old(self).line_number,
                self.failed == old(self).failed,
                self.fatal == old(self).fatal,
                self.finished == old(self).finished,
                patch_all(
                    self.repair(),
                    self.places@,
                    patches@,
                    i as int,
                    self.line_number,
                    source_code@,
                ) == patch_all(
                    old(self).repair(),
                    old(self).places@,
                    patches@,
                    0,
                    old(self).line_number,
                    source_code@,
                ),
            decreases patches.len() - i,
        {
            let location: u32 = patches[i];
            let ghost before = self.repair();
            proof {
                if self.places@.contains_key(location) && self.places@[location]
                    < self.records@.len() {
                    assert(lines_in(self.records@)[self.places@[location] as int]
                        == self.records@[self.places@[location] as int]@);
                }
            }
            let found: Option<usize> = match self.places.get(&location) {
                Some(index) => Some(*index),
                None => None,
            };
            match found {
                None => {},
                Some(index) => {
                    if index < self.records.len() && self.records[index].undone {
                        let ghost old_records = self.records@;
                        let outcome = self.records[index].re_alloc(&mut self.parser);
                        assert(lines_in(self.records@) =~= lines_in(old_records).update(
                            index as int,
                            self.records@[index as int]@,
                        ));
                        match outcome {
                            Err(e) => {
                                self.report(source_code, Some(location), e);
                            },
                            Ok(_) => {},
                        }
                    }
                },
            }
            assert(self.repair() == patch_one(
                before,
                self.places@,
                location,
                self.line_number,
                source_code@,
            ));
            i += 1;
        }
    }

    /// The records, the state and the reports of the pass.
    pub open spec fn repair(&self) -> Repair {
        Repair {
            records: lines_in(self.records@),
            state: self.parser@,
            notes: notes_of(self.diagnostics@),
        }
    }

    /// Reads one more line.
    #[verifier::spinoff_prover]
    #[verifier::rlimit(40)]
    pub fn advance(&mut self, line: &str)
        requires
            old(self).wf(),
        ensures
            final(self).wf(),
            final(self)@ == advance(old(self)@, line@),
            final(self).parser.verbose == old(self).parser.verbose,
    {
        if self.fatal.is_some() || self.finished {
            return;
        }
        if self.parser.program_end && line_content(line).as_str().unicode_len() > 0 {
            self.report(line, None, AsmError::new(ErrorKind::EndNotLast));
            self.failed = true;
            self.finished = true;
            return;
        }
        let text: String = match normalize(line) {
            None => {
                self.fatal = Some(AsmError::about(ErrorKind::Internal, "pattern not accepted"));
                return;
            },
            Some(text) => text,
        };
        match self.parser.translate(self.line_number, self.location, text.as_str(), line) {
            Err(e) => {
                if e.kind == ErrorKind::MissingStart || e.kind == ErrorKind::ProgramTooLarge {
                    self.fatal = Some(e);
                } else {
                    self.report(line, None, e);
                    self.failed = true;
                    self.step_line_number();
                }
            },
            Ok(made) => {
                let index: usize = self.records.len();
                let ghost code = made.0@;
                self.records.push(made.0);
                assert(lines_in(self.records@) =~= lines_in(old(self).records@).push(code));
                self.places.insert(self.location, index);
                self.patch_waiting(&made.2, line);
                if made.1 > u32::MAX - self.location {
                    self.fatal = Some(AsmError::new(ErrorKind::ProgramTooLarge));
                } else {
                    self.location = self.location + made.1;
                    self.step_line_number();
                }
            },
        }
    }
}

/// Reads every line of the source.
pub fn first_pass(source: &str, verbose: bool) -> (pass: Pass)
    ensures
        pass.wf(),
        pass@ == after_lines(lines_of(source@), lines_of(source@).len()),
        pass.parser.verbose == verbose,
{
    let all = lines(source);
    let mut pass = Pass::new(verbose);
    let mut i: usize = 0;
    while i < all.len() && !(pass.fatal.is_some() || pass.finished)
        invariant
            i <= all.len(),
            pass.wf(),
            pass.parser.verbose == verbose,
            pass@ == after_lines(texts(all@), i as nat),
        decreases all.len() - i,
    {
        assert(texts(all@)[i as int] == all@[i as int]@);
        pass.advance(all[i].as_str());
        i += 1;
    }
    proof {
        if i < all.len() {
            lemma_stopped_stays(texts(all@), i as nat, all.len() as nat);
        }
    }
    pass
}

/// The text block being filled.
pub struct Block {
    /// The address of the first byte of the block.
    pub start: u32,
    /// The relocation bit of the next record.
    pub bit: int,
    /// The relocation bits of the records in the block.
    pub relocation: int,
    /// The hexadecimal digits of the records in the block.
    pub payload: Seq<char>,
    /// The number of bytes in the block.
    pub bytes: int,
}

/// The mathematical value of a [`Writer`].
pub struct Emission {
    /// The records written so far.
    pub text: Seq<char>,
    /// The text block being filled.
    pub block: Block,
    /// What has been reported.
    pub notes: Seq<Note>,
    /// Whether a record was found still waiting.
    pub failed: bool,
}

/// An empty block at `start`.
pub open spec fn fresh_block(start: u32) -> Block {
    Block { start, bit: 4096, relocation: 0, payload: Seq::empty(), bytes: 0 }
}

/// The text record of a block. With a load address of zero the length has
/// two digits and the relocation bits follow it; otherwise the length has
/// three digits and there are no relocation bits.
pub open spec fn text_record(zero: bool, b: Block) -> Seq<char> {
    "T^"@ + hex_field(b.start as nat, 6) + "^"@ + (if zero {
        hex_field(b.bytes as nat, 2) + "^"@ + hex_field(b.relocation as nat, 3)
    } else {
        hex_field(b.bytes as nat, 3)
    }) + "^"@ + b.payload + "\n"@
}

/// The block is written out, if it holds anything, and a new one starts at
/// `start`.
pub open spec fn flushed(e: Emission, zero: bool, start: u32) -> Emission {
    Emission {
        text: if e.block.payload.len() > 0 {
            e.text + text_record(zero, e.block)
        } else {
            e.text
        },
        block: fresh_block(start),
        ..e
    }
}

/// The index of the first record at or after `from` that puts bytes into
/// the module.
pub open spec fn next_emitting(records: Seq<Line>, from: int) -> Option<int>
    decreases records.len() - from,
{
    if from < 0 || from >= records.len() {
        None
    } else if !records[from].no_obj_code {
        Some(from)
    } else {
        next_emitting(records, from + 1)
    }
}

/// Whether the loader must adjust the record: an extended instruction whose
/// operand is not immediate.
pub open spec fn relocatable(code: Line) -> bool {
    code.byte == 4 && !code.variable && code.ni != 1
}

/// What is reported of a record that still waits at the end: its operand
/// was not found, or its operand or its base where it has a base.
pub open spec fn pending_fault(code: Line) -> Fault {
    if code.base.len() > 0 {
        fault_pair(ErrorKind::OperandOrBaseNotFound, code.operand, code.base)
    } else {
        fault_about(ErrorKind::OperandNotFound, code.operand)
    }
}

/// The report of a record that still waits at the end.
pub open spec fn pending_note(code: Line) -> Note {
    Note {
        line_number: code.line_number,
        source_code: code.source_code,
        location: None,
        fault: pending_fault(code),
    }
}

/// The emission after record `i`. A record that still waits is reported.
/// Reserved space ends the block, and the next block starts at the next
/// record that puts bytes into the module. A record with bytes goes into
/// the block, after the block was written out if it would grow beyond
/// thirty bytes.
pub open spec fn emit_one(e: Emission, records: Seq<Line>, i: int, zero: bool) -> Emission {
    let code = records[i];
    let e1 = if code.undone {
        Emission { notes: e.notes.push(pending_note(code)), failed: true, ..e }
    } else {
        e
    };
    if code.no_obj_code {
        if code.byte > 0 {
            let e2 = flushed(e1, zero, code.location);
            match next_emitting(records, i + 1) {
                Some(n) => Emission { block: fresh_block(records[n].location), ..e2 },
                None => e2,
            }
        } else {
            e1
        }
    } else {
        let e2 = if e1.block.bytes + code.byte > 30 {
            flushed(e1, zero, code.location)
        } else {
            e1
        };
        Emission {
            block: Block {
                start: e2.block.start,
                bit: e2.block.bit / 2,
                relocation: if relocatable(code) {
                    e2.block.relocation + e2.block.bit
                } else {
                    e2.block.relocation
                },
                payload: e2.block.payload + hex_field(code.obj_code as nat, (2 * code.byte) as nat),
                bytes: e2.block.bytes + code.byte,
            },
            ..e2
        }
    }
}

/// The emission after the first `n` records.
pub open spec fn emit_all(e: Emission, records: Seq<Line>, n: nat, zero: bool) -> Emission
    decreases n,
{
    if n == 0 || n > records.len() {
        e
    } else {
        emit_one(emit_all(e, records, (n - 1) as nat, zero), records, n - 1, zero)
    }
}

/// The header record: the program name in six columns, the load address,
/// and the length of the program from the load address on.
pub open spec fn header(name: Seq<char>, load: u32, length: u32) -> Seq<char> {
    "H^"@ + pad_left(name, 6, ' ') + "^"@ + hex_field(load as nat, 6) + "^"@ + hex_field(
        (if length >= load {
            length - load
        } else {
            0
        }) as nat,
        6,
    ) + "\n"@
}

/// The object module for the records: the header, the text records, and
/// the end record with the address where execution starts.
pub open spec fn object_module(
    records: Seq<Line>,
    notes: Seq<Note>,
    name: Seq<char>,
    load: u32,
    length: u32,
    entry: u32,
) -> Emission {
    let walked = emit_all(
        Emission {
            text: header(name, load, length),
            block: fresh_block(load),
            notes,
            failed: false,
        },
        records,
        records.len(),
        load == 0,
    );
    let last = flushed(walked, load == 0, load);
    Emission { text: last.text + ("E^"@ + hex_field(entry as nat, 6)), ..last }
}

/// The object module as it is written, with the block being filled.
pub struct Writer {
    pub text: String,
    pub start: u32,
    pub bit: u16,
    pub relocation: u16,
    pub payload: String,
    pub bytes: u64,
    pub diagnostics: Vec<Diagnostic>,
    pub failed: bool,
}

impl View for Writer {
    type V = Emission;

    open spec fn view(&self) -> Emission {
        Emission {
            text: self.text@,
            block: Block {
                start: self.start,
                bit: self.bit as int,
                relocation: self.relocation as int,
                payload: self.payload@,
                bytes: self.bytes as int,
            },
            notes: notes_of(self.diagnostics@),
            failed: self.failed,
        }
    }
}

fn find_emitting(records: &Vec<Code>, from: usize) -> (r: Option<usize>)
    ensures
        match r {
            Some(n) => next_emitting(lines_in(records@), from as int) == Some(n as int) && n
                < records.len(),
            None => next_emitting(lines_in(records@), from as int) is None,
        },
{
    let mut now: usize = from;
    while now < records.len()
        invariant
            from <= now,
            next_emitting(lines_in(records@), from as int) == next_emitting(
                lines_in(records@),
                now as int,
            ),
        decreases records.len() - now,
    {
        assert(lines_in(records@)[now as int] == records@[now as int]@);
        if !records[now].no_obj_code {
            return Some(now);
        }
        now += 1;
    }
    None
}

impl Writer {
    /// The relocation bits fit their field as long as each record of a
    /// block takes the next lower bit.
    pub open spec fn wf(&self) -> bool {
        self.relocation + 2 * self.bit <= 8192 && self.bytes <= 0xFFFF_FFFF_FFFF
    }

    fn flush(&mut self, zero: bool, start: u32)
        ensures
            final(self).wf(),
            final(self)@ == flushed(old(self)@, zero, start),
    {
        if !self.payload.as_str().is_empty() {
            let mut record = String::from_str("T^");
            push_hex(&mut record, self.start as u64, 6);
            record.append("^");
            if zero {
                push_hex(&mut record, self.bytes, 2);
                record.append("^");
                push_hex(&mut record, self.relocation as u64, 3);
            } else {
                push_hex(&mut record, self.bytes, 3);
            }
            record.append("^");
            record.append(self.payload.as_str());
            record.append("\n");
            assert(record@ =~= text_record(zero, self@.block));
            self.text.append(record.as_str());
        }
        self.start = start;
        self.bit = 4096;
        self.relocation = 0;
        self.payload = String::new();
        self.bytes = 0;
    }

    #[verifier::rlimit(40)]
    fn emit_one(&mut self, records: &Vec<Code>, i: usize, zero: bool)
        requires
            old(self).wf(),
            i < records.len(),
        ensures
            final(self).wf(),
            final(self)@ == emit_one(old(self)@, lines_in(records@), i as int, zero),
    {
        let code = &records[i];
        assert(lines_in(records@)[i as int] == code@);
        if code.undone {
            let error = if code.base.as_str().is_empty() {
                AsmError::about(ErrorKind::OperandNotFound, code.operand.as_str())
            } else {
                AsmError::pair(
                    ErrorKind::OperandOrBaseNotFound,
                    code.operand.as_str(),
                    code.base.as_str(),
                )
            };
            let d = Diagnostic {
                line_number: code.line_number,
                source_code: code.source_code.clone(),
                location: None,
                error,
            };
            self.diagnostics.push(d);
            assert(notes_of(self.diagnostics@) =~= notes_of(old(self).diagnostics@).push(
                pending_note(code@),
            ));
            self.failed = true;
        }
        if code.no_obj_code {
            if code.byte > 0 {
                self.flush(zero, code.location);
                match find_emitting(records, i + 1) {
                    Some(n) => {
                        assert(lines_in(records@)[n as int] == records@[n as int]@);
                        self.start = records[n].location;
                    },
                    None => {},
                }
            }
        } else {
            if self.bytes + code.byte as u64 > 30 {
                self.flush(zero, code.location);
            }
            if code.byte == 4 && !code.variable && code.ni != 1 {
                self.relocation = self.relocation + self.bit;
            }
            push_hex(&mut self.payload, code.obj_code, 2 * (code.byte as u64));
            self.bytes = self.bytes + code.byte as u64;
            self.bit = self.bit / 2;
        }
    }
}

/// Writes the object module for the records.
pub fn emit(
    records: &Vec<Code>,
    diagnostics: Vec<Diagnostic>,
    program_name: &str,
    load: u32,
    length: u32,
    entry: u32,
) -> (w: Writer)
    ensures
        w@ == object_module(
            lines_in(records@),
            notes_of(diagnostics@),
            program_name@,
            load,
            length,
            entry,
        ),
{
    let mut head = String::from_str("H^");
    push_padded(&mut head, program_name, 6, ' ');
    head.append("^");
    push_hex(&mut head, load as u64, 6);
    head.append("^");
    let size: u32 = if length >= load {
        length - load
    } else {
        0
    };
    push_hex(&mut head, size as u64, 6);
    head.append("\n");
    assert(head@ =~= header(program_name@, load, length));
    let mut w = Writer {
        text: head,
        start: load,
        bit: 4096,
        relocation: 0,
        payload: String::new(),
        bytes: 0,
        diagnostics,
        failed: false,
    };
    let ghost first = w@;
    let zero: bool = load == 0;
    let mut i: usize = 0;
    while i < records.len()
        invariant
            i <= records.len(),
            w.wf(),
            w@ == emit_all(first, lines_in(records@), i as nat, zero),
        decreases records.len() - i,
    {
        w.emit_one(records, i, zero);
        i += 1;
    }
    w.flush(zero, load);
    let mut end = String::from_str("E^");
    push_hex(&mut end, entry as u64, 6);
    w.text.append(end.as_str());
    w
}

/// The mathematical value of a [`Report`].
pub struct Outcome {
    /// The state of the encoder after the pass.
    pub state: State,
    /// The records of the lines.
    pub records: Seq<Line>,
    /// What was reported, in order.
    pub notes: Seq<Note>,
    /// The fault that ended the run at once, if one did.
    pub fatal: Option<Fault>,
    /// The object module, if nothing went wrong.
    pub module: Option<Seq<char>>,
}

/// A run that a fault ended at once.
pub open spec fn abandoned(p: Progress, f: Fault) -> Outcome {
    Outcome { state: p.state, records: p.records, notes: p.notes, fatal: Some(f), module: None }
}

/// What a pass comes to. A fault that ended the pass ends the run. So does
/// a source without `END`, and a program name without an address. Otherwise
/// the object module is made, and it is kept unless a line failed or a
/// record still waits for its symbol.
pub open spec fn outcome_of(p: Progress) -> Outcome {
    match p.fatal {
        Some(f) => abandoned(p, f),
        None => if !p.state.program_end {
            abandoned(p, fault(ErrorKind::EndNotLast))
        } else {
            match probe(p.state.symbols, p.state.program_name) {
                None => abandoned(p, fault(ErrorKind::StartUnknown)),
                Some(found) => if found.1 {
                    abandoned(p, fault(ErrorKind::StartUnknown))
                } else {
                    let e = object_module(
                        p.records,
                        p.notes,
                        p.state.program_name,
                        found.0,
                        p.state.program_length,
                        p.state.program_start_address,
                    );
                    Outcome {
                        state: p.state,
                        records: p.records,
                        notes: e.notes,
                        fatal: None,
                        module: if p.failed || e.failed {
                            None
                        } else {
                            Some(e.text)
                        },
                    }
                },
            }
        },
    }
}

/// What assembling a source text comes to.
pub open spec fn assembled(source: Seq<char>) -> Outcome {
    outcome_of(after_lines(lines_of(source), lines_of(source).len()))
}

/// Reserved space ends the text block: the next block starts at the
/// address of the next record that puts bytes into the module, and holds
/// nothing yet.
pub proof fn law_gap_starts_block(e: Emission, records: Seq<Line>, i: int, n: int, zero: bool)
    requires
        0 <= i < records.len(),
        records[i].no_obj_code,
        records[i].byte > 0,
        next_emitting(records, i + 1) == Some(n),
    ensures
        emit_one(e, records, i, zero).block == fresh_block(records[n].location),
        e.block.payload.len() > 0 ==> emit_one(e, records, i, zero).text == e.text + text_record(
            zero,
            e.block,
        ),
        e.block.payload.len() == 0 ==> emit_one(e, records, i, zero).text == e.text,
{
}

/// What was reported stays reported, and a failure stays one, as further
/// records are written.
proof fn lemma_emit_keeps(e: Emission, records: Seq<Line>, m: nat, n: nat, zero: bool)
    requires
        m <= n <= records.len(),
    ensures
        emit_all(e, records, m, zero).failed ==> emit_all(e, records, n, zero).failed,
        forall|note: Note|
            emit_all(e, records, m, zero).notes.contains(note) ==> #[trigger] emit_all(
                e,
                records,
                n,
                zero,
            ).notes.contains(note),
    decreases n - m,
{
    if m < n {
        lemma_emit_keeps(e, records, m, (n - 1) as nat, zero);
        let before = emit_all(e, records, (n - 1) as nat, zero);
        let after = emit_all(e, records, n, zero);
        assert(after == emit_one(before, records, n - 1, zero));
        assert forall|note: Note|
            emit_all(e, records, m, zero).notes.contains(note) implies #[trigger] after.notes.contains(
            note,
        ) by {
            assert(before.notes.contains(note));
            let i = choose|i: int| 0 <= i < before.notes.len() && before.notes[i] == note;
            assert(after.notes[i] == note);
        }
    }
}

/// A record that still waits for its symbol when the module is written is
/// reported as such, and the writing counts as failed.
pub proof fn law_pending_is_reported(
    records: Seq<Line>,
    notes: Seq<Note>,
    name: Seq<char>,
    load: u32,
    length: u32,
    entry: u32,
    i: int,
)
    requires
        0 <= i < records.len(),
        records[i].undone,
    ensures
        object_module(records, notes, name, load, length, entry).failed,
        object_module(records, notes, name, load, length, entry).notes.contains(
            pending_note(records[i]),
        ),
{
    let first = Emission {
        text: header(name, load, length),
        block: fresh_block(load),
        notes,
        failed: false,
    };
    let zero = load == 0;
    let before = emit_all(first, records, i as nat, zero);
    let after = emit_all(first, records, (i + 1) as nat, zero);
    assert(after == emit_one(before, records, i, zero));
    let marked = before.notes.push(pending_note(records[i]));
    assert(marked[before.notes.len() as int] == pending_note(records[i]));
    assert(after.notes == marked);
    assert(after.notes.contains(pending_note(records[i])));
    lemma_emit_keeps(first, records, (i + 1) as nat, records.len(), zero);
}

/// A source that reaches `END` with a record that still waits for an
/// undefined symbol gets no object module, and the record is reported with
/// its operand. This holds of every pass that no fault ended and whose
/// program name has an address.
pub proof fn law_undefined_symbol_blocks_module(p: Progress, i: int)
    requires
        p.fatal is None,
        p.state.program_end,
        probe(p.state.symbols, p.state.program_name) is Some,
        !probe(p.state.symbols, p.state.program_name).unwrap().1,
        0 <= i < p.records.len(),
        p.records[i].undone,
    ensures
        outcome_of(p).fatal is None,
        outcome_of(p).module is None,
        outcome_of(p).notes.contains(pending_note(p.records[i])),
{
    let found = probe(p.state.symbols, p.state.program_name).unwrap();
    law_pending_is_reported(
        p.records,
        p.notes,
        p.state.program_name,
        found.0,
        p.state.program_length,
        p.state.program_start_address,
        i,
    );
}

/// What a run hands back: the encoder and the records for inspection, what
/// was reported, and the object module.
pub struct Report {
    pub parser: Parser,
    pub records: Vec<Code>,
    pub diagnostics: Vec<Diagnostic>,
    pub fatal: Option<AsmError>,
    pub module: Option<String>,
}

impl View for Report {
    type V = Outcome;

    open spec fn view(&self) -> Outcome {
        Outcome {
            state: self.parser@,
            records: lines_in(self.records@),
            notes: notes_of(self.diagnostics@),
            fatal: match self.fatal {
                Some(e) => Some(e@),
                None => None,
            },
            module: match self.module {
                Some(s) => Some(s@),
                None => None,
            },
        }
    }
}

/// Finishes a pass: makes the object module unless the pass cannot be
/// finished.
pub fn finish(pass: Pass) -> (r: Report)
    requires
        pass.wf(),
    ensures
        r@ == outcome_of(pass@),
        r.parser.wf(),
        r.parser.verbose == pass.parser.verbose,
{
    let Pass { parser, records, diagnostics, failed, fatal, .. } = pass;
    match fatal {
        Some(e) => {
            return Report { parser, records, diagnostics, fatal: Some(e), module: None };
        },
        None => {},
    }
    if !parser.program_end {
        return Report {
            parser,
            records,
            diagnostics,
            fatal: Some(AsmError::new(ErrorKind::EndNotLast)),
            module: None,
        };
    }
    let load: u32 = match parser.get_symbol_location(parser.program_name.as_str()) {
        Some(found) => {
            if found.1 {
                return Report {
                    parser,
                    records,
                    diagnostics,
                    fatal: Some(AsmError::new(ErrorKind::StartUnknown)),
                    module: None,
                };
            }
            found.0
        },
        None => {
            return Report {
                parser,
                records,
                diagnostics,
                fatal: Some(AsmError::new(ErrorKind::StartUnknown)),
                module: None,
            };
        },
    };
    let w = emit(
        &records,
        diagnostics,
        parser.program_name.as_str(),
        load,
        parser.program_length,
        parser.program_start_address,
    );
    let module: Option<String> = if failed || w.failed {
        None
    } else {
        Some(w.text)
    };
    Report { parser, records, diagnostics: w.diagnostics, fatal: None, module }
}

/// Assembles a source text.
pub fn assemble(source: &str, verbose: bool) -> (r: Report)
    ensures
        r@ == assembled(source@),
        r.parser.wf(),
        r.parser.verbose == verbose,
{
    finish(first_pass(source, verbose))
}

} // verus!
