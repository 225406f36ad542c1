use sicxe_asm::err::ErrorKind;
use sicxe_asm::object::{assemble, first_pass};
use sicxe_asm::target::Target;

fn module_of(source: &str) -> String {
    let report = assemble(source, false);
    assert_eq!(report.fatal, None);
    assert_eq!(report.diagnostics.len(), 0);
    report.module.expect("an object module")
}

#[test]
fn minimal_program_assembles() {
    let report = assemble("PROG START 0\nFIRST LDA VAL\nVAL WORD 5\n END FIRST", false);
    assert!(report.fatal.is_none());
    assert_eq!(report.diagnostics.len(), 0);
    assert_eq!(
        report.module,
        Some(String::from("H^  PROG^000000^000006\nT^000000^06^000^032000000005\nE^000000"))
    );
    assert_eq!(report.records.len(), 4);
    assert_eq!(report.records[1].location, 0);
    assert_eq!(report.records[1].obj_code, 0x032000);
    assert_eq!(report.records[2].location, 3);
    assert_eq!(report.records[2].obj_code, 5);
    assert_eq!(report.parser.program_start_address, 0);
}

#[test]
fn run_gives_the_same_module_as_assemble() {
    let args = vec![String::from("asm"), String::from("prog.asm")];
    let target = Target::new(&args).expect("a target");
    let report = target.run("PROG START 0\nFIRST LDA VAL\nVAL WORD 5\n END FIRST");
    assert_eq!(
        report.module,
        Some(String::from("H^  PROG^000000^000006\nT^000000^06^000^032000000005\nE^000000"))
    );
}

#[test]
fn backward_jump_is_a_negative_displacement() {
    let text = module_of("PROG START 0\nLOOP LDA VAL\n J LOOP\nVAL WORD 7\n END LOOP");
    assert_eq!(
        text,
        "H^  PROG^000000^000009\nT^000000^09^000^0320033F2FFA000007\nE^000000"
    );
}

#[test]
fn reserved_space_starts_a_fresh_text_block() {
    let text = module_of("PROG START 0\nA1 WORD 1\nB1 RESW 2\nC1 WORD 2\n END A1");
    assert_eq!(
        text,
        "H^  PROG^000000^00000C\nT^000000^03^000^000001\nT^000009^03^000^000002\nE^000000"
    );
}

#[test]
fn reserved_words_take_three_bytes_each() {
    let report = assemble("PROG START 0\nB1 RESW 2\n END B1", false);
    assert_eq!(report.records[1].byte, 6);
    assert!(report.records[1].no_obj_code);
    assert_eq!(report.parser.program_length, 6);
    assert_eq!(report.module, Some(String::from("H^  PROG^000000^000006\nE^000000")));
}

#[test]
fn base_relative_when_out_of_reach() {
    let text = module_of(
        "PROG START 0\n LDB #TBL\n BASE TBL\n LDA FAR\nTBL RESB 4000\nFAR WORD 1\n END PROG",
    );
    assert_eq!(
        text,
        "H^  PROG^000000^000FA9\nT^000000^06^000^692003034FA0\nT^000FA6^03^000^000001\nE^000000"
    );
}

#[test]
fn load_address_other_than_zero_changes_the_text_record() {
    let text = module_of("COPY START 1000\nFIRST LDA VAL\nVAL WORD 5\n END FIRST");
    assert_eq!(
        text,
        "H^  COPY^001000^000006\nT^001000^006^032000000005\nE^001000"
    );
}

#[test]
fn extended_instruction_sets_a_relocation_bit() {
    let text = module_of("PROG START 0\nFIRST +JSUB SUB1\nSUB1 RSUB\n END FIRST");
    assert_eq!(
        text,
        "H^  PROG^000000^000007\nT^000000^07^1000^4B1000044F0000\nE^000000"
    );
}

#[test]
fn immediate_number_is_not_relocated() {
    let text = module_of("PROG START 0\nFIRST LDA #3\n END FIRST");
    assert_eq!(text, "H^  PROG^000000^000004\nT^000000^04^000^01100003\nE^000000");
}

#[test]
fn text_block_is_cut_before_it_exceeds_thirty_bytes() {
    let mut source = String::from("PROG START 0\n");
    for i in 0..11 {
        source.push_str(&format!("W{} WORD {}\n", i, i));
    }
    source.push_str(" END W0");
    let text = module_of(&source);
    assert_eq!(
        text,
        "H^  PROG^000000^000021\n\
         T^000000^1E^000^000000000001000002000003000004000005000006000007000008000009\n\
         T^00001E^03^000^00000A\nE^000000"
    );
}

#[test]
fn comments_and_blank_lines_take_no_space() {
    let text = module_of(
        ". a program\nPROG START 0 . begins here\n\nFIRST LDA VAL   . load\nVAL   WORD   5\n\tEND FIRST\n",
    );
    assert_eq!(text, "H^  PROG^000000^000006\nT^000000^06^000^032000000005\nE^000000");
}

#[test]
fn blanks_around_commas_are_dropped() {
    let text = module_of("PROG START 0\nFIRST COMPR A , S\n END FIRST");
    assert_eq!(text, "H^  PROG^000000^000002\nT^000000^02^000^A004\nE^000000");
}

#[test]
fn character_constant_keeps_its_blanks() {
    let text = module_of("PROG START 0\nTXT BYTE  C 'A B'\n END TXT");
    assert_eq!(text, "H^  PROG^000000^000003\nT^000000^03^000^412042\nE^000000");
}

#[test]
fn undefined_symbol_is_reported_and_nothing_is_written() {
    let report = assemble("PROG START 0\nFIRST LDA VAL\n END FIRST", false);
    assert_eq!(report.fatal, None);
    assert_eq!(report.module, None);
    assert_eq!(report.diagnostics.len(), 1);
    assert_eq!(report.diagnostics[0].error.kind, ErrorKind::OperandNotFound);
    assert_eq!(report.diagnostics[0].error.subject, "VAL");
    assert_eq!(report.diagnostics[0].line_number, 2);
    assert_eq!(report.diagnostics[0].source_code, "FIRST LDA VAL");
    assert!(report.records[1].undone);
}

#[test]
fn undefined_base_is_reported_with_the_operand() {
    let report = assemble(
        "PROG START 0\n LDB #PROG\n BASE TBL\nA1 RESB 3000\n LDA PROG\n END PROG",
        false,
    );
    assert_eq!(report.fatal, None);
    assert_eq!(report.module, None);
    assert_eq!(report.diagnostics.len(), 1);
    assert_eq!(report.diagnostics[0].error.kind, ErrorKind::OperandOrBaseNotFound);
    assert_eq!(report.diagnostics[0].error.subject, "PROG");
    assert_eq!(report.diagnostics[0].error.second, "TBL");
}

#[test]
fn every_failing_line_is_reported() {
    let report = assemble(
        "PROG START 0\n FOO 1\nA1 WORD 99999\nA1 WORD 1\nA1 WORD 2\n END A1",
        false,
    );
    assert_eq!(report.fatal, None);
    assert_eq!(report.module, None);
    let kinds: Vec<ErrorKind> = report.diagnostics.iter().map(|d| d.error.kind).collect();
    assert_eq!(
        kinds,
        vec![ErrorKind::UnknownMnemonic, ErrorKind::IllegalNumber, ErrorKind::DuplicateSymbol]
    );
    let numbers: Vec<u32> = report.diagnostics.iter().map(|d| d.line_number).collect();
    assert_eq!(numbers, vec![2, 3, 5]);
}

#[test]
fn missing_start_ends_the_run() {
    let report = assemble(" LDA VAL\nVAL WORD 1\n END VAL", false);
    assert_eq!(report.fatal.map(|e| e.kind), Some(ErrorKind::MissingStart));
    assert_eq!(report.module, None);
    assert_eq!(report.records.len(), 0);
}

#[test]
fn program_too_large_ends_the_run() {
    let report = assemble("PROG START 0\nA1 RESB 1048574\nB1 RESB 1048574\n END A1", false);
    assert_eq!(report.fatal.map(|e| e.kind), Some(ErrorKind::ProgramTooLarge));
    assert_eq!(report.module, None);
}

#[test]
fn missing_end_ends_the_run() {
    let report = assemble("PROG START 0\nA1 WORD 1", false);
    assert_eq!(report.fatal.map(|e| e.kind), Some(ErrorKind::EndNotLast));
    assert_eq!(report.module, None);
}

#[test]
fn content_after_end_is_an_error() {
    let report = assemble("PROG START 0\nA1 WORD 1\n END A1\n\n. only a comment\nB1 WORD 2\nC1 WORD 3", false);
    assert_eq!(report.fatal, None);
    assert_eq!(report.module, None);
    assert_eq!(report.diagnostics.len(), 1);
    assert_eq!(report.diagnostics[0].error.kind, ErrorKind::EndNotLast);
    assert_eq!(report.diagnostics[0].source_code, "B1 WORD 2");
}

#[test]
fn program_name_without_address_ends_the_run() {
    let report = assemble("TOOLONGNAME START 0\nA1 WORD 1\n LDA Y1\n END A1", false);
    assert_eq!(report.fatal.map(|e| e.kind), Some(ErrorKind::StartUnknown));
    assert_eq!(report.module, None);
    assert_eq!(report.diagnostics.len(), 1);
    assert_eq!(report.diagnostics[0].error.kind, ErrorKind::ProgramNameTooLong);
}

#[test]
fn out_of_reach_without_base_is_reported_where_the_label_is_defined() {
    let report = assemble("PROG START 0\n LDA FAR\nA1 RESB 3000\nFAR WORD 1\n END PROG", false);
    assert_eq!(report.module, None);
    assert_eq!(report.diagnostics.len(), 2);
    assert_eq!(report.diagnostics[0].error.kind, ErrorKind::BaseNotSet);
    assert_eq!(report.diagnostics[0].location, Some(0));
    assert_eq!(report.diagnostics[0].line_number, 4);
    assert_eq!(report.diagnostics[1].error.kind, ErrorKind::OperandNotFound);
    assert_eq!(report.diagnostics[1].error.subject, "FAR");
}

#[test]
fn location_counter_runs_with_the_program_length() {
    let pass = first_pass(
        "COPY START 100\nFIRST LDA VAL\n BAD LINE HERE NOW\nBUF RESB 10\nVAL WORD 5\n",
        false,
    );
    assert_eq!(pass.fatal, None);
    assert!(pass.failed);
    assert_eq!(pass.location, 0x100 + 3 + 10 + 3);
    assert_eq!(pass.parser.program_length, pass.location);
    assert_eq!(pass.line_number, 6);
    assert_eq!(pass.records.len(), 4);
    let places: Vec<u32> = pass.records.iter().map(|c| c.location).collect();
    assert_eq!(places, vec![0, 0x100, 0x103, 0x10D]);
}
