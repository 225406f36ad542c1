use sicxe_asm::err::ErrorKind;
use sicxe_asm::parser::symbol_table::SymbolTable;
use sicxe_asm::parser::Parser;

#[test]
fn forward_reference_then_definition() {
    let mut table = SymbolTable::new();
    assert_eq!(table.get_location("VAL"), None);
    assert_eq!(table.get_location_or_create("VAL", 3).unwrap(), (0, true));
    assert_eq!(table.get_location("VAL"), Some((0, true)));
    assert_eq!(table.get_location_or_create("VAL", 9).unwrap(), (0, true));
    assert_eq!(table.get_location_or_create("VAL", 3).unwrap(), (0, true));
    assert_eq!(table.insert("VAL", 0x20).unwrap(), vec![3, 9]);
    assert_eq!(table.get_location("VAL"), Some((0x20, false)));
    assert_eq!(table.get_location_or_create("VAL", 12).unwrap(), (0x20, false));
}

#[test]
fn redefinition_is_refused_whatever_the_address() {
    let mut table = SymbolTable::new();
    assert_eq!(table.insert("LOOP", 6).unwrap(), Vec::<u32>::new());
    for address in [0, 6, 7, 0xfffff, u32::MAX] {
        let fault = table.insert("LOOP", address).unwrap_err();
        assert_eq!(fault.kind, ErrorKind::DuplicateSymbol);
        assert_eq!(fault.subject, "LOOP");
        assert_eq!(table.get_location("LOOP"), Some((6, false)));
    }
}

#[test]
fn texts_that_are_no_symbols_are_refused() {
    let mut table = SymbolTable::new();
    for name in ["", "loop", "1A", "A-B", "A B", "\u{c9}T\u{c9}", "Ab"] {
        assert!(!table.is_legal(name));
        assert_eq!(table.insert(name, 1).unwrap_err().kind, ErrorKind::IllegalSymbol);
        assert_eq!(
            table.get_location_or_create(name, 1).unwrap_err().kind,
            ErrorKind::IllegalSymbol
        );
        assert_eq!(table.get_location(name), None);
    }
    for name in ["A", "LOOP", "A1", "Z9Z9", "WORD"] {
        assert!(table.is_legal(name));
    }
}

#[test]
fn a_reference_can_be_taken_back() {
    let mut table = SymbolTable::new();
    let _ = table.get_location_or_create("VAL", 3).unwrap();
    let _ = table.get_location_or_create("VAL", 6).unwrap();
    let _ = table.get_location_or_create("VAL", 9).unwrap();
    table.remove_waiting("VAL", 6);
    table.remove_waiting("VAL", 100);
    table.remove_waiting("GONE", 3);
    assert_eq!(table.get_location("GONE"), None);
    assert_eq!(table.insert("VAL", 12).unwrap(), vec![3, 9]);
    table.remove_waiting("VAL", 3);
    assert_eq!(table.get_location("VAL"), Some((12, false)));
}

#[test]
fn listing_of_the_table() {
    let mut table = SymbolTable::new();
    assert!(table.inter().is_empty());
    let _ = table.insert("PROG", 0x1000).unwrap();
    let _ = table.get_location_or_create("VAL", 3).unwrap();
    let _ = table.get_location_or_create("VAL", 4099).unwrap();
    let _ = table.get_location_or_create("ONE", 16).unwrap();
    let _ = table.insert("BIG", 0xABCDE).unwrap();
    assert_eq!(
        table.inter(),
        vec![
            "PROG -> 1000 : []",
            "VAL -> 0000 : [3, 4099]",
            "ONE -> 0000 : [16]",
            "BIG -> ABCDE : []",
        ]
    );
    let mut parser = Parser::new(true);
    let _ = parser.translate(1, 0, "PROG START A", "PROG START A").unwrap();
    assert_eq!(parser.symbols_inter(), vec!["PROG -> 000A : []"]);
    assert!(parser.verbose);
}
