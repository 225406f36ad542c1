use sicxe_asm::object::normalize;
use sicxe_asm::text::{
    decimal, digit_of, digit_to_char, digits_only, find_char, lines, push_fill,
    push_hex, push_numeral, push_padded, radix, read_decimal, read_number, remove_char, str_eq,
    substring, to_chars, trim, trim_bounds, Alphabet,
};

#[test]
fn lines_of_a_text() {
    assert_eq!(lines(""), Vec::<String>::new());
    assert_eq!(lines("a"), vec!["a"]);
    assert_eq!(lines("a\n"), vec!["a"]);
    assert_eq!(lines("a\nb"), vec!["a", "b"]);
    assert_eq!(lines("a\r\nb\r\n"), vec!["a", "b"]);
    assert_eq!(lines("a\n\nb"), vec!["a", "", "b"]);
    assert_eq!(lines("\n"), vec![""]);
    assert_eq!(lines("a\rb\r"), vec!["a\rb\r"]);
    assert_eq!(lines("\r\n\r\n"), vec!["", ""]);
    assert_eq!(lines("\u{e9}\n\u{4e2d}"), vec!["\u{e9}", "\u{4e2d}"]);
    let text = "PROG START 0\r\n\r\nFIRST LDA VAL\n . c\n";
    let expected: Vec<&str> = text.lines().collect();
    assert_eq!(lines(text), expected);
}

#[test]
fn trimming() {
    assert_eq!(trim("  a b \t"), "a b");
    assert_eq!(trim("\r\n x\u{a0}\u{3000}"), "x");
    assert_eq!(trim("   "), "");
    assert_eq!(trim(""), "");
    assert_eq!(trim("abc"), "abc");
    let chars = to_chars(" ab  ");
    assert_eq!(trim_bounds(&chars), (1, 3));
}

#[test]
fn characters_of_a_string() {
    assert_eq!(to_chars("a\u{e9}b"), vec!['a', '\u{e9}', 'b']);
    assert_eq!(substring(&vec!['a', 'b', 'c', 'd'], 1, 3), "bc");
    assert_eq!(substring(&vec!['a', 'b'], 2, 2), "");
    assert_eq!(find_char(&to_chars("ab.cd.e"), 0, '.'), 2);
    assert_eq!(find_char(&to_chars("ab.cd.e"), 3, '.'), 5);
    assert_eq!(find_char(&to_chars("abc"), 0, '.'), 3);
    assert_eq!(remove_char(&to_chars("@A@B@"), '@'), "AB");
    assert!(str_eq("abc", "abc"));
    assert!(!str_eq("abc", "abd"));
    assert!(!str_eq("abc", "ab"));
    assert!(str_eq("", ""));
    assert!(str_eq("\u{e9}", "\u{e9}"));
}

#[test]
fn decimal_numbers() {
    assert_eq!(read_decimal("0", false, 0, 10), Some(0));
    assert_eq!(read_decimal("10", false, 0, 10), Some(10));
    assert_eq!(read_decimal("11", false, 0, 10), None);
    assert_eq!(read_decimal("+7", false, 0, 10), Some(7));
    assert_eq!(read_decimal("-0", false, 0, 10), None);
    assert_eq!(read_decimal("-0", true, -5, 10), Some(0));
    assert_eq!(read_decimal("-5", true, -5, 10), Some(-5));
    assert_eq!(read_decimal("-6", true, -5, 10), None);
    assert_eq!(read_decimal("007", true, -5, 10), Some(7));
    assert_eq!(read_decimal("", true, -5, 10), None);
    assert_eq!(read_decimal("+", true, -5, 10), None);
    assert_eq!(read_decimal("-", true, -5, 10), None);
    assert_eq!(read_decimal("+-1", true, -5, 10), None);
    assert_eq!(read_decimal("1 ", true, -5, 10), None);
    assert_eq!(read_decimal("1_0", true, -5, 10), None);
    assert_eq!(read_decimal("\u{663}", true, -5, 10), None);
    assert_eq!(read_decimal("4294967295", false, 0, 0xFFFF_FFFF), Some(4294967295));
    assert_eq!(read_decimal("4294967296", false, 0, 0xFFFF_FFFF), None);
    assert_eq!(read_decimal("-2147483648", true, -0x8000_0000, 0x7fff_ffff), Some(-2147483648));
    assert_eq!(read_decimal("2147483648", true, -0x8000_0000, 0x7fff_ffff), None);
    assert_eq!(read_decimal("340282366920938463463374607431768211456", false, 0, 10), None);
}

#[test]
fn numerals_in_any_alphabet() {
    let v = to_chars("xx1F2yy");
    assert_eq!(read_number(&v, 2, 5, Alphabet::Hex, 0xFFFF), Some(0x1F2));
    assert_eq!(read_number(&v, 2, 5, Alphabet::Hex, 0x1F1), None);
    assert_eq!(read_number(&v, 2, 5, Alphabet::Decimal, 0xFFFF), None);
    assert_eq!(read_number(&v, 2, 3, Alphabet::Decimal, 0xFFFF), Some(1));
    assert_eq!(read_number(&v, 2, 2, Alphabet::Decimal, 0xFFFF), None);
    assert_eq!(read_number(&v, 0, 2, Alphabet::Ascii, 0xFFFF), Some(0x7878));
    assert!(digits_only(&v, 2, 5, Alphabet::Hex));
    assert!(!digits_only(&v, 1, 5, Alphabet::Hex));
    assert!(digits_only(&v, 0, 7, Alphabet::Ascii));
    assert!(digits_only(&v, 3, 3, Alphabet::Decimal));
    assert_eq!(digit_of('7', Alphabet::Decimal), Some(7));
    assert_eq!(digit_of('a', Alphabet::Decimal), None);
    assert_eq!(digit_of('a', Alphabet::Hex), Some(10));
    assert_eq!(digit_of('F', Alphabet::Hex), Some(15));
    assert_eq!(digit_of('g', Alphabet::Hex), None);
    assert_eq!(digit_of('~', Alphabet::Ascii), Some(0x7e));
    assert_eq!(digit_of('\u{80}', Alphabet::Ascii), None);
    assert_eq!((radix(Alphabet::Decimal), radix(Alphabet::Hex), radix(Alphabet::Ascii)), (10, 16, 256));
}

#[test]
fn writing_numbers() {
    assert_eq!(decimal(0), "0");
    assert_eq!(decimal(34), "34");
    assert_eq!(decimal(u64::MAX), "18446744073709551615");
    let mut out = String::from("x");
    push_hex(&mut out, 0x2A, 6);
    assert_eq!(out, "x00002A");
    push_hex(&mut out, 0, 0);
    assert_eq!(out, "x00002A0");
    push_hex(&mut out, 0x1000, 3);
    assert_eq!(out, "x00002A01000");
    let mut out = String::new();
    push_hex(&mut out, u64::MAX, 2);
    assert_eq!(out, "FFFFFFFFFFFFFFFF");
    let mut out = String::new();
    push_numeral(&mut out, 255, true);
    push_numeral(&mut out, 255, false);
    assert_eq!(out, "FF255");
    push_fill(&mut out, 3, '-');
    assert_eq!(out, "FF255---");
    let mut out = String::new();
    push_padded(&mut out, "PROG", 6, ' ');
    push_padded(&mut out, "LONGER7", 6, ' ');
    assert_eq!(out, "  PROGLONGER7");
    for (d, c) in "0123456789ABCDEF".chars().enumerate() {
        assert_eq!(digit_to_char(d as u8), c);
    }
}

#[test]
fn lines_are_made_regular() {
    assert_eq!(normalize("  FIRST  COMPR  A , S  ").unwrap(), "FIRST  COMPR  A,S");
    assert_eq!(normalize("TXT BYTE   C  'A , B'").unwrap(), "TXT BYTE C'A,B'");
    assert_eq!(normalize("HEX BYTE \t X 'F1'").unwrap(), "HEX BYTE X'F1'");
    assert_eq!(normalize("RSUB").unwrap(), "RSUB");
    assert_eq!(normalize("").unwrap(), "");
}
