//! The instruction set: every mnemonic with its opcode and format class.
use vstd::prelude::*;
use vstd::string::*;
use crate::text::str_eq;

verus! {

/// The instructions in table order: mnemonic, then opcode and format class
/// (1, 2, or 34 for "three or four").
pub open spec fn instruction_set() -> Seq<(Seq<char>, (u8, u8))> {
    Seq::empty()
        .push(("ADD"@, (0x18u8, 34u8)))
        .push(("ADDF"@, (0x58u8, 34u8)))
        .push(("ADDR"@, (0x90u8, 2u8)))
        .push(("AND"@, (0x40u8, 34u8)))
        .push(("CLEAR"@, (0xB4u8, 2u8)))
        .push(("COMP"@, (0x28u8, 34u8)))
        .push(("COMPF"@, (0x88u8, 34u8)))
        .push(("COMPR"@, (0xA0u8, 2u8)))
        .push(("DIV"@, (0x24u8, 34u8)))
        .push(("DIVF"@, (0x64u8, 34u8)))
        .push(("DIVR"@, (0x9Cu8, 2u8)))
        .push(("FIX"@, (0xC4u8, 1u8)))
        .push(("FLOAT"@, (0xC0u8, 1u8)))
        .push(("HIO"@, (0xF4u8, 1u8)))
        .push(("J"@, (0x3Cu8, 34u8)))
        .push(("JEQ"@, (0x30u8, 34u8)))
        .push(("JGT"@, (0x34u8, 34u8)))
        .push(("JLT"@, (0x38u8, 34u8)))
        .push(("JSUB"@, (0x48u8, 34u8)))
        .push(("LDA"@, (0x00u8, 34u8)))
        .push(("LDB"@, (0x68u8, 34u8)))
        .push(("LDCH"@, (0x50u8, 34u8)))
        .push(("LDF"@, (0x70u8, 34u8)))
        .push(("LDL"@, (0x08u8, 34u8)))
        .push(("LDS"@, (0x6Cu8, 34u8)))
        .push(("LDT"@, (0x74u8, 34u8)))
        .push(("LDX"@, (0x04u8, 34u8)))
        .push(("LPS"@, (0xD0u8, 34u8)))
        .push(("MUL"@, (0x20u8, 34u8)))
        .push(("MULF"@, (0x60u8, 34u8)))
        .push(("MULR"@, (0x98u8, 2u8)))
        .push(("NORM"@, (0xC8u8, 1u8)))
        .push(("OR"@, (0x44u8, 34u8)))
        .push(("RD"@, (0xD8u8, 34u8)))
        .push(("RMO"@, (0xACu8, 2u8)))
        .push(("RSUB"@, (0x4Cu8, 34u8)))
        .push(("SHIFTL"@, (0xA4u8, 2u8)))
        .push(("SHIFTR"@, (0xA8u8, 2u8)))
        .push(("SIO"@, (0xF0u8, 1u8)))
        .push(("SSK"@, (0xECu8, 34u8)))
        .push(("STA"@, (0x0Cu8, 34u8)))
        .push(("STB"@, (0x78u8, 34u8)))
        .push(("STCH"@, (0x54u8, 34u8)))
        .push(("STF"@, (0x80u8, 34u8)))
        .push(("STI"@, (0xD4u8, 34u8)))
        .push(("STL"@, (0x14u8, 34u8)))
        .push(("STS"@, (0x7Cu8, 34u8)))
        .push(("STSW"@, (0xE8u8, 34u8)))
        .push(("STT"@, (0x84u8, 34u8)))
        .push(("STX"@, (0x10u8, 34u8)))
        .push(("SUB"@, (0x1Cu8, 34u8)))
        .push(("SUBF"@, (0x5Cu8, 34u8)))
        .push(("SUBR"@, (0x94u8, 2u8)))
        .push(("SVC"@, (0xB0u8, 2u8)))
        .push(("TD"@, (0xE0u8, 34u8)))
        .push(("TIO"@, (0xF8u8, 1u8)))
        .push(("TIX"@, (0x2Cu8, 34u8)))
        .push(("TIXR"@, (0xB8u8, 2u8)))
        .push(("WD"@, (0xDCu8, 34u8)))
}

/// The opcode and format class of the first entry at or after `from` whose
/// mnemonic is `mnemonic`.
pub open spec fn lookup(set: Seq<(Seq<char>, (u8, u8))>, mnemonic: Seq<char>, from: int) -> Option<
    (u8, u8),
>
    decreases set.len() - from,
{
    if from < 0 || from >= set.len() {
        None
    } else if set[from].0 == mnemonic {
        Some(set[from].1)
    } else {
        lookup(set, mnemonic, from + 1)
    }
}

/// The opcode and format class of an instruction, if `mnemonic` names one.
pub open spec fn instruction(mnemonic: Seq<char>) -> Option<(u8, u8)> {
    lookup(instruction_set(), mnemonic, 0)
}

/// What a table of entries holds, as mathematical values.
pub open spec fn entries_of(v: Seq<(String, (u8, u8))>) -> Seq<(Seq<char>, (u8, u8))> {
    v.map_values(|e: (String, (u8, u8))| (e.0@, e.1))
}

fn enter(v: &mut Vec<(String, (u8, u8))>, mnemonic: &str, opcode: u8, format: u8)
    ensures
        entries_of(final(v)@) == entries_of(old(v)@).push((mnemonic@, (opcode, format))),
{
    v.push((String::from_str(mnemonic), (opcode, format)));
    assert(entries_of(v@) =~= entries_of(old(v)@).push((mnemonic@, (opcode, format))));
}

/// The instruction table.
pub struct OpcodeTable {
    opcodes: Vec<(String, (u8, u8))>,
}

impl OpcodeTable {
    /// The table holds exactly the instruction set.
    pub closed spec fn wf(&self) -> bool {
        entries_of(self.opcodes@) == instruction_set()
    }

    /// The table of the whole instruction set.
    pub fn new() -> (t: OpcodeTable)
        ensures
            t.wf(),
    {
        let mut v: Vec<(String, (u8, u8))> = Vec::new();
        assert(entries_of(v@) =~= Seq::empty());
        enter(&mut v, "ADD", 0x18, 34);
        enter(&mut v, "ADDF", 0x58, 34);
        enter(&mut v, "ADDR", 0x90, 2);
        enter(&mut v, "AND", 0x40, 34);
        enter(&mut v, "CLEAR", 0xB4, 2);
        enter(&mut v, "COMP", 0x28, 34);
        enter(&mut v, "COMPF", 0x88, 34);
        enter(&mut v, "COMPR", 0xA0, 2);
        enter(&mut v, "DIV", 0x24, 34);
        enter(&mut v, "DIVF", 0x64, 34);
        enter(&mut v, "DIVR", 0x9C, 2);
        enter(&mut v, "FIX", 0xC4, 1);
        enter(&mut v, "FLOAT", 0xC0, 1);
        enter(&mut v, "HIO", 0xF4, 1);
        enter(&mut v, "J", 0x3C, 34);
        enter(&mut v, "JEQ", 0x30, 34);
        enter(&mut v, "JGT", 0x34, 34);
        enter(&mut v, "JLT", 0x38, 34);
        enter(&mut v, "JSUB", 0x48, 34);
        enter(&mut v, "LDA", 0x00, 34);
        enter(&mut v, "LDB", 0x68, 34);
        enter(&mut v, "LDCH", 0x50, 34);
        enter(&mut v, "LDF", 0x70, 34);
        enter(&mut v, "LDL", 0x08, 34);
        enter(&mut v, "LDS", 0x6C, 34);
        enter(&mut v, "LDT", 0x74, 34);
        enter(&mut v, "LDX", 0x04, 34);
        enter(&mut v, "LPS", 0xD0, 34);
        enter(&mut v, "MUL", 0x20, 34);
        enter(&mut v, "MULF", 0x60, 34);
        enter(&mut v, "MULR", 0x98, 2);
        enter(&mut v, "NORM", 0xC8, 1);
        enter(&mut v, "OR", 0x44, 34);
        enter(&mut v, "RD", 0xD8, 34);
        enter(&mut v, "RMO", 0xAC, 2);
        enter(&mut v, "RSUB", 0x4C, 34);
        enter(&mut v, "SHIFTL", 0xA4, 2);
        enter(&mut v, "SHIFTR", 0xA8, 2);
        enter(&mut v, "SIO", 0xF0, 1);
        enter(&mut v, "SSK", 0xEC, 34);
        enter(&mut v, "STA", 0x0C, 34);
        enter(&mut v, "STB", 0x78, 34);
        enter(&mut v, "STCH", 0x54, 34);
        enter(&mut v, "STF", 0x80, 34);
        enter(&mut v, "STI", 0xD4, 34);
        enter(&mut v, "STL", 0x14, 34);
        enter(&mut v, "STS", 0x7C, 34);
        enter(&mut v, "STSW", 0xE8, 34);
        enter(&mut v, "STT", 0x84, 34);
        enter(&mut v, "STX", 0x10, 34);
        enter(&mut v, "SUB", 0x1C, 34);
        enter(&mut v, "SUBF", 0x5C, 34);
        enter(&mut v, "SUBR", 0x94, 2);
        enter(&mut v, "SVC", 0xB0, 2);
        enter(&mut v, "TD", 0xE0, 34);
        enter(&mut v, "TIO", 0xF8, 1);
        enter(&mut v, "TIX", 0x2C, 34);
        enter(&mut v, "TIXR", 0xB8, 2);
        enter(&mut v, "WD", 0xDC, 34);
        OpcodeTable { opcodes: v }
    }

    /// The opcode and format class of `mnemonic`, if it names an instruction.
    pub fn get(&self, mnemonic: &str) -> (r: Option<&(u8, u8)>)
        requires
            self.wf(),
        ensures
            match r {
                Some(found) => instruction(mnemonic@) == Some(*found),
                None => instruction(mnemonic@) is None,
            },
    {
        let ghost set = entries_of(self.opcodes@);
        let mut i: usize = 0;
        while i < self.opcodes.len()
            invariant
                i <= self.opcodes.len(),
                set == entries_of(self.opcodes@),
                set == instruction_set(),
                instruction(mnemonic@) == lookup(set, mnemonic@, i as int),
            decreases self.opcodes.len() - i,
        {
            assert(set[i as int] == (self.opcodes@[i as int].0@, self.opcodes@[i as int].1));
            if str_eq(self.opcodes[i].0.as_str(), mnemonic) {
                return Some(&self.opcodes[i].1);
            }
            i += 1;
        }
        None
    }

    /// Whether `mnemonic` names an instruction.
    pub fn contains_key(&self, mnemonic: &str) -> (r: bool)
        requires
            self.wf(),
        ensures
            r == instruction(mnemonic@) is Some,
    {
        self.get(mnemonic).is_some()
    }
}

} // verus!
