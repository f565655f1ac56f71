//! The instruction set: word classes and the opcode table.
use vstd::prelude::*;

verus! {

/// Number of words of memory; also the modulus of all arithmetic.
pub const MEMORY_SIZE: u16 = 32768;

/// The first word that names a register (R0).
pub const REGISTER_BASE: u16 = 32768;

/// Number of general-purpose registers.
pub const REGISTER_COUNT: u16 = 8;

/// The largest opcode.
pub const LAST_OPCODE: u16 = 21;

/// A word in [0, 32767] is a literal value.
pub open spec fn is_literal(w: u16) -> bool {
    w < 32768
}

/// A word in [32768, 32775] names register R(w - 32768).
pub open spec fn is_register_word(w: u16) -> bool {
    32768 <= w && w < 32776
}

/// Number of operand slots that follow the given opcode.
pub open spec fn arity_of(op: u16) -> nat {
    if op == 0 || op == 18 || op == 21 {
        0
    } else if op == 2 || op == 3 || op == 6 || op == 17 || op == 19 || op == 20 {
        1
    } else if op == 1 || op == 7 || op == 8 || op == 14 || op == 15 || op == 16 {
        2
    } else {
        3
    }
}

/// How the disassembler names a word of an image.
#[derive(Clone, Copy, Debug, PartialEq, Eq, Structural)]
pub enum WordName {
    /// Register R(n).
    Register(u16),
    /// An opcode, shown by its mnemonic.
    Opcode(u16),
    /// Any other word, shown as a number.
    Literal(u16),
}

pub open spec fn word_name_of(w: u16) -> WordName {
    if is_register_word(w) {
        WordName::Register((w - 32768) as u16)
    } else if w <= 21 {
        WordName::Opcode(w)
    } else {
        WordName::Literal(w)
    }
}

/// Names a word for the disassembly listing: a register reference by its
/// register, an opcode by its mnemonic, anything else by its value.
pub fn word_name(w: u16) -> (r: WordName)
    ensures
        r == word_name_of(w),
{
    if is_register(w) {
        WordName::Register(w - REGISTER_BASE)
    } else if w <= LAST_OPCODE {
        WordName::Opcode(w)
    } else {
        WordName::Literal(w)
    }
}

/// Whether the word names register R(w - 32768).
pub fn is_register(w: u16) -> (r: bool)
    ensures
        r == is_register_word(w),
{
    w >= REGISTER_BASE && w < REGISTER_BASE + REGISTER_COUNT
}

/// Number of operand slots of a valid opcode.
pub fn arity(op: u16) -> (r: u16)
    requires
        op <= 21,
    ensures
        r as nat == arity_of(op),
        r <= 3,
{
    match op {
        0 | 18 | 21 => 0,
        2 | 3 | 6 | 17 | 19 | 20 => 1,
        1 | 7 | 8 | 14 | 15 | 16 => 2,
        _ => 3,
    }
}

/// The mnemonic of a valid opcode.
pub fn mnemonic(op: u16) -> (r: &'static str)
    requires
        op <= 21,
    ensures
        r@ == mnemonic_of(op),
{
    proof {
        reveal_strlit("HALT");
        reveal_strlit("SET");
        reveal_strlit("PUSH");
        reveal_strlit("POP");
        reveal_strlit("EQ");
        reveal_strlit("GT");
        reveal_strlit("JMP");
        reveal_strlit("JT");
        reveal_strlit("JF");
        reveal_strlit("ADD");
        reveal_strlit("MULT");
        reveal_strlit("MOD");
        reveal_strlit("AND");
        reveal_strlit("OR");
        reveal_strlit("NOT");
        reveal_strlit("RMEM");
        reveal_strlit("WMEM");
        reveal_strlit("CALL");
        reveal_strlit("RET");
        reveal_strlit("OUT");
        reveal_strlit("IN");
        reveal_strlit("NOOP");
    }
    match op {
        0 => "HALT",
        1 => "SET",
        2 => "PUSH",
        3 => "POP",
        4 => "EQ",
        5 => "GT",
        6 => "JMP",
        7 => "JT",
        8 => "JF",
        9 => "ADD",
        10 => "MULT",
        11 => "MOD",
        12 => "AND",
        13 => "OR",
        14 => "NOT",
        15 => "RMEM",
        16 => "WMEM",
        17 => "CALL",
        18 => "RET",
        19 => "OUT",
        20 => "IN",
        _ => "NOOP",
    }
}

/// The mnemonic of each opcode, as characters.
pub open spec fn mnemonic_of(op: u16) -> Seq<char> {
    if op == 0 { "HALT"@ }
    else if op == 1 { "SET"@ }
    else if op == 2 { "PUSH"@ }
    else if op == 3 { "POP"@ }
    else if op == 4 { "EQ"@ }
    else if op == 5 { "GT"@ }
    else if op == 6 { "JMP"@ }
    else if op == 7 { "JT"@ }
    else if op == 8 { "JF"@ }
    else if op == 9 { "ADD"@ }
    else if op == 10 { "MULT"@ }
    else if op == 11 { "MOD"@ }
    else if op == 12 { "AND"@ }
    else if op == 13 { "OR"@ }
    else if op == 14 { "NOT"@ }
    else if op == 15 { "RMEM"@ }
    else if op == 16 { "WMEM"@ }
    else if op == 17 { "CALL"@ }
    else if op == 18 { "RET"@ }
    else if op == 19 { "OUT"@ }
    else if op == 20 { "IN"@ }
    else { "NOOP"@ }
}

} // verus!
