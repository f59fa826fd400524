use vstd::prelude::*;

use crate::register::{reg_bits, Register};
use crate::text::push_char;

verus! {

/// One machine instruction as the parser produces it. Jumps name their target
/// label; the address is resolved when the program is emitted.
#[derive(Debug)]
pub enum Instructions {
    Add { reg_a: Register, reg_b: Register },
    Shr { reg_a: Register, reg_b: Register },
    Shl { reg_a: Register, reg_b: Register },
    Not { reg_a: Register, reg_b: Register },
    And { reg_a: Register, reg_b: Register },
    Or { reg_a: Register, reg_b: Register },
    XOr { reg_a: Register, reg_b: Register },
    Store { reg_a: Register, reg_b: Register },
    Load { reg_a: Register, reg_b: Register },
    Data { reg: Register, data: usize },
    JumpRegister { reg: Register },
    JumpAddress { mark: String },
    JumpIf { carry: bool, a_larger: bool, equal: bool, zero: bool, mark: String },
    ClearFlags,
    End,
}

/// The mathematical value of an instruction: a label as a character sequence.
pub enum InstrModel {
    Add { reg_a: Register, reg_b: Register },
    Shr { reg_a: Register, reg_b: Register },
    Shl { reg_a: Register, reg_b: Register },
    Not { reg_a: Register, reg_b: Register },
    And { reg_a: Register, reg_b: Register },
    Or { reg_a: Register, reg_b: Register },
    XOr { reg_a: Register, reg_b: Register },
    Store { reg_a: Register, reg_b: Register },
    Load { reg_a: Register, reg_b: Register },
    Data { reg: Register, data: nat },
    JumpRegister { reg: Register },
    JumpAddress { mark: Seq<char> },
    JumpIf { carry: bool, a_larger: bool, equal: bool, zero: bool, mark: Seq<char> },
    ClearFlags,
    End,
}

impl View for Instructions {
    type V = InstrModel;

    open spec fn view(&self) -> InstrModel {
        match self {
            Instructions::Add { reg_a, reg_b } => InstrModel::Add { reg_a: *reg_a, reg_b: *reg_b },
            Instructions::Shr { reg_a, reg_b } => InstrModel::Shr { reg_a: *reg_a, reg_b: *reg_b },
            Instructions::Shl { reg_a, reg_b } => InstrModel::Shl { reg_a: *reg_a, reg_b: *reg_b },
            Instructions::Not { reg_a, reg_b } => InstrModel::Not { reg_a: *reg_a, reg_b: *reg_b },
            Instructions::And { reg_a, reg_b } => InstrModel::And { reg_a: *reg_a, reg_b: *reg_b },
            Instructions::Or { reg_a, reg_b } => InstrModel::Or { reg_a: *reg_a, reg_b: *reg_b },
            Instructions::XOr { reg_a, reg_b } => InstrModel::XOr { reg_a: *reg_a, reg_b: *reg_b },
            Instructions::Store { reg_a, reg_b } => InstrModel::Store {
                reg_a: *reg_a,
                reg_b: *reg_b,
            },
            Instructions::Load { reg_a, reg_b } => InstrModel::Load {
                reg_a: *reg_a,
                reg_b: *reg_b,
            },
            Instructions::Data { reg, data } => InstrModel::Data { reg: *reg, data: *data as nat },
            Instructions::JumpRegister { reg } => InstrModel::JumpRegister { reg: *reg },
            Instructions::JumpAddress { mark } => InstrModel::JumpAddress { mark: mark@ },
            Instructions::JumpIf { carry, a_larger, equal, zero, mark } => InstrModel::JumpIf {
                carry: *carry,
                a_larger: *a_larger,
                equal: *equal,
                zero: *zero,
                mark: mark@,
            },
            Instructions::ClearFlags => InstrModel::ClearFlags,
            Instructions::End => InstrModel::End,
        }
    }
}

/// `'1'` for a set bit, `'0'` for a clear one.
pub open spec fn bit_char(b: bool) -> char {
    if b {
        '1'
    } else {
        '0'
    }
}

/// The low `width` binary digits of `v`, most significant first.
pub open spec fn binary_digits(v: nat, width: nat) -> Seq<char>
    decreases width,
{
    if width == 0 {
        Seq::empty()
    } else {
        binary_digits(v / 2, (width - 1) as nat).push(bit_char(v % 2 == 1))
    }
}

/// A value as one 8-bit word: its low 8 binary digits.
pub open spec fn word8(v: nat) -> Seq<char> {
    binary_digits(v, 8)
}

/// The 4-bit opcode of a two-register instruction, `None` for the other forms.
pub open spec fn opcode_prefix(i: InstrModel) -> Option<Seq<char>> {
    match i {
        InstrModel::Add { .. } => Some("1000"@),
        InstrModel::Shr { .. } => Some("1001"@),
        InstrModel::Shl { .. } => Some("1010"@),
        InstrModel::Not { .. } => Some("1011"@),
        InstrModel::And { .. } => Some("1100"@),
        InstrModel::Or { .. } => Some("1101"@),
        InstrModel::XOr { .. } => Some("1110"@),
        InstrModel::Store { .. } => Some("0001"@),
        InstrModel::Load { .. } => Some("0000"@),
        _ => None,
    }
}

/// The two operands of a two-register instruction.
pub open spec fn reg_pair(i: InstrModel) -> (Register, Register) {
    match i {
        InstrModel::Add { reg_a, reg_b } => (reg_a, reg_b),
        InstrModel::Shr { reg_a, reg_b } => (reg_a, reg_b),
        InstrModel::Shl { reg_a, reg_b } => (reg_a, reg_b),
        InstrModel::Not { reg_a, reg_b } => (reg_a, reg_b),
        InstrModel::And { reg_a, reg_b } => (reg_a, reg_b),
        InstrModel::Or { reg_a, reg_b } => (reg_a, reg_b),
        InstrModel::XOr { reg_a, reg_b } => (reg_a, reg_b),
        InstrModel::Store { reg_a, reg_b } => (reg_a, reg_b),
        InstrModel::Load { reg_a, reg_b } => (reg_a, reg_b),
        _ => (Register::R0, Register::R0),
    }
}

/// The label a jump refers to, `None` for every other instruction.
pub open spec fn jump_target(i: InstrModel) -> Option<Seq<char>> {
    match i {
        InstrModel::JumpAddress { mark } => Some(mark),
        InstrModel::JumpIf { mark, .. } => Some(mark),
        _ => None,
    }
}

/// The words an instruction encodes to by itself: all of them but the
/// resolved address that follows a jump.
pub open spec fn own_words(i: InstrModel) -> Seq<Seq<char>> {
    match i {
        InstrModel::Data { reg, data } => seq!["001000"@ + reg_bits(reg), word8(data)],
        InstrModel::JumpRegister { reg } => seq!["001100"@ + reg_bits(reg)],
        InstrModel::JumpAddress { .. } => seq!["01000000"@],
        InstrModel::JumpIf { carry, a_larger, equal, zero, .. } => seq![
            "0101"@.push(bit_char(carry)).push(bit_char(a_larger)).push(bit_char(equal)).push(
                bit_char(zero),
            ),
        ],
        InstrModel::ClearFlags => seq!["01100000"@],
        InstrModel::End => seq!["11001111"@],
        _ => seq![opcode_prefix(i)->0 + reg_bits(reg_pair(i).0) + reg_bits(reg_pair(i).1)],
    }
}

/// How many words an instruction occupies in the output, its address word included.
pub open spec fn word_count(i: InstrModel) -> nat {
    match i {
        InstrModel::Data { .. } => 2,
        InstrModel::JumpAddress { .. } => 2,
        InstrModel::JumpIf { .. } => 2,
        _ => 1,
    }
}

/// All the words of an instruction once its target, if any, resolves to `address`.
pub open spec fn encoding(i: InstrModel, address: nat) -> Seq<Seq<char>> {
    if jump_target(i) is Some {
        own_words(i).push(word8(address))
    } else {
        own_words(i)
    }
}

/// Appends the low `width` binary digits of `v` to `s`.
fn push_digits(s: &mut String, v: usize, width: usize)
    ensures
        final(s)@ == old(s)@ + binary_digits(v as nat, width as nat),
    decreases width,
{
    if width > 0 {
        push_digits(s, v / 2, width - 1);
        push_char(s, if v % 2 == 1 { '1' } else { '0' });
    } else {
        assert(old(s)@ + binary_digits(v as nat, 0) =~= old(s)@);
    }
    proof {
        if width > 0 {
            let d = binary_digits((v / 2) as nat, (width - 1) as nat);
            assert(old(s)@ + d.push(bit_char(v % 2 == 1)) =~= (old(s)@ + d).push(
                bit_char(v % 2 == 1),
            ));
        }
    }
}

/// `v` as one 8-bit word of binary digits; higher bits are dropped.
pub fn word_of(v: usize) -> (r: String)
    ensures
        r@ == word8(v as nat),
{
    let mut s = String::new();
    push_digits(&mut s, v, 8);
    assert(s@ =~= word8(v as nat));
    s
}

/// A literal followed by a register code.
fn with_reg(prefix: &str, reg: Register) -> (r: String)
    ensures
        r@ == prefix@ + reg_bits(reg),
{
    String::from_str(prefix).concat(Register::binary(reg))
}

/// A 4-bit opcode followed by two register codes.
fn two_reg(opcode: &str, reg_a: Register, reg_b: Register) -> (r: String)
    ensures
        r@ == opcode@ + reg_bits(reg_a) + reg_bits(reg_b),
{
    with_reg(opcode, reg_a).concat(Register::binary(reg_b))
}

impl Instructions {
    /// How many words the instruction occupies, its address word included.
    pub fn size(&self) -> (r: usize)
        ensures
            r as nat == word_count(self@),
    {
        match self {
            Instructions::Data { .. } | Instructions::JumpAddress { .. } | Instructions::JumpIf {
                ..
            } => 2,
            _ => 1,
        }
    }

    /// The label a jump refers to; `None` for every other instruction.
    pub fn target(&self) -> (r: Option<&String>)
        ensures
            r is Some <==> jump_target(self@) is Some,
            r is Some ==> r->0@ == jump_target(self@)->0,
    {
        match self {
            Instructions::JumpAddress { mark } => Some(mark),
            Instructions::JumpIf { mark, .. } => Some(mark),
            _ => None,
        }
    }

    /// The words `instruction` encodes to by itself. A jump's address word is
    /// not among them: it is appended once the target label is resolved.
    pub fn binary(instruction: &Self) -> (r: Vec<String>)
        ensures
            r@.map_values(|w: String| w@) == own_words(instruction@),
            r@.len() + (if jump_target(instruction@) is Some { 1int } else { 0 }) == word_count(
                instruction@,
            ),
            opcode_prefix(instruction@) is Some ==> r@.len() == 1 && r@[0]@ == opcode_prefix(
                instruction@,
            )->0 + reg_bits(reg_pair(instruction@).0) + reg_bits(reg_pair(instruction@).1),
    {
        let mut out: Vec<String> = Vec::new();
        match instruction {
            Instructions::Add { reg_a, reg_b } => out.push(two_reg("1000", *reg_a, *reg_b)),
            Instructions::Shr { reg_a, reg_b } => out.push(two_reg("1001", *reg_a, *reg_b)),
            Instructions::Shl { reg_a, reg_b } => out.push(two_reg("1010", *reg_a, *reg_b)),
            Instructions::Not { reg_a, reg_b } => out.push(two_reg("1011", *reg_a, *reg_b)),
            Instructions::And { reg_a, reg_b } => out.push(two_reg("1100", *reg_a, *reg_b)),
            Instructions::Or { reg_a, reg_b } => out.push(two_reg("1101", *reg_a, *reg_b)),
            Instructions::XOr { reg_a, reg_b } => out.push(two_reg("1110", *reg_a, *reg_b)),
            Instructions::Store { reg_a, reg_b } => out.push(two_reg("0001", *reg_a, *reg_b)),
            Instructions::Load { reg_a, reg_b } => out.push(two_reg("0000", *reg_a, *reg_b)),
            Instructions::Data { reg, data } => {
                out.push(with_reg("001000", *reg));
                out.push(word_of(*data));
            },
            Instructions::JumpRegister { reg } => out.push(with_reg("001100", *reg)),
            Instructions::JumpAddress { .. } => out.push(String::from_str("01000000")),
            Instructions::JumpIf { carry, a_larger, equal, zero, .. } => {
                let mut w = String::from_str("0101");
                push_char(&mut w, if *carry { '1' } else { '0' });
                push_char(&mut w, if *a_larger { '1' } else { '0' });
                push_char(&mut w, if *equal { '1' } else { '0' });
                push_char(&mut w, if *zero { '1' } else { '0' });
                out.push(w);
            },
            Instructions::ClearFlags => out.push(String::from_str("01100000")),
            Instructions::End => out.push(String::from_str("11001111")),
        }
        assert(out@.map_values(|w: String| w@) =~= own_words(instruction@));
        out
    }
}

} // verus!
