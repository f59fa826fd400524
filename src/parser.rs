use vstd::prelude::*;

use crate::error::{outcome, AsmError, ErrorModel};
use crate::instruction::{InstrModel, Instructions};
use crate::register::{reg_named, Register};
use crate::text::{chars_of, is_text};

verus! {

/// What one source line contributes to the program.
#[derive(Debug)]
pub enum SourceLine {
    /// A blank or comment line: nothing.
    Blank,
    /// A `MARK` directive naming the address of the next word.
    Mark(String),
    /// One instruction.
    Op(Instructions),
}

/// The mathematical value of a [`SourceLine`].
pub enum LineModel {
    Blank,
    Mark(Seq<char>),
    Op(InstrModel),
}

impl View for SourceLine {
    type V = LineModel;

    open spec fn view(&self) -> LineModel {
        match self {
            SourceLine::Blank => LineModel::Blank,
            SourceLine::Mark(name) => LineModel::Mark(name@),
            SourceLine::Op(i) => LineModel::Op(i@),
        }
    }
}

/// The two-register instruction a mnemonic names, applied to its operands.
pub open spec fn two_reg_op(m: Seq<char>, a: Register, b: Register) -> Option<InstrModel> {
    if m == "ADD"@ {
        Some(InstrModel::Add { reg_a: a, reg_b: b })
    } else if m == "SHR"@ {
        Some(InstrModel::Shr { reg_a: a, reg_b: b })
    } else if m == "SHL"@ {
        Some(InstrModel::Shl { reg_a: a, reg_b: b })
    } else if m == "NOT"@ {
        Some(InstrModel::Not { reg_a: a, reg_b: b })
    } else if m == "AND"@ {
        Some(InstrModel::And { reg_a: a, reg_b: b })
    } else if m == "OR"@ {
        Some(InstrModel::Or { reg_a: a, reg_b: b })
    } else if m == "XOR"@ {
        Some(InstrModel::XOr { reg_a: a, reg_b: b })
    } else if m == "ST"@ {
        Some(InstrModel::Store { reg_a: a, reg_b: b })
    } else if m == "LD"@ {
        Some(InstrModel::Load { reg_a: a, reg_b: b })
    } else {
        None
    }
}

/// A condition-flag letter of `JIF`.
pub open spec fn is_flag(c: char) -> bool {
    c == 'C' || c == 'A' || c == 'E' || c == 'Z'
}

/// The first character of `s` that is not a flag letter.
pub open spec fn first_non_flag(s: Seq<char>) -> Option<char>
    decreases s.len(),
{
    if s.len() == 0 {
        None
    } else if !is_flag(s[0]) {
        Some(s[0])
    } else {
        first_non_flag(s.drop_first())
    }
}

/// An ASCII decimal digit.
pub open spec fn is_digit(c: char) -> bool {
    48 <= (c as u32) <= 57
}

/// The number a string of decimal digits denotes.
pub open spec fn decimal_value(s: Seq<char>) -> nat
    decreases s.len(),
{
    if s.len() == 0 {
        0
    } else {
        decimal_value(s.drop_last()) * 10 + ((s.last() as u32) - 48) as nat
    }
}

/// A token without its leading `+`, if it has one.
pub open spec fn unsigned_digits(s: Seq<char>) -> Seq<char> {
    if s.len() > 0 && s[0] == '+' {
        s.drop_first()
    } else {
        s
    }
}

/// Every character of `s` is a decimal digit.
pub open spec fn all_digits(s: Seq<char>) -> bool {
    forall|i: int| 0 <= i < s.len() ==> is_digit(#[trigger] s[i])
}

/// The value of an unsigned integer token: an optional `+`, then one or more
/// decimal digits, denoting a value that fits in `usize`.
pub open spec fn unsigned_value(s: Seq<char>) -> Option<nat> {
    let d = unsigned_digits(s);
    if d.len() > 0 && all_digits(d) && decimal_value(d) <= usize::MAX {
        Some(decimal_value(d))
    } else {
        None
    }
}

/// How the tokens `t` of source line `line` read. A `JIF` takes its flag
/// letters from the second token and its label from the third.
pub open spec fn parse_tokens(t: Seq<Seq<char>>, line: nat) -> Result<LineModel, ErrorModel> {
    let malformed = Err(ErrorModel::MalformedLine { line });
    if t.len() == 0 {
        Ok(LineModel::Blank)
    } else if t[0].len() > 0 && t[0][0] == '#' {
        Ok(LineModel::Blank)
    } else if t[0] == "MARK"@ {
        if t.len() != 2 {
            malformed
        } else {
            Ok(LineModel::Mark(t[1]))
        }
    } else if two_reg_op(t[0], Register::R0, Register::R0) is Some {
        if t.len() != 3 {
            malformed
        } else if reg_named(t[1]) is None {
            Err(ErrorModel::InvalidRegister { line, token: t[1] })
        } else if reg_named(t[2]) is None {
            Err(ErrorModel::InvalidRegister { line, token: t[2] })
        } else {
            Ok(LineModel::Op(two_reg_op(t[0], reg_named(t[1])->0, reg_named(t[2])->0)->0))
        }
    } else if t[0] == "DATA"@ {
        if t.len() != 3 {
            malformed
        } else if reg_named(t[1]) is None {
            Err(ErrorModel::InvalidRegister { line, token: t[1] })
        } else if unsigned_value(t[2]) is None {
            Err(ErrorModel::InvalidImmediate { line, token: t[2] })
        } else {
            Ok(
                LineModel::Op(
                    InstrModel::Data { reg: reg_named(t[1])->0, data: unsigned_value(t[2])->0 },
                ),
            )
        }
    } else if t[0] == "JMPR"@ {
        if t.len() != 2 {
            malformed
        } else if reg_named(t[1]) is None {
            Err(ErrorModel::InvalidRegister { line, token: t[1] })
        } else {
            Ok(LineModel::Op(InstrModel::JumpRegister { reg: reg_named(t[1])->0 }))
        }
    } else if t[0] == "JMP"@ {
        if t.len() != 2 {
            malformed
        } else {
            Ok(LineModel::Op(InstrModel::JumpAddress { mark: t[1] }))
        }
    } else if t[0] == "JIF"@ {
        if t.len() != 3 {
            malformed
        } else if first_non_flag(t[1]) is Some {
            Err(ErrorModel::InvalidConditionFlag { line, flag: first_non_flag(t[1])->0 })
        } else {
            Ok(
                LineModel::Op(
                    InstrModel::JumpIf {
                        carry: t[1].contains('C'),
                        a_larger: t[1].contains('A'),
                        equal: t[1].contains('E'),
                        zero: t[1].contains('Z'),
                        mark: t[2],
                    },
                ),
            )
        }
    } else if t[0] == "CLF"@ {
        if t.len() != 1 {
            malformed
        } else {
            Ok(LineModel::Op(InstrModel::ClearFlags))
        }
    } else if t[0] == "END"@ {
        if t.len() != 1 {
            malformed
        } else {
            Ok(LineModel::Op(InstrModel::End))
        }
    } else {
        Err(ErrorModel::UnknownInstruction { line, token: t[0] })
    }
}

proof fn lemma_decimal_prefix(s: Seq<char>, j: int)
    requires
        0 <= j <= s.len(),
        all_digits(s),
    ensures
        decimal_value(s.take(j)) <= decimal_value(s),
    decreases s.len(),
{
    if j < s.len() {
        assert(s.take(j) =~= s.drop_last().take(j));
        lemma_decimal_prefix(s.drop_last(), j);
    } else {
        assert(s.take(j) =~= s);
    }
}

/// Reads an unsigned integer token: an optional `+` and decimal digits.
pub fn parse_unsigned(t: &Vec<char>) -> (r: Option<usize>)
    ensures
        r is Some <==> unsigned_value(t@) is Some,
        r is Some ==> r->0 as nat == unsigned_value(t@)->0,
{
    let start: usize = if t.len() > 0 && t[0] == '+' {
        1
    } else {
        0
    };
    let ghost d = t@.skip(start as int);
    assert(d =~= unsigned_digits(t@));
    if start == t.len() {
        return None;
    }
    let mut v: usize = 0;
    let mut i: usize = start;
    while i < t.len()
        invariant
            start <= i <= t@.len(),
            d == t@.skip(start as int),
            d == unsigned_digits(t@),
            forall|k: int| start <= k < i ==> is_digit(#[trigger] t@[k]),
            v as nat == decimal_value(t@.subrange(start as int, i as int)),
        decreases t@.len() - i,
    {
        let c = t[i];
        let u = c as u32;
        if u < 48 || u > 57 {
            assert(d[i - start] == t@[i as int]);
            assert(!is_digit(d[i - start]));
            return None;
        }
        let ghost p = t@.subrange(start as int, i + 1);
        assert(p.drop_last() =~= t@.subrange(start as int, i as int));
        assert(p.last() == c);
        let dg = (u - 48) as usize;
        let next = match v.checked_mul(10) {
            Some(m) => m.checked_add(dg),
            None => None,
        };
        match next {
            Some(n) => {
                v = n;
            },
            None => {
                assert(decimal_value(p) > usize::MAX);
                proof {
                    if all_digits(d) {
                        assert(d.take(i + 1 - start) =~= p);
                        lemma_decimal_prefix(d, i + 1 - start);
                    }
                }
                return None;
            },
        }
        i = i + 1;
    }
    assert(t@.subrange(start as int, i as int) =~= d);
    Some(v)
}

/// Reads the flag letters of a `JIF`: the flags set, or the first stray character.
pub fn parse_flags(t: &Vec<char>) -> (r: Result<(bool, bool, bool, bool), char>)
    ensures
        match first_non_flag(t@) {
            Some(c) => r == Err::<(bool, bool, bool, bool), char>(c),
            None => r == Ok::<(bool, bool, bool, bool), char>(
                (t@.contains('C'), t@.contains('A'), t@.contains('E'), t@.contains('Z')),
            ),
        },
{
    assert(t@.skip(0) =~= t@);
    let mut carry = false;
    let mut a_larger = false;
    let mut equal = false;
    let mut zero = false;
    let mut i: usize = 0;
    while i < t.len()
        invariant
            i <= t@.len(),
            first_non_flag(t@.skip(i as int)) == first_non_flag(t@),
            carry == t@.take(i as int).contains('C'),
            a_larger == t@.take(i as int).contains('A'),
            equal == t@.take(i as int).contains('E'),
            zero == t@.take(i as int).contains('Z'),
        decreases t@.len() - i,
    {
        let c = t[i];
        assert(t@.skip(i as int)[0] == c);
        assert(t@.skip(i as int).drop_first() =~= t@.skip(i + 1));
        if !(c == 'C' || c == 'A' || c == 'E' || c == 'Z') {
            return Err(c);
        }
        let ghost before = t@.take(i as int);
        let ghost after = t@.take(i + 1);
        assert(after =~= before.push(c));
        assert(forall|x: char| after.contains(x) <==> (before.contains(x) || x == c)) by {
            assert forall|x: char| after.contains(x) implies (before.contains(x) || x == c) by {
                if after.contains(x) {
                    let k = choose|k: int| 0 <= k < after.len() && after[k] == x;
                    if k < i {
                        assert(before[k] == x);
                    }
                }
            }
            assert forall|x: char| (before.contains(x) || x == c) implies after.contains(x) by {
                if x == c {
                    assert(after[i as int] == x);
                } else {
                    let k = choose|k: int| 0 <= k < before.len() && before[k] == x;
                    assert(after[k] == x);
                }
            }
        }
        carry = carry || c == 'C';
        a_larger = a_larger || c == 'A';
        equal = equal || c == 'E';
        zero = zero || c == 'Z';
        i = i + 1;
    }
    assert(t@.take(i as int) =~= t@);
    assert(t@.skip(i as int) =~= Seq::<char>::empty());
    Ok((carry, a_larger, equal, zero))
}

/// Classifies the tokens `toks` of source line `line` and builds what it holds.
pub fn parse_line(toks: &Vec<String>, line: usize) -> (r: Result<SourceLine, AsmError>)
    ensures
        outcome(r) == parse_tokens(toks@.map_values(|t: String| t@), line as nat),
{
    let ghost t = toks@.map_values(|t: String| t@);
    let n = toks.len();
    if n == 0 {
        return Ok(SourceLine::Blank);
    }
    let m = toks[0].as_str();
    if m.unicode_len() > 0 && m.get_char(0) == '#' {
        return Ok(SourceLine::Blank);
    }
    if is_text(m, "MARK") {
        if n != 2 {
            return Err(AsmError::MalformedLine { line });
        }
        return Ok(SourceLine::Mark(toks[1].clone()));
    }
    let two_reg = is_text(m, "ADD") || is_text(m, "SHR") || is_text(m, "SHL") || is_text(m, "NOT")
        || is_text(m, "AND") || is_text(m, "OR") || is_text(m, "XOR") || is_text(m, "ST")
        || is_text(m, "LD");
    if two_reg {
        if n != 3 {
            return Err(AsmError::MalformedLine { line });
        }
        let reg_a = Register::reg_from_instr(toks[1].as_str(), line)?;
        let reg_b = Register::reg_from_instr(toks[2].as_str(), line)?;
        let op = if is_text(m, "ADD") {
            Instructions::Add { reg_a, reg_b }
        } else if is_text(m, "SHR") {
            Instructions::Shr { reg_a, reg_b }
        } else if is_text(m, "SHL") {
            Instructions::Shl { reg_a, reg_b }
        } else if is_text(m, "NOT") {
            Instructions::Not { reg_a, reg_b }
        } else if is_text(m, "AND") {
            Instructions::And { reg_a, reg_b }
        } else if is_text(m, "OR") {
            Instructions::Or { reg_a, reg_b }
        } else if is_text(m, "XOR") {
            Instructions::XOr { reg_a, reg_b }
        } else if is_text(m, "ST") {
            Instructions::Store { reg_a, reg_b }
        } else {
            Instructions::Load { reg_a, reg_b }
        };
        return Ok(SourceLine::Op(op));
    }
    if is_text(m, "DATA") {
        if n != 3 {
            return Err(AsmError::MalformedLine { line });
        }
        let reg = Register::reg_from_instr(toks[1].as_str(), line)?;
        return match parse_unsigned(&chars_of(toks[2].as_str())) {
            Some(data) => Ok(SourceLine::Op(Instructions::Data { reg, data })),
            None => Err(AsmError::InvalidImmediate { line, token: toks[2].clone() }),
        };
    }
    if is_text(m, "JMPR") {
        if n != 2 {
            return Err(AsmError::MalformedLine { line });
        }
        let reg = Register::reg_from_instr(toks[1].as_str(), line)?;
        return Ok(SourceLine::Op(Instructions::JumpRegister { reg }));
    }
    if is_text(m, "JMP") {
        if n != 2 {
            return Err(AsmError::MalformedLine { line });
        }
        return Ok(SourceLine::Op(Instructions::JumpAddress { mark: toks[1].clone() }));
    }
    if is_text(m, "JIF") {
        if n != 3 {
            return Err(AsmError::MalformedLine { line });
        }
        return match parse_flags(&chars_of(toks[1].as_str())) {
            Ok((carry, a_larger, equal, zero)) => Ok(
                SourceLine::Op(
                    Instructions::JumpIf { carry, a_larger, equal, zero, mark: toks[2].clone() },
                ),
            ),
            Err(flag) => Err(AsmError::InvalidConditionFlag { line, flag }),
        };
    }
    if is_text(m, "CLF") {
        if n != 1 {
            return Err(AsmError::MalformedLine { line });
        }
        return Ok(SourceLine::Op(Instructions::ClearFlags));
    }
    if is_text(m, "END") {
        if n != 1 {
            return Err(AsmError::MalformedLine { line });
        }
        return Ok(SourceLine::Op(Instructions::End));
    }
    Err(AsmError::UnknownInstruction { line, token: toks[0].clone() })
}

} // verus!
