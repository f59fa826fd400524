use vstd::prelude::*;

verus! {

/// Why an assembly was abandoned. Line numbers count every physical line of the
/// source, from 1.
#[derive(Debug)]
pub enum AsmError {
    /// Wrong number of tokens for the mnemonic or directive.
    MalformedLine { line: usize },
    /// A register operand other than `R0`..`R3`.
    InvalidRegister { line: usize, token: String },
    /// A first token that names no mnemonic or directive.
    UnknownInstruction { line: usize, token: String },
    /// A `DATA` operand that is not an unsigned integer.
    InvalidImmediate { line: usize, token: String },
    /// A `JIF` flag character outside `C`, `A`, `E`, `Z`.
    InvalidConditionFlag { line: usize, flag: char },
    /// A jump to a label that no `MARK` defines.
    UndefinedLabel { line: usize, label: String },
    /// An instruction took the program past the addressable memory: `found` is
    /// the word count it reached, `max` the number of words the machine has.
    ProgramTooLarge { found: usize, max: usize },
}

/// The mathematical value of an [`AsmError`]: texts as character sequences.
pub enum ErrorModel {
    MalformedLine { line: nat },
    InvalidRegister { line: nat, token: Seq<char> },
    UnknownInstruction { line: nat, token: Seq<char> },
    InvalidImmediate { line: nat, token: Seq<char> },
    InvalidConditionFlag { line: nat, flag: char },
    UndefinedLabel { line: nat, label: Seq<char> },
    ProgramTooLarge { found: nat, max: nat },
}

impl View for AsmError {
    type V = ErrorModel;

    open spec fn view(&self) -> ErrorModel {
        match self {
            AsmError::MalformedLine { line } => ErrorModel::MalformedLine { line: *line as nat },
            AsmError::InvalidRegister { line, token } => ErrorModel::InvalidRegister {
                line: *line as nat,
                token: token@,
            },
            AsmError::UnknownInstruction { line, token } => ErrorModel::UnknownInstruction {
                line: *line as nat,
                token: token@,
            },
            AsmError::InvalidImmediate { line, token } => ErrorModel::InvalidImmediate {
                line: *line as nat,
                token: token@,
            },
            AsmError::InvalidConditionFlag { line, flag } => ErrorModel::InvalidConditionFlag {
                line: *line as nat,
                flag: *flag,
            },
            AsmError::UndefinedLabel { line, label } => ErrorModel::UndefinedLabel {
                line: *line as nat,
                label: label@,
            },
            AsmError::ProgramTooLarge { found, max } => ErrorModel::ProgramTooLarge {
                found: *found as nat,
                max: *max as nat,
            },
        }
    }
}

/// A result with both sides replaced by their mathematical values.
pub open spec fn outcome<T: View>(r: Result<T, AsmError>) -> Result<T::V, ErrorModel> {
    match r {
        Ok(v) => Ok(v@),
        Err(e) => Err(e@),
    }
}

} // verus!
