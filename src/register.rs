use vstd::prelude::*;

use crate::error::{AsmError, ErrorModel};

verus! {

/// One of the machine's four general registers.
#[derive(Clone, Copy, Debug, PartialEq, Eq, Structural)]
pub enum Register {
    R0,
    R1,
    R2,
    R3,
}

/// The 2-bit code of a register: its ordinal in binary, most significant bit first.
pub open spec fn reg_bits(r: Register) -> Seq<char> {
    match r {
        Register::R0 => seq!['0', '0'],
        Register::R1 => seq!['0', '1'],
        Register::R2 => seq!['1', '0'],
        Register::R3 => seq!['1', '1'],
    }
}

/// The register a token names, if it is exactly `R0`, `R1`, `R2` or `R3`.
pub open spec fn reg_named(t: Seq<char>) -> Option<Register> {
    if t == seq!['R', '0'] {
        Some(Register::R0)
    } else if t == seq!['R', '1'] {
        Some(Register::R1)
    } else if t == seq!['R', '2'] {
        Some(Register::R2)
    } else if t == seq!['R', '3'] {
        Some(Register::R3)
    } else {
        None
    }
}

impl Register {
    /// The 2-bit code of `reg`.
    pub fn binary(reg: Register) -> (r: &'static str)
        ensures
            r@ == reg_bits(reg),
    {
        match reg {
            Register::R0 => {
                proof {
                    reveal_strlit("00");
                }
                assert("00"@ =~= seq!['0', '0']);
                "00"
            },
            Register::R1 => {
                proof {
                    reveal_strlit("01");
                }
                assert("01"@ =~= seq!['0', '1']);
                "01"
            },
            Register::R2 => {
                proof {
                    reveal_strlit("10");
                }
                assert("10"@ =~= seq!['1', '0']);
                "10"
            },
            Register::R3 => {
                proof {
                    reveal_strlit("11");
                }
                assert("11"@ =~= seq!['1', '1']);
                "11"
            },
        }
    }

    /// Decodes a register token found on source line `real_line_number`.
    pub fn reg_from_instr(reg: &str, real_line_number: usize) -> (r: Result<Register, AsmError>)
        ensures
            match reg_named(reg@) {
                Some(x) => r == Ok::<Register, AsmError>(x),
                None => r is Err && r->Err_0@ == (ErrorModel::InvalidRegister {
                    line: real_line_number as nat,
                    token: reg@,
                }),
            },
    {
        let n = reg.unicode_len();
        if n == 2 && reg.get_char(0) == 'R' {
            let d = reg.get_char(1);
            assert(reg@ =~= seq!['R', d]);
            if d == '0' {
                return Ok(Register::R0);
            } else if d == '1' {
                return Ok(Register::R1);
            } else if d == '2' {
                return Ok(Register::R2);
            } else if d == '3' {
                return Ok(Register::R3);
            }
        }
        Err(AsmError::InvalidRegister { line: real_line_number, token: String::from_str(reg) })
    }
}

} // verus!
