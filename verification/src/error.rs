//! Errors across the whole library.
use vstd::prelude::*;

use crate::isa::err::ISAError;
use crate::isa::instruction::Instruction;
use crate::loader::err::LoaderError;
use crate::text::push_decimal;
use crate::vm::err::VMError;

verus! {

#[verifier::external_type_specification]
#[verifier::external_body]
pub struct ExIoError(std::io::Error);

/// The kinds of errors of the library.
#[derive(Debug)]
pub enum WVMErrorKind {
    ISAError(ISAError),
    VMError(VMError),
    LoaderError(LoaderError),
    IoError(std::io::Error),
}

/// The text of an I/O error, as `std::io::Error`'s `Display` words it
/// (which depends on the operating system: nothing is claimed of it).
#[verifier::external_body]
fn io_error_text(e: &std::io::Error) -> String {
    e.to_string()
}

/// The message of an error of a known kind; `None` for an I/O error, whose
/// words come from the operating system.
pub open spec fn kind_message(k: WVMErrorKind) -> Option<Seq<char>> {
    match k {
        WVMErrorKind::ISAError(e) => Some(crate::isa::err::isa_message(e.kind@)),
        WVMErrorKind::VMError(e) => Some(crate::vm::err::vm_message(e.kind)),
        WVMErrorKind::LoaderError(e) => Some(crate::loader::err::loader_message(e.kind@)),
        WVMErrorKind::IoError(_) => None,
    }
}

/// `n` times the character `c`.
pub open spec fn repeated(c: char, n: nat) -> Seq<char> {
    Seq::new(n, |k: int| c)
}

/// What reporting an error prints: the message, then, under it, the
/// instruction that it concerns with a line of `^` under the instruction;
/// with ANSI colors where `ansi`.
pub open spec fn report_of(message: Seq<char>, instruction: Option<Instruction>, ansi: bool) -> Seq<char> {
    let head = if ansi {
        "\x1b[1;31mError\x1b[0m: \x1b[1m"@ + message + "\x1b[0m.\n\n"@
    } else {
        "Error: "@ + message + ".\n\n"@
    };
    match instruction {
        None => head,
        Some(i) => {
            let text = crate::isa::instruction::instruction_text(i);
            let arrows = repeated('^', text.len());
            if ansi {
                head + "\x1b[36m-->\x1b[0m  "@ + text + "\n     \x1b[1m"@ + arrows + "\x1b[0m\n"@
            } else {
                head + "-->  "@ + text + "\n     "@ + arrows + "\n"@
            }
        },
    }
}

impl WVMErrorKind {
    /// The message that describes this error.
    pub fn to_string(&self) -> (r: String)
        ensures
            kind_message(*self) matches Some(m) ==> r@ == m,
    {
        match self {
            WVMErrorKind::ISAError(e) => e.message(),
            WVMErrorKind::VMError(e) => e.to_string(),
            WVMErrorKind::LoaderError(e) => e.to_string(),
            WVMErrorKind::IoError(e) => io_error_text(e),
        }
    }
}

/// An error of the library, with the instruction it concerns (if any) and
/// whether it is to be shown with ANSI colors.
#[derive(Debug)]
pub struct WVMError {
    pub kind: WVMErrorKind,
    /// The instruction that the error concerns, shown under the message.
    pub instruction: Option<Instruction>,
    /// Whether ANSI escape sequences are supported where the error is shown.
    pub have_ansi: bool,
}

impl WVMError {
    pub fn new(kind: WVMErrorKind, instruction: Option<Instruction>, have_ansi: bool) -> (r: Self)
        ensures
            r.kind == kind,
            r.instruction == instruction,
            r.have_ansi == have_ansi,
    {
        Self { kind, instruction, have_ansi }
    }

    /// What reporting this error prints (see [`report_of`]).
    pub fn report_text(&self) -> (r: String)
        requires
            self.instruction matches Some(i) ==> (i.operand2 is Some ==> i.operand1 is Some) && (
            i.operand3 is Some ==> i.operand2 is Some),
        ensures
            kind_message(self.kind) matches Some(m) ==> r@ == report_of(m, self.instruction, self.have_ansi),
    {
        let message = self.kind.to_string();
        let mut s = if self.have_ansi {
            String::from_str("\x1b[1;31mError\x1b[0m: \x1b[1m")
        } else {
            String::from_str("Error: ")
        };
        s.append(message.as_str());
        if self.have_ansi {
            s.append("\x1b[0m.\n\n");
        } else {
            s.append(".\n\n");
        }
        if let Some(instruction) = self.instruction {
            let text = instruction.to_string();
            if self.have_ansi {
                s.append("\x1b[36m-->\x1b[0m  ");
            } else {
                s.append("-->  ");
            }
            s.append(text.as_str());
            if self.have_ansi {
                s.append("\n     \x1b[1m");
            } else {
                s.append("\n     ");
            }
            let n = text.as_str().unicode_len();
            let mut k: usize = 0;
            let ghost before = s@;
            while k < n
                invariant
                    k <= n,
                    s@ == before + repeated('^', k as nat),
                decreases n - k,
            {
                s.append("^");
                k = k + 1;
                proof {
                    reveal_strlit("^");
                    assert(s@ =~= before + repeated('^', k as nat));
                }
            }
            if self.have_ansi {
                s.append("\x1b[0m\n");
            } else {
                s.append("\n");
            }
        }
        s
    }

}

} // verus!
