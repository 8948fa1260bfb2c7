//! The names and registers that the generated code is built on.

use crate::assembly::instruction::Register;
use vstd::prelude::*;

verus! {

/// The function at which a program starts.
pub const ENTRY_POINT: &'static str = "main";

/// The extension of a source file.
pub const EXTENSION: &'static str = "ju";

/// The extension of a source file, with its dot.
pub const EXTENSION_COMPLETE: &'static str = ".ju";

/// What stands between the segments of a qualified name.
pub const SCOPE_SEPARATOR: &'static str = ".";

/// The register in which a function hands back its result.
pub const FUN_RETURN_REGISTER: Register = Register::Rax;

/// The register that holds the result of the expression evaluated last.
pub const RETURN_REGISTER: Register = Register::Rbx;

/// The register in which a left operand waits while the right one is
/// loaded.
pub const RETURN_REGISTER_2: Register = Register::Rdx;

/// The number of arguments that the calling convention passes in
/// registers; no more than these can be passed.
pub const PARAMETER_REGISTERS: usize = 4;

/// The number of the system call that ends the process.
pub const EXIT_CALL: usize = 60;

/// The assembler that is run on each file.
pub const ASSEMBLER: &'static str = "nasm";

/// The linker that is run on the object files.
pub const LINKER: &'static str = "ld";

/// The name of the linked file where none is asked for.
pub const OUTPUT_FILE: &'static str = "junon.out";

/// The register that carries argument number `index` of a call.
pub open spec fn parameter_register(index: int) -> Register {
    if index == 0 {
        Register::Rcx
    } else if index == 1 {
        Register::Rdx
    } else if index == 2 {
        Register::R8
    } else {
        Register::R9
    }
}

} // verus!
