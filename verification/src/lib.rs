//! A dialogue machine: it runs the compiled form of a dialogue, hands lines,
//! options and commands to its host, and goes on when the host says so.

pub mod compiler;
pub mod errors;
pub mod functions;
pub mod interpreter;
pub mod machine;
pub mod number;
pub mod parser;
pub mod program;
pub mod semantics;
pub mod text;
pub mod utils;
pub mod value;

pub use crate::compiler::compile_string;
pub use crate::errors::VmError;
pub use crate::functions::{
    add_logic_functions, add_mathematical_functions, add_number_utility_functions,
    add_random_functions, add_visited_functions, visit_count, Arithmetic, Builtin, Function,
    FunctionInfo, MachineHandle, NumberParser, NumberUtilities, ParamCount, RandomFunctions,
    ReturningFunction,
    VisitFunctions, YarnFunction,
};
pub use crate::machine::{
    Line, LineInfo, SuspendReason, VirtualMachine, VmState, YarnOption,
};
pub use crate::number::Number;
pub use crate::program::{Instruction, Node, OpCode, Operand, OperandValue, Program};
pub use crate::semantics::ExecutionState;
pub use crate::utils::{
    expand_format_functions, get_plural_case_str, parse_format_functions, FormatError,
    FormatFunctionKind, ParsedFormatFunction, PluralCategory, PluralRuleKind,
};
pub use crate::value::YarnValue;
