//! The instructions of the dialogue machine, and the loop that runs them up
//! to the next suspension.

use vstd::prelude::*;
use crate::errors::{ErrorView, VmError};
use crate::functions::{MachineHandle, ParamCount, YarnFunction};
use crate::machine::{
    agrees, outcome_view, texts_of, Line, SuspendReason, VirtualMachine, VmState, YarnOption,
};
use crate::program::{Instruction, OpCode, OperandValue, OperandView};
use crate::number::{zero_view, Number};
use crate::semantics::{
    bump, expression_count, landing, lemma_run_completes, no_answer, stated_arity, top_texts,
    Answer, ExecutionState, Fault, MachineView, Step, SuspendView,
};
use crate::text::{chars_of, fill_descending, placeholder_of, replace_first_in, string_of};
use crate::value::{views_of, YarnValue};

verus! {

/// The string that the operand at `index` holds, if it holds one.
pub fn operand_text(instruction: &Instruction, index: usize) -> (text: Option<&String>)
    ensures
        match text {
            Some(text) => instruction@.operand(index as int) == OperandView::Text(text@),
            None => !(instruction@.operand(index as int) is Text),
        },
{
    if index < instruction.operands.len() {
        match &instruction.operands[index].value {
            Some(OperandValue::StringValue(text)) => Some(text),
            _ => None,
        }
    } else {
        None
    }
}

/// The number of expressions that the operand at `index` states.
pub fn operand_count(instruction: &Instruction, index: usize) -> (count: u32)
    ensures
        count == expression_count(instruction@.operand(index as int)),
{
    if index < instruction.operands.len() {
        match &instruction.operands[index].value {
            Some(OperandValue::FloatValue(number)) => number.to_u32(),
            _ => 0,
        }
    } else {
        0
    }
}

impl VirtualMachine {
    /// Counts one more completion of `node`.
    fn visit(&mut self, node: &str)
        ensures
            final(self).program == old(self).program,
            final(self).library == old(self).library,
            final(self)@ == (MachineView { visits: bump(old(self)@.visits, node@), ..old(self)@ }),
    {
        let count = match self.visit_counter.get(node) {
            Some(count) => *count,
            None => 0,
        };
        let next = if count < u64::MAX {
            count + 1
        } else {
            count
        };
        self.visit_counter.insert(node.to_owned(), next);
        assert(self@ =~~= (MachineView { visits: bump(old(self)@.visits, node@), ..old(self)@ }));
    }

    /// Ends the current node.
    fn complete(&mut self) -> (reason: SuspendReason)
        ensures
            final(self).program == old(self).program,
            final(self).library == old(self).library,
            old(self)@.completed() == Step::Suspend(final(self)@, reason@),
    {
        let last_node = self.state.current_node_name.clone();
        self.visit(last_node.as_str());
        self.execution_state = ExecutionState::Stopped;
        self.state = VmState::new();
        assert(self@ =~~= (MachineView {
            execution_state: ExecutionState::Stopped,
            visits: bump(old(self)@.visits, old(self)@.node),
            ..old(self)@.reset()
        }));
        SuspendReason::DialogueComplete(last_node)
    }

    /// Jumps to `label` in the current node.
    fn jump(&mut self, label: &str) -> (result: Result<SuspendReason, VmError>)
        ensures
            final(self).program == old(self).program,
            final(self).library == old(self).library,
            agrees(old(self)@.jump(old(self).program@, label@), final(self)@, outcome_view(result)),
    {
        match self.program.nodes.get(self.state.current_node_name.as_str()) {
            None => Err(VmError::general("The current node is not in the program")),
            Some(node) => {
                match node.labels.get(label) {
                    None => Err(VmError::general("Unknown label in the current node")),
                    Some(target) => {
                        let target: i32 = *target;
                        let len = node.instructions.len();
                        let place = if 0 <= target && (target as usize) < len {
                            target as usize
                        } else {
                            len
                        };
                        assert(place == landing(target, node@.instructions.len()));
                        self.state.program_counter = place;
                        assert(self@ =~~= (MachineView { pc: place as nat, ..old(self)@ }));
                        Err(VmError::NoOperation)
                    },
                }
            },
        }
    }

    /// Takes the `count` values on top of the stack as the substitutions of
    /// the line `id`.
    fn take_line(&mut self, id: &String, count: u32) -> (result: Option<Line>)
        ensures
            final(self).program == old(self).program,
            final(self).library == old(self).library,
            match old(self)@.take_line(id@, count as nat) {
                Some((line, machine)) => result matches Some(taken) && taken@ == line
                    && final(self)@ == machine,
                None => result is None && final(self)@ == old(self)@,
            },
    {
        let len = self.state.stack.len();
        if count as usize > len {
            return None;
        }
        let start = len - count as usize;
        let mut substitutions: Vec<String> = Vec::new();
        let mut i: usize = start;
        while i < len
            invariant
                start <= i <= len,
                len == self.state.stack@.len(),
                start == len - count,
                *self == *old(self),
                substitutions@.len() == i - start,
                forall|j: int|
                    0 <= j < i - start ==> (#[trigger] substitutions@[j])@ == self.state.stack@[start
                        + j]@.as_string(),
            decreases len - i,
        {
            substitutions.push(self.state.stack[i].as_string());
            i += 1;
        }
        self.state.stack.truncate(start);
        assert(texts_of(substitutions@) =~= top_texts(old(self)@.stack, count as nat));
        assert(self@ =~~= (MachineView {
            stack: old(self)@.stack.take(old(self)@.stack.len() - count),
            ..old(self)@
        }));
        Some(Line::new(id.clone(), substitutions))
    }

    /// Takes a call of `name` from the stack: the number of parameters on
    /// top and that many values below it, which are returned in the order in
    /// which they were pushed. `parsed` is the number that the text on top
    /// stands for and is looked at only where a text is on top. Where the
    /// library has no such function, the stack is empty, its top states
    /// another number of parameters than the function takes, or the stack
    /// holds fewer values, this fails and the machine stays as it was.
    pub fn take_call(&mut self, name: &str, parsed: &Number) -> (result: Result<
        Vec<YarnValue>,
        VmError,
    >)
        ensures
            final(self).program == old(self).program,
            final(self).library == old(self).library,
            match old(self)@.call(old(self).signatures(), name@, parsed@) {
                Ok(call) => result matches Ok(params) && views_of(params@) == call.params
                    && final(self)@ == (MachineView { stack: call.below, ..old(self)@ }),
                Err(Fault::General) => (result matches Err(VmError::General(_))) && final(self)@
                    == old(self)@,
                Err(Fault::MissingLibraryFunction(missing)) => (result matches Err(
                    VmError::MissingLibraryFunction(found),
                ) && found@ == missing) && final(self)@ == old(self)@,
            },
    {
        let function = match self.library.get(name) {
            None => {
                return Err(VmError::MissingLibraryFunction(name.to_owned()));
            },
            Some(function) => function,
        };
        let len = self.state.stack.len();
        if len == 0 {
            return Err(VmError::general("Invalid call func - no items in the stack"));
        }
        let actual: u8 = match &self.state.stack[len - 1] {
            YarnValue::Number(number) => number.to_u8(),
            YarnValue::Bool(flag) => if *flag {
                1
            } else {
                0
            },
            YarnValue::Null => 0,
            YarnValue::Str(_) => parsed.to_u8(),
        };
        assert(stated_arity(old(self)@.stack.last(), parsed@) == actual as nat);
        let admitted = match function.param_count {
            ParamCount::N(n) => n == actual,
            ParamCount::Variadic => true,
        };
        let fitting = match &function.func {
            YarnFunction::Builtin(builtin) => builtin.param_count() == actual,
            _ => true,
        };
        if !admitted || !fitting || actual as usize > len - 1 {
            return Err(VmError::general("Invalid call func - wrong number of parameters"));
        }
        self.state.stack.truncate(len - 1);
        let params = self.state.stack.split_off(len - 1 - actual as usize);
        let ghost call = old(self)@.call(old(self).signatures(), name@, parsed@)->Ok_0;
        assert(views_of(params@) =~= call.params);
        assert(views_of(self.state.stack@) =~= call.below);
        assert(self@ =~~= (MachineView { stack: call.below, ..old(self)@ }));
        Ok(params)
    }

    /// Ends a call with what the function returned: a value is pushed and
    /// the machine goes to the next instruction; without a value it only
    /// goes on; a failure is handed on as a general error with the
    /// function's message, and the machine stays as it was.
    pub fn finish_call(&mut self, returned: Result<Option<YarnValue>, String>) -> (result: Result<
        SuspendReason,
        VmError,
    >)
        requires
            old(self).state.program_counter < usize::MAX,
        ensures
            final(self).program == old(self).program,
            final(self).library == old(self).library,
            match returned {
                Ok(Some(value)) => outcome_view(result) == Err::<SuspendView, ErrorView>(
                    ErrorView::NoOperation,
                ) && final(self)@ == (MachineView {
                    stack: old(self)@.stack.push(value@),
                    ..old(self)@.advanced()
                }),
                Ok(None) => outcome_view(result) == Err::<SuspendView, ErrorView>(
                    ErrorView::NoOperation,
                ) && final(self)@ == old(self)@.advanced(),
                Err(message) => outcome_view(result) == Err::<SuspendView, ErrorView>(
                    ErrorView::General(message@),
                ) && final(self)@ == old(self)@,
            },
    {
        match returned {
            Ok(Some(value)) => {
                self.push(value);
                Err(VmError::NoOperation)
            },
            Ok(None) => {
                self.state.program_counter = self.state.program_counter + 1;
                assert(self@ =~~= old(self)@.advanced());
                Err(VmError::NoOperation)
            },
            Err(message) => Err(VmError::General(message)),
        }
    }

    /// The number that the text on top of the stack stands for, as the host
    /// reads it, where a call of `name` asks for it; zero otherwise.
    fn read_number(&self, name: &str) -> (parsed: Number)
        ensures
            !self@.reads_number(self.signatures(), name@) ==> parsed@ == zero_view(),
    {
        if self.library.contains_key(name) && self.state.stack.len() > 0 {
            match &self.state.stack[self.state.stack.len() - 1] {
                YarnValue::Str(text) => self.number_parser.parse(text.as_str()),
                _ => Number::zero(),
            }
        } else {
            Number::zero()
        }
    }

    /// Calls the function `name` of the library: the call is taken from the
    /// stack as [`VirtualMachine::take_call`] says, the function gets the
    /// parameters, and the call is ended as
    /// [`VirtualMachine::finish_call`] says with what the function returned.
    fn call_func(&mut self, name: &str) -> (result: Result<SuspendReason, VmError>)
        requires
            old(self).state.program_counter < usize::MAX,
        ensures
            final(self).program == old(self).program,
            final(self).library == old(self).library,
            exists|answer: Answer|
                agrees(
                    #[trigger] old(self)@.called(old(self).signatures(), name@, answer),
                    final(self)@,
                    outcome_view(result),
                ),
            !old(self)@.asks(old(self).signatures(), name@) ==> agrees(
                old(self)@.called(old(self).signatures(), name@, no_answer()),
                final(self)@,
                outcome_view(result),
            ),
    {
        let ghost before = self@;
        let ghost library = self.signatures();
        let parsed = self.read_number(name);
        let params = match self.take_call(name, &parsed) {
            Ok(params) => params,
            Err(error) => {
                assert(agrees(
                    before.called(library, name@, Answer { parsed: parsed@, returned: None }),
                    self@,
                    Err(error@),
                ));
                return Err(error);
            },
        };
        let returned = match self.library.get(name) {
            Some(function) => {
                let handle = MachineHandle {
                    variable_storage: &self.variable_storage,
                    visit_counter: &self.visit_counter,
                };
                proof {
                    let call = before.call(library, name@, parsed@)->Ok_0;
                    assert(call.signature == function@);
                    assert(views_of(params@).len() == params@.len());
                }
                function.func.call(&handle, params.as_slice())
            },
            None => Ok(None),
        };
        let ghost answer = Answer {
            parsed: parsed@,
            returned: if returned is Ok && returned->Ok_0 is Some {
                Some(returned->Ok_0->Some_0@)
            } else {
                None
            },
        };
        let result = self.finish_call(returned);
        assert(agrees(before.called(library, name@, answer), self@, outcome_view(result)));
        result
    }

    /// Pushes `value` and goes to the next instruction.
    fn push(&mut self, value: YarnValue)
        requires
            old(self).state.program_counter < usize::MAX,
        ensures
            final(self).program == old(self).program,
            final(self).library == old(self).library,
            final(self)@ == (MachineView {
                stack: old(self)@.stack.push(value@),
                ..old(self)@.advanced()
            }),
    {
        self.state.stack.push(value);
        self.state.program_counter = self.state.program_counter + 1;
        assert(self@ =~~= (MachineView {
            stack: old(self)@.stack.push(value@),
            ..old(self)@.advanced()
        }));
    }

    /// The options of the machine as they are shown.
    fn shown_options(&self) -> (options: Vec<YarnOption>)
        requires
            self.state.current_options@.len() <= u32::MAX,
        ensures
            Seq::new(options@.len(), |i: int| options@[i]@) == self@.shown_options(),
    {
        let mut options: Vec<YarnOption> = Vec::new();
        let mut i: usize = 0;
        while i < self.state.current_options.len()
            invariant
                i <= self.state.current_options@.len() <= u32::MAX,
                options@.len() == i,
                forall|j: int| 0 <= j < i ==> (#[trigger] options@[j])@ == self@.shown_options()[j],
            decreases self.state.current_options@.len() - i,
        {
            let option = &self.state.current_options[i];
            options.push(YarnOption::new(option.0.clone(), i as u32, option.1.clone()));
            i += 1;
        }
        assert(Seq::new(options@.len(), |i: int| options@[i]@) =~= self@.shown_options());
        options
    }

    /// `JumpTo`: a jump to the label that the first operand names.
    fn jump_to(&mut self, instruction: &Instruction) -> (result: Result<SuspendReason, VmError>)
        requires
            old(self).state.program_counter < usize::MAX,
            OpCode::of_code(instruction@.opcode) == Some(OpCode::JumpTo),
        ensures
            final(self).program == old(self).program,
            final(self).library == old(self).library,
            agrees(
                old(self)@.step(
                    old(self).program@,
                    old(self).signatures(),
                    instruction@,
                    no_answer(),
                ),
                final(self)@,
                outcome_view(result),
            ),
    {
        match operand_text(instruction, 0) {
            Some(label) => self.jump(label.as_str()),
            None => Err(VmError::general("Invalid jump to - no label in the value")),
        }
    }

    /// `Jump`: a jump to the label that the top of the stack names.
    fn jump_top(&mut self, instruction: &Instruction) -> (result: Result<SuspendReason, VmError>)
        requires
            old(self).state.program_counter < usize::MAX,
            OpCode::of_code(instruction@.opcode) == Some(OpCode::Jump),
        ensures
            final(self).program == old(self).program,
            final(self).library == old(self).library,
            agrees(
                old(self)@.step(
                    old(self).program@,
                    old(self).signatures(),
                    instruction@,
                    no_answer(),
                ),
                final(self)@,
                outcome_view(result),
            ),
    {
        if self.state.stack.len() == 0 {
            Err(VmError::general("Invalid jump - found no items in the stack"))
        } else {
            let label = self.state.stack[self.state.stack.len() - 1].as_string();
            self.jump(label.as_str())
        }
    }

    /// `RunLine`: hands a line to the host.
    fn run_line(&mut self, instruction: &Instruction) -> (result: Result<SuspendReason, VmError>)
        requires
            old(self).state.program_counter < usize::MAX,
            OpCode::of_code(instruction@.opcode) == Some(OpCode::RunLine),
        ensures
            final(self).program == old(self).program,
            final(self).library == old(self).library,
            agrees(
                old(self)@.step(
                    old(self).program@,
                    old(self).signatures(),
                    instruction@,
                    no_answer(),
                ),
                final(self)@,
                outcome_view(result),
            ),
    {
        match operand_text(instruction, 0) {
            Some(string_key) => {
                match self.take_line(string_key, operand_count(instruction, 1)) {
                    Some(line) => {
                        let ghost taken = self@;
                        self.execution_state = ExecutionState::Suspended;
                        self.state.program_counter = self.state.program_counter + 1;
                        assert(self@ =~~= (MachineView {
                            execution_state: ExecutionState::Suspended,
                            ..taken.advanced()
                        }));
                        Ok(SuspendReason::Line(line))
                    },
                    None => Err(VmError::general("Invalid run line - too few items in the stack")),
                }
            },
            None => Err(VmError::general("Invalid run line - no label in the value")),
        }
    }

    /// `RunCommand`: hands a command to the host, its placeholders filled.
    fn run_command(&mut self, instruction: &Instruction) -> (result: Result<SuspendReason, VmError>)
        requires
            old(self).state.program_counter < usize::MAX,
            OpCode::of_code(instruction@.opcode) == Some(OpCode::RunCommand),
        ensures
            final(self).program == old(self).program,
            final(self).library == old(self).library,
            agrees(
                old(self)@.step(
                    old(self).program@,
                    old(self).signatures(),
                    instruction@,
                    no_answer(),
                ),
                final(self)@,
                outcome_view(result),
            ),
    {
        match operand_text(instruction, 0) {
            Some(command) => {
                match self.take_line(command, operand_count(instruction, 1)) {
                    Some(line) => {
                        let ghost taken = self@;
                        self.execution_state = ExecutionState::Suspended;
                        self.state.program_counter = self.state.program_counter + 1;
                        assert(self@ =~~= (MachineView {
                            execution_state: ExecutionState::Suspended,
                            ..taken.advanced()
                        }));
                        Ok(SuspendReason::Command(fill_command(&line)))
                    },
                    None => Err(
                        VmError::general("Invalid run command - too few items in the stack"),
                    ),
                }
            },
            None => Err(VmError::general("Invalid run command - no label in the value")),
        }
    }

    /// `AddOption`: adds an option to those that are being collected.
    fn add_option(&mut self, instruction: &Instruction) -> (result: Result<SuspendReason, VmError>)
        requires
            old(self).state.program_counter < usize::MAX,
            OpCode::of_code(instruction@.opcode) == Some(OpCode::AddOption),
        ensures
            final(self).program == old(self).program,
            final(self).library == old(self).library,
            agrees(
                old(self)@.step(
                    old(self).program@,
                    old(self).signatures(),
                    instruction@,
                    no_answer(),
                ),
                final(self)@,
                outcome_view(result),
            ),
    {
        match (operand_text(instruction, 0), operand_text(instruction, 1)) {
            (Some(string_key), Some(node_name)) => {
                if self.state.current_options.len() >= u32::MAX as usize {
                    Err(VmError::general("Invalid add option - too many options"))
                } else {
                    match self.take_line(string_key, operand_count(instruction, 2)) {
                        Some(line) => {
                            let ghost taken = self@;
                            let ghost added = (line@, node_name@);
                            self.state.current_options.push((line, node_name.clone()));
                            self.state.program_counter = self.state.program_counter + 1;
                            assert(self@ =~~= (MachineView {
                                options: old(self)@.options.push(added),
                                ..taken.advanced()
                            }));
                            Err(VmError::NoOperation)
                        },
                        None => Err(
                            VmError::general("Invalid add option - too few items in the stack"),
                        ),
                    }
                }
            },
            _ => Err(
                VmError::general(
                    "Invalid add option - unable to find the operands of the instruction",
                ),
            ),
        }
    }

    /// `ShowOptions`: hands the collected options to the host, or ends the node where there are none.
    fn show_options(&mut self, instruction: &Instruction) -> (result: Result<SuspendReason, VmError>)
        requires
            old(self).state.program_counter < usize::MAX,
            OpCode::of_code(instruction@.opcode) == Some(OpCode::ShowOptions),
        ensures
            final(self).program == old(self).program,
            final(self).library == old(self).library,
            agrees(
                old(self)@.step(
                    old(self).program@,
                    old(self).signatures(),
                    instruction@,
                    no_answer(),
                ),
                final(self)@,
                outcome_view(result),
            ),
    {
        if self.state.current_options.len() == 0 {
            Ok(self.complete())
        } else if self.state.current_options.len() > u32::MAX as usize {
            Err(VmError::general("Invalid show options - too many options"))
        } else {
            let options = self.shown_options();
            assert(SuspendReason::Options(options)@ == SuspendView::Options(
                old(self)@.shown_options(),
            ));
            self.execution_state = ExecutionState::WaitingOnOptionSelection;
            self.state.program_counter = self.state.program_counter + 1;
            assert(self@ =~~= (MachineView {
                execution_state: ExecutionState::WaitingOnOptionSelection,
                ..old(self)@.advanced()
            }));
            Ok(SuspendReason::Options(options))
        }
    }

    /// `PushString`: pushes the first operand.
    fn push_string(&mut self, instruction: &Instruction) -> (result: Result<SuspendReason, VmError>)
        requires
            old(self).state.program_counter < usize::MAX,
            OpCode::of_code(instruction@.opcode) == Some(OpCode::PushString),
        ensures
            final(self).program == old(self).program,
            final(self).library == old(self).library,
            agrees(
                old(self)@.step(
                    old(self).program@,
                    old(self).signatures(),
                    instruction@,
                    no_answer(),
                ),
                final(self)@,
                outcome_view(result),
            ),
    {
        if instruction.operands.len() == 0 {
            Err(VmError::general("Invalid push string - bad operand"))
        } else {
            match &instruction.operands[0].value {
                Some(OperandValue::StringValue(val)) => {
                    self.push(YarnValue::Str(val.clone()));
                    Err(VmError::NoOperation)
                },
                _ => Err(VmError::general("Invalid push string - bad operand")),
            }
        }
    }

    /// `PushFloat`: pushes the first operand.
    fn push_float(&mut self, instruction: &Instruction) -> (result: Result<SuspendReason, VmError>)
        requires
            old(self).state.program_counter < usize::MAX,
            OpCode::of_code(instruction@.opcode) == Some(OpCode::PushFloat),
        ensures
            final(self).program == old(self).program,
            final(self).library == old(self).library,
            agrees(
                old(self)@.step(
                    old(self).program@,
                    old(self).signatures(),
                    instruction@,
                    no_answer(),
                ),
                final(self)@,
                outcome_view(result),
            ),
    {
        if instruction.operands.len() == 0 {
            Err(VmError::general("Invalid push float - bad operand"))
        } else {
            match &instruction.operands[0].value {
                Some(OperandValue::FloatValue(val)) => {
                    self.push(YarnValue::Number(val.clone()));
                    Err(VmError::NoOperation)
                },
                _ => Err(VmError::general("Invalid push float - bad operand")),
            }
        }
    }

    /// `PushBool`: pushes the first operand.
    fn push_bool(&mut self, instruction: &Instruction) -> (result: Result<SuspendReason, VmError>)
        requires
            old(self).state.program_counter < usize::MAX,
            OpCode::of_code(instruction@.opcode) == Some(OpCode::PushBool),
        ensures
            final(self).program == old(self).program,
            final(self).library == old(self).library,
            agrees(
                old(self)@.step(
                    old(self).program@,
                    old(self).signatures(),
                    instruction@,
                    no_answer(),
                ),
                final(self)@,
                outcome_view(result),
            ),
    {
        if instruction.operands.len() == 0 {
            Err(VmError::general("Invalid push bool - bad operand"))
        } else {
            match &instruction.operands[0].value {
                Some(OperandValue::BoolValue(val)) => {
                    self.push(YarnValue::Bool(*val));
                    Err(VmError::NoOperation)
                },
                _ => Err(VmError::general("Invalid push bool - bad operand")),
            }
        }
    }

    /// `PushNull`: pushes null.
    fn push_null(&mut self, instruction: &Instruction) -> (result: Result<SuspendReason, VmError>)
        requires
            old(self).state.program_counter < usize::MAX,
            OpCode::of_code(instruction@.opcode) == Some(OpCode::PushNull),
        ensures
            final(self).program == old(self).program,
            final(self).library == old(self).library,
            agrees(
                old(self)@.step(
                    old(self).program@,
                    old(self).signatures(),
                    instruction@,
                    no_answer(),
                ),
                final(self)@,
                outcome_view(result),
            ),
    {
        self.push(YarnValue::Null);
        Err(VmError::NoOperation)
    }

    /// `JumpIfFalse`: a jump to the label that the first operand names, where the top of the stack is false.
    fn jump_if_false(&mut self, instruction: &Instruction) -> (result: Result<SuspendReason, VmError>)
        requires
            old(self).state.program_counter < usize::MAX,
            OpCode::of_code(instruction@.opcode) == Some(OpCode::JumpIfFalse),
        ensures
            final(self).program == old(self).program,
            final(self).library == old(self).library,
            agrees(
                old(self)@.step(
                    old(self).program@,
                    old(self).signatures(),
                    instruction@,
                    no_answer(),
                ),
                final(self)@,
                outcome_view(result),
            ),
    {
        if self.state.stack.len() == 0 {
            Err(VmError::general("Invalid jump if false - no items in the stack"))
        } else if self.state.stack[self.state.stack.len() - 1].as_bool() {
            self.state.program_counter = self.state.program_counter + 1;
            assert(self@ =~~= old(self)@.advanced());
            Err(VmError::NoOperation)
        } else {
            match operand_text(instruction, 0) {
                Some(label) => self.jump(label.as_str()),
                None => Err(VmError::general("Invalid jump if false - operand 0 has no value")),
            }
        }
    }

    /// `Pop`: drops the top of the stack.
    fn pop(&mut self, instruction: &Instruction) -> (result: Result<SuspendReason, VmError>)
        requires
            old(self).state.program_counter < usize::MAX,
            OpCode::of_code(instruction@.opcode) == Some(OpCode::Pop),
        ensures
            final(self).program == old(self).program,
            final(self).library == old(self).library,
            agrees(
                old(self)@.step(
                    old(self).program@,
                    old(self).signatures(),
                    instruction@,
                    no_answer(),
                ),
                final(self)@,
                outcome_view(result),
            ),
    {
        self.state.stack.pop();
        self.state.program_counter = self.state.program_counter + 1;
        assert(self@ =~~= (MachineView {
            stack: if old(self)@.stack.len() == 0 {
                old(self)@.stack
            } else {
                old(self)@.stack.drop_last()
            },
            ..old(self)@.advanced()
        }));
        Err(VmError::NoOperation)
    }

    /// `PushVariable`: pushes the value of the variable that the first operand names, null where it has none.
    fn push_variable(&mut self, instruction: &Instruction) -> (result: Result<SuspendReason, VmError>)
        requires
            old(self).state.program_counter < usize::MAX,
            OpCode::of_code(instruction@.opcode) == Some(OpCode::PushVariable),
        ensures
            final(self).program == old(self).program,
            final(self).library == old(self).library,
            agrees(
                old(self)@.step(
                    old(self).program@,
                    old(self).signatures(),
                    instruction@,
                    no_answer(),
                ),
                final(self)@,
                outcome_view(result),
            ),
    {
        match operand_text(instruction, 0) {
            Some(var_name) => {
                let value = match self.variable_storage.get(var_name.as_str()) {
                    Some(val) => val.clone(),
                    None => YarnValue::Null,
                };
                self.push(value);
                Err(VmError::NoOperation)
            },
            None => Err(VmError::general("Invalid push variable - index 0 has no value")),
        }
    }

    /// `StoreVariable`: gives the variable that the first operand names the value on top of the stack.
    fn store_variable(&mut self, instruction: &Instruction) -> (result: Result<SuspendReason, VmError>)
        requires
            old(self).state.program_counter < usize::MAX,
            OpCode::of_code(instruction@.opcode) == Some(OpCode::StoreVariable),
        ensures
            final(self).program == old(self).program,
            final(self).library == old(self).library,
            agrees(
                old(self)@.step(
                    old(self).program@,
                    old(self).signatures(),
                    instruction@,
                    no_answer(),
                ),
                final(self)@,
                outcome_view(result),
            ),
    {
        match operand_text(instruction, 0) {
            Some(var_name) => {
                if self.state.stack.len() == 0 {
                    Err(VmError::general("Invalid store variable - no items in the stack"))
                } else {
                    let value = self.state.stack[self.state.stack.len() - 1].clone();
                    self.variable_storage.insert(var_name.clone(), value);
                    self.state.program_counter = self.state.program_counter + 1;
                    assert(self@ =~~= (MachineView {
                        variables: old(self)@.variables.insert(var_name@, old(self)@.stack.last()),
                        ..old(self)@.advanced()
                    }));
                    Err(VmError::NoOperation)
                }
            },
            None => Err(VmError::general("Invalid store variable - index 0 has no value")),
        }
    }

    /// `Stop`: ends the node.
    fn stop(&mut self, instruction: &Instruction) -> (result: Result<SuspendReason, VmError>)
        requires
            old(self).state.program_counter < usize::MAX,
            OpCode::of_code(instruction@.opcode) == Some(OpCode::Stop),
        ensures
            final(self).program == old(self).program,
            final(self).library == old(self).library,
            agrees(
                old(self)@.step(
                    old(self).program@,
                    old(self).signatures(),
                    instruction@,
                    no_answer(),
                ),
                final(self)@,
                outcome_view(result),
            ),
    {
        Ok(self.complete())
    }

    /// `RunNode`: leaves the current node for the one that the top of the stack names.
    fn run_node(&mut self, instruction: &Instruction) -> (result: Result<SuspendReason, VmError>)
        requires
            old(self).state.program_counter < usize::MAX,
            OpCode::of_code(instruction@.opcode) == Some(OpCode::RunNode),
        ensures
            final(self).program == old(self).program,
            final(self).library == old(self).library,
            agrees(
                old(self)@.step(
                    old(self).program@,
                    old(self).signatures(),
                    instruction@,
                    no_answer(),
                ),
                final(self)@,
                outcome_view(result),
            ),
    {
        let node_name = match self.state.stack.pop() {
            Some(value) => value.as_string(),
            None => {
                return Err(VmError::general("Invalid run node - no items in the stack"));
            },
        };
        let old_node = self.state.current_node_name.clone();
        self.visit(old_node.as_str());
        assert(self@ =~~= (MachineView {
            stack: old(self)@.stack.drop_last(),
            visits: bump(old(self)@.visits, old(self)@.node),
            ..old(self)@
        }));
        match self.set_node(node_name.as_str()) {
            Ok(()) => Ok(SuspendReason::NodeChange { start: node_name, end: old_node }),
            Err(error) => Err(error),
        }
    }

    /// Runs one instruction. A host function that is called may return
    /// anything: the machine is then as [`MachineView::step`] says for what
    /// it returned.
    pub fn run_instruction(&mut self, instruction: Instruction) -> (result: Result<
        SuspendReason,
        VmError,
    >)
        requires
            old(self).state.program_counter < usize::MAX,
        ensures
            final(self).program == old(self).program,
            final(self).library == old(self).library,
            exists|answer: Answer|
                agrees(
                    #[trigger] old(self)@.step(
                        old(self).program@,
                        old(self).signatures(),
                        instruction@,
                        answer,
                    ),
                    final(self)@,
                    outcome_view(result),
                ),
            !old(self)@.asks_host(old(self).signatures(), instruction@) ==> agrees(
                old(self)@.step(
                    old(self).program@,
                    old(self).signatures(),
                    instruction@,
                    no_answer(),
                ),
                final(self)@,
                outcome_view(result),
            ),
    {
        let ghost before = self@;
        let ghost program = self.program@;
        let ghost library = self.signatures();
        let ghost view = instruction@;
        let opcode = match OpCode::from_i32(instruction.opcode) {
            Some(opcode) => opcode,
            None => {
                assert(before.step(program, library, view, no_answer()) == Step::Fail(
                    before,
                    Fault::General,
                ));
                return Err(VmError::general("Error decoding opcode"));
            },
        };
        match opcode {
            OpCode::JumpTo => self.jump_to(&instruction),
            OpCode::Jump => self.jump_top(&instruction),
            OpCode::RunLine => self.run_line(&instruction),
            OpCode::RunCommand => self.run_command(&instruction),
            OpCode::AddOption => self.add_option(&instruction),
            OpCode::ShowOptions => self.show_options(&instruction),
            OpCode::PushString => self.push_string(&instruction),
            OpCode::PushFloat => self.push_float(&instruction),
            OpCode::PushBool => self.push_bool(&instruction),
            OpCode::PushNull => self.push_null(&instruction),
            OpCode::JumpIfFalse => self.jump_if_false(&instruction),
            OpCode::Pop => self.pop(&instruction),
            OpCode::CallFunc => {
                match operand_text(&instruction, 0) {
                    Some(func_name) => {
                        let result = self.call_func(func_name.as_str());
                        proof {
                            let answer = choose|answer: Answer|
                                agrees(
                                    #[trigger] before.called(library, func_name@, answer),
                                    self@,
                                    outcome_view(result),
                                );
                            assert(before.step(program, library, view, answer) == before.called(
                                library,
                                func_name@,
                                answer,
                            ));
                        }
                        result
                    },
                    None => {
                        assert(before.step(program, library, view, no_answer()) == Step::Fail(
                            before,
                            Fault::General,
                        ));
                        Err(VmError::general("Invalid call func - index 0 has no value"))
                    },
                }
            },
            OpCode::PushVariable => self.push_variable(&instruction),
            OpCode::StoreVariable => self.store_variable(&instruction),
            OpCode::Stop => self.stop(&instruction),
            OpCode::RunNode => self.run_node(&instruction),
        }
    }
}

/// The number of instructions after which `continue_dialogue` gives up.
pub const STEP_LIMIT: u64 = 0xffff_ffff_ffff_ffff;

impl VirtualMachine {
    /// Runs the dialogue up to the next suspension.
    ///
    /// Without a current node, or while the machine waits for a selection,
    /// this fails and leaves the machine as it was. Otherwise the machine
    /// runs as [`MachineView::run`] says, for what the host answered where
    /// it was asked, and for at most `STEP_LIMIT` instructions. How high the
    /// stack is after such a run is said by
    /// [`lemma_run_height`](crate::semantics::lemma_run_height).
    pub fn continue_dialogue(&mut self) -> (result: Result<SuspendReason, VmError>)
        ensures
            final(self).program == old(self).program,
            final(self).library == old(self).library,
            !(result matches Err(VmError::NoOperation)),
            result matches Ok(SuspendReason::DialogueComplete(node)) ==> {
                &&& node@ == old(self)@.node
                &&& final(self)@.execution_state == ExecutionState::Stopped
                &&& final(self)@.options.len() == 0
                &&& final(self)@.stack.len() == 0
                &&& final(self)@.visits == bump(old(self)@.visits, old(self)@.node)
            },
            old(self)@.node.len() == 0 || old(self)@.execution_state
                == ExecutionState::WaitingOnOptionSelection ==> (result matches Err(
                VmError::General(_),
            )) && final(self)@ == old(self)@,
            !(old(self)@.node.len() == 0 || old(self)@.execution_state
                == ExecutionState::WaitingOnOptionSelection) ==> exists|answers: Seq<Answer>|
                agrees(
                    #[trigger] old(self)@.running().run(
                        old(self).program@,
                        old(self).signatures(),
                        answers,
                        STEP_LIMIT as nat,
                    ),
                    final(self)@,
                    outcome_view(result),
                ),
    {
        if self.state.current_node_name.as_str().is_empty() {
            return Err(
                VmError::general("Cannot continue running dialogue. No node has been selected."),
            );
        }
        if self.execution_state == ExecutionState::WaitingOnOptionSelection {
            return Err(
                VmError::general("Unable to continue dialogue, waiting on option selection"),
            );
        }
        self.execution_state = ExecutionState::Running;
        let ghost start = self@;
        let ghost program = self.program@;
        let ghost library = self.signatures();
        let ghost mut used: Seq<Answer> = Seq::empty();
        let mut fuel: u64 = STEP_LIMIT;
        assert(start =~~= old(self)@.running());
        assert forall|rest: Seq<Answer>|
            #[trigger] start.run(program, library, used + rest, STEP_LIMIT as nat) == self@.run(
                program,
                library,
                rest,
                fuel as nat,
            ) by {
            assert(used + rest =~= rest);
        }
        loop
            invariant
                self.program == old(self).program,
                self.library == old(self).library,
                program == self.program@,
                library == self.signatures(),
                start == old(self)@.running(),
                old(self)@.node.len() != 0,
                old(self)@.execution_state != ExecutionState::WaitingOnOptionSelection,
                forall|rest: Seq<Answer>|
                    #[trigger] start.run(program, library, used + rest, STEP_LIMIT as nat)
                        == self@.run(program, library, rest, fuel as nat),
            decreases fuel,
        {
            let ghost current = self@;
            assert(used + Seq::<Answer>::empty() =~= used);
            let instruction = match self.program.nodes.get(self.state.current_node_name.as_str()) {
                None => {
                    let result = Err(VmError::general("The current node is not in the program"));
                    assert(agrees(
                        old(self)@.running().run(
                            old(self).program@,
                            old(self).signatures(),
                            used,
                            STEP_LIMIT as nat,
                        ),
                        self@,
                        outcome_view(result),
                    ));
                    return result;
                },
                Some(node) => {
                    if self.state.program_counter >= node.instructions.len() {
                        let result = Ok(self.complete());
                        proof {
                            lemma_run_completes(start, program, library, used, STEP_LIMIT as nat);
                        }
                        assert(agrees(
                            old(self)@.running().run(
                                old(self).program@,
                                old(self).signatures(),
                                used,
                                STEP_LIMIT as nat,
                            ),
                            self@,
                            outcome_view(result),
                        ));
                        return result;
                    }
                    if fuel == 0 {
                        let result = Err(
                            VmError::general("The dialogue ran for too many instructions"),
                        );
                        assert(agrees(
                            old(self)@.running().run(
                                old(self).program@,
                                old(self).signatures(),
                                used,
                                STEP_LIMIT as nat,
                            ),
                            self@,
                            outcome_view(result),
                        ));
                        return result;
                    }
                    node.instructions[self.state.program_counter].clone()
                },
            };
            let ghost view = instruction@;
            assert(view == program.nodes[current.node].instructions[current.pc as int]);
            let ghost asks = current.asks_host(library, view);
            let result = self.run_instruction(instruction);
            let ghost answer = if asks {
                choose|answer: Answer|
                    agrees(
                        #[trigger] current.step(program, library, view, answer),
                        self@,
                        outcome_view(result),
                    )
            } else {
                no_answer()
            };
            let ghost step = current.step(program, library, view, answer);
            assert(agrees(step, self@, outcome_view(result)));
            let ghost taken = if asks {
                seq![answer]
            } else {
                Seq::<Answer>::empty()
            };
            proof {
                assert forall|rest: Seq<Answer>|
                    #[trigger] current.run(program, library, taken + rest, fuel as nat) == (
                    match step {
                        Step::Continue(next) => next.run(program, library, rest, (fuel - 1) as nat),
                        other => other,
                    }) by {
                    if asks {
                        assert((taken + rest)[0] == answer);
                        assert((taken + rest).drop_first() =~= rest);
                    } else {
                        assert(taken + rest =~= rest);
                    }
                }
                assert forall|rest: Seq<Answer>|
                    #[trigger] start.run(program, library, (used + taken) + rest, STEP_LIMIT as nat)
                        == current.run(program, library, taken + rest, fuel as nat) by {
                    assert((used + taken) + rest =~= used + (taken + rest));
                }
            }
            match result {
                Err(VmError::NoOperation) => {
                    proof {
                        used = used + taken;
                    }
                    fuel = fuel - 1;
                },
                other => {
                    proof {
                        assert((used + taken) + Seq::<Answer>::empty() =~= used + taken);
                        assert(taken + Seq::<Answer>::empty() =~= taken);
                        assert(start.run(program, library, used + taken, STEP_LIMIT as nat) == step);
                        lemma_run_completes(
                            start,
                            program,
                            library,
                            used + taken,
                            STEP_LIMIT as nat,
                        );
                        assert(agrees(
                            old(self)@.running().run(
                                old(self).program@,
                                old(self).signatures(),
                                used + taken,
                                STEP_LIMIT as nat,
                            ),
                            self@,
                            outcome_view(other),
                        ));
                    }
                    return other;
                },
            }
        }
    }
}

/// The text of a command: the line's identifier with the placeholders filled
/// from its substitutions, from the last one down.
pub fn fill_command(line: &Line) -> (text: String)
    ensures
        text@ == fill_descending(line@.id, line@.substitutions, line@.substitutions.len()),
{
    let mut text = chars_of(line.id.as_str());
    let mut k: usize = line.substitutions.len();
    while k > 0
        invariant
            k <= line.substitutions@.len(),
            fill_descending(line@.id, line@.substitutions, line@.substitutions.len())
                == fill_descending(text@, line@.substitutions, k as nat),
        decreases k,
    {
        k -= 1;
        let pattern = placeholder_of(k);
        let value = chars_of(line.substitutions[k].as_str());
        text = replace_first_in(&text, &pattern, &value);
    }
    string_of(&text)
}

} // verus!
