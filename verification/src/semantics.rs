//! What the dialogue machine does, stated over the views of its parts: one
//! instruction at a time, and a run up to the next suspension.

use vstd::prelude::*;
use crate::functions::{visits_of, Builtin, FunctionKind, SignatureView};
use crate::number::{integer_part, zero_view, NumberView};
use crate::program::{InstructionView, OpCode, OperandView, ProgramView};
use crate::text::fill_descending;
use crate::value::ValueView;

verus! {

/// How far the machine has come with the dialogue.
#[derive(Debug, Copy, Clone, PartialEq, Eq, Structural)]
pub enum ExecutionState {
    Stopped,
    WaitingOnOptionSelection,
    Suspended,
    Running,
}

/// What a line is in contracts.
pub struct LineView {
    pub id: Seq<char>,
    pub substitutions: Seq<Seq<char>>,
}

/// What an option is in contracts.
pub struct OptionView {
    pub line: LineView,
    pub id: u32,
    pub destination_node: Seq<char>,
}

/// What a reason to suspend is in contracts.
pub enum SuspendView {
    Line(LineView),
    Options(Seq<OptionView>),
    Command(Seq<char>),
    NodeChange { start: Seq<char>, end: Seq<char> },
    DialogueComplete(Seq<char>),
    InvalidOption(Seq<char>),
}

/// What the machine is in contracts, but for its program and its library.
#[verifier::ext_equal]
pub struct MachineView {
    pub node: Seq<char>,
    pub pc: nat,
    pub options: Seq<(LineView, Seq<char>)>,
    pub stack: Seq<ValueView>,
    pub variables: Map<Seq<char>, ValueView>,
    pub visits: Map<Seq<char>, u64>,
    pub execution_state: ExecutionState,
}

/// Why an instruction failed.
pub enum Fault {
    General,
    MissingLibraryFunction(Seq<char>),
}

/// How an instruction ended: the machine goes on, it suspends, or it fails.
/// Each comes with the machine as it then is. A failure that is found before
/// anything was done leaves the machine as it was.
pub enum Step {
    Continue(MachineView),
    Suspend(MachineView, SuspendView),
    Fail(MachineView, Fault),
}

/// The visit counts after one more completion of `node`. A count that has
/// reached `u64::MAX` stays there.
pub open spec fn bump(visits: Map<Seq<char>, u64>, node: Seq<char>) -> Map<Seq<char>, u64> {
    let count = visits_of(visits, node);
    visits.insert(
        node,
        if count < u64::MAX {
            (count + 1) as u64
        } else {
            count
        },
    )
}

/// Where a jump to the label value `target` lands in a node of `len`
/// instructions: at `target` if that is an instruction, at the end otherwise.
pub open spec fn landing(target: i32, len: nat) -> nat {
    if 0 <= target < len {
        target as nat
    } else {
        len
    }
}

/// The number of expressions that an operand states: the integer part of a
/// number, zero for everything else.
pub open spec fn expression_count(operand: OperandView) -> nat {
    match operand {
        OperandView::Float(number) => integer_part(number.bits) as nat,
        _ => 0,
    }
}

/// The texts of the last `count` values of the stack, the one pushed first
/// coming first.
pub open spec fn top_texts(stack: Seq<ValueView>, count: nat) -> Seq<Seq<char>> {
    Seq::new(count, |i: int| stack[stack.len() - count + i].as_string())
}

/// The number of parameters that a number states: its integer part, kept
/// within 255.
pub open spec fn count_of(number: NumberView) -> nat {
    if integer_part(number.bits) > 255 {
        255nat
    } else {
        integer_part(number.bits) as nat
    }
}

/// The number of parameters that the value on top of the stack states, as a
/// number: a number states its integer part, kept within 255; a boolean one
/// or zero; null zero; a string what `parsed`, the number that its text
/// stands for, states.
pub open spec fn stated_arity(top: ValueView, parsed: NumberView) -> nat {
    match top {
        ValueView::Number(number) => count_of(number),
        ValueView::Bool(flag) => if flag {
            1nat
        } else {
            0nat
        },
        ValueView::Null => 0nat,
        ValueView::Str(_) => count_of(parsed),
    }
}

/// What the host answers where an instruction asks it: the number that the
/// text on top of the stack stands for, and what the function that was
/// called returned, or nothing where it failed. A part that is not asked for
/// is not looked at.
pub struct Answer {
    pub parsed: NumberView,
    pub returned: Option<ValueView>,
}

/// The answer where nothing is asked.
pub open spec fn no_answer() -> Answer {
    Answer { parsed: zero_view(), returned: None }
}

/// A call that is in order: the entry, the parameters in the order in which
/// they were pushed, and the stack below them.
pub struct Call {
    pub signature: SignatureView,
    pub params: Seq<ValueView>,
    pub below: Seq<ValueView>,
}

impl MachineView {
    /// The machine with its node, counter, options and stack cleared.
    pub open spec fn reset(self) -> MachineView {
        MachineView { node: Seq::empty(), pc: 0, options: Seq::empty(), stack: Seq::empty(), ..self }
    }

    /// The machine as it starts to run.
    pub open spec fn running(self) -> MachineView {
        MachineView { execution_state: ExecutionState::Running, ..self }
    }

    /// The machine with the counter on the next instruction.
    pub open spec fn advanced(self) -> MachineView {
        MachineView { pc: self.pc + 1, ..self }
    }

    /// The end of the current node: its visit count goes up by one, the
    /// machine is cleared and stops.
    pub open spec fn completed(self) -> Step {
        Step::Suspend(
            MachineView {
                execution_state: ExecutionState::Stopped,
                visits: bump(self.visits, self.node),
                ..self.reset()
            },
            SuspendView::DialogueComplete(self.node),
        )
    }

    /// A jump to `label` in the current node.
    pub open spec fn jump(self, program: ProgramView, label: Seq<char>) -> Step {
        if !program.nodes.contains_key(self.node) {
            Step::Fail(self, Fault::General)
        } else {
            let node = program.nodes[self.node];
            if !node.labels.contains_key(label) {
                Step::Fail(self, Fault::General)
            } else {
                Step::Continue(
                    MachineView { pc: landing(node.labels[label], node.instructions.len()), ..self },
                )
            }
        }
    }

    /// Entering the node `name`: the machine is cleared and suspended at the
    /// node's first instruction. Nothing where the program has no such node.
    pub open spec fn enter(self, program: ProgramView, name: Seq<char>) -> Option<MachineView> {
        if program.nodes.contains_key(name) {
            Some(
                MachineView {
                    node: name,
                    execution_state: ExecutionState::Suspended,
                    ..self.reset()
                },
            )
        } else {
            None
        }
    }

    /// The line `id` with the texts of the `count` values on top of the
    /// stack, and the machine without these values. Nothing where the stack
    /// holds fewer.
    pub open spec fn take_line(self, id: Seq<char>, count: nat) -> Option<(LineView, MachineView)> {
        if count > self.stack.len() {
            None
        } else {
            Some(
                (
                    LineView { id, substitutions: top_texts(self.stack, count) },
                    MachineView { stack: self.stack.take(self.stack.len() - count), ..self },
                ),
            )
        }
    }

    /// The options of the machine as they are shown: numbered from 0 in the
    /// order in which they were added.
    pub open spec fn shown_options(self) -> Seq<OptionView> {
        Seq::new(
            self.options.len(),
            |i: int|
                OptionView {
                    line: self.options[i].0,
                    id: i as u32,
                    destination_node: self.options[i].1,
                },
        )
    }

    /// What a call of `name` finds: the entry of the library, the number of
    /// parameters on top of the stack, and that many values below it.
    /// `parsed` is the number that the text on top stands for, where a text
    /// is on top.
    pub open spec fn call(
        self,
        library: Map<Seq<char>, SignatureView>,
        name: Seq<char>,
        parsed: NumberView,
    ) -> Result<Call, Fault> {
        if !library.contains_key(name) {
            Err(Fault::MissingLibraryFunction(name))
        } else if self.stack.len() == 0 {
            Err(Fault::General)
        } else {
            let actual = stated_arity(self.stack.last(), parsed);
            let rest = self.stack.drop_last();
            let signature = library[name];
            if !signature.param_count.admits(actual as int) || actual > rest.len() || (
            signature.kind matches FunctionKind::Builtin(builtin) && builtin.arity() != actual) {
                Err(Fault::General)
            } else {
                Ok(
                    Call {
                        signature,
                        params: rest.subrange(rest.len() - actual, rest.len() as int),
                        below: rest.take(rest.len() - actual),
                    },
                )
            }
        }
    }

    /// Whether a call of `name` asks the host for the number that the text
    /// on top of the stack stands for.
    pub open spec fn reads_number(
        self,
        library: Map<Seq<char>, SignatureView>,
        name: Seq<char>,
    ) -> bool {
        library.contains_key(name) && self.stack.len() > 0 && self.stack.last() is Str
    }

    /// A call of `name` with the host's answer: the number of parameters and
    /// the parameters leave the stack, and the result, if there is one, is
    /// pushed. A call that is not in order leaves the machine as it was; a
    /// host function that fails leaves it without the number of parameters
    /// and the parameters.
    pub open spec fn called(
        self,
        library: Map<Seq<char>, SignatureView>,
        name: Seq<char>,
        answer: Answer,
    ) -> Step {
        match self.call(library, name, answer.parsed) {
            Err(fault) => Step::Fail(self, fault),
            Ok(call) => match call.signature.kind {
                FunctionKind::Void => Step::Continue(
                    MachineView { stack: call.below, ..self.advanced() },
                ),
                FunctionKind::Returning => match answer.returned {
                    Some(value) => Step::Continue(
                        MachineView { stack: call.below.push(value), ..self.advanced() },
                    ),
                    None => Step::Fail(MachineView { stack: call.below, ..self }, Fault::General),
                },
                FunctionKind::Builtin(builtin) => Step::Continue(
                    MachineView {
                        stack: call.below.push(builtin.result(call.params, self.visits)),
                        ..self.advanced()
                    },
                ),
            },
        }
    }

    /// Whether a call of `name` asks the host: for the number that a text
    /// on top of the stack stands for, or for the value of a function.
    pub open spec fn asks(self, library: Map<Seq<char>, SignatureView>, name: Seq<char>) -> bool {
        self.reads_number(library, name) || (self.call(library, name, zero_view()) matches Ok(
            call,
        ) && call.signature.kind is Returning)
    }

    /// Whether the instruction asks the host.
    pub open spec fn asks_host(
        self,
        library: Map<Seq<char>, SignatureView>,
        instruction: InstructionView,
    ) -> bool {
        &&& OpCode::of_code(instruction.opcode) == Some(OpCode::CallFunc)
        &&& instruction.operand(0) matches OperandView::Text(name)
        &&& self.asks(library, name)
    }

    /// One instruction. `answer` is what the host answered where the
    /// instruction asks it.
    pub open spec fn step(
        self,
        program: ProgramView,
        library: Map<Seq<char>, SignatureView>,
        instruction: InstructionView,
        answer: Answer,
    ) -> Step {
        match OpCode::of_code(instruction.opcode) {
            None => Step::Fail(self, Fault::General),
            Some(OpCode::JumpTo) => match instruction.operand(0) {
                OperandView::Text(label) => self.jump(program, label),
                _ => Step::Fail(self, Fault::General),
            },
            Some(OpCode::Jump) => if self.stack.len() == 0 {
                Step::Fail(self, Fault::General)
            } else {
                self.jump(program, self.stack.last().as_string())
            },
            Some(OpCode::RunLine) => match instruction.operand(0) {
                OperandView::Text(id) => match self.take_line(
                    id,
                    expression_count(instruction.operand(1)),
                ) {
                    Some((line, machine)) => Step::Suspend(
                        MachineView {
                            execution_state: ExecutionState::Suspended,
                            ..machine.advanced()
                        },
                        SuspendView::Line(line),
                    ),
                    None => Step::Fail(self, Fault::General),
                },
                _ => Step::Fail(self, Fault::General),
            },
            Some(OpCode::RunCommand) => match instruction.operand(0) {
                OperandView::Text(text) => match self.take_line(
                    text,
                    expression_count(instruction.operand(1)),
                ) {
                    Some((line, machine)) => Step::Suspend(
                        MachineView {
                            execution_state: ExecutionState::Suspended,
                            ..machine.advanced()
                        },
                        SuspendView::Command(
                            fill_descending(text, line.substitutions, line.substitutions.len()),
                        ),
                    ),
                    None => Step::Fail(self, Fault::General),
                },
                _ => Step::Fail(self, Fault::General),
            },
            Some(OpCode::AddOption) => match (instruction.operand(0), instruction.operand(1)) {
                (OperandView::Text(id), OperandView::Text(destination)) => match self.take_line(
                    id,
                    expression_count(instruction.operand(2)),
                ) {
                    Some((line, machine)) => if self.options.len() >= u32::MAX {
                        Step::Fail(self, Fault::General)
                    } else {
                        Step::Continue(
                            MachineView {
                                options: self.options.push((line, destination)),
                                ..machine.advanced()
                            },
                        )
                    },
                    None => Step::Fail(self, Fault::General),
                },
                _ => Step::Fail(self, Fault::General),
            },
            Some(OpCode::ShowOptions) => if self.options.len() == 0 {
                self.completed()
            } else if self.options.len() > u32::MAX {
                Step::Fail(self, Fault::General)
            } else {
                Step::Suspend(
                    MachineView {
                        execution_state: ExecutionState::WaitingOnOptionSelection,
                        ..self.advanced()
                    },
                    SuspendView::Options(self.shown_options()),
                )
            },
            Some(OpCode::PushString) => match instruction.operand(0) {
                OperandView::Text(text) => Step::Continue(
                    MachineView { stack: self.stack.push(ValueView::Str(text)), ..self.advanced() },
                ),
                _ => Step::Fail(self, Fault::General),
            },
            Some(OpCode::PushFloat) => match instruction.operand(0) {
                OperandView::Float(number) => Step::Continue(
                    MachineView {
                        stack: self.stack.push(ValueView::Number(number)),
                        ..self.advanced()
                    },
                ),
                _ => Step::Fail(self, Fault::General),
            },
            Some(OpCode::PushBool) => match instruction.operand(0) {
                OperandView::Flag(flag) => Step::Continue(
                    MachineView { stack: self.stack.push(ValueView::Bool(flag)), ..self.advanced() },
                ),
                _ => Step::Fail(self, Fault::General),
            },
            Some(OpCode::PushNull) => Step::Continue(
                MachineView { stack: self.stack.push(ValueView::Null), ..self.advanced() },
            ),
            Some(OpCode::JumpIfFalse) => if self.stack.len() == 0 {
                Step::Fail(self, Fault::General)
            } else if self.stack.last().as_bool() {
                Step::Continue(self.advanced())
            } else {
                match instruction.operand(0) {
                    OperandView::Text(label) => self.jump(program, label),
                    _ => Step::Fail(self, Fault::General),
                }
            },
            Some(OpCode::Pop) => Step::Continue(
                MachineView {
                    stack: if self.stack.len() == 0 {
                        self.stack
                    } else {
                        self.stack.drop_last()
                    },
                    ..self.advanced()
                },
            ),
            Some(OpCode::CallFunc) => match instruction.operand(0) {
                OperandView::Text(name) => self.called(library, name, answer),
                _ => Step::Fail(self, Fault::General),
            },
            Some(OpCode::PushVariable) => match instruction.operand(0) {
                OperandView::Text(name) => Step::Continue(
                    MachineView {
                        stack: self.stack.push(
                            if self.variables.contains_key(name) {
                                self.variables[name]
                            } else {
                                ValueView::Null
                            },
                        ),
                        ..self.advanced()
                    },
                ),
                _ => Step::Fail(self, Fault::General),
            },
            Some(OpCode::StoreVariable) => match instruction.operand(0) {
                OperandView::Text(name) => if self.stack.len() == 0 {
                    Step::Fail(self, Fault::General)
                } else {
                    Step::Continue(
                        MachineView {
                            variables: self.variables.insert(name, self.stack.last()),
                            ..self.advanced()
                        },
                    )
                },
                _ => Step::Fail(self, Fault::General),
            },
            Some(OpCode::Stop) => self.completed(),
            Some(OpCode::RunNode) => if self.stack.len() == 0 {
                Step::Fail(self, Fault::General)
            } else {
                let target = self.stack.last().as_string();
                let left = MachineView {
                    stack: self.stack.drop_last(),
                    visits: bump(self.visits, self.node),
                    ..self
                };
                match left.enter(program, target) {
                    Some(machine) => Step::Suspend(
                        machine,
                        SuspendView::NodeChange { start: target, end: self.node },
                    ),
                    None => Step::Fail(
                        MachineView { execution_state: ExecutionState::Stopped, ..left },
                        Fault::General,
                    ),
                }
            },
        }
    }

    /// The instructions from the current one to the next suspension or
    /// failure, at most `fuel` of them. `answers` holds what the host
    /// functions return, in the order in which they are asked.
    pub open spec fn run(
        self,
        program: ProgramView,
        library: Map<Seq<char>, SignatureView>,
        answers: Seq<Answer>,
        fuel: nat,
    ) -> Step
        decreases fuel,
    {
        if !program.nodes.contains_key(self.node) {
            Step::Fail(self, Fault::General)
        } else if self.pc >= program.nodes[self.node].instructions.len() {
            self.completed()
        } else if fuel == 0 {
            Step::Fail(self, Fault::General)
        } else {
            let instruction = program.nodes[self.node].instructions[self.pc as int];
            if self.asks_host(library, instruction) {
                if answers.len() == 0 {
                    Step::Fail(self, Fault::General)
                } else {
                    match self.step(program, library, instruction, answers[0]) {
                        Step::Continue(next) => next.run(
                            program,
                            library,
                            answers.drop_first(),
                            (fuel - 1) as nat,
                        ),
                        other => other,
                    }
                }
            } else {
                match self.step(program, library, instruction, no_answer()) {
                    Step::Continue(next) => next.run(program, library, answers, (fuel - 1) as nat),
                    other => other,
                }
            }
        }
    }
}

/// An instruction after which the machine goes on leaves the node, the
/// visit counts and the execution state as they were.
pub proof fn lemma_going_on_keeps_node(
    machine: MachineView,
    program: ProgramView,
    library: Map<Seq<char>, SignatureView>,
    instruction: InstructionView,
    answer: Answer,
)
    ensures
        machine.step(program, library, instruction, answer) matches Step::Continue(next) ==> {
            &&& next.node == machine.node
            &&& next.visits == machine.visits
            &&& next.execution_state == machine.execution_state
        },
{
}

/// A run never ends by going on. Where it ends with the dialogue complete,
/// the node named is the one in which the run began, the machine is stopped,
/// its options and its stack are empty, and the node's visit count is one
/// more than before the run (unless it had reached `u64::MAX`); no other
/// count has changed.
pub proof fn lemma_run_completes(
    machine: MachineView,
    program: ProgramView,
    library: Map<Seq<char>, SignatureView>,
    answers: Seq<Answer>,
    fuel: nat,
)
    ensures
        !(machine.run(program, library, answers, fuel) is Continue),
        machine.run(program, library, answers, fuel) matches Step::Suspend(
            next,
            SuspendView::DialogueComplete(node),
        ) ==> {
            &&& node == machine.node
            &&& next.execution_state == ExecutionState::Stopped
            &&& next.options.len() == 0
            &&& next.stack.len() == 0
            &&& next.node.len() == 0
            &&& next.visits == bump(machine.visits, machine.node)
        },
    decreases fuel,
{
    if program.nodes.contains_key(machine.node) && machine.pc
        < program.nodes[machine.node].instructions.len() && fuel > 0 {
        let instruction = program.nodes[machine.node].instructions[machine.pc as int];
        if machine.asks_host(library, instruction) {
            if answers.len() > 0 {
                lemma_going_on_keeps_node(machine, program, library, instruction, answers[0]);
                match machine.step(program, library, instruction, answers[0]) {
                    Step::Continue(next) => {
                        lemma_run_completes(
                            next,
                            program,
                            library,
                            answers.drop_first(),
                            (fuel - 1) as nat,
                        );
                    },
                    _ => {},
                }
            }
        } else {
            lemma_going_on_keeps_node(machine, program, library, instruction, no_answer());
            match machine.step(program, library, instruction, no_answer()) {
                Step::Continue(next) => {
                    lemma_run_completes(next, program, library, answers, (fuel - 1) as nat);
                },
                _ => {},
            }
        }
    }
}

/// Entering a node of the program and then another gives the machine that
/// entering the second alone gives.
pub proof fn lemma_enter_twice(
    machine: MachineView,
    program: ProgramView,
    first: Seq<char>,
    second: Seq<char>,
)
    requires
        program.nodes.contains_key(first),
        program.nodes.contains_key(second),
    ensures
        machine.enter(program, first) matches Some(entered) && entered.enter(program, second)
            == machine.enter(program, second),
{
}

/// `AddOption` puts its line and the destination that its second operand
/// names behind the options collected so far, and `ShowOptions` shows the
/// options collected in that order, numbered from 0, each with its
/// destination.
pub proof fn lemma_options_in_order(
    machine: MachineView,
    program: ProgramView,
    library: Map<Seq<char>, SignatureView>,
    instruction: InstructionView,
    answer: Answer,
)
    ensures
        OpCode::of_code(instruction.opcode) == Some(OpCode::AddOption) ==> (machine.step(
            program,
            library,
            instruction,
            answer,
        ) matches Step::Continue(next) ==> {
            &&& next.options.len() == machine.options.len() + 1
            &&& next.options.drop_last() == machine.options
            &&& instruction.operand(1) == OperandView::Text(next.options.last().1)
        }),
        OpCode::of_code(instruction.opcode) == Some(OpCode::ShowOptions) ==> (machine.step(
            program,
            library,
            instruction,
            answer,
        ) matches Step::Suspend(next, SuspendView::Options(shown)) ==> {
            &&& shown.len() == machine.options.len()
            &&& next.options == machine.options
            &&& forall|i: int|
                0 <= i < shown.len() ==> {
                    &&& (#[trigger] shown[i]).destination_node == machine.options[i].1
                    &&& shown[i].line == machine.options[i].0
                    &&& shown[i].id == i
                }
        }),
{
    if OpCode::of_code(instruction.opcode) == Some(OpCode::AddOption) {
        match machine.step(program, library, instruction, answer) {
            Step::Continue(next) => {
                assert(next.options.drop_last() =~= machine.options);
            },
            _ => {},
        }
    }
}

/// `JumpIfFalse`, `StoreVariable` and `Jump` leave the stack as it was.
pub proof fn lemma_stack_untouched(
    machine: MachineView,
    program: ProgramView,
    library: Map<Seq<char>, SignatureView>,
    instruction: InstructionView,
    answer: Answer,
)
    requires
        OpCode::of_code(instruction.opcode) == Some(OpCode::JumpIfFalse) || OpCode::of_code(
            instruction.opcode,
        ) == Some(OpCode::StoreVariable) || OpCode::of_code(instruction.opcode) == Some(
            OpCode::Jump,
        ),
    ensures
        !(machine.step(program, library, instruction, answer) is Suspend),
        machine.step(program, library, instruction, answer) matches Step::Continue(next)
            ==> next.stack == machine.stack,
{
}

/// A call takes the number of parameters and the parameters from the stack
/// and puts back at most one value.
pub proof fn lemma_call_balance(
    machine: MachineView,
    library: Map<Seq<char>, SignatureView>,
    name: Seq<char>,
    answer: Answer,
)
    ensures
        machine.call(library, name, answer.parsed) matches Ok(call) ==> {
            &&& call.below.len() + call.params.len() + 1 == machine.stack.len()
            &&& machine.called(library, name, answer) matches Step::Continue(next) ==> {
                &&& call.below.len() <= next.stack.len() <= call.below.len() + 1
                &&& next.stack.take(call.below.len() as int) == call.below
            }
        },
{
    match machine.call(library, name, answer.parsed) {
        Ok(call) => {
            match machine.called(library, name, answer) {
                Step::Continue(next) => {
                    assert(next.stack.take(call.below.len() as int) =~= call.below);
                },
                _ => {},
            }
        },
        _ => {},
    }
}

/// After two completions of a node that had none, `visited` says true of it
/// and its count is 2.
pub proof fn lemma_visited_twice(visits: Map<Seq<char>, u64>, node: Seq<char>)
    requires
        visits_of(visits, node) == 0,
    ensures
        visits_of(bump(bump(visits, node), node), node) == 2,
        Builtin::Visited.result(
            seq![ValueView::Str(node)],
            bump(bump(visits, node), node),
        ) == ValueView::Bool(true),
{
}

/// By how much an instruction that does not fail changes the height of the
/// stack: a push adds one value; `Pop` takes one, if there is one; `RunLine`,
/// `RunCommand` and `AddOption` take the values of their expressions; a
/// call takes the number of parameters and the parameters and adds the
/// result, if there is one; the others leave the height as it is.
pub open spec fn stack_change(
    machine: MachineView,
    library: Map<Seq<char>, SignatureView>,
    instruction: InstructionView,
    parsed: NumberView,
) -> int {
    match OpCode::of_code(instruction.opcode) {
        Some(OpCode::PushString) | Some(OpCode::PushFloat) | Some(OpCode::PushBool) | Some(
            OpCode::PushNull,
        ) | Some(OpCode::PushVariable) => 1,
        Some(OpCode::Pop) => if machine.stack.len() == 0 {
            0
        } else {
            -1
        },
        Some(OpCode::RunLine) | Some(OpCode::RunCommand) => -expression_count(
            instruction.operand(1),
        ),
        Some(OpCode::AddOption) => -expression_count(instruction.operand(2)),
        Some(OpCode::CallFunc) => match instruction.operand(0) {
            OperandView::Text(name) => match machine.call(library, name, parsed) {
                Ok(call) => if call.signature.kind is Void {
                    -(call.params.len() + 1)
                } else {
                    -(call.params.len() as int)
                },
                _ => 0,
            },
            _ => 0,
        },
        _ => 0,
    }
}

/// An instruction after which the node goes on, or which hands a line, a
/// command or options to the host, changes the height of the stack by its
/// [`stack_change`]. So instructions whose changes add up to zero leave
/// the stack as high as they found it: empty, where they found it empty.
pub proof fn lemma_stack_height(
    machine: MachineView,
    program: ProgramView,
    library: Map<Seq<char>, SignatureView>,
    instruction: InstructionView,
    answer: Answer,
)
    ensures
        machine.step(program, library, instruction, answer) matches Step::Continue(next)
            ==> next.stack.len() == machine.stack.len() + stack_change(
            machine,
            library,
            instruction,
            answer.parsed,
        ),
        machine.step(program, library, instruction, answer) matches Step::Suspend(next, reason)
            ==> (reason is Line || reason is Command || reason is Options) ==> next.stack.len()
            == machine.stack.len() + stack_change(machine, library, instruction, answer.parsed),
{
}

/// An instruction of the current node after which the node goes on leaves
/// the counter on an instruction of the node or at its end.
pub proof fn lemma_counter_in_node(
    machine: MachineView,
    program: ProgramView,
    library: Map<Seq<char>, SignatureView>,
    answer: Answer,
)
    requires
        program.nodes.contains_key(machine.node),
        machine.pc < program.nodes[machine.node].instructions.len(),
    ensures
        machine.step(
            program,
            library,
            program.nodes[machine.node].instructions[machine.pc as int],
            answer,
        ) matches Step::Continue(next) ==> next.node == machine.node && next.pc
            <= program.nodes[machine.node].instructions.len(),
{
}

impl MachineView {
    /// The sum of the [`stack_change`]s of the instructions of a run: of
    /// those after which the node goes on and of the one that hands a line,
    /// a command or options to the host.
    pub open spec fn run_change(
        self,
        program: ProgramView,
        library: Map<Seq<char>, SignatureView>,
        answers: Seq<Answer>,
        fuel: nat,
    ) -> int
        decreases fuel,
    {
        if !program.nodes.contains_key(self.node) || self.pc
            >= program.nodes[self.node].instructions.len() || fuel == 0 {
            0
        } else {
            let instruction = program.nodes[self.node].instructions[self.pc as int];
            let asks = self.asks_host(library, instruction);
            if asks && answers.len() == 0 {
                0
            } else {
                let answer = if asks {
                    answers[0]
                } else {
                    no_answer()
                };
                match self.step(program, library, instruction, answer) {
                    Step::Continue(next) => stack_change(self, library, instruction, answer.parsed)
                        + next.run_change(
                        program,
                        library,
                        if asks {
                            answers.drop_first()
                        } else {
                            answers
                        },
                        (fuel - 1) as nat,
                    ),
                    Step::Suspend(_, reason) => if reason is Line || reason is Command
                        || reason is Options {
                        stack_change(self, library, instruction, answer.parsed)
                    } else {
                        0
                    },
                    Step::Fail(_, _) => 0,
                }
            }
        }
    }
}

/// Where a run hands a line, a command or options to the host, the stack is
/// as high as it was before the run plus the sum of the changes of the
/// instructions that ran. So where pushes and pops balance, a stack that was
/// empty before the run is empty when the options are shown.
pub proof fn lemma_run_height(
    machine: MachineView,
    program: ProgramView,
    library: Map<Seq<char>, SignatureView>,
    answers: Seq<Answer>,
    fuel: nat,
)
    ensures
        machine.run(program, library, answers, fuel) matches Step::Suspend(next, reason) ==> (
        reason is Line || reason is Command || reason is Options) ==> {
            &&& next.stack.len() == machine.stack.len() + machine.run_change(
                program,
                library,
                answers,
                fuel,
            )
            &&& machine.stack.len() == 0 && machine.run_change(program, library, answers, fuel)
                == 0 ==> next.stack.len() == 0
        },
    decreases fuel,
{
    if program.nodes.contains_key(machine.node) && machine.pc
        < program.nodes[machine.node].instructions.len() && fuel > 0 {
        let instruction = program.nodes[machine.node].instructions[machine.pc as int];
        let asks = machine.asks_host(library, instruction);
        if !(asks && answers.len() == 0) {
            let answer = if asks {
                answers[0]
            } else {
                no_answer()
            };
            lemma_stack_height(machine, program, library, instruction, answer);
            match machine.step(program, library, instruction, answer) {
                Step::Continue(next) => {
                    lemma_run_height(
                        next,
                        program,
                        library,
                        if asks {
                            answers.drop_first()
                        } else {
                            answers
                        },
                        (fuel - 1) as nat,
                    );
                },
                _ => {},
            }
        }
    }
}

} // verus!
