//! The dialogue machine: its state and the operations that a host drives it
//! with.

use vstd::prelude::*;
use vstd::hash_map::StringHashMap;
use crate::errors::{ErrorView, VmError};
use crate::functions::{
    add_logic_functions, add_mathematical_functions, add_number_utility_functions,
    add_visited_functions, builtin_library, holds_arithmetic, holds_utilities, is_logic_name,
    is_utility_name, is_visit_name, kept, lemma_names, library_view, stands, Arithmetic, FunctionInfo,
    NumberParser, NumberUtilities, SignatureView, VisitFunctions, YarnFunction,
};
use crate::program::Program;
use crate::semantics::{
    ExecutionState, Fault, LineView, MachineView, OptionView, Step, SuspendView,
};
use crate::text::{chars_of, fill_ascending, placeholder_of, replace_first_in, string_of};
use crate::value::{views_of, ValueView, YarnValue};

verus! {

/// The views of a sequence of strings, one for one.
pub open spec fn texts_of(strings: Seq<String>) -> Seq<Seq<char>> {
    Seq::new(strings.len(), |i: int| strings[i]@)
}

/// A row of the line table: the text of a line and where it comes from.
#[derive(Debug)]
pub struct LineInfo {
    pub id: String,
    pub text: String,
    pub file: String,
    pub node: String,
    pub line_number: u32,
}

/// A line of dialogue, sent from the machine to the game: the identifier
/// under which the game finds the text, and what to put in the text's
/// placeholders.
#[derive(Debug)]
pub struct Line {
    pub id: String,
    pub substitutions: Vec<String>,
}

impl View for Line {
    type V = LineView;

    open spec fn view(&self) -> LineView {
        LineView { id: self.id@, substitutions: texts_of(self.substitutions@) }
    }
}

impl Line {
    pub fn new(id: String, substitutions: Vec<String>) -> (line: Line)
        ensures
            line.id == id,
            line.substitutions == substitutions,
    {
        Line { id, substitutions }
    }
}

impl Line {
    /// The text of the line with its substitutions put in: for each
    /// substitution in turn, the first `{i}` of the text, where `i` is the
    /// index of the substitution, is replaced by it.
    pub fn fill(&self, text: &str) -> (filled: String)
        ensures
            filled@ == fill_ascending(text@, self@.substitutions, 0),
    {
        let mut filled = chars_of(text);
        let mut i: usize = 0;
        while i < self.substitutions.len()
            invariant
                i <= self.substitutions.len(),
                fill_ascending(text@, self@.substitutions, 0) == fill_ascending(
                    filled@,
                    self@.substitutions,
                    i as nat,
                ),
            decreases self.substitutions.len() - i,
        {
            let pattern = placeholder_of(i);
            let substitution = chars_of(self.substitutions[i].as_str());
            filled = replace_first_in(&filled, &pattern, &substitution);
            i += 1;
        }
        string_of(&filled)
    }
}

impl Clone for Line {
    fn clone(&self) -> (line: Line)
        ensures
            line@ == self@,
    {
        let mut substitutions: Vec<String> = Vec::new();
        let mut i: usize = 0;
        while i < self.substitutions.len()
            invariant
                i <= self.substitutions.len(),
                substitutions@ == self.substitutions@.take(i as int),
            decreases self.substitutions.len() - i,
        {
            substitutions.push(self.substitutions[i].clone());
            assert(substitutions@ =~= self.substitutions@.take(i + 1));
            i += 1;
        }
        assert(substitutions@ =~= self.substitutions@);
        Line { id: self.id.clone(), substitutions }
    }
}

/// An option offered to the player: its line, its number among the options
/// shown with it, and the node that it leads to.
#[derive(Debug)]
pub struct YarnOption {
    pub line: Line,
    pub id: u32,
    pub destination_node: String,
}

impl View for YarnOption {
    type V = OptionView;

    open spec fn view(&self) -> OptionView {
        OptionView { line: self.line@, id: self.id, destination_node: self.destination_node@ }
    }
}

impl YarnOption {
    pub fn new(line: Line, id: u32, destination_node: String) -> (option: YarnOption)
        ensures
            option.line == line,
            option.id == id,
            option.destination_node == destination_node,
    {
        YarnOption { line, id, destination_node }
    }
}

/// Why the machine handed control back.
#[derive(Debug)]
pub enum SuspendReason {
    Line(Line),
    Options(Vec<YarnOption>),
    Command(String),
    NodeChange { start: String, end: String },
    DialogueComplete(String),
    InvalidOption(String),
}

impl View for SuspendReason {
    type V = SuspendView;

    open spec fn view(&self) -> SuspendView {
        match self {
            SuspendReason::Line(line) => SuspendView::Line(line@),
            SuspendReason::Options(options) => SuspendView::Options(
                Seq::new(options@.len(), |i: int| options@[i]@),
            ),
            SuspendReason::Command(text) => SuspendView::Command(text@),
            SuspendReason::NodeChange { start, end } => SuspendView::NodeChange {
                start: start@,
                end: end@,
            },
            SuspendReason::DialogueComplete(node) => SuspendView::DialogueComplete(node@),
            SuspendReason::InvalidOption(name) => SuspendView::InvalidOption(name@),
        }
    }
}

/// What an operation of the machine returned, in contracts.
pub open spec fn outcome_view(result: Result<SuspendReason, VmError>) -> Result<
    SuspendView,
    ErrorView,
> {
    match result {
        Ok(reason) => Ok(reason@),
        Err(error) => Err(error@),
    }
}

/// Whether the machine and the result are what the step says. A step that
/// goes on is reported as `NoOperation`.
pub open spec fn agrees(step: Step, machine: MachineView, result: Result<SuspendView, ErrorView>) -> bool {
    match step {
        Step::Continue(next) => result == Err::<SuspendView, ErrorView>(ErrorView::NoOperation)
            && machine == next,
        Step::Suspend(next, reason) => result == Ok::<SuspendView, ErrorView>(reason) && machine
            == next,
        Step::Fail(next, Fault::General) => (result matches Err(ErrorView::General(_))) && machine
            == next,
        Step::Fail(next, Fault::MissingLibraryFunction(name)) => result == Err::<
            SuspendView,
            ErrorView,
        >(ErrorView::MissingLibraryFunction(name)) && machine == next,
    }
}

/// The node that runs, the place in it, and what the instructions work on.
pub struct VmState {
    pub current_node_name: String,
    pub program_counter: usize,
    pub current_options: Vec<(Line, String)>,
    pub stack: Vec<YarnValue>,
}

impl VmState {
    pub fn new() -> (state: VmState)
        ensures
            state.current_node_name@.len() == 0,
            state.program_counter == 0,
            state.current_options@.len() == 0,
            state.stack@.len() == 0,
    {
        VmState {
            current_node_name: String::new(),
            program_counter: 0,
            current_options: Vec::new(),
            stack: Vec::new(),
        }
    }
}

/// The options that are being collected, in contracts.
pub open spec fn options_view(options: Seq<(Line, String)>) -> Seq<(LineView, Seq<char>)> {
    Seq::new(options.len(), |i: int| (options[i].0@, options[i].1@))
}

/// The variables by name, in contracts.
pub open spec fn variables_view(variables: Map<Seq<char>, YarnValue>) -> Map<Seq<char>, ValueView> {
    Map::new(|name: Seq<char>| variables.contains_key(name), |name: Seq<char>| variables[name]@)
}

/// The dialogue machine.
pub struct VirtualMachine {
    pub state: VmState,
    pub variable_storage: StringHashMap<YarnValue>,
    pub visit_counter: StringHashMap<u64>,
    pub library: StringHashMap<FunctionInfo>,
    /// How the host reads a number from a text.
    pub number_parser: Box<dyn NumberParser>,
    pub execution_state: ExecutionState,
    pub program: Program,
}

impl View for VirtualMachine {
    type V = MachineView;

    open spec fn view(&self) -> MachineView {
        MachineView {
            node: self.state.current_node_name@,
            pc: self.state.program_counter as nat,
            options: options_view(self.state.current_options@),
            stack: views_of(self.state.stack@),
            variables: variables_view(self.variable_storage@),
            visits: self.visit_counter@,
            execution_state: self.execution_state,
        }
    }
}

/// What stands under a name that is no logic function, visit function or
/// number utility is the same after these were added as before.
proof fn lemma_kept_through(
    first: Map<Seq<char>, FunctionInfo>,
    second: Map<Seq<char>, FunctionInfo>,
    third: Map<Seq<char>, FunctionInfo>,
    last: Map<Seq<char>, FunctionInfo>,
    name: Seq<char>,
)
    requires
        !is_logic_name(name) && !is_visit_name(name) && !is_utility_name(name),
        forall|other: Seq<char>| !is_logic_name(other) ==> #[trigger] kept(first, second, other),
        forall|other: Seq<char>| !is_visit_name(other) ==> #[trigger] kept(second, third, other),
        forall|other: Seq<char>| !is_utility_name(other) ==> #[trigger] kept(third, last, other),
    ensures
        kept(first, last, name),
{
    assert(kept(first, second, name));
    assert(kept(second, third, name));
    assert(kept(third, last, name));
}

impl VirtualMachine {
    /// The library of the machine, in contracts.
    pub open spec fn signatures(&self) -> Map<Seq<char>, SignatureView> {
        library_view(self.library@)
    }

    /// A machine for `program`: stopped, in no node, without variables or
    /// visits. Its library holds the mathematical, the logic and the visit
    /// functions and the number utilities, those of the host each under its
    /// name; numbers in texts are read by `number_parser`.
    pub fn new(
        program: Program,
        arithmetic: Arithmetic,
        visits: VisitFunctions,
        utilities: NumberUtilities,
        number_parser: Box<dyn NumberParser>,
    ) -> (machine: VirtualMachine)
        ensures
            machine.program == program,
            machine.signatures() == builtin_library(),
            holds_arithmetic(machine.library@, arithmetic),
            stands(
                machine.library@,
                "visited_count"@,
                YarnFunction::Returning(visits.visited_count),
            ),
            holds_utilities(machine.library@, utilities),
            machine@ == (MachineView {
                node: Seq::empty(),
                pc: 0,
                options: Seq::empty(),
                stack: Seq::empty(),
                variables: Map::empty(),
                visits: Map::empty(),
                execution_state: ExecutionState::Stopped,
            }),
    {
        let mut library: StringHashMap<FunctionInfo> = StringHashMap::new();
        assert(library_view(library@) =~= Map::empty());
        add_mathematical_functions(&mut library, arithmetic);
        let ghost mathematical = library@;
        add_logic_functions(&mut library);
        let ghost logic = library@;
        add_visited_functions(&mut library, visits);
        let ghost visit = library@;
        add_number_utility_functions(&mut library, utilities);
        proof {
            lemma_names();
            lemma_kept_through(mathematical, logic, visit, library@, "Add"@);
            lemma_kept_through(mathematical, logic, visit, library@, "Minus"@);
            lemma_kept_through(mathematical, logic, visit, library@, "UnaryMinus"@);
            lemma_kept_through(mathematical, logic, visit, library@, "Divide"@);
            lemma_kept_through(mathematical, logic, visit, library@, "Multiply"@);
            lemma_kept_through(mathematical, logic, visit, library@, "Modulo"@);
            assert(kept(visit, library@, "visited_count"@));
        }
        let machine = VirtualMachine {
            state: VmState::new(),
            variable_storage: StringHashMap::new(),
            visit_counter: StringHashMap::new(),
            library,
            number_parser,
            execution_state: ExecutionState::Stopped,
            program,
        };
        assert(machine@ =~~= (MachineView {
            node: Seq::empty(),
            pc: 0,
            options: Seq::empty(),
            stack: Seq::empty(),
            variables: Map::empty(),
            visits: Map::empty(),
            execution_state: ExecutionState::Stopped,
        }));
        machine
    }

    /// Enters the node `node_name`. Where the program has that node, the
    /// machine is cleared and suspended at its first instruction; variables
    /// and visits stay. Where it has not, the machine stops and is otherwise
    /// left as it was.
    pub fn set_node(&mut self, node_name: &str) -> (result: Result<(), VmError>)
        ensures
            final(self).program == old(self).program,
            final(self).library == old(self).library,
            match old(self)@.enter(old(self).program@, node_name@) {
                Some(machine) => result is Ok && final(self)@ == machine,
                None => result matches Err(VmError::General(_)) && final(self)@ == (MachineView {
                    execution_state: ExecutionState::Stopped,
                    ..old(self)@
                }),
            },
    {
        if self.program.nodes.is_empty() {
            self.execution_state = ExecutionState::Stopped;
            assert(self@ =~~= (MachineView {
                execution_state: ExecutionState::Stopped,
                ..old(self)@
            }));
            return Err(VmError::general("No nodes available in the program"));
        }
        if !self.program.nodes.contains_key(node_name) {
            self.execution_state = ExecutionState::Stopped;
            assert(self@ =~~= (MachineView {
                execution_state: ExecutionState::Stopped,
                ..old(self)@
            }));
            return Err(VmError::general("Program does not contain the node"));
        }
        self.state = VmState::new();
        self.state.current_node_name = node_name.to_owned();
        self.execution_state = ExecutionState::Suspended;
        assert(self@ =~~= old(self)@.enter(old(self).program@, node_name@).unwrap());
        Ok(())
    }

    /// Takes the player's choice among the options shown. Where the machine
    /// waits for one and `selected_option_id` is the number of an option, the
    /// node that the option leads to is pushed as a string, the options are
    /// cleared and the machine is suspended. Otherwise the machine stays as
    /// it was.
    pub fn set_selected_option(&mut self, selected_option_id: u32) -> (result: Result<(), VmError>)
        ensures
            final(self).program == old(self).program,
            final(self).library == old(self).library,
            if old(self)@.execution_state == ExecutionState::WaitingOnOptionSelection
                && selected_option_id < old(self)@.options.len() {
                result is Ok && final(self)@ == (MachineView {
                    stack: old(self)@.stack.push(
                        ValueView::Str(old(self)@.options[selected_option_id as int].1),
                    ),
                    options: Seq::empty(),
                    execution_state: ExecutionState::Suspended,
                    ..old(self)@
                })
            } else {
                result matches Err(VmError::General(_)) && final(self)@ == old(self)@
            },
    {
        let selected = selected_option_id as usize;
        if self.execution_state != ExecutionState::WaitingOnOptionSelection {
            return Err(
                VmError::general(
                    "set_selected_option was called, but the machine was not waiting for a selection",
                ),
            );
        }
        if selected >= self.state.current_options.len() {
            return Err(VmError::general("the selected option is not one of the options shown"));
        }
        let destination_node = self.state.current_options[selected].1.clone();
        self.state.stack.push(YarnValue::Str(destination_node));
        self.state.current_options.clear();
        self.execution_state = ExecutionState::Suspended;
        assert(self@ =~~= (MachineView {
            stack: old(self)@.stack.push(
                ValueView::Str(old(self)@.options[selected_option_id as int].1),
            ),
            options: Seq::empty(),
            execution_state: ExecutionState::Suspended,
            ..old(self)@
        }));
        Ok(())
    }
}

} // verus!
